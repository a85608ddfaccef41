use triplewrapper_core::compression::{
    compression_args, detect_format, estimate_ratio_permille, optimal_compression_level,
    recommended_checksum, resolve_format,
};
use triplewrapper_core::error::TripleWrapperError;
use triplewrapper_core::plugin::PluginInfo;
use triplewrapper_core::types::{ArchiveFormat, ChecksumAlgorithm};

fn with_padding(magic: &[u8]) -> Vec<u8> {
    let mut h = magic.to_vec();
    h.extend_from_slice(&[0u8; 100]);
    h
}

#[test]
fn test_rar_extension_and_tool() {
    assert_eq!(ArchiveFormat::from_extension("a.rar"), Some(ArchiveFormat::Rar));
    assert_eq!(resolve_format("/tmp/x.rar", None, &vec![]).unwrap(), ArchiveFormat::Rar);
    assert_eq!(ArchiveFormat::Rar.default_extension(), "rar");
    assert_eq!(ArchiveFormat::Rar.compression_tool(), "7z");
}

#[test]
fn test_estimate_ratios() {
    let ratio = |ext: &str| estimate_ratio_permille(ext) as f32 / 1000.0;
    assert_eq!(ratio("txt"), 0.15);
    assert_eq!(ratio("jpg"), 0.95);
    assert_eq!(ratio("pak"), 0.45);
    assert_eq!(ratio("unknown"), 0.50);
}

#[test]
fn magic_bytes_identify_formats() {
    assert_eq!(detect_format(&with_padding(&[0x37, 0x7A, 0xBC, 0xAF, 0x27, 0x1C]), "test.7z").unwrap(), ArchiveFormat::SevenZ);
    assert_eq!(detect_format(&with_padding(b"PK\x03\x04"), "test.zip").unwrap(), ArchiveFormat::Zip);
    assert_eq!(detect_format(&with_padding(&[0x1F, 0x8B]), "test.tar.gz").unwrap(), ArchiveFormat::TarGz);
    assert_eq!(detect_format(&with_padding(b"Rar!\x1a\x07\x00"), "test.rar").unwrap(), ArchiveFormat::Rar);
    assert_eq!(detect_format(&with_padding(b"Rar!\x1a\x07\x01\x00"), "test5.rar").unwrap(), ArchiveFormat::Rar);
    assert_eq!(detect_format(&with_padding(&[0xFD, 0x37, 0x7A, 0x58, 0x5A, 0x00]), "x").unwrap(), ArchiveFormat::TarXz);
    assert_eq!(detect_format(&with_padding(&[0x28, 0xB5, 0x2F, 0xFD]), "x").unwrap(), ArchiveFormat::TarZst);
    assert_eq!(detect_format(&with_padding(b"BZh"), "x").unwrap(), ArchiveFormat::TarBz2);
    let mut tar = vec![0u8; 512];
    tar[257..262].copy_from_slice(b"ustar");
    assert_eq!(detect_format(&tar, "noext").unwrap(), ArchiveFormat::Tar);
    // Too short for the ustar signature: falls back to the extension.
    assert_eq!(detect_format(&[0u8; 10], "a.tgz").unwrap(), ArchiveFormat::TarGz);
    match detect_format(&[0u8; 10], "noext") {
        Err(TripleWrapperError::InvalidFormat(m)) => assert_eq!(m, "Unknown archive format"),
        other => panic!("{other:?}"),
    }
}

#[test]
fn resolve_prefers_extension_then_magic_then_plugin() {
    // A positively wrong builtin suffix still wins.
    let gz = with_padding(&[0x1F, 0x8B]);
    assert_eq!(resolve_format("backup.zip", Some(&gz), &vec![]).unwrap(), ArchiveFormat::Zip);
    assert_eq!(resolve_format("backup.bin", Some(&gz), &vec![]).unwrap(), ArchiveFormat::TarGz);
    let plugins = vec![PluginInfo {
        id: "mock".into(),
        extensions: vec!["MOCK".into()],
        description: String::new(),
        path: "/p/triplewrapper-mock".into(),
    }];
    assert_eq!(resolve_format("a.Mock", None, &plugins).unwrap(), ArchiveFormat::External("mock".into()));
    match resolve_format("a.weird", None, &plugins) {
        Err(TripleWrapperError::InvalidFormat(m)) => assert_eq!(
            m,
            "Unknown archive format 'weird': no builtin handler and no triplewrapper-weird plugin installed"
        ),
        other => panic!("{other:?}"),
    }
    match resolve_format("noext", None, &plugins) {
        Err(TripleWrapperError::InvalidFormat(m)) => assert_eq!(
            m,
            "Unknown archive format '': no builtin handler and no triplewrapper- plugin installed"
        ),
        other => panic!("{other:?}"),
    }
}

#[test]
fn levels_args_and_checksums_per_format() {
    assert_eq!(optimal_compression_level(&ArchiveFormat::TarZst, 30), 22);
    assert_eq!(optimal_compression_level(&ArchiveFormat::SevenZ, 30), 9);
    assert_eq!(optimal_compression_level(&ArchiveFormat::Zip, 4), 4);
    assert_eq!(optimal_compression_level(&ArchiveFormat::Tar, 4), 0);
    assert_eq!(optimal_compression_level(&ArchiveFormat::Rar, 4), 0);
    assert_eq!(optimal_compression_level(&ArchiveFormat::External("x".into()), 99), 99);
    assert_eq!(compression_args(&ArchiveFormat::SevenZ, 5, 8), vec!["-mx", "5", "-mmt", "8"]);
    assert_eq!(compression_args(&ArchiveFormat::Zip, 3, 8), vec!["-tzip", "-mx", "3"]);
    assert_eq!(compression_args(&ArchiveFormat::TarZst, 3, 8), vec!["--zstd", "-f"]);
    assert_eq!(compression_args(&ArchiveFormat::Pixz, 3, 4), vec!["-p", "4"]);
    assert!(compression_args(&ArchiveFormat::Rar, 3, 4).is_empty());
    assert_eq!(recommended_checksum(&ArchiveFormat::Tar), ChecksumAlgorithm::Xxh3);
    assert_eq!(recommended_checksum(&ArchiveFormat::TarXz), ChecksumAlgorithm::Blake3);
    assert_eq!(estimate_ratio_permille("DOCX"), 600);
    assert_eq!(estimate_ratio_permille("Json"), 150);
}


#[test]
fn test_detect_7z() {
    let header = with_padding(&[0x37, 0x7A, 0xBC, 0xAF, 0x27, 0x1C]);
    assert_eq!(detect_format(&header, "/tmp/t/test.7z").unwrap(), ArchiveFormat::SevenZ);
}

#[test]
fn test_detect_zip() {
    let header = with_padding(b"PK\x03\x04");
    assert_eq!(detect_format(&header, "/tmp/t/test.zip").unwrap(), ArchiveFormat::Zip);
}

#[test]
fn test_detect_gzip() {
    let header = with_padding(&[0x1F, 0x8B]);
    assert_eq!(detect_format(&header, "/tmp/t/test.tar.gz").unwrap(), ArchiveFormat::TarGz);
}

#[test]
fn test_detect_rar4_rar5() {
    for (name, magic) in [("/tmp/t/test.rar", b"Rar!\x1a\x07\x00".as_slice()), ("/tmp/t/test5.rar", b"Rar!\x1a\x07\x01\x00".as_slice())] {
        assert_eq!(detect_format(&with_padding(magic), name).unwrap(), ArchiveFormat::Rar);
    }
}

#[test]
fn test_resolve_format_falls_back_to_magic() {
    // Real gzip content (an empty member) under a name with no known suffix.
    let header: Vec<u8> = vec![0x1F, 0x8B, 0x08, 0x00, 0, 0, 0, 0, 0x00, 0x03, 0x03, 0x00, 0, 0, 0, 0, 0, 0, 0, 0];
    assert_eq!(resolve_format("/tmp/t/backup.bin", Some(&header), &vec![]).unwrap(), ArchiveFormat::TarGz);
}
