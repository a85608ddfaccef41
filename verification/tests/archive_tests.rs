use triplewrapper_core::archive::{
    command_log_text, detect_encryption, parse_7z_listing, parse_7z_progress, parse_tar_listing,
    redact_args, resume_exclusions, uncompressed_total, ArchiveOperator, CommandPlan, ExtractMonitor,
    ExtractPlan, ListPlan,
};
use triplewrapper_core::types::{ArchiveEntry, ArchiveFormat};

fn lines(text: &str) -> Vec<String> {
    text.lines().map(|l| l.to_string()).collect()
}

fn operator() -> ArchiveOperator {
    ArchiveOperator::new(Ok("/usr/bin/7z".into()), Ok("/usr/bin/tar".into()), Err(triplewrapper_core::error::TripleWrapperError::ToolNotFound("pixz".into()))).unwrap()
}

#[test]
fn sevenz_technical_listing_is_read() {
    let text = "Path = docs/\nSize = 0\n----------\nPath = docs/a.txt\nSize = 4096\nPacked Size = 1200\nCRC = 0A1B2C3D\nEncrypted = +\nModified = 2024-01-02 03:04:05\n";
    let (entries, encrypted) = parse_7z_listing(&lines(text));
    assert!(encrypted);
    assert_eq!(entries.len(), 2);
    assert!(entries[0].is_directory);
    assert_eq!(entries[1].path, "docs/a.txt");
    assert_eq!(entries[1].size, 4096);
    assert_eq!(entries[1].compressed_size, 1200);
    assert_eq!(entries[1].crc32, Some(0x0A1B2C3D));
    // chrono needs an offset for this format: no timestamp.
    assert_eq!(entries[1].modified, None);
}

#[test]
fn test_list_tar_reports_real_sizes() {
    let text = "-rw-r--r-- user/user 4096 2024-01-01 10:00 sized.txt\ndrwxr-xr-x user/user 0 2024-01-01 10:00 dir/\nshort line\n-rw-r--r-- u/u 12 2024-01-01 10:00 name with spaces.txt\n";
    let entries = parse_tar_listing(&lines(text));
    assert_eq!(entries.len(), 3);
    assert_eq!(entries[0].path, "sized.txt");
    assert_eq!(entries[0].size, 4096);
    assert!(entries[1].is_directory);
    assert_eq!(entries[2].path, "name with spaces.txt");
}

#[test]
fn progress_and_encryption_signals() {
    assert_eq!(parse_7z_progress("Extracting  123456789 file.bin"), Some(123456789));
    assert_eq!(parse_7z_progress("Extracting 12 files"), None);
    assert_eq!(parse_7z_progress("Everything is Ok 123456"), None);
    assert!(detect_encryption("Path = x\n  Encrypted = +  \n", ""));
    assert!(detect_encryption("", "ERROR: Wrong password : x"));
    assert!(!detect_encryption("Encrypted = -\n", "Everything is Ok"));
}

#[test]
fn test_is_encrypted_negative_for_plain_tar() {
    assert!(!detect_encryption("Path = plain.txt\nSize = 5\n", ""));
}

#[test]
fn passwords_never_reach_the_log() {
    let args = vec!["x".to_string(), "-pS3cr3t".to_string(), "-p".to_string(), "a.7z".to_string()];
    assert_eq!(redact_args(&args), vec!["x", "-p***", "-p", "a.7z"]);
    let plan = CommandPlan { program: "7z".into(), args };
    let text = command_log_text(&plan);
    assert!(!text.contains("S3cr3t"));
    assert!(text.contains("-p***"));
}

#[test]
fn test_pixz_missing_gives_actionable_error() {
    let op = operator();
    match op.extract_plan(&ArchiveFormat::Pixz, "x.tar.pixz", "out", None, None, None, None, false) {
        Err(err) => {
            let msg = err.message();
            assert!(msg.contains("pixz"), "error should name the missing tool, got: {msg}");
        }
        Ok(_) => panic!("expected a refusal"),
    }
}

#[test]
fn plans_for_each_family() {
    let op = operator();
    match op.list_plan(&ArchiveFormat::Zip, "a.zip", Some("pw")) {
        ListPlan::SevenZ(p) => assert_eq!(p.args, vec!["l", "-slt", "-ba", "a.zip", "-ppw"]),
        _ => panic!(),
    }
    match op.list_plan(&ArchiveFormat::TarGz, "a.tgz", Some("pw")) {
        ListPlan::Tar(p) => assert_eq!(p.args, vec!["-tvf", "a.tgz"]),
        _ => panic!(),
    }
    match op.extract_plan(&ArchiveFormat::SevenZ, "a.7z", "out", None, Some("/w"), Some("pw"), None, false) {
        Ok(ExtractPlan::Run(p)) => assert_eq!(p.args, vec!["x", "-y", "-w/w", "-ppw", "a.7z", "-oout"]),
        _ => panic!(),
    }
    match op.extract_plan(&ArchiveFormat::External("mock".into()), "a.mock", "out", None, None, None, None, false) {
        Ok(ExtractPlan::Plugin(id)) => assert_eq!(id, "mock"),
        _ => panic!(),
    }
}

fn entry(path: &str, size: u64, dir: bool) -> ArchiveEntry {
    ArchiveEntry { path: path.into(), size, compressed_size: 0, modified: None, is_directory: dir, crc32: None, sha256: None }
}

#[test]
fn test_resume_skips_extracted() {
    let entries = vec![entry("f1.txt", 5, false), entry("f2.txt", 6, false), entry("d/", 0, true)];
    // f1 already on disk with its full size; f2 missing.
    let skips = resume_exclusions(&entries, &vec![Some(5), None, Some(0)]);
    assert_eq!(skips, vec!["f1.txt".to_string()]);
    assert_eq!(uncompressed_total(&entries), Some(11));
}

#[test]
fn monitor_keeps_last_five_lines() {
    let mut m = ExtractMonitor::new();
    for i in 0..7 {
        m.observe(format!("line {i}"));
    }
    assert_eq!(m.observe("Extracting 5000 x".to_string()), Some(5000));
    assert_eq!(m.failure_text(), "line 3\nline 4\nline 5\nline 6\nExtracting 5000 x");
    assert_eq!(m.bytes_written_or(1), 5000);
}
