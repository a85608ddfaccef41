//! Format detection and per-format compression settings.

use vstd::prelude::*;
use crate::error::{Result, TripleWrapperError};
use crate::paths::{extension, extension_exec};
use crate::plugin::{claims, find_for_extension, first_match, plugin_views, PluginInfo, PluginModel};
use crate::text::{chars_of, concat3, is_str, lowercase_of, owned, push_arg, string_views, to_lowercase, u64_to_string};
use crate::types::{builtin_format, format_of_path, ArchiveFormat, ChecksumAlgorithm};

verus! {

pub open spec fn has_prefix(h: Seq<u8>, p: Seq<u8>) -> bool {
    p.len() <= h.len() && h.subrange(0, p.len() as int) == p
}

/// The format announced by the leading bytes of a file, if any.
pub open spec fn magic_format(h: Seq<u8>) -> Option<ArchiveFormat> {
    if has_prefix(h, seq![0x37u8, 0x7A, 0xBC, 0xAF, 0x27, 0x1C]) {
        Some(ArchiveFormat::SevenZ)
    } else if has_prefix(h, seq![0x50u8, 0x4B, 0x03, 0x04]) || has_prefix(h, seq![0x50u8, 0x4B, 0x05, 0x06])
        || has_prefix(h, seq![0x50u8, 0x4B, 0x07, 0x08]) {
        Some(ArchiveFormat::Zip)
    } else if has_prefix(h, seq![0x52u8, 0x61, 0x72, 0x21, 0x1A, 0x07, 0x00]) || has_prefix(
        h,
        seq![0x52u8, 0x61, 0x72, 0x21, 0x1A, 0x07, 0x01, 0x00],
    ) {
        Some(ArchiveFormat::Rar)
    } else if has_prefix(h, seq![0x1Fu8, 0x8B]) {
        Some(ArchiveFormat::TarGz)
    } else if has_prefix(h, seq![0xFDu8, 0x37, 0x7A, 0x58, 0x5A, 0x00]) {
        Some(ArchiveFormat::TarXz)
    } else if has_prefix(h, seq![0x28u8, 0xB5, 0x2F, 0xFD]) {
        Some(ArchiveFormat::TarZst)
    } else if has_prefix(h, seq![0x42u8, 0x5A, 0x68]) {
        Some(ArchiveFormat::TarBz2)
    } else if h.len() >= 262 && h.subrange(257, 262) == seq![0x75u8, 0x73, 0x74, 0x61, 0x72] {
        Some(ArchiveFormat::Tar)
    } else {
        None
    }
}

fn has_prefix_exec(h: &[u8], p: &[u8]) -> (r: bool)
    ensures
        r == has_prefix(h@, p@),
{
    if p.len() > h.len() {
        return false;
    }
    let mut i: usize = 0;
    while i < p.len()
        invariant
            p@.len() <= h@.len(),
            i <= p@.len(),
            forall|k: int| 0 <= k < i ==> h@[k] == p@[k],
        decreases p.len() - i,
    {
        if h[i] != p[i] {
            assert(h@.subrange(0, p@.len() as int)[i as int] != p@[i as int]);
            return false;
        }
        i = i + 1;
    }
    assert(h@.subrange(0, p@.len() as int) =~= p@);
    true
}

/// The format announced by the magic bytes at the start of `header`.
pub fn magic_format_exec(header: &[u8]) -> (r: Option<ArchiveFormat>)
    ensures
        r == magic_format(header@),
{
    let seven: [u8; 6] = [0x37, 0x7A, 0xBC, 0xAF, 0x27, 0x1C];
    let zip1: [u8; 4] = [0x50, 0x4B, 0x03, 0x04];
    let zip2: [u8; 4] = [0x50, 0x4B, 0x05, 0x06];
    let zip3: [u8; 4] = [0x50, 0x4B, 0x07, 0x08];
    let rar4: [u8; 7] = [0x52, 0x61, 0x72, 0x21, 0x1A, 0x07, 0x00];
    let rar5: [u8; 8] = [0x52, 0x61, 0x72, 0x21, 0x1A, 0x07, 0x01, 0x00];
    let gz: [u8; 2] = [0x1F, 0x8B];
    let xz: [u8; 6] = [0xFD, 0x37, 0x7A, 0x58, 0x5A, 0x00];
    let zst: [u8; 4] = [0x28, 0xB5, 0x2F, 0xFD];
    let bz2: [u8; 3] = [0x42, 0x5A, 0x68];
    assert(seven@ =~= seq![0x37u8, 0x7A, 0xBC, 0xAF, 0x27, 0x1C]);
    assert(zip1@ =~= seq![0x50u8, 0x4B, 0x03, 0x04]);
    assert(zip2@ =~= seq![0x50u8, 0x4B, 0x05, 0x06]);
    assert(zip3@ =~= seq![0x50u8, 0x4B, 0x07, 0x08]);
    assert(rar4@ =~= seq![0x52u8, 0x61, 0x72, 0x21, 0x1A, 0x07, 0x00]);
    assert(rar5@ =~= seq![0x52u8, 0x61, 0x72, 0x21, 0x1A, 0x07, 0x01, 0x00]);
    assert(gz@ =~= seq![0x1Fu8, 0x8B]);
    assert(xz@ =~= seq![0xFDu8, 0x37, 0x7A, 0x58, 0x5A, 0x00]);
    assert(zst@ =~= seq![0x28u8, 0xB5, 0x2F, 0xFD]);
    assert(bz2@ =~= seq![0x42u8, 0x5A, 0x68]);
    if has_prefix_exec(header, &seven) {
        Some(ArchiveFormat::SevenZ)
    } else if has_prefix_exec(header, &zip1) || has_prefix_exec(header, &zip2) || has_prefix_exec(
        header,
        &zip3,
    ) {
        Some(ArchiveFormat::Zip)
    } else if has_prefix_exec(header, &rar4) || has_prefix_exec(header, &rar5) {
        Some(ArchiveFormat::Rar)
    } else if has_prefix_exec(header, &gz) {
        Some(ArchiveFormat::TarGz)
    } else if has_prefix_exec(header, &xz) {
        Some(ArchiveFormat::TarXz)
    } else if has_prefix_exec(header, &zst) {
        Some(ArchiveFormat::TarZst)
    } else if has_prefix_exec(header, &bz2) {
        Some(ArchiveFormat::TarBz2)
    } else if header.len() >= 262 && header[257] == 0x75 && header[258] == 0x73 && header[259]
        == 0x74 && header[260] == 0x61 && header[261] == 0x72 {
        assert(header@.subrange(257, 262) =~= seq![0x75u8, 0x73, 0x74, 0x61, 0x72]);
        Some(ArchiveFormat::Tar)
    } else {
        proof {
            if header@.len() >= 262 && header@.subrange(257, 262) == seq![0x75u8, 0x73, 0x74, 0x61, 0x72] {
                assert(header@[257] == header@.subrange(257, 262)[0]);
                assert(header@[258] == header@.subrange(257, 262)[1]);
                assert(header@[259] == header@.subrange(257, 262)[2]);
                assert(header@[260] == header@.subrange(257, 262)[3]);
                assert(header@[261] == header@.subrange(257, 262)[4]);
            }
        }
        None
    }
}

/// Detects the format of a file from its first bytes (up to 512 of them),
/// falling back to the extension of `path`.
pub fn detect_format(header: &[u8], path: &str) -> (r: Result<ArchiveFormat>)
    ensures
        match magic_format(header@) {
            Some(f) => r == Ok::<ArchiveFormat, TripleWrapperError>(f),
            None => match format_of_path(path@) {
                Some(f) => r == Ok::<ArchiveFormat, TripleWrapperError>(f),
                None => r is Err && r->Err_0 is InvalidFormat && r->Err_0->InvalidFormat_0@
                    == "Unknown archive format"@,
            },
        },
{
    match magic_format_exec(header) {
        Some(f) => Ok(f),
        None => match ArchiveFormat::from_extension(path) {
            Some(f) => Ok(f),
            None => Err(TripleWrapperError::InvalidFormat(owned("Unknown archive format"))),
        },
    }
}

/// Lower-cased extension of `path` (empty when it has none).
pub open spec fn lower_ext(path: Seq<char>) -> Seq<char> {
    match extension(path) {
        Some(e) => lowercase_of(e),
        None => Seq::empty(),
    }
}

pub open spec fn unknown_format_text(ext: Seq<char>) -> Seq<char> {
    "Unknown archive format '"@ + ext + "': no builtin handler and no triplewrapper-"@ + ext
        + " plugin installed"@
}

/// Resolves the format of `path`: builtin extension, then magic bytes, then
/// an installed `triplewrapper-<ext>` plugin (`External(id)`); otherwise
/// `InvalidFormat`.
pub fn resolve_format(path: &str, header: Option<&[u8]>, plugins: &Vec<PluginInfo>) -> (r: Result<ArchiveFormat>)
    ensures
        ({
            let h = match header {
                Some(h) => Some(h@),
                None => None,
            };
            let ext = lower_ext(path@);
            match format_of_path(path@) {
                Some(f) => r == Ok::<ArchiveFormat, TripleWrapperError>(f),
                None => match (match h {
                    Some(b) => magic_format(b),
                    None => None,
                }) {
                    Some(f) => r == Ok::<ArchiveFormat, TripleWrapperError>(f),
                    None => match first_match(
                        plugin_views(plugins@),
                        |p: PluginModel| claims(p, ext),
                    ) {
                        Some(k) if ext.len() > 0 => r is Ok && r->Ok_0 is External
                            && r->Ok_0->External_0@ == plugins@[k]@.id,
                        _ => r is Err && r->Err_0 is InvalidFormat && r->Err_0->InvalidFormat_0@
                            == unknown_format_text(ext),
                    },
                },
            }
        }),
{
    if let Some(f) = ArchiveFormat::from_extension(path) {
        return Ok(f);
    }
    let magic = match header {
        Some(h) => magic_format_exec(h),
        None => None,
    };
    if let Some(f) = magic {
        return Ok(f);
    }
    let ext = match extension_exec(path) {
        Some(e) => to_lowercase(e.as_str()),
        None => String::new(),
    };
    if chars_of(ext.as_str()).len() > 0 {
        match find_for_extension(plugins, ext.as_str()) {
            Some(plugin) => {
                return Ok(ArchiveFormat::External(plugin.id));
            },
            None => {},
        }
    }
    let mut v: Vec<char> = Vec::new();
    crate::text::push_str(&mut v, "Unknown archive format '");
    crate::text::push_str(&mut v, ext.as_str());
    crate::text::push_str(&mut v, "': no builtin handler and no triplewrapper-");
    crate::text::push_str(&mut v, ext.as_str());
    crate::text::push_str(&mut v, " plugin installed");
    Err(TripleWrapperError::InvalidFormat(crate::text::string_from(&v)))
}

// ---------------------------------------------------------------------------
// Settings per format
// ---------------------------------------------------------------------------

pub open spec fn min_nat(a: nat, b: nat) -> nat {
    if a < b {
        a
    } else {
        b
    }
}

/// The compression level a format accepts for a requested `level`.
pub open spec fn level_for(format: ArchiveFormat, level: u8) -> u8 {
    match format {
        ArchiveFormat::TarZst => min_nat(level as nat, 22) as u8,
        ArchiveFormat::Tar | ArchiveFormat::Rar => 0,
        ArchiveFormat::External(_) => level,
        _ => min_nat(level as nat, 9) as u8,
    }
}

/// Clamps `level` to what `format` supports (zstd goes to 22, plain tar and
/// read-only RAR have none, plugins get it unchanged).
pub fn optimal_compression_level(format: &ArchiveFormat, level: u8) -> (r: u8)
    ensures
        r == level_for(*format, level),
{
    match format {
        ArchiveFormat::TarZst => if level < 22 {
            level
        } else {
            22
        },
        ArchiveFormat::Tar | ArchiveFormat::Rar => 0,
        ArchiveFormat::External(_) => level,
        _ => if level < 9 {
            level
        } else {
            9
        },
    }
}

/// Tool arguments that select compression for `format`.
pub open spec fn compression_args_spec(format: ArchiveFormat, level: u8, threads: usize) -> Seq<Seq<char>> {
    match format {
        ArchiveFormat::SevenZ => seq![
            "-mx"@,
            crate::text::dec_chars(level as nat),
            "-mmt"@,
            crate::text::dec_chars(threads as nat),
        ],
        ArchiveFormat::Zip => seq!["-tzip"@, "-mx"@, crate::text::dec_chars(level as nat)],
        ArchiveFormat::TarGz => seq!["-czf"@],
        ArchiveFormat::TarXz => seq!["-cJf"@],
        ArchiveFormat::TarZst => seq!["--zstd"@, "-f"@],
        ArchiveFormat::TarBz2 => seq!["-cjf"@],
        ArchiveFormat::Tar => seq!["-cf"@],
        ArchiveFormat::Pixz => seq!["-p"@, crate::text::dec_chars(threads as nat)],
        ArchiveFormat::Rar | ArchiveFormat::External(_) => Seq::empty(),
    }
}

/// Compression arguments for the format's tool (none for read-only RAR and
/// for plugins, which own their command line).
pub fn compression_args(format: &ArchiveFormat, level: u8, threads: usize) -> (r: Vec<String>)
    ensures
        string_views(r@) == compression_args_spec(*format, level, threads),
{
    let mut r: Vec<String> = Vec::new();
    match format {
        ArchiveFormat::SevenZ => {
            push_arg(&mut r, "-mx");
            let l = u64_to_string(level as u64);
            push_arg(&mut r, l.as_str());
            push_arg(&mut r, "-mmt");
            let t = u64_to_string(threads as u64);
            push_arg(&mut r, t.as_str());
        },
        ArchiveFormat::Zip => {
            push_arg(&mut r, "-tzip");
            push_arg(&mut r, "-mx");
            let l = u64_to_string(level as u64);
            push_arg(&mut r, l.as_str());
        },
        ArchiveFormat::TarGz => push_arg(&mut r, "-czf"),
        ArchiveFormat::TarXz => push_arg(&mut r, "-cJf"),
        ArchiveFormat::TarZst => {
            push_arg(&mut r, "--zstd");
            push_arg(&mut r, "-f");
        },
        ArchiveFormat::TarBz2 => push_arg(&mut r, "-cjf"),
        ArchiveFormat::Tar => push_arg(&mut r, "-cf"),
        ArchiveFormat::Pixz => {
            push_arg(&mut r, "-p");
            let t = u64_to_string(threads as u64);
            push_arg(&mut r, t.as_str());
        },
        ArchiveFormat::Rar | ArchiveFormat::External(_) => {},
    }
    assert(string_views(r@) =~= compression_args_spec(*format, level, threads));
    r
}

/// Expected compressed-to-original size of a file type, in thousandths.
pub open spec fn ratio_permille(ext: Seq<char>) -> u32 {
    let e = lowercase_of(ext);
    if e == "zip"@ || e == "7z"@ || e == "gz"@ || e == "xz"@ || e == "zst"@ || e == "bz2"@ || e
        == "rar"@ || e == "iso"@ || e == "jpg"@ || e == "jpeg"@ || e == "png"@ || e == "gif"@ || e
        == "webp"@ || e == "mp3"@ || e == "mp4"@ || e == "mkv"@ || e == "avi"@ || e == "mov"@ || e
        == "flac"@ || e == "ogg"@ || e == "opus"@ || e == "pdf"@ || e == "woff"@ || e == "woff2"@
        || e == "ttf"@ || e == "otf"@ {
        950
    } else if e == "txt"@ || e == "log"@ || e == "csv"@ || e == "json"@ || e == "xml"@ || e
        == "sql"@ || e == "ini"@ || e == "cfg"@ || e == "conf"@ || e == "py"@ || e == "rs"@ || e
        == "js"@ || e == "ts"@ || e == "html"@ || e == "css"@ || e == "md"@ || e == "rst"@ {
        150
    } else if e == "exe"@ || e == "dll"@ || e == "so"@ || e == "dylib"@ || e == "bin"@ || e
        == "dat"@ || e == "pak"@ || e == "chunk"@ {
        450
    } else if e == "doc"@ || e == "docx"@ || e == "odt"@ || e == "xls"@ || e == "xlsx"@ || e
        == "ods"@ || e == "ppt"@ || e == "pptx"@ {
        600
    } else {
        500
    }
}

/// Expected compression ratio of a file type in thousandths: already
/// compressed media 950, text 150, binaries 450, office documents 600,
/// anything else 500.
pub fn estimate_ratio_permille(ext: &str) -> (r: u32)
    ensures
        r == ratio_permille(ext@),
{
    let lower = to_lowercase(ext);
    let e = chars_of(lower.as_str());
    if is_str(&e, "zip") || is_str(&e, "7z") || is_str(&e, "gz") || is_str(&e, "xz") || is_str(&e, "zst") || is_str(&e, "bz2") || is_str(&e, "rar") || is_str(&e, "iso") || is_str(&e, "jpg") || is_str(&e, "jpeg") || is_str(&e, "png") || is_str(&e, "gif") || is_str(&e, "webp") || is_str(&e, "mp3") || is_str(&e, "mp4") || is_str(&e, "mkv") || is_str(&e, "avi") || is_str(&e, "mov") || is_str(&e, "flac") || is_str(&e, "ogg") || is_str(&e, "opus") || is_str(&e, "pdf") || is_str(&e, "woff") || is_str(&e, "woff2") || is_str(&e, "ttf") || is_str(&e, "otf") {
        950
    } else if is_str(&e, "txt") || is_str(&e, "log") || is_str(&e, "csv") || is_str(&e, "json") || is_str(&e, "xml") || is_str(&e, "sql") || is_str(&e, "ini") || is_str(&e, "cfg") || is_str(&e, "conf") || is_str(&e, "py") || is_str(&e, "rs") || is_str(&e, "js") || is_str(&e, "ts") || is_str(&e, "html") || is_str(&e, "css") || is_str(&e, "md") || is_str(&e, "rst") {
        150
    } else if is_str(&e, "exe") || is_str(&e, "dll") || is_str(&e, "so") || is_str(&e, "dylib") || is_str(&e, "bin") || is_str(&e, "dat") || is_str(&e, "pak") || is_str(&e, "chunk") {
        450
    } else if is_str(&e, "doc") || is_str(&e, "docx") || is_str(&e, "odt") || is_str(&e, "xls") || is_str(&e, "xlsx") || is_str(&e, "ods") || is_str(&e, "ppt") || is_str(&e, "pptx") {
        600
    } else {
        500
    }
}

/// Checksum best suited to a format: XXH3 for uncompressed tar, BLAKE3 for
/// everything else.
pub fn recommended_checksum(format: &ArchiveFormat) -> (r: ChecksumAlgorithm)
    ensures
        r == (match format {
            ArchiveFormat::Tar => ChecksumAlgorithm::Xxh3,
            _ => ChecksumAlgorithm::Blake3,
        }),
{
    match format {
        ArchiveFormat::Tar => ChecksumAlgorithm::Xxh3,
        _ => ChecksumAlgorithm::Blake3,
    }
}

} // verus!
