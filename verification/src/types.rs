//! Core data types.
//!
//! Paths are carried as strings. Quantities that are floating point by nature
//! (ratios, rates, CPU load) are carried as the IEEE-754 bit patterns of those
//! values: the library stores and passes them on, but computes nothing with
//! them.

use vstd::prelude::*;
use crate::paths::{extension, extension_exec};
use crate::text::{concat, is_str, lowercase_of, owned, to_lowercase, chars_of, string_from};

verus! {

// ---------------------------------------------------------------------------
// Operation ids
// ---------------------------------------------------------------------------

/// Unique operation identifier.
#[derive(Debug, Clone, Copy, PartialEq, Eq, Hash, Structural)]
pub struct OperationId(pub u64);

/// Source of process-wide operation ids: 1, 2, 3, … (wrapping after `u64::MAX`).
pub struct OperationIdCounter {
    next: u64,
}

impl OperationIdCounter {
    pub closed spec fn next_value(&self) -> u64 {
        self.next
    }

    /// A counter whose first id is 1.
    pub fn new() -> (c: Self)
        ensures
            c.next_value() == 1,
    {
        OperationIdCounter { next: 1 }
    }

    /// Hands out the current id and advances (`fetch_add(1)` semantics).
    pub fn next_id(&mut self) -> (id: OperationId)
        ensures
            id.0 == old(self).next_value(),
            final(self).next_value() == (if old(self).next_value() == u64::MAX {
                0
            } else {
                (old(self).next_value() + 1) as u64
            }),
    {
        let id = OperationId(self.next);
        self.next = if self.next == u64::MAX {
            0
        } else {
            self.next + 1
        };
        id
    }
}

// ---------------------------------------------------------------------------
// Archive formats
// ---------------------------------------------------------------------------

/// Supported archive formats. Builtins are matched by extension; anything
/// else a `triplewrapper-<id>` plugin claims becomes `External(id)`.
#[derive(Debug, Clone, PartialEq, Eq)]
pub enum ArchiveFormat {
    SevenZ,
    Zip,
    Rar,
    Tar,
    TarGz,
    TarXz,
    TarZst,
    TarBz2,
    Pixz,
    External(String),
}

/// The builtin format named by an already lower-cased extension.
pub open spec fn builtin_format(ext: Seq<char>) -> Option<ArchiveFormat> {
    if ext == "7z"@ {
        Some(ArchiveFormat::SevenZ)
    } else if ext == "zip"@ {
        Some(ArchiveFormat::Zip)
    } else if ext == "rar"@ {
        Some(ArchiveFormat::Rar)
    } else if ext == "tar"@ {
        Some(ArchiveFormat::Tar)
    } else if ext == "gz"@ || ext == "tgz"@ {
        Some(ArchiveFormat::TarGz)
    } else if ext == "xz"@ || ext == "txz"@ {
        Some(ArchiveFormat::TarXz)
    } else if ext == "zst"@ || ext == "tzst"@ {
        Some(ArchiveFormat::TarZst)
    } else if ext == "bz2"@ || ext == "tbz2"@ {
        Some(ArchiveFormat::TarBz2)
    } else if ext == "pixz"@ {
        Some(ArchiveFormat::Pixz)
    } else {
        None
    }
}

/// Format named by the (case-folded) extension of `path`.
pub open spec fn format_of_path(path: Seq<char>) -> Option<ArchiveFormat> {
    match extension(path) {
        Some(e) => builtin_format(lowercase_of(e)),
        None => None,
    }
}

impl ArchiveFormat {
    pub open spec fn default_extension_spec(&self) -> Seq<char> {
        match self {
            ArchiveFormat::SevenZ => "7z"@,
            ArchiveFormat::Zip => "zip"@,
            ArchiveFormat::Rar => "rar"@,
            ArchiveFormat::Tar => "tar"@,
            ArchiveFormat::TarGz => "tar.gz"@,
            ArchiveFormat::TarXz => "tar.xz"@,
            ArchiveFormat::TarZst => "tar.zst"@,
            ArchiveFormat::TarBz2 => "tar.bz2"@,
            ArchiveFormat::Pixz => "tar.pixz"@,
            ArchiveFormat::External(id) => id@,
        }
    }

    pub open spec fn compression_tool_spec(&self) -> Seq<char> {
        match self {
            ArchiveFormat::SevenZ | ArchiveFormat::Zip | ArchiveFormat::Rar => "7z"@,
            ArchiveFormat::Tar | ArchiveFormat::TarGz | ArchiveFormat::TarXz
            | ArchiveFormat::TarZst | ArchiveFormat::TarBz2 => "tar"@,
            ArchiveFormat::Pixz => "pixz"@,
            ArchiveFormat::External(id) => "triplewrapper-"@ + id@,
        }
    }

    /// The builtin format for an extension that is already lower-case.
    pub fn from_lowercase_extension(ext: &str) -> (r: Option<Self>)
        ensures
            r == builtin_format(ext@),
    {
        let e = chars_of(ext);
        if is_str(&e, "7z") {
            Some(ArchiveFormat::SevenZ)
        } else if is_str(&e, "zip") {
            Some(ArchiveFormat::Zip)
        } else if is_str(&e, "rar") {
            Some(ArchiveFormat::Rar)
        } else if is_str(&e, "tar") {
            Some(ArchiveFormat::Tar)
        } else if is_str(&e, "gz") || is_str(&e, "tgz") {
            Some(ArchiveFormat::TarGz)
        } else if is_str(&e, "xz") || is_str(&e, "txz") {
            Some(ArchiveFormat::TarXz)
        } else if is_str(&e, "zst") || is_str(&e, "tzst") {
            Some(ArchiveFormat::TarZst)
        } else if is_str(&e, "bz2") || is_str(&e, "tbz2") {
            Some(ArchiveFormat::TarBz2)
        } else if is_str(&e, "pixz") {
            Some(ArchiveFormat::Pixz)
        } else {
            None
        }
    }

    /// Format from the extension of `path`, compared case-insensitively.
    pub fn from_extension(path: &str) -> (r: Option<Self>)
        ensures
            r == format_of_path(path@),
    {
        match extension_exec(path) {
            None => None,
            Some(e) => {
                let lower = to_lowercase(e.as_str());
                Self::from_lowercase_extension(lower.as_str())
            },
        }
    }

    /// File extension for newly created archives of this format.
    pub fn default_extension(&self) -> (r: String)
        ensures
            r@ == self.default_extension_spec(),
    {
        match self {
            ArchiveFormat::SevenZ => owned("7z"),
            ArchiveFormat::Zip => owned("zip"),
            ArchiveFormat::Rar => owned("rar"),
            ArchiveFormat::Tar => owned("tar"),
            ArchiveFormat::TarGz => owned("tar.gz"),
            ArchiveFormat::TarXz => owned("tar.xz"),
            ArchiveFormat::TarZst => owned("tar.zst"),
            ArchiveFormat::TarBz2 => owned("tar.bz2"),
            ArchiveFormat::Pixz => owned("tar.pixz"),
            ArchiveFormat::External(id) => owned(id.as_str()),
        }
    }

    /// Program that handles this format.
    pub fn compression_tool(&self) -> (r: String)
        ensures
            r@ == self.compression_tool_spec(),
    {
        match self {
            ArchiveFormat::SevenZ | ArchiveFormat::Zip | ArchiveFormat::Rar => owned("7z"),
            ArchiveFormat::Tar | ArchiveFormat::TarGz | ArchiveFormat::TarXz
            | ArchiveFormat::TarZst | ArchiveFormat::TarBz2 => owned("tar"),
            ArchiveFormat::Pixz => owned("pixz"),
            ArchiveFormat::External(id) => concat("triplewrapper-", id.as_str()),
        }
    }

    /// A copy of this value.
    pub fn duplicate(&self) -> (r: Self)
        ensures
            r == *self,
    {
        match self {
            ArchiveFormat::SevenZ => ArchiveFormat::SevenZ,
            ArchiveFormat::Zip => ArchiveFormat::Zip,
            ArchiveFormat::Rar => ArchiveFormat::Rar,
            ArchiveFormat::Tar => ArchiveFormat::Tar,
            ArchiveFormat::TarGz => ArchiveFormat::TarGz,
            ArchiveFormat::TarXz => ArchiveFormat::TarXz,
            ArchiveFormat::TarZst => ArchiveFormat::TarZst,
            ArchiveFormat::TarBz2 => ArchiveFormat::TarBz2,
            ArchiveFormat::Pixz => ArchiveFormat::Pixz,
            ArchiveFormat::External(id) => ArchiveFormat::External(id.clone()),
        }
    }
}

// ---------------------------------------------------------------------------
// Disks
// ---------------------------------------------------------------------------

/// A mounted volume and its space figures.
#[derive(Debug, Clone)]
pub struct DiskInfo {
    pub mount_point: String,
    pub label: String,
    pub filesystem: String,
    pub total_bytes: u64,
    pub free_bytes: u64,
    pub used_bytes: u64,
    pub is_removable: bool,
    pub is_system: bool,
    /// `/dev/sdX`, empty when unknown.
    pub device_path: String,
}

pub open spec fn sat_add(a: u64, b: u64) -> u64 {
    if a + b > u64::MAX {
        u64::MAX
    } else {
        (a + b) as u64
    }
}

pub open spec fn sat_sub(a: u64, b: u64) -> u64 {
    if a < b {
        0
    } else {
        (a - b) as u64
    }
}

impl DiskInfo {
    /// Whether `needed + margin` bytes (saturating) fit in the free space.
    pub fn has_space(&self, needed: u64, margin: u64) -> (r: bool)
        ensures
            r == (self.free_bytes >= sat_add(needed, margin)),
    {
        self.free_bytes >= needed.saturating_add(margin)
    }

    /// A copy of this value.
    pub fn duplicate(&self) -> (r: Self)
        ensures
            r == *self,
    {
        DiskInfo {
            mount_point: self.mount_point.clone(),
            label: self.label.clone(),
            filesystem: self.filesystem.clone(),
            total_bytes: self.total_bytes,
            free_bytes: self.free_bytes,
            used_bytes: self.used_bytes,
            is_removable: self.is_removable,
            is_system: self.is_system,
            device_path: self.device_path.clone(),
        }
    }

    /// The all-empty disk record.
    pub fn empty() -> (r: Self)
        ensures
            r.mount_point@.len() == 0,
            r.label@.len() == 0,
            r.filesystem@.len() == 0,
            r.total_bytes == 0,
            r.free_bytes == 0,
            r.used_bytes == 0,
            !r.is_removable,
            !r.is_system,
            r.device_path@.len() == 0,
    {
        DiskInfo {
            mount_point: String::new(),
            label: String::new(),
            filesystem: String::new(),
            total_bytes: 0,
            free_bytes: 0,
            used_bytes: 0,
            is_removable: false,
            is_system: false,
            device_path: String::new(),
        }
    }
}

impl Default for DiskInfo {
    fn default() -> (r: Self)
        ensures
            r.mount_point@.len() == 0,
            r.label@.len() == 0,
            r.filesystem@.len() == 0,
            r.total_bytes == 0,
            r.free_bytes == 0,
            r.used_bytes == 0,
            !r.is_removable,
            !r.is_system,
            r.device_path@.len() == 0,
    {
        DiskInfo::empty()
    }
}

// ---------------------------------------------------------------------------
// Space estimates
// ---------------------------------------------------------------------------

/// Space estimate for rewriting an archive in place (original and new copy
/// side by side).
#[derive(Debug, Clone)]
pub struct CompressionEstimate {
    pub current_size: u64,
    pub bytes_to_remove: u64,
    pub bytes_to_add: u64,
    /// Bits of the `f32` compression ratio used for the estimate.
    pub compression_ratio_bits: u32,
    pub estimated_final_size: u64,
    pub space_needed_for_rewrite: u64,
}

impl CompressionEstimate {
    /// Estimate from the compressed size of the added data (`added_compressed`,
    /// i.e. `bytes_to_add * ratio`): final = current − removed + added
    /// (saturating at both ends); needed = current + final (saturating).
    pub fn from_compressed_addition(
        current_size: u64,
        bytes_to_remove: u64,
        bytes_to_add: u64,
        compression_ratio_bits: u32,
        added_compressed: u64,
    ) -> (e: Self)
        ensures
            e.current_size == current_size,
            e.bytes_to_remove == bytes_to_remove,
            e.bytes_to_add == bytes_to_add,
            e.compression_ratio_bits == compression_ratio_bits,
            e.estimated_final_size == sat_add(sat_sub(current_size, bytes_to_remove), added_compressed),
            e.space_needed_for_rewrite == sat_add(current_size, e.estimated_final_size),
    {
        let estimated_final = current_size.saturating_sub(bytes_to_remove).saturating_add(
            added_compressed,
        );
        let space_needed = current_size.saturating_add(estimated_final);
        CompressionEstimate {
            current_size,
            bytes_to_remove,
            bytes_to_add,
            compression_ratio_bits,
            estimated_final_size: estimated_final,
            space_needed_for_rewrite: space_needed,
        }
    }

    /// A copy of this value.
    pub fn duplicate(&self) -> (r: Self)
        ensures
            r == *self,
    {
        CompressionEstimate {
            current_size: self.current_size,
            bytes_to_remove: self.bytes_to_remove,
            bytes_to_add: self.bytes_to_add,
            compression_ratio_bits: self.compression_ratio_bits,
            estimated_final_size: self.estimated_final_size,
            space_needed_for_rewrite: self.space_needed_for_rewrite,
        }
    }
}

// ---------------------------------------------------------------------------
// Small enums
// ---------------------------------------------------------------------------

/// Operation types.
#[derive(Debug, Clone, Copy, PartialEq, Eq, Structural)]
pub enum OperationType {
    Extract,
    /// delete + add
    Modify,
    /// delete only
    Clean,
    /// integrity check
    Test,
    /// list contents
    List,
}

/// Operation status.
#[derive(Debug, Clone, Copy, PartialEq, Eq, Structural)]
pub enum OperationStatus {
    Pending,
    Preparing,
    Running,
    Verifying,
    Completed,
    Failed,
    Cancelled,
}

/// Checksum algorithms.
#[derive(Debug, Clone, Copy, PartialEq, Eq, Structural)]
pub enum ChecksumAlgorithm {
    Blake3,
    Sha256,
    Xxh3,
}

impl ChecksumAlgorithm {
    pub open spec fn name_spec(&self) -> Seq<char> {
        match self {
            ChecksumAlgorithm::Blake3 => "BLAKE3"@,
            ChecksumAlgorithm::Sha256 => "SHA-256"@,
            ChecksumAlgorithm::Xxh3 => "XXH3"@,
        }
    }

    /// Display name of the algorithm.
    pub fn name(&self) -> (r: &'static str)
        ensures
            r@ == self.name_spec(),
    {
        match self {
            ChecksumAlgorithm::Blake3 => "BLAKE3",
            ChecksumAlgorithm::Sha256 => "SHA-256",
            ChecksumAlgorithm::Xxh3 => "XXH3",
        }
    }
}

// ---------------------------------------------------------------------------
// Passwords
// ---------------------------------------------------------------------------

/// A `zeroize::Zeroizing<String>`: a text buffer wiped when dropped.
/// (Verus does not accept a declaration of `Zeroizing`, whose parameter is
/// bound by an outside trait, so the buffer is held in a private field.)
#[verifier::external_body]
pub struct SecretBuffer {
    inner: zeroize::Zeroizing<String>,
}

/// The text held by a secret buffer.
pub uninterp spec fn secret_text(b: SecretBuffer) -> Seq<char>;

/// `Zeroizing::new`: wraps `s` so that it is wiped when dropped.
#[verifier::external_body]
fn secret_new(s: String) -> (b: SecretBuffer)
    ensures
        secret_text(b) == s@,
{
    SecretBuffer { inner: zeroize::Zeroizing::new(s) }
}

/// `Zeroizing::deref` (then `String::as_str`): borrows the held text.
#[verifier::external_body]
fn secret_as_str(b: &SecretBuffer) -> (r: &str)
    ensures
        r@ == secret_text(*b),
{
    b.inner.as_str()
}

/// `Zeroizing::clone`: a second buffer with the same text.
#[verifier::external_body]
fn secret_clone(b: &SecretBuffer) -> (r: SecretBuffer)
    ensures
        secret_text(r) == secret_text(*b),
{
    SecretBuffer { inner: b.inner.clone() }
}

/// Archive password. Never logged or persisted by this library, and wiped
/// from memory when dropped.
pub struct Password(SecretBuffer);

impl Password {
    pub closed spec fn secret(&self) -> Seq<char> {
        secret_text(self.0)
    }

    pub fn new(secret: String) -> (p: Self)
        ensures
            p.secret() == secret@,
    {
        Password(secret_new(secret))
    }

    /// Borrow the secret for immediate use (e.g. building a `-p` arg).
    pub fn expose(&self) -> (r: &str)
        ensures
            r@ == self.secret(),
    {
        secret_as_str(&self.0)
    }

    pub fn is_empty(&self) -> (r: bool)
        ensures
            r == (self.secret().len() == 0),
    {
        self.expose().is_empty()
    }
}

impl Clone for Password {
    fn clone(&self) -> (r: Self)
        ensures
            r.secret() == self.secret(),
    {
        Password(secret_clone(&self.0))
    }
}

/// Copies of the strings of `v`.
pub fn clone_strings(v: &Vec<String>) -> (r: Vec<String>)
    ensures
        r@ == v@,
{
    let mut r: Vec<String> = Vec::new();
    let mut i: usize = 0;
    while i < v.len()
        invariant
            i <= v.len(),
            r@ == v@.take(i as int),
        decreases v.len() - i,
    {
        r.push(v[i].clone());
        assert(v@.take(i + 1) =~= v@.take(i as int).push(v@[i as int]));
        i = i + 1;
    }
    assert(v@.take(v.len() as int) =~= v@);
    r
}

fn clone_opt_string(o: &Option<String>) -> (r: Option<String>)
    ensures
        r == *o,
{
    match o {
        Some(s) => Some(s.clone()),
        None => None,
    }
}

impl Default for Password {
    fn default() -> (r: Self)
        ensures
            r.secret().len() == 0,
    {
        Password::new(String::new())
    }
}

// ---------------------------------------------------------------------------
// Requests
// ---------------------------------------------------------------------------

/// A requested operation. The password is kept in memory only.
#[derive(Clone)]
pub struct OperationRequest {
    pub id: OperationId,
    pub op_type: OperationType,
    pub archive_path: String,
    pub output_path: Option<String>,
    /// Archive-internal paths to act on; empty means all.
    pub files_to_process: Vec<String>,
    pub compression_level: u8,
    pub compression_format: Option<ArchiveFormat>,
    pub workspace_override: Option<String>,
    pub verify_after: bool,
    pub dry_run: bool,
    pub password: Option<Password>,
}

/// Mathematical content of an [`OperationRequest`]; the password is its text.
pub struct RequestModel {
    pub id: OperationId,
    pub op_type: OperationType,
    pub archive_path: Seq<char>,
    pub output_path: Option<Seq<char>>,
    pub files_to_process: Seq<Seq<char>>,
    pub compression_level: u8,
    pub compression_format: Option<ArchiveFormat>,
    pub workspace_override: Option<Seq<char>>,
    pub verify_after: bool,
    pub dry_run: bool,
    pub password: Option<Seq<char>>,
}

pub open spec fn opt_string_view(o: Option<String>) -> Option<Seq<char>> {
    match o {
        Some(s) => Some(s@),
        None => None,
    }
}

impl View for OperationRequest {
    type V = RequestModel;

    open spec fn view(&self) -> RequestModel {
        RequestModel {
            id: self.id,
            op_type: self.op_type,
            archive_path: self.archive_path@,
            output_path: opt_string_view(self.output_path),
            files_to_process: self.files_to_process@.map_values(|f: String| f@),
            compression_level: self.compression_level,
            compression_format: self.compression_format,
            workspace_override: opt_string_view(self.workspace_override),
            verify_after: self.verify_after,
            dry_run: self.dry_run,
            password: match self.password {
                Some(p) => Some(p.secret()),
                None => None,
            },
        }
    }
}

impl OperationRequest {
    /// A copy of this request.
    pub fn duplicate(&self) -> (r: Self)
        ensures
            r@ == self@,
    {
        OperationRequest {
            id: self.id,
            op_type: self.op_type,
            archive_path: self.archive_path.clone(),
            output_path: clone_opt_string(&self.output_path),
            files_to_process: clone_strings(&self.files_to_process),
            compression_level: self.compression_level,
            compression_format: match &self.compression_format {
                Some(f) => Some(f.duplicate()),
                None => None,
            },
            workspace_override: clone_opt_string(&self.workspace_override),
            verify_after: self.verify_after,
            dry_run: self.dry_run,
            password: match &self.password {
                Some(p) => Some(p.clone()),
                None => None,
            },
        }
    }
}

// ---------------------------------------------------------------------------
// Configuration
// ---------------------------------------------------------------------------

/// Number of CPUs available to this process (never less than 1).
#[verifier::external_body]
pub fn get_cpu_count() -> (n: usize)
    ensures
        n >= 1,
{
    num_cpus::get()
}

/// Bits of the `f32` value 0.5.
pub const HALF_F32_BITS: u32 = 0x3f00_0000u32;

/// Application configuration. `default_compression_ratio_bits` holds the
/// bits of an `f32` ratio in 0.0–1.0.
#[derive(Clone)]
pub struct Config {
    /// 1-9
    pub default_compression_level: u8,
    pub default_compression_ratio_bits: u32,
    /// Extra space required on top of every estimate.
    pub safety_margin_bytes: u64,
    /// Preferred cache locations.
    pub cache_directories: Vec<String>,
    pub max_parallel_jobs: usize,
    pub verify_checksums: bool,
    pub checksum_algorithm: ChecksumAlgorithm,
    pub auto_select_workspace: bool,
    pub keep_temp_on_failure: bool,
    pub ui_theme: String,
}

/// The default cache directories: `/mnt`, `/media`, `/run/media`.
pub open spec fn default_cache_dirs(dirs: Seq<String>) -> bool {
    &&& dirs.len() == 3
    &&& dirs[0]@ == "/mnt"@
    &&& dirs[1]@ == "/media"@
    &&& dirs[2]@ == "/run/media"@
}

/// Whether `c` holds the default configuration (any CPU count of at least 1).
pub open spec fn is_default_config(c: Config) -> bool {
    &&& c.default_compression_level == 5
    &&& c.default_compression_ratio_bits == HALF_F32_BITS
    &&& c.safety_margin_bytes == 512 * 1024 * 1024
    &&& default_cache_dirs(c.cache_directories@)
    &&& c.max_parallel_jobs >= 1
    &&& c.verify_checksums
    &&& c.checksum_algorithm == ChecksumAlgorithm::Blake3
    &&& c.auto_select_workspace
    &&& !c.keep_temp_on_failure
    &&& c.ui_theme@ == "auto"@
}

/// The default cache directories as strings.
pub fn default_cache_directories() -> (v: Vec<String>)
    ensures
        default_cache_dirs(v@),
{
    let mut v: Vec<String> = Vec::new();
    v.push(owned("/mnt"));
    v.push(owned("/media"));
    v.push(owned("/run/media"));
    v
}

impl Default for Config {
    fn default() -> (c: Self)
        ensures
            is_default_config(c),
    {
        Config {
            default_compression_level: 5,
            default_compression_ratio_bits: HALF_F32_BITS,
            safety_margin_bytes: 512 * 1024 * 1024,
            cache_directories: default_cache_directories(),
            max_parallel_jobs: get_cpu_count(),
            verify_checksums: true,
            checksum_algorithm: ChecksumAlgorithm::Blake3,
            auto_select_workspace: true,
            keep_temp_on_failure: false,
            ui_theme: owned("auto"),
        }
    }
}

// ---------------------------------------------------------------------------
// Telemetry and archive listings
// ---------------------------------------------------------------------------

/// Real-time progress telemetry. The rate and CPU fields hold the bits of
/// the `f64`/`f32` values.
#[derive(Debug, Clone)]
pub struct ProgressTelemetry {
    pub operation_id: OperationId,
    pub status: OperationStatus,
    pub current_file: String,
    pub files_total: u32,
    pub files_processed: u32,
    pub bytes_total: u64,
    pub bytes_processed: u64,
    pub bytes_per_second_read_bits: u64,
    pub bytes_per_second_write_bits: u64,
    pub bytes_per_second_compress_bits: u64,
    pub eta_seconds: Option<u64>,
    pub cpu_percent_bits: u32,
    pub memory_bytes: u64,
}

impl ProgressTelemetry {
    /// A copy of this value.
    pub fn duplicate(&self) -> (r: Self)
        ensures
            r == *self,
    {
        ProgressTelemetry {
            operation_id: self.operation_id,
            status: self.status,
            current_file: self.current_file.clone(),
            files_total: self.files_total,
            files_processed: self.files_processed,
            bytes_total: self.bytes_total,
            bytes_processed: self.bytes_processed,
            bytes_per_second_read_bits: self.bytes_per_second_read_bits,
            bytes_per_second_write_bits: self.bytes_per_second_write_bits,
            bytes_per_second_compress_bits: self.bytes_per_second_compress_bits,
            eta_seconds: self.eta_seconds,
            cpu_percent_bits: self.cpu_percent_bits,
            memory_bytes: self.memory_bytes,
        }
    }
}

/// A file inside an archive. `modified` is in seconds since the Unix epoch.
#[derive(Debug, Clone, PartialEq, Eq)]
pub struct ArchiveEntry {
    pub path: String,
    pub size: u64,
    pub compressed_size: u64,
    pub modified: Option<i64>,
    pub is_directory: bool,
    pub crc32: Option<u32>,
    pub sha256: Option<String>,
}

/// Mathematical content of an [`ArchiveEntry`].
pub struct EntryModel {
    pub path: Seq<char>,
    pub size: u64,
    pub compressed_size: u64,
    pub modified: Option<i64>,
    pub is_directory: bool,
    pub crc32: Option<u32>,
    pub sha256: Option<Seq<char>>,
}

impl View for ArchiveEntry {
    type V = EntryModel;

    open spec fn view(&self) -> EntryModel {
        EntryModel {
            path: self.path@,
            size: self.size,
            compressed_size: self.compressed_size,
            modified: self.modified,
            is_directory: self.is_directory,
            crc32: self.crc32,
            sha256: match self.sha256 {
                Some(s) => Some(s@),
                None => None,
            },
        }
    }
}

impl ArchiveEntry {
    /// A copy of this value.
    pub fn duplicate(&self) -> (r: Self)
        ensures
            r@ == self@,
    {
        ArchiveEntry {
            path: self.path.clone(),
            size: self.size,
            compressed_size: self.compressed_size,
            modified: self.modified,
            is_directory: self.is_directory,
            crc32: self.crc32,
            sha256: match &self.sha256 {
                Some(s) => Some(s.clone()),
                None => None,
            },
        }
    }
}

/// What a listing reports about an archive.
#[derive(Debug, Clone)]
pub struct ArchiveMetadata {
    pub path: String,
    pub format: ArchiveFormat,
    pub size: u64,
    pub entries: Vec<ArchiveEntry>,
    pub solid: bool,
    pub encrypted: bool,
    pub comment: Option<String>,
}

} // verus!
