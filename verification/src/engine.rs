//! Storage decision engine: where an in-place rewrite or an extraction can
//! safely run, given the disks of the machine.

use vstd::prelude::*;
use crate::paths::{components, join, path_eq, path_starts_with, component_count, join_exec,
    path_eq_exec, path_starts_with_exec};
use crate::text::{concat, opt_view, owned};
use crate::types::{CompressionEstimate, DiskInfo, HALF_F32_BITS, sat_add, default_cache_directories,
    default_cache_dirs};

verus! {

// ---------------------------------------------------------------------------
// Configuration
// ---------------------------------------------------------------------------

/// Engine settings. `default_compression_ratio_bits` holds the bits of the
/// `f32` ratio used when a caller gives none.
#[derive(Clone)]
pub struct EngineConfig {
    pub safety_margin_bytes: u64,
    pub default_compression_ratio_bits: u32,
    pub preferred_cache_dirs: Vec<String>,
    pub auto_select_workspace: bool,
}

impl Default for EngineConfig {
    fn default() -> (c: Self)
        ensures
            c.safety_margin_bytes == 512 * 1024 * 1024,
            c.default_compression_ratio_bits == HALF_F32_BITS,
            default_cache_dirs(c.preferred_cache_dirs@),
            c.auto_select_workspace,
    {
        EngineConfig {
            safety_margin_bytes: 512 * 1024 * 1024,
            default_compression_ratio_bits: HALF_F32_BITS,
            preferred_cache_dirs: default_cache_directories(),
            auto_select_workspace: true,
        }
    }
}

// ---------------------------------------------------------------------------
// Disk selection
// ---------------------------------------------------------------------------

/// `a` ranks before `b`: removable first, then more free space.
pub open spec fn ranks_before(a: DiskInfo, b: DiskInfo) -> bool {
    ||| (a.is_removable && !b.is_removable)
    ||| (a.is_removable == b.is_removable && a.free_bytes > b.free_bytes)
}

/// A disk that may host a workspace: not a system mount, at least `needed`
/// bytes free, and (when `excluded` is given) not mounted at that path.
pub open spec fn workspace_candidate(d: DiskInfo, needed: u64, excluded: Option<Seq<char>>) -> bool {
    &&& !d.is_system
    &&& d.free_bytes >= needed
    &&& match excluded {
        Some(m) => !path_eq(d.mount_point@, m),
        None => true,
    }
}

/// `i` is the candidate a stable sort by rank would put first: no candidate
/// ranks before it, and it ranks before every earlier candidate.
pub open spec fn is_first_ranked(disks: Seq<DiskInfo>, needed: u64, excluded: Option<Seq<char>>, i: int) -> bool {
    &&& 0 <= i < disks.len()
    &&& workspace_candidate(disks[i], needed, excluded)
    &&& forall|j: int|
        0 <= j < disks.len() && workspace_candidate(disks[j], needed, excluded) ==> !ranks_before(
            disks[j],
            disks[i],
        )
    &&& forall|j: int|
        0 <= j < i && workspace_candidate(disks[j], needed, excluded) ==> ranks_before(
            disks[i],
            disks[j],
        )
}

pub open spec fn has_candidate(disks: Seq<DiskInfo>, needed: u64, excluded: Option<Seq<char>>) -> bool {
    exists|j: int| 0 <= j < disks.len() && workspace_candidate(disks[j], needed, excluded)
}

fn ranks_before_exec(a: &DiskInfo, b: &DiskInfo) -> (r: bool)
    ensures
        r == ranks_before(*a, *b),
{
    (a.is_removable && !b.is_removable) || (a.is_removable == b.is_removable && a.free_bytes
        > b.free_bytes)
}

fn workspace_candidate_exec(d: &DiskInfo, needed: u64, excluded: Option<&str>) -> (r: bool)
    ensures
        r == workspace_candidate(
            *d,
            needed,
            match excluded {
                Some(m) => Some(m@),
                None => None,
            },
        ),
{
    if d.is_system || d.free_bytes < needed {
        return false;
    }
    match excluded {
        Some(m) => !path_eq_exec(d.mount_point.as_str(), m),
        None => true,
    }
}

/// Index of the best workspace candidate, if there is one.
pub fn first_ranked_candidate(disks: &Vec<DiskInfo>, needed: u64, excluded: Option<&str>) -> (r:
    Option<usize>)
    ensures
        ({
            let ex = match excluded {
                Some(m) => Some(m@),
                None => None,
            };
            match r {
                Some(i) => is_first_ranked(disks@, needed, ex, i as int),
                None => !has_candidate(disks@, needed, ex),
            }
        }),
{
    let ghost ex = match excluded {
        Some(m) => Some(m@),
        None => None::<Seq<char>>,
    };
    let mut best: Option<usize> = None;
    let mut i: usize = 0;
    while i < disks.len()
        invariant
            i <= disks.len(),
            ex == (match excluded {
                Some(m) => Some(m@),
                None => None::<Seq<char>>,
            }),
            match best {
                Some(b) => {
                    &&& b < i
                    &&& workspace_candidate(disks@[b as int], needed, ex)
                    &&& forall|j: int|
                        0 <= j < i && workspace_candidate(disks@[j], needed, ex) ==> !ranks_before(
                            disks@[j],
                            disks@[b as int],
                        )
                    &&& forall|j: int|
                        0 <= j < b && workspace_candidate(disks@[j], needed, ex) ==> ranks_before(
                            disks@[b as int],
                            disks@[j],
                        )
                },
                None => forall|j: int|
                    0 <= j < i ==> !workspace_candidate(#[trigger] disks@[j], needed, ex),
            },
        decreases disks.len() - i,
    {
        if workspace_candidate_exec(&disks[i], needed, excluded) {
            match best {
                None => {
                    best = Some(i);
                },
                Some(b) => {
                    if ranks_before_exec(&disks[i], &disks[b]) {
                        best = Some(i);
                    }
                },
            }
        }
        i = i + 1;
    }
    best
}

/// Best non-system disk with at least `needed` bytes free: removable first,
/// then the most free space; the earliest in `disks` among equals.
pub fn select_best_disk(disks: &Vec<DiskInfo>, needed: u64) -> (r: Option<DiskInfo>)
    ensures
        match r {
            Some(d) => exists|i: int| is_first_ranked(disks@, needed, None, i) && disks@[i] == d,
            None => !has_candidate(disks@, needed, None),
        },
{
    match first_ranked_candidate(disks, needed, None) {
        Some(i) => Some(disks[i].duplicate()),
        None => None,
    }
}

// ---------------------------------------------------------------------------
// Locating the disk of a path
// ---------------------------------------------------------------------------

/// Disk `d` contains the (canonical) path `p`.
pub open spec fn contains_path(d: DiskInfo, p: Seq<char>) -> bool {
    path_starts_with(p, d.mount_point@)
}

/// `i` is the containing disk with the deepest mount point; the last such
/// disk among equally deep ones (`Iterator::max_by_key`).
pub open spec fn is_deepest_mount(disks: Seq<DiskInfo>, p: Seq<char>, i: int) -> bool {
    &&& 0 <= i < disks.len()
    &&& contains_path(disks[i], p)
    &&& forall|j: int|
        0 <= j < disks.len() && contains_path(disks[j], p) ==> components(
            disks[j].mount_point@,
        ).len() <= components(disks[i].mount_point@).len()
    &&& forall|j: int|
        i < j < disks.len() && contains_path(disks[j], p) ==> components(
            disks[j].mount_point@,
        ).len() < components(disks[i].mount_point@).len()
}

pub open spec fn some_disk_contains(disks: Seq<DiskInfo>, p: Seq<char>) -> bool {
    exists|j: int| 0 <= j < disks.len() && contains_path(disks[j], p)
}

/// Index of the disk holding the canonical path `canonical`, if any.
pub fn find_disk_for_path(canonical: &str, disks: &Vec<DiskInfo>) -> (r: Option<usize>)
    ensures
        match r {
            Some(i) => is_deepest_mount(disks@, canonical@, i as int),
            None => !some_disk_contains(disks@, canonical@),
        },
{
    let mut best: Option<usize> = None;
    let mut best_depth: usize = 0;
    let mut i: usize = 0;
    while i < disks.len()
        invariant
            i <= disks.len(),
            match best {
                Some(b) => {
                    &&& b < i
                    &&& contains_path(disks@[b as int], canonical@)
                    &&& best_depth == components(disks@[b as int].mount_point@).len()
                    &&& forall|j: int|
                        0 <= j < i && contains_path(disks@[j], canonical@) ==> components(
                            disks@[j].mount_point@,
                        ).len() <= best_depth
                    &&& forall|j: int|
                        b < j < i && contains_path(disks@[j], canonical@) ==> components(
                            disks@[j].mount_point@,
                        ).len() < best_depth
                },
                None => forall|j: int|
                    0 <= j < i ==> !contains_path(#[trigger] disks@[j], canonical@),
            },
        decreases disks.len() - i,
    {
        let d = &disks[i];
        if path_starts_with_exec(canonical, d.mount_point.as_str()) {
            let depth = component_count(d.mount_point.as_str());
            match best {
                None => {
                    best = Some(i);
                    best_depth = depth;
                },
                Some(_) => {
                    if depth >= best_depth {
                        best = Some(i);
                        best_depth = depth;
                    }
                },
            }
        }
        i = i + 1;
    }
    best
}

/// Index of the first disk mounted at `/`, if any.
pub fn find_root_disk(disks: &Vec<DiskInfo>) -> (r: Option<usize>)
    ensures
        match r {
            Some(i) => i < disks@.len() && path_eq(disks@[i as int].mount_point@, "/"@) && forall|
                j: int,
            | 0 <= j < i ==> !path_eq(disks@[j].mount_point@, "/"@),
            None => forall|j: int|
                0 <= j < disks@.len() ==> !path_eq(#[trigger] disks@[j].mount_point@, "/"@),
        },
{
    let mut i: usize = 0;
    while i < disks.len()
        invariant
            i <= disks.len(),
            forall|j: int| 0 <= j < i ==> !path_eq(#[trigger] disks@[j].mount_point@, "/"@),
        decreases disks.len() - i,
    {
        if path_eq_exec(disks[i].mount_point.as_str(), "/") {
            return Some(i);
        }
        i = i + 1;
    }
    None
}

/// Largest free space over `disks` (0 when there are none).
pub open spec fn max_free(disks: Seq<DiskInfo>) -> u64
    decreases disks.len(),
{
    if disks.len() == 0 {
        0
    } else {
        let rest = max_free(disks.drop_last());
        if disks.last().free_bytes > rest {
            disks.last().free_bytes
        } else {
            rest
        }
    }
}

pub fn max_free_exec(disks: &Vec<DiskInfo>) -> (m: u64)
    ensures
        m == max_free(disks@),
{
    let mut m: u64 = 0;
    let mut i: usize = 0;
    while i < disks.len()
        invariant
            i <= disks.len(),
            m == max_free(disks@.take(i as int)),
        decreases disks.len() - i,
    {
        assert(disks@.take(i + 1).drop_last() =~= disks@.take(i as int));
        if disks[i].free_bytes > m {
            m = disks[i].free_bytes;
        }
        i = i + 1;
    }
    assert(disks@.take(disks.len() as int) =~= disks@);
    m
}

// ---------------------------------------------------------------------------
// Verdicts
// ---------------------------------------------------------------------------

/// Name of the cache directory created on a workspace disk.
pub const WORKSPACE_CACHE_DIR: &'static str = ".triplewrapper_cache";

/// Where an in-place rewrite can run.
#[derive(Clone)]
pub enum StorageVerdict {
    /// The archive's own disk has room.
    InternalOk { source_disk: DiskInfo, estimate: CompressionEstimate, space_needed: u64 },
    /// Another disk must host the temporary copy (`7z -w<workdir>`).
    ExternalRequired {
        source_disk: DiskInfo,
        workspace_disk: DiskInfo,
        estimate: CompressionEstimate,
        workdir: String,
        sevenzip_workdir_param: String,
        space_needed: u64,
        requires_confirmation: bool,
    },
    /// No disk has room; `best_available_bytes` is the largest free space seen.
    CriticalError {
        source_disk: DiskInfo,
        estimate: CompressionEstimate,
        best_available_bytes: u64,
        space_needed: u64,
    },
}

/// The disk the rewrite of `archive` (canonical path, `None` when it could
/// not be resolved) starts from: the disk holding it, else the disk mounted
/// at `/`, else a placeholder system disk at `/`.
pub open spec fn source_disk_for(disks: Seq<DiskInfo>, archive: Option<Seq<char>>, d: DiskInfo) -> bool {
    let held = match archive {
        Some(p) => some_disk_contains(disks, p),
        None => false,
    };
    if held {
        exists|i: int| is_deepest_mount(disks, archive->0, i) && disks[i] == d
    } else if exists|j: int| 0 <= j < disks.len() && path_eq(disks[j].mount_point@, "/"@) {
        exists|i: int|
            0 <= i < disks.len() && path_eq(disks[i].mount_point@, "/"@) && (forall|j: int|
                0 <= j < i ==> !path_eq(disks[j].mount_point@, "/"@)) && disks[i] == d
    } else {
        &&& d.mount_point@ == "/"@
        &&& d.label@ == "Desconocido"@
        &&& d.filesystem@ == "unknown"@
        &&& d.total_bytes == 0
        &&& d.free_bytes == 0
        &&& d.used_bytes == 0
        &&& !d.is_removable
        &&& d.is_system
        &&& d.device_path@.len() == 0
    }
}

/// The verdict the engine owes for `estimate` with safety margin `margin`,
/// given the source disk `src`.
pub open spec fn verdict_matches(
    v: StorageVerdict,
    disks: Seq<DiskInfo>,
    src: DiskInfo,
    estimate: CompressionEstimate,
    margin: u64,
    auto_select: bool,
) -> bool {
    let needed = sat_add(estimate.space_needed_for_rewrite, margin);
    let ex = Some(src.mount_point@);
    if src.free_bytes >= needed {
        v == StorageVerdict::InternalOk { source_disk: src, estimate, space_needed: needed }
    } else if auto_select && has_candidate(disks, needed, ex) {
        exists|i: int|
            #![trigger disks[i]]
            is_first_ranked(disks, needed, ex, i) && match v {
                StorageVerdict::ExternalRequired {
                    source_disk,
                    workspace_disk,
                    estimate: e,
                    workdir,
                    sevenzip_workdir_param,
                    space_needed,
                    requires_confirmation,
                } => {
                    &&& source_disk == src
                    &&& workspace_disk == disks[i]
                    &&& e == estimate
                    &&& workdir@ == join(disks[i].mount_point@, WORKSPACE_CACHE_DIR@)
                    &&& sevenzip_workdir_param@ == "-w"@ + workdir@
                    &&& space_needed == needed
                    &&& requires_confirmation
                },
                _ => false,
            }
    } else {
        v == StorageVerdict::CriticalError {
            source_disk: src,
            estimate,
            best_available_bytes: max_free(disks),
            space_needed: needed,
        }
    }
}

/// Outcome of the extraction preflight.
pub enum ExtractSpaceCheck {
    /// The output disk holds the data plus the margin.
    Fits,
    /// Free space at `path` could not be measured (`reason` from the system).
    Unmeasurable { path: String, reason: String },
    /// Not enough room at the destination named `label`; `alternative` is the
    /// best other disk that would hold `needed_bytes`, if any.
    Insufficient { label: String, free_bytes: u64, needed_bytes: u64, alternative: Option<DiskInfo> },
}

/// The name shown for an extraction destination: the label of the disk
/// holding it, unless that is the bare `/` entry (or there is none), in which
/// case the path itself.
pub open spec fn destination_label(disks: Seq<DiskInfo>, canonical: Option<Seq<char>>, display: Seq<char>, label: Seq<char>) -> bool {
    match canonical {
        Some(p) => if some_disk_contains(disks, p) {
            exists|i: int|
                is_deepest_mount(disks, p, i) && (if path_eq(disks[i].mount_point@, "/"@) {
                    label == display
                } else {
                    label == disks[i].label@
                })
        } else {
            label == display
        },
        None => label == display,
    }
}

/// Storage engine: settings plus the last disk inventory handed to it.
pub struct StorageEngine {
    config: EngineConfig,
    disks_cache: Vec<DiskInfo>,
}

impl StorageEngine {
    pub closed spec fn settings(&self) -> EngineConfig {
        self.config
    }

    pub closed spec fn inventory(&self) -> Seq<DiskInfo> {
        self.disks_cache@
    }

    /// An engine with no disk inventory yet.
    pub fn new(config: EngineConfig) -> (e: Self)
        ensures
            e.settings() == config,
            e.inventory().len() == 0,
    {
        StorageEngine { config, disks_cache: Vec::new() }
    }

    /// Replaces the inventory with a fresh scan.
    pub fn set_disks(&mut self, disks: Vec<DiskInfo>)
        ensures
            final(self).inventory() == disks@,
            final(self).settings() == old(self).settings(),
    {
        self.disks_cache = disks;
    }

    /// The inventory is empty and must be scanned before use.
    pub fn needs_scan(&self) -> (r: bool)
        ensures
            r == (self.inventory().len() == 0),
    {
        self.disks_cache.len() == 0
    }

    /// The current inventory.
    pub fn get_disks(&self) -> (r: &Vec<DiskInfo>)
        ensures
            r@ == self.inventory(),
    {
        &self.disks_cache
    }

    /// Bits of the ratio to estimate with: the caller's, else the default.
    pub fn ratio_bits(&self, requested: Option<u32>) -> (r: u32)
        ensures
            r == match requested {
                Some(b) => b,
                None => self.settings().default_compression_ratio_bits,
            },
    {
        match requested {
            Some(b) => b,
            None => self.config.default_compression_ratio_bits,
        }
    }

    /// Disk the archive at canonical path `archive` lives on (see
    /// [`source_disk_for`]).
    pub fn source_disk(&self, archive: Option<&str>) -> (d: DiskInfo)
        ensures
            source_disk_for(self.inventory(), opt_view(archive), d),
    {
        let disks = &self.disks_cache;
        if let Some(p) = archive {
            if let Some(i) = find_disk_for_path(p, disks) {
                return disks[i].duplicate();
            }
        }
        match find_root_disk(disks) {
            Some(i) => disks[i].duplicate(),
            None => {
                proof {
                    assert(!(exists|j: int|
                        0 <= j < disks@.len() && path_eq(disks@[j].mount_point@, "/"@)));
                }
                DiskInfo {
                    mount_point: owned("/"),
                    label: owned("Desconocido"),
                    filesystem: owned("unknown"),
                    total_bytes: 0,
                    free_bytes: 0,
                    used_bytes: 0,
                    is_removable: false,
                    is_system: true,
                    device_path: String::new(),
                }
            },
        }
    }

    /// Decide where rewriting the archive (canonical path `archive`) can run:
    /// on its own disk when `needed = space_needed_for_rewrite + margin`
    /// (saturating) fits there; else, when auto-selection is on, on the
    /// best-ranked other non-system disk with that much room; else nowhere.
    pub fn decide_workspace(&self, archive: Option<&str>, estimate: &CompressionEstimate) -> (v:
        StorageVerdict)
        ensures
            exists|src: DiskInfo|
                #![trigger source_disk_for(self.inventory(), opt_view(archive), src)]
                source_disk_for(self.inventory(), opt_view(archive), src) && verdict_matches(
                    v,
                    self.inventory(),
                    src,
                    *estimate,
                    self.settings().safety_margin_bytes,
                    self.settings().auto_select_workspace,
                ),
    {
        let safety_margin = self.config.safety_margin_bytes;
        let auto_select = self.config.auto_select_workspace;
        let source_disk = self.source_disk(archive);
        let ghost arch = opt_view(archive);
        let space_needed = estimate.space_needed_for_rewrite.saturating_add(safety_margin);
        let free_space = source_disk.free_bytes;
        if free_space >= space_needed {
            let v = StorageVerdict::InternalOk {
                source_disk: source_disk.duplicate(),
                estimate: estimate.duplicate(),
                space_needed,
            };
            proof {
                assert(source_disk_for(self.inventory(), arch, source_disk));
                assert(verdict_matches(v, self.inventory(), source_disk, *estimate, safety_margin, auto_select));
            }
            return v;
        }
        let ghost ex = Some(source_disk.mount_point@);
        if auto_select {
            let disks = &self.disks_cache;
            if let Some(i) = first_ranked_candidate(
                disks,
                space_needed,
                Some(source_disk.mount_point.as_str()),
            ) {
                let workspace = disks[i].duplicate();
                let workdir = join_exec(workspace.mount_point.as_str(), WORKSPACE_CACHE_DIR);
                let param = concat("-w", workdir.as_str());
                let v = StorageVerdict::ExternalRequired {
                    source_disk: source_disk.duplicate(),
                    workspace_disk: workspace,
                    estimate: estimate.duplicate(),
                    workdir,
                    sevenzip_workdir_param: param,
                    space_needed,
                    requires_confirmation: true,
                };
                proof {
                    assert(is_first_ranked(self.inventory(), space_needed, ex, i as int));
                    assert(has_candidate(self.inventory(), space_needed, ex));
                    assert(source_disk_for(self.inventory(), arch, source_disk));
                    assert(verdict_matches(v, self.inventory(), source_disk, *estimate, safety_margin, auto_select));
                }
                return v;
            }
        }
        let best_free = max_free_exec(&self.disks_cache);
        let v = StorageVerdict::CriticalError {
            source_disk: source_disk.duplicate(),
            estimate: estimate.duplicate(),
            best_available_bytes: best_free,
            space_needed,
        };
        proof {
            assert(source_disk_for(self.inventory(), arch, source_disk));
            assert(verdict_matches(v, self.inventory(), source_disk, *estimate, safety_margin, auto_select));
        }
        v
    }

    /// Best non-system disk with `needed` bytes free (see [`select_best_disk`]).
    pub fn best_disk_with_space(&self, needed: u64) -> (r: Option<DiskInfo>)
        ensures
            match r {
                Some(d) => exists|i: int|
                    is_first_ranked(self.inventory(), needed, None, i) && self.inventory()[i] == d,
                None => !has_candidate(self.inventory(), needed, None),
            },
    {
        match first_ranked_candidate(&self.disks_cache, needed, None) {
            Some(i) => {
                let d = self.disks_cache[i].duplicate();
                assert(is_first_ranked(self.inventory(), needed, None, i as int));
                Some(d)
            },
            None => None,
        }
    }

    /// Preflight for an extraction of `total_uncompressed` bytes into the
    /// destination with canonical path `canonical` (shown as `display`),
    /// whose free space was measured as `measured`.
    pub fn check_extract_space(
        &self,
        canonical: Option<&str>,
        display: &str,
        measured: std::result::Result<u64, String>,
        total_uncompressed: u64,
    ) -> (r: ExtractSpaceCheck)
        ensures
            ({
                let needed = sat_add(total_uncompressed, self.settings().safety_margin_bytes);
                match measured {
                    Err(reason) => r == ExtractSpaceCheck::Unmeasurable {
                        path: r->Unmeasurable_path,
                        reason,
                    } && r->Unmeasurable_path@ == display@,
                    Ok(free) => if free >= needed {
                        r == ExtractSpaceCheck::Fits
                    } else {
                        match r {
                            ExtractSpaceCheck::Insufficient {
                                label,
                                free_bytes,
                                needed_bytes,
                                alternative,
                            } => {
                                &&& destination_label(
                                    self.inventory(),
                                    match canonical {
                                        Some(p) => Some(p@),
                                        None => None,
                                    },
                                    display@,
                                    label@,
                                )
                                &&& free_bytes == free
                                &&& needed_bytes == needed
                                &&& match alternative {
                                    Some(d) => exists|i: int|
                                        is_first_ranked(self.inventory(), needed, None, i)
                                            && self.inventory()[i] == d,
                                    None => !has_candidate(self.inventory(), needed, None),
                                }
                            },
                            _ => false,
                        }
                    },
                }
            }),
    {
        let needed = total_uncompressed.saturating_add(self.config.safety_margin_bytes);
        let free = match measured {
            Err(reason) => {
                return ExtractSpaceCheck::Unmeasurable { path: owned(display), reason };
            },
            Ok(f) => f,
        };
        if free >= needed {
            return ExtractSpaceCheck::Fits;
        }
        let label = self.destination_label(canonical, display);
        let alternative = self.best_disk_with_space(needed);
        ExtractSpaceCheck::Insufficient { label, free_bytes: free, needed_bytes: needed, alternative }
    }

    fn destination_label(&self, canonical: Option<&str>, display: &str) -> (label: String)
        ensures
            destination_label(
                self.inventory(),
                match canonical {
                    Some(p) => Some(p@),
                    None => None,
                },
                display@,
                label@,
            ),
    {
        match canonical {
            Some(p) => match find_disk_for_path(p, &self.disks_cache) {
                Some(i) => {
                    let d = &self.disks_cache[i];
                    if path_eq_exec(d.mount_point.as_str(), "/") {
                        owned(display)
                    } else {
                        d.label.clone()
                    }
                },
                None => owned(display),
            },
            None => owned(display),
        }
    }
}

impl StorageVerdict {
    /// The verdict's name on the D-Bus interface.
    pub fn kind_name(&self) -> (r: &'static str)
        ensures
            r@ == match self {
                StorageVerdict::InternalOk { .. } => "internal_ok"@,
                StorageVerdict::ExternalRequired { .. } => "external_required"@,
                StorageVerdict::CriticalError { .. } => "critical_error"@,
            },
    {
        match self {
            StorageVerdict::InternalOk { .. } => "internal_ok",
            StorageVerdict::ExternalRequired { .. } => "external_required",
            StorageVerdict::CriticalError { .. } => "critical_error",
        }
    }
}

} // verus!
