//! Decisions of the command-line front end: passwords, names of
//! priorities, operations and states, item ids, preflight gates and worker
//! plans, and column text.

use vstd::prelude::*;
use crate::archive::entry_views;
use crate::engine::StorageVerdict;
use crate::error::{Result, TripleWrapperError};
use crate::queue::{Priority, QueueItemStatus};
use crate::text::{
    all_digits, chars_of, dec_value, ends_with, ends_with_exec, lowercase_of, parse_u64, parse_u64_str,
    seq_eq, str_eq, string_from, string_views, to_lowercase, unsigned_body, is_str, owned,
};
use crate::types::{ArchiveEntry, EntryModel, OperationId, OperationType, Password};

verus! {

// ---------------------------------------------------------------------------
// Passwords
// ---------------------------------------------------------------------------

/// Which password an archive operation uses: a non-empty `--password` flag
/// wins (and earns a warning, since argv is visible to other users), else a
/// non-empty `TRIPLEWRAPPER_PASSWORD`; otherwise none. Returns the password
/// and whether to warn.
pub fn resolve_password(flag: Option<String>, env_value: Option<String>) -> (r: (Option<Password>, bool))
    ensures
        match flag {
            Some(f) if f@.len() > 0 => r.1 && r.0 is Some && r.0->Some_0.secret() == f@,
            _ => !r.1 && match env_value {
                Some(e) if e@.len() > 0 => r.0 is Some && r.0->Some_0.secret() == e@,
                _ => r.0 is None,
            },
        },
{
    match flag {
        Some(f) => {
            if chars_of(f.as_str()).len() > 0 {
                return (Some(Password::new(f)), true);
            }
        },
        None => {},
    }
    match env_value {
        Some(e) => {
            if chars_of(e.as_str()).len() > 0 {
                (Some(Password::new(e)), false)
            } else {
                (None, false)
            }
        },
        None => (None, false),
    }
}

/// The secret of an optional password.
pub fn password_str(pw: Option<&Password>) -> (r: Option<&str>)
    ensures
        match pw {
            Some(p) => r is Some && r->Some_0@ == p.secret(),
            None => r is None,
        },
{
    match pw {
        Some(p) => Some(p.expose()),
        None => None,
    }
}

// ---------------------------------------------------------------------------
// Names
// ---------------------------------------------------------------------------

/// Priority named by `s` (any case); unknown names mean normal.
pub open spec fn priority_named(s: Seq<char>) -> Priority {
    let l = lowercase_of(s);
    if l == "low"@ {
        Priority::Low
    } else if l == "high"@ {
        Priority::High
    } else if l == "critical"@ {
        Priority::Critical
    } else {
        Priority::Normal
    }
}

pub fn parse_priority(s: &str) -> (p: Priority)
    ensures
        p == priority_named(s@),
{
    let l = to_lowercase(s);
    let v = chars_of(l.as_str());
    if is_str(&v, "low") {
        Priority::Low
    } else if is_str(&v, "high") {
        Priority::High
    } else if is_str(&v, "critical") {
        Priority::Critical
    } else {
        Priority::Normal
    }
}

/// Operation named by `s` (any case); unknown names mean extract.
pub open spec fn operation_named(s: Seq<char>) -> OperationType {
    let l = lowercase_of(s);
    if l == "modify"@ {
        OperationType::Modify
    } else if l == "clean"@ {
        OperationType::Clean
    } else if l == "test"@ {
        OperationType::Test
    } else if l == "list"@ {
        OperationType::List
    } else {
        OperationType::Extract
    }
}

pub fn parse_operation_type(s: &str) -> (t: OperationType)
    ensures
        t == operation_named(s@),
{
    let l = to_lowercase(s);
    let v = chars_of(l.as_str());
    if is_str(&v, "modify") {
        OperationType::Modify
    } else if is_str(&v, "clean") {
        OperationType::Clean
    } else if is_str(&v, "test") {
        OperationType::Test
    } else if is_str(&v, "list") {
        OperationType::List
    } else {
        OperationType::Extract
    }
}

/// Queue state named by `s` (any case), `None` for anything else (all
/// items).
pub open spec fn status_named(s: Seq<char>) -> Option<QueueItemStatus> {
    let l = lowercase_of(s);
    if l == "pending"@ {
        Some(QueueItemStatus::Pending)
    } else if l == "running"@ {
        Some(QueueItemStatus::Running)
    } else if l == "paused"@ {
        Some(QueueItemStatus::Paused)
    } else if l == "completed"@ {
        Some(QueueItemStatus::Completed)
    } else if l == "failed"@ {
        Some(QueueItemStatus::Failed)
    } else if l == "cancelled"@ {
        Some(QueueItemStatus::Cancelled)
    } else {
        None
    }
}

pub fn parse_status_filter(s: &str) -> (r: Option<QueueItemStatus>)
    ensures
        r == status_named(s@),
{
    let l = to_lowercase(s);
    let v = chars_of(l.as_str());
    if is_str(&v, "pending") {
        Some(QueueItemStatus::Pending)
    } else if is_str(&v, "running") {
        Some(QueueItemStatus::Running)
    } else if is_str(&v, "paused") {
        Some(QueueItemStatus::Paused)
    } else if is_str(&v, "completed") {
        Some(QueueItemStatus::Completed)
    } else if is_str(&v, "failed") {
        Some(QueueItemStatus::Failed)
    } else if is_str(&v, "cancelled") {
        Some(QueueItemStatus::Cancelled)
    } else {
        None
    }
}

/// The message of `u64::from_str`'s error for `s`.
pub open spec fn int_error_text(s: Seq<char>) -> Seq<char> {
    if s.len() == 0 {
        "cannot parse integer from empty string"@
    } else if unsigned_body(s).len() > 0 && all_digits(unsigned_body(s)) {
        "number too large to fit in target type"@
    } else {
        "invalid digit found in string"@
    }
}

/// Reads a queue item id given on the command line.
pub fn parse_item_id(s: &str) -> (r: Result<OperationId>)
    ensures
        match parse_u64(s@) {
            Some(v) => r == Ok::<OperationId, TripleWrapperError>(OperationId(v)),
            None => r is Err && r->Err_0 is Internal && r->Err_0->Internal_0@ == int_error_text(s@),
        },
{
    match parse_u64_str(s) {
        Some(v) => Ok(OperationId(v)),
        None => {
            let v = chars_of(s);
            let body_start: usize = if v.len() > 0 && v[0] == '+' {
                1
            } else {
                0
            };
            let mut digits = body_start < v.len();
            let mut i = body_start;
            while i < v.len()
                invariant
                    body_start <= i <= v@.len(),
                    v@ == s@,
                    body_start == (if v@.len() > 0 && v@[0] == '+' { 1usize } else { 0usize }),
                    digits == (body_start < v@.len() && forall|k: int| body_start <= k < i ==> crate::text::is_digit(#[trigger] v@[k])),
                decreases v.len() - i,
            {
                if !('0' <= v[i] && v[i] <= '9') {
                    digits = false;
                }
                i = i + 1;
            }
            proof {
                let b = unsigned_body(s@);
                assert(b =~= s@.skip(body_start as int));
                if digits {
                    assert forall|k: int| 0 <= k < b.len() implies crate::text::is_digit(b[k]) by {
                        assert(b[k] == v@[k + body_start]);
                    }
                } else if body_start < v@.len() {
                    let k = choose|k: int| body_start <= k < v@.len() && !crate::text::is_digit(#[trigger] v@[k]);
                    assert(b[k - body_start] == v@[k]);
                }
            }
            let msg = if v.len() == 0 {
                owned("cannot parse integer from empty string")
            } else if digits {
                owned("number too large to fit in target type")
            } else {
                owned("invalid digit found in string")
            };
            Err(TripleWrapperError::Internal(msg))
        },
    }
}

// ---------------------------------------------------------------------------
// Preflight
// ---------------------------------------------------------------------------

/// Whether listing entry path `path` is one of the requested files: equal,
/// or ending with it.
pub open spec fn selected(path: Seq<char>, files: Seq<Seq<char>>) -> bool {
    exists|i: int| 0 <= i < files.len() && (path == files[i] || ends_with(path, #[trigger] files[i]))
}

/// Bytes a rewrite removes: sizes of the regular entries that are among
/// the requested files.
pub open spec fn removed_total(entries: Seq<EntryModel>, files: Seq<Seq<char>>) -> int
    decreases entries.len(),
{
    if entries.len() == 0 {
        0
    } else {
        let e = entries.last();
        removed_total(entries.drop_last(), files) + if !e.is_directory && selected(e.path, files) {
            e.size as int
        } else {
            0
        }
    }
}

fn is_selected(path: &str, files: &Vec<String>) -> (r: bool)
    ensures
        r == selected(path@, string_views(files@)),
{
    let p = chars_of(path);
    let ghost fs = string_views(files@);
    let mut i: usize = 0;
    while i < files.len()
        invariant
            i <= files@.len(),
            fs == string_views(files@),
            p@ == path@,
            forall|k: int| 0 <= k < i ==> !(path@ == fs[k] || ends_with(path@, #[trigger] fs[k])),
        decreases files.len() - i,
    {
        let f = chars_of(files[i].as_str());
        assert(fs[i as int] == f@);
        if seq_eq(&p, &f) || ends_with_exec(&p, &f) {
            return true;
        }
        i = i + 1;
    }
    false
}

proof fn lemma_removed_mono(es: Seq<EntryModel>, files: Seq<Seq<char>>, n: int)
    requires
        0 <= n <= es.len(),
    ensures
        removed_total(es.take(n), files) <= removed_total(es, files),
    decreases es.len() - n,
{
    if n < es.len() {
        lemma_removed_mono(es, files, n + 1);
        assert(es.take(n + 1).drop_last() =~= es.take(n));
    } else {
        assert(es.take(n) =~= es);
    }
}

/// Bytes an in-place rewrite removes (see [`removed_total`]); `None` when
/// the sum exceeds `u64`.
pub fn removed_bytes(entries: &Vec<ArchiveEntry>, files: &Vec<String>) -> (r: Option<u64>)
    ensures
        match r {
            Some(t) => t == removed_total(entry_views(entries@), string_views(files@)),
            None => removed_total(entry_views(entries@), string_views(files@)) > u64::MAX,
        },
{
    let ghost fs = string_views(files@);
    let mut total: u64 = 0;
    let mut i: usize = 0;
    while i < entries.len()
        invariant
            i <= entries@.len(),
            fs == string_views(files@),
            total == removed_total(entry_views(entries@.take(i as int)), fs),
        decreases entries.len() - i,
    {
        assert(entry_views(entries@.take(i + 1)).drop_last() =~= entry_views(entries@.take(i as int)));
        if !entries[i].is_directory && is_selected(entries[i].path.as_str(), files) {
            match total.checked_add(entries[i].size) {
                Some(t) => {
                    total = t;
                },
                None => {
                    proof {
                        lemma_removed_mono(entry_views(entries@), fs, i + 1);
                        assert(entry_views(entries@).take(i + 1) =~= entry_views(entries@.take(i + 1)));
                    }
                    return None;
                },
            }
        }
        i = i + 1;
    }
    assert(entries@.take(entries.len() as int) =~= entries@);
    Some(total)
}

/// What the preflight of an in-place rewrite decides.
#[derive(Debug, Clone, Copy, PartialEq, Eq, Structural)]
pub enum ModifyGate {
    /// The rewrite may start.
    Proceed,
    /// No disk has room: abort with the verdict's guidance.
    NoRoom,
    /// An external workspace is needed and none was given: abort, naming it.
    NeedsWorkspace,
}

/// Gate of an in-place rewrite: a critical verdict aborts; a verdict that
/// needs an external workspace aborts unless the request names one.
pub fn modify_gate(verdict: &StorageVerdict, has_workspace_override: bool) -> (g: ModifyGate)
    ensures
        g == match verdict {
            StorageVerdict::CriticalError { .. } => ModifyGate::NoRoom,
            StorageVerdict::ExternalRequired { .. } => if has_workspace_override {
                ModifyGate::Proceed
            } else {
                ModifyGate::NeedsWorkspace
            },
            StorageVerdict::InternalOk { .. } => ModifyGate::Proceed,
        },
{
    match verdict {
        StorageVerdict::CriticalError { .. } => ModifyGate::NoRoom,
        StorageVerdict::ExternalRequired { .. } => if has_workspace_override {
            ModifyGate::Proceed
        } else {
            ModifyGate::NeedsWorkspace
        },
        StorageVerdict::InternalOk { .. } => ModifyGate::Proceed,
    }
}

// ---------------------------------------------------------------------------
// Workers and runs
// ---------------------------------------------------------------------------

/// Which space check runs before a queued operation.
#[derive(Debug, Clone, Copy, PartialEq, Eq, Structural)]
pub enum PreflightKind {
    /// Output disk must hold the extracted files.
    Extraction,
    /// The archive's rewrite must fit.
    Rewrite,
    NoCheck,
}

/// What a worker does with a queued operation.
#[derive(Debug, Clone, Copy, PartialEq, Eq, Structural)]
pub enum WorkerAction {
    Extract,
    Test,
    Nothing,
}

/// The space check and the action a worker runs for an operation type:
/// extract and modify are checked as extractions and extract; clean is
/// checked as a rewrite and does nothing more; test only tests; list does
/// nothing.
pub fn worker_plan(op: OperationType) -> (r: (PreflightKind, WorkerAction))
    ensures
        r == match op {
            OperationType::Extract | OperationType::Modify => (PreflightKind::Extraction, WorkerAction::Extract),
            OperationType::Clean => (PreflightKind::Rewrite, WorkerAction::Nothing),
            OperationType::Test => (PreflightKind::NoCheck, WorkerAction::Test),
            OperationType::List => (PreflightKind::NoCheck, WorkerAction::Nothing),
        },
{
    match op {
        OperationType::Extract | OperationType::Modify => (PreflightKind::Extraction, WorkerAction::Extract),
        OperationType::Clean => (PreflightKind::Rewrite, WorkerAction::Nothing),
        OperationType::Test => (PreflightKind::NoCheck, WorkerAction::Test),
        OperationType::List => (PreflightKind::NoCheck, WorkerAction::Nothing),
    }
}

/// Files to extract: all (`None`) when the request names none.
pub fn files_selection(files: &Vec<String>) -> (r: Option<&Vec<String>>)
    ensures
        files@.len() == 0 <==> r is None,
        r is Some ==> r->Some_0@ == files@,
{
    if files.len() == 0 {
        None
    } else {
        Some(files)
    }
}

/// Whether a `run` operation (any case) is an integrity test rather than
/// an extraction.
pub fn run_is_test(operation: &str) -> (r: bool)
    ensures
        r == (lowercase_of(operation@) == "test"@),
{
    let l = to_lowercase(operation);
    str_eq(l.as_str(), "test")
}

/// Stage text of a progress tick: the current file, or `Extrayendo` while
/// none is reported.
pub fn tick_stage(current_file: &str) -> (r: String)
    ensures
        r@ == (if current_file@.len() == 0 {
            "Extrayendo"@
        } else {
            current_file@
        }),
{
    if chars_of(current_file).len() == 0 {
        owned("Extrayendo")
    } else {
        owned(current_file)
    }
}

/// Processed and total bytes of the final tick of an extraction: the larger
/// of the archive size and the bytes written, and that at least 1.
pub fn final_tick_totals(archive_size: u64, bytes_written: u64) -> (r: (u64, u64))
    ensures
        r.0 == (if archive_size >= bytes_written { archive_size } else { bytes_written }),
        r.1 == (if r.0 >= 1 { r.0 } else { 1 }),
{
    let done = if archive_size >= bytes_written {
        archive_size
    } else {
        bytes_written
    };
    (done, if done >= 1 {
        done
    } else {
        1
    })
}

// ---------------------------------------------------------------------------
// Column text
// ---------------------------------------------------------------------------

/// Bytes of a character in UTF-8.
pub open spec fn utf8_width(c: char) -> nat {
    if (c as u32) < 0x80 {
        1
    } else if (c as u32) < 0x800 {
        2
    } else if (c as u32) < 0x10000 {
        3
    } else {
        4
    }
}

/// Bytes of a text in UTF-8.
pub open spec fn utf8_len(s: Seq<char>) -> nat
    decreases s.len(),
{
    if s.len() == 0 {
        0
    } else {
        utf8_len(s.drop_last()) + utf8_width(s.last())
    }
}

/// Whether `n` bytes are exactly a whole number of leading characters.
pub open spec fn is_char_boundary(s: Seq<char>, n: nat) -> bool {
    exists|k: int| 0 <= k <= s.len() && #[trigger] utf8_len(s.take(k)) == n
}

/// Leading characters of `s` filling exactly `n` bytes.
pub open spec fn byte_prefix(s: Seq<char>, n: nat) -> Seq<char> {
    s.take(choose|k: int| 0 <= k <= s.len() && #[trigger] utf8_len(s.take(k)) == n)
}

/// `s` shortened to fit `max` bytes: unchanged when it fits, else its
/// first `max - 1` bytes followed by `…`.
pub open spec fn truncated(s: Seq<char>, max: nat) -> Seq<char> {
    if utf8_len(s) <= max {
        s
    } else {
        byte_prefix(s, if max >= 1 { (max - 1) as nat } else { 0 }) + seq!['…']
    }
}

proof fn lemma_utf8_len_take(s: Seq<char>, k: int)
    requires
        0 <= k < s.len(),
    ensures
        utf8_len(s.take(k + 1)) == utf8_len(s.take(k)) + utf8_width(s[k]),
        utf8_len(s.take(k + 1)) > utf8_len(s.take(k)),
{
    assert(s.take(k + 1).drop_last() =~= s.take(k));
}

proof fn lemma_utf8_len_mono(s: Seq<char>, a: int, b: int)
    requires
        0 <= a <= b <= s.len(),
    ensures
        utf8_len(s.take(a)) <= utf8_len(s.take(b)),
        a < b ==> utf8_len(s.take(a)) < utf8_len(s.take(b)),
    decreases b - a,
{
    if a < b {
        lemma_utf8_len_mono(s, a, b - 1);
        lemma_utf8_len_take(s, b - 1);
    }
}

fn utf8_width_exec(c: char) -> (w: u128)
    ensures
        w == utf8_width(c),
{
    if (c as u32) < 0x80 {
        1
    } else if (c as u32) < 0x800 {
        2
    } else if (c as u32) < 0x10000 {
        3
    } else {
        4
    }
}

/// Shortens `s` to `max` bytes with a trailing `…` (see [`truncated`]);
/// the cut must fall between characters.
pub fn truncate(s: &str, max: usize) -> (r: String)
    requires
        utf8_len(s@) <= max || is_char_boundary(s@, if max >= 1 { (max - 1) as nat } else { 0 }),
    ensures
        r@ == truncated(s@, max as nat),
{
    let v = chars_of(s);
    let mut total: u128 = 0;
    let mut k: usize = 0;
    while k < v.len()
        invariant
            k <= v@.len(),
            total as nat == utf8_len(v@.take(k as int)),
            total <= 4 * k,
        decreases v.len() - k,
    {
        proof {
            lemma_utf8_len_take(v@, k as int);
        }
        total = total + utf8_width_exec(v[k]);
        k = k + 1;
    }
    assert(v@.take(v@.len() as int) =~= v@);
    if total <= max as u128 {
        return owned(s);
    }
    let cut: u128 = if max >= 1 {
        (max - 1) as u128
    } else {
        0
    };
    let mut acc: u128 = 0;
    let mut kept: usize = 0;
    while kept < v.len() && acc + utf8_width_exec(v[kept]) <= cut
        invariant
            kept <= v@.len(),
            acc as nat == utf8_len(v@.take(kept as int)),
            acc <= cut,
            cut < 0x1_0000_0000_0000_0000,
        decreases v.len() - kept,
    {
        proof {
            lemma_utf8_len_take(v@, kept as int);
        }
        acc = acc + utf8_width_exec(v[kept]);
        kept = kept + 1;
    }
    proof {
        let n: nat = cut as nat;
        let kk = choose|kk: int| 0 <= kk <= s@.len() && #[trigger] utf8_len(s@.take(kk)) == n;
        if kk > kept {
            lemma_utf8_len_take(v@, kept as int);
            lemma_utf8_len_mono(v@, kept + 1, kk);
        }
        if kk < kept {
            lemma_utf8_len_mono(v@, kk, kept as int);
        }
        assert(kk == kept);
    }
    let mut out: Vec<char> = Vec::new();
    let mut i: usize = 0;
    while i < kept
        invariant
            i <= kept <= v@.len(),
            out@ == v@.take(i as int),
        decreases kept - i,
    {
        out.push(v[i]);
        assert(v@.take(i + 1) =~= v@.take(i as int).push(v@[i as int]));
        i = i + 1;
    }
    out.push('…');
    string_from(&out)
}

} // verus!
