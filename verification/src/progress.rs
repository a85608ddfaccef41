//! Progress bookkeeping of a running operation, and the readings of the
//! process's `/proc` files that feed host telemetry.

use vstd::prelude::*;
use crate::text::{
    chars_of, lines, parse_u64, parse_u64_exec, split_lines, split_once, split_once_exec,
    split_words, starts_with, starts_with_str, trim, trim_exec, words, slice_of, is_str, owned,
};
use crate::types::{OperationId, OperationStatus, ProgressTelemetry};

verus! {

/// A high-frequency update from a worker.
pub struct InternalProgressUpdate {
    /// Replaces the bytes-written counter.
    pub bytes_processed_override: Option<u64>,
    /// Replaces the current file.
    pub file_name: Option<String>,
}

impl Default for InternalProgressUpdate {
    fn default() -> (u: Self)
        ensures
            u.bytes_processed_override is None,
            u.file_name is None,
    {
        InternalProgressUpdate { bytes_processed_override: None, file_name: None }
    }
}

/// The counters of one operation.
pub struct ProgressCounters {
    pub status: OperationStatus,
    pub current_file: String,
    pub files_total: u32,
    pub files_processed: u32,
    pub bytes_read: u64,
    pub bytes_written: u64,
    pub bytes_compressed: u64,
}

impl ProgressCounters {
    /// Counters of an operation that is preparing and has done nothing.
    pub fn new(files_total: u32) -> (c: Self)
        ensures
            c.status == OperationStatus::Preparing,
            c.current_file@.len() == 0,
            c.files_total == files_total,
            c.files_processed == 0,
            c.bytes_read == 0,
            c.bytes_written == 0,
            c.bytes_compressed == 0,
    {
        ProgressCounters {
            status: OperationStatus::Preparing,
            current_file: String::new(),
            files_total,
            files_processed: 0,
            bytes_read: 0,
            bytes_written: 0,
            bytes_compressed: 0,
        }
    }

    /// Applies a worker update: an override of the bytes written and/or a
    /// new current file.
    pub fn apply(&mut self, update: InternalProgressUpdate)
        ensures
            final(self).bytes_written == match update.bytes_processed_override {
                Some(b) => b,
                None => old(self).bytes_written,
            },
            final(self).current_file@ == match update.file_name {
                Some(f) => f@,
                None => old(self).current_file@,
            },
            final(self).status == old(self).status,
            final(self).files_total == old(self).files_total,
            final(self).files_processed == old(self).files_processed,
            final(self).bytes_read == old(self).bytes_read,
            final(self).bytes_compressed == old(self).bytes_compressed,
    {
        match update.bytes_processed_override {
            Some(b) => self.bytes_written = b,
            None => {},
        }
        match update.file_name {
            Some(f) => self.current_file = f,
            None => {},
        }
    }

    /// A telemetry record of the counters, without rates or estimate; the
    /// host readings are passed in.
    pub fn snapshot(&self, operation_id: OperationId, cpu_percent_bits: u32, memory_bytes: u64) -> (t: ProgressTelemetry)
        ensures
            t.operation_id == operation_id,
            t.status == self.status,
            t.current_file@ == self.current_file@,
            t.files_total == self.files_total,
            t.files_processed == self.files_processed,
            t.bytes_total == 0,
            t.bytes_processed == self.bytes_written,
            t.bytes_per_second_read_bits == 0,
            t.bytes_per_second_write_bits == 0,
            t.bytes_per_second_compress_bits == 0,
            t.eta_seconds is None,
            t.cpu_percent_bits == cpu_percent_bits,
            t.memory_bytes == memory_bytes,
    {
        ProgressTelemetry {
            operation_id,
            status: self.status,
            current_file: owned(self.current_file.as_str()),
            files_total: self.files_total,
            files_processed: self.files_processed,
            bytes_total: 0,
            bytes_processed: self.bytes_written,
            bytes_per_second_read_bits: 0,
            bytes_per_second_write_bits: 0,
            bytes_per_second_compress_bits: 0,
            eta_seconds: None,
            cpu_percent_bits,
            memory_bytes,
        }
    }
}

/// Telemetry is emitted at most ten times a second.
pub fn should_emit(ms_since_last_emit: u64) -> (r: bool)
    ensures
        r == (ms_since_last_emit >= 100),
{
    ms_since_last_emit >= 100
}

/// Byte counters at the previous emission.
pub struct RateWindow {
    pub last_written: u64,
    pub last_read: u64,
    pub last_compressed: u64,
}

impl RateWindow {
    pub fn new() -> (w: Self)
        ensures
            w.last_written == 0 && w.last_read == 0 && w.last_compressed == 0,
    {
        RateWindow { last_written: 0, last_read: 0, last_compressed: 0 }
    }

    /// Bytes written, read and compressed since the previous emission (never
    /// negative); the window moves to the current counters.
    pub fn advance(&mut self, c: &ProgressCounters) -> (d: (u64, u64, u64))
        ensures
            d.0 == crate::types::sat_sub(c.bytes_written, old(self).last_written),
            d.1 == crate::types::sat_sub(c.bytes_read, old(self).last_read),
            d.2 == crate::types::sat_sub(c.bytes_compressed, old(self).last_compressed),
            final(self).last_written == c.bytes_written,
            final(self).last_read == c.bytes_read,
            final(self).last_compressed == c.bytes_compressed,
    {
        let d = (
            c.bytes_written.saturating_sub(self.last_written),
            c.bytes_read.saturating_sub(self.last_read),
            c.bytes_compressed.saturating_sub(self.last_compressed),
        );
        self.last_written = c.bytes_written;
        self.last_read = c.bytes_read;
        self.last_compressed = c.bytes_compressed;
        d
    }
}

/// Bytes still to write, extrapolating the bytes per finished file to all
/// files (`None` when the total number of files is unknown).
pub open spec fn remaining_bytes(written: u64, files_total: u32, files_processed: u32) -> Option<nat> {
    if files_total == 0 {
        None
    } else {
        let done = if files_processed < 1 {
            1nat
        } else {
            files_processed as nat
        };
        let total = (written * files_total) as nat / done;
        Some(if total < written {
            0
        } else {
            (total - written) as nat
        })
    }
}

/// Estimated bytes still to write (see [`remaining_bytes`]).
pub fn remaining_estimate(written: u64, files_total: u32, files_processed: u32) -> (r: Option<u64>)
    requires
        written * files_total <= u64::MAX,
    ensures
        match remaining_bytes(written, files_total, files_processed) {
            Some(n) => r == Some(n as u64),
            None => r is None,
        },
{
    if files_total == 0 {
        return None;
    }
    let done: u64 = if files_processed < 1 {
        1
    } else {
        files_processed as u64
    };
    let total = written * (files_total as u64) / done;
    Some(total.saturating_sub(written))
}

// ---------------------------------------------------------------------------
// /proc readings
// ---------------------------------------------------------------------------

/// The value of one `key: value` line of `/proc/<pid>/io` applied to the
/// running (read, write) totals; `None` when the value is not a number.
pub open spec fn io_line(acc: (u64, u64), line: Seq<char>) -> Option<(u64, u64)> {
    match split_once(line, ':') {
        Some((k, v)) => match parse_u64(trim(v)) {
            Some(x) => if trim(k) == "read_bytes"@ {
                Some((x, acc.1))
            } else if trim(k) == "write_bytes"@ {
                Some((acc.0, x))
            } else {
                Some(acc)
            },
            None => None,
        },
        None => Some(acc),
    }
}

/// Read and written bytes of `/proc/<pid>/io`: the last `read_bytes` and
/// `write_bytes` values (0 when absent); `None` as soon as a `key: value`
/// line has no number.
pub open spec fn io_stats(ls: Seq<Seq<char>>) -> Option<(u64, u64)>
    decreases ls.len(),
{
    if ls.len() == 0 {
        Some((0, 0))
    } else {
        match io_stats(ls.drop_last()) {
            Some(acc) => io_line(acc, ls.last()),
            None => None,
        }
    }
}

/// Parses `/proc/<pid>/io` (see [`io_stats`]).
pub fn parse_io_stats(content: &str) -> (r: Option<(u64, u64)>)
    ensures
        r == io_stats(lines(content@)),
{
    let v = chars_of(content);
    let ls = split_lines(&v);
    let ghost all = lines(content@);
    let mut read: u64 = 0;
    let mut write: u64 = 0;
    let mut i: usize = 0;
    while i < ls.len()
        invariant
            i <= ls@.len(),
            ls@.len() == all.len(),
            all == lines(content@),
            forall|k: int| 0 <= k < ls@.len() ==> (#[trigger] ls@[k])@ == all[k],
            io_stats(all.take(i as int)) == Some((read, write)),
        decreases ls.len() - i,
    {
        assert(all.take(i + 1).drop_last() =~= all.take(i as int));
        assert(all.take(i + 1).last() == ls@[i as int]@);
        match split_once_exec(&ls[i], ':') {
            Some((k, val)) => {
                let tv = trim_exec(&val);
                match parse_u64_exec(&tv) {
                    Some(x) => {
                        let tk = trim_exec(&k);
                        if is_str(&tk, "read_bytes") {
                            read = x;
                        } else if is_str(&tk, "write_bytes") {
                            write = x;
                        }
                    },
                    None => {
                        proof {
                            lemma_io_stats_none(all, i as int);
                        }
                        return None;
                    },
                }
            },
            None => {},
        }
        i = i + 1;
    }
    assert(all.take(all.len() as int) =~= all);
    Some((read, write))
}

proof fn lemma_io_stats_none(ls: Seq<Seq<char>>, i: int)
    requires
        0 <= i < ls.len(),
        io_stats(ls.take(i + 1)) is None,
    ensures
        io_stats(ls) is None,
    decreases ls.len() - i,
{
    if i + 1 < ls.len() {
        assert(ls.take(i + 2).drop_last() =~= ls.take(i + 1));
        lemma_io_stats_none(ls, i + 1);
    } else {
        assert(ls.take(i + 1) =~= ls);
    }
}

/// Index of the first line starting with `p`.
pub open spec fn first_line_with(ls: Seq<Seq<char>>, p: Seq<char>) -> Option<int> {
    if exists|i: int| 0 <= i < ls.len() && starts_with(ls[i], p) {
        Some(choose|i: int| 0 <= i < ls.len() && starts_with(ls[i], p) && forall|j: int| 0 <= j < i ==> !starts_with(#[trigger] ls[j], p))
    } else {
        None
    }
}

pub open spec fn sat_mul_1024(x: u64) -> u64 {
    if x * 1024 > u64::MAX {
        u64::MAX
    } else {
        (x * 1024) as u64
    }
}

/// Resident memory of `/proc/<pid>/status` in bytes: the first word after
/// `VmRSS:` on the first such line, in KiB, times 1024 (saturating).
pub open spec fn vmrss_bytes(ls: Seq<Seq<char>>) -> Option<u64> {
    match first_line_with(ls, "VmRSS:"@) {
        Some(i) => {
            let ws = words(ls[i].skip(6));
            if ws.len() == 0 {
                None
            } else {
                match parse_u64(ws[0]) {
                    Some(kb) => Some(sat_mul_1024(kb)),
                    None => None,
                }
            }
        },
        None => None,
    }
}

/// Parses `/proc/<pid>/status` for the resident memory (see
/// [`vmrss_bytes`]).
pub fn parse_memory_bytes(content: &str) -> (r: Option<u64>)
    ensures
        r == vmrss_bytes(lines(content@)),
{
    let v = chars_of(content);
    let ls = split_lines(&v);
    let ghost all = lines(content@);
    proof {
        reveal_strlit("VmRSS:");
    }
    let mut i: usize = 0;
    while i < ls.len()
        invariant
            i <= ls@.len(),
            ls@.len() == all.len(),
            all == lines(content@),
            forall|k: int| 0 <= k < ls@.len() ==> (#[trigger] ls@[k])@ == all[k],
            forall|j: int| 0 <= j < i ==> !starts_with(#[trigger] all[j], "VmRSS:"@),
        decreases ls.len() - i,
    {
        proof {
            reveal_strlit("VmRSS:");
        }
        let line = &ls[i];
        if starts_with_str(line, "VmRSS:") {
            proof {
                assert(ls@[i as int]@ == all[i as int]);
                let k = choose|k: int|
                    0 <= k < all.len() && starts_with(all[k], "VmRSS:"@) && forall|j: int|
                        0 <= j < k ==> !starts_with(#[trigger] all[j], "VmRSS:"@);
                if k < i {
                    assert(!starts_with(all[k], "VmRSS:"@));
                }
                if k > i {
                    assert(!starts_with(all[i as int], "VmRSS:"@));
                }
            }
            let rest = slice_of(line, 6, line.len());
            assert(rest@ =~= all[i as int].skip(6));
            let ws = split_words(&rest);
            if ws.len() == 0 {
                return None;
            }
            return match parse_u64_exec(&ws[0]) {
                Some(kb) => Some(if kb > u64::MAX / 1024 {
                    u64::MAX
                } else {
                    kb * 1024
                }),
                None => None,
            };
        }
        assert(ls@[i as int]@ == all[i as int]);
        i = i + 1;
    }
    None
}

/// User and system CPU ticks of `/proc/<pid>/stat` (fields 14 and 15);
/// `None` when there are fewer than 22 fields or they are not numbers.
pub open spec fn cpu_fields(ws: Seq<Seq<char>>) -> Option<(u64, u64)> {
    if ws.len() < 22 {
        None
    } else {
        match (parse_u64(ws[13]), parse_u64(ws[14])) {
            (Some(u), Some(s)) => Some((u, s)),
            _ => None,
        }
    }
}

/// Parses `/proc/<pid>/stat` for the CPU ticks (see [`cpu_fields`]).
pub fn parse_cpu_fields(content: &str) -> (r: Option<(u64, u64)>)
    ensures
        r == cpu_fields(words(content@)),
{
    let v = chars_of(content);
    let ws = split_words(&v);
    if ws.len() < 22 {
        return None;
    }
    match (parse_u64_exec(&ws[13]), parse_u64_exec(&ws[14])) {
        (Some(u), Some(s)) => Some((u, s)),
        _ => None,
    }
}

/// Total CPU ticks of a process: user plus system.
pub fn cpu_ticks(utime: u64, stime: u64) -> (t: u64)
    requires
        utime + stime <= u64::MAX,
    ensures
        t == utime + stime,
{
    utime + stime
}

} // verus!
