//! Local integrity log: one JSON record per verified archive state, so a
//! later run can tell whether a file is bit-identical to one seen before.

use vstd::prelude::*;
use crate::queue::{data_file, data_file_path, unix_now_secs, user_data_dir};
use crate::text::{owned, str_eq};

verus! {

/// One verified state of an archive.
pub struct IntegrityRecord {
    pub archive_path: String,
    pub size_bytes: u64,
    pub mtime_secs: u64,
    pub blake3: String,
    pub operation: String,
    pub recorded_at: u64,
}

pub struct RecordModel {
    pub archive_path: Seq<char>,
    pub size_bytes: u64,
    pub mtime_secs: u64,
    pub blake3: Seq<char>,
    pub operation: Seq<char>,
    pub recorded_at: u64,
}

impl View for IntegrityRecord {
    type V = RecordModel;

    open spec fn view(&self) -> RecordModel {
        RecordModel {
            archive_path: self.archive_path@,
            size_bytes: self.size_bytes,
            mtime_secs: self.mtime_secs,
            blake3: self.blake3@,
            operation: self.operation@,
            recorded_at: self.recorded_at,
        }
    }
}

pub open spec fn record_views(v: Seq<IntegrityRecord>) -> Seq<RecordModel> {
    v.map_values(|r: IntegrityRecord| r@)
}

impl IntegrityRecord {
    /// The record of an archive's current state, stamped with the current
    /// time (seconds since the Unix epoch).
    pub fn recorded_now(
        archive_path: String,
        size_bytes: u64,
        mtime_secs: u64,
        blake3: String,
        operation: String,
    ) -> (r: Self)
        ensures
            r.archive_path@ == archive_path@,
            r.size_bytes == size_bytes,
            r.mtime_secs == mtime_secs,
            r.blake3@ == blake3@,
            r.operation@ == operation@,
    {
        IntegrityRecord {
            archive_path,
            size_bytes,
            mtime_secs,
            blake3,
            operation,
            recorded_at: unix_now_secs(),
        }
    }

    /// A copy of this record.
    pub fn duplicate(&self) -> (r: Self)
        ensures
            r@ == self@,
    {
        IntegrityRecord {
            archive_path: owned(self.archive_path.as_str()),
            size_bytes: self.size_bytes,
            mtime_secs: self.mtime_secs,
            blake3: owned(self.blake3.as_str()),
            operation: owned(self.operation.as_str()),
            recorded_at: self.recorded_at,
        }
    }
}

/// Index of the last record of `records` for `archive`.
pub open spec fn last_index_for(records: Seq<RecordModel>, archive: Seq<char>) -> Option<int>
    decreases records.len(),
{
    if records.len() == 0 {
        None
    } else if records.last().archive_path == archive {
        Some(records.len() - 1)
    } else {
        last_index_for(records.drop_last(), archive)
    }
}

/// Whether a current state matches the previous record: same BLAKE3 and
/// same size.
pub open spec fn state_matches(previous: Option<RecordModel>, current: RecordModel) -> bool {
    match previous {
        Some(p) => p.blake3 == current.blake3 && p.size_bytes == current.size_bytes,
        None => false,
    }
}

/// The append-only log at a path.
pub struct IntegrityDb {
    path: String,
}

impl IntegrityDb {
    pub closed spec fn path_spec(&self) -> Seq<char> {
        self.path@
    }

    /// The log at `<data dir or .>/triplewrapper/integrity.log`.
    pub fn at_data_dir(data_dir: Option<&str>) -> (db: Self)
        ensures
            db.path_spec() == data_file(crate::text::opt_view(data_dir), "integrity.log"@),
    {
        IntegrityDb { path: data_file_path(data_dir, "integrity.log") }
    }

    /// The log under the user data directory (`dirs_next::data_dir()`), or
    /// under `.` when there is none.
    pub fn at_user_data_dir() -> (db: Self)
        ensures
            exists|d: Option<Seq<char>>| db.path_spec() == data_file(d, "integrity.log"@),
    {
        let dir = user_data_dir();
        match dir {
            Some(d) => Self::at_data_dir(Some(d.as_str())),
            None => Self::at_data_dir(None),
        }
    }

    /// The log at an explicit path.
    pub fn at(path: &str) -> (db: Self)
        ensures
            db.path_spec() == path@,
    {
        IntegrityDb { path: owned(path) }
    }

    /// Where the log lives.
    pub fn path(&self) -> (r: &str)
        ensures
            r@ == self.path_spec(),
    {
        self.path.as_str()
    }

    /// The last record of `records` (oldest first) for `archive`, if any.
    pub fn last_for(records: &Vec<IntegrityRecord>, archive: &str) -> (r: Option<IntegrityRecord>)
        ensures
            match last_index_for(record_views(records@), archive@) {
                Some(k) => r is Some && r->Some_0@ == records@[k]@,
                None => r is None,
            },
    {
        let ghost rs = record_views(records@);
        let mut last: Option<IntegrityRecord> = None;
        let mut i: usize = 0;
        while i < records.len()
            invariant
                i <= records@.len(),
                rs == record_views(records@),
                match last_index_for(rs.take(i as int), archive@) {
                    Some(k) => last is Some && last->Some_0@ == records@[k]@ && 0 <= k < i,
                    None => last is None,
                },
            decreases records.len() - i,
        {
            let ghost t = rs.take(i + 1);
            assert(t.drop_last() =~= rs.take(i as int));
            assert(t.last() == records@[i as int]@);
            if str_eq(records[i].archive_path.as_str(), archive) {
                last = Some(records[i].duplicate());
            }
            i = i + 1;
        }
        assert(rs.take(records@.len() as int) =~= rs);
        last
    }

    /// Whether `current` matches its previous record (see
    /// [`state_matches`]).
    pub fn check(previous: Option<&IntegrityRecord>, current: &IntegrityRecord) -> (r: bool)
        ensures
            r == state_matches(
                match previous {
                    Some(p) => Some(p@),
                    None => None,
                },
                current@,
            ),
    {
        match previous {
            Some(p) => str_eq(p.blake3.as_str(), current.blake3.as_str()) && p.size_bytes
                == current.size_bytes,
            None => false,
        }
    }
}

/// The non-empty lines of a log file's bytes, split at `\n`.
pub open spec fn log_lines(data: Seq<u8>) -> Seq<Seq<u8>>
    decreases data.len(),
{
    if data.len() == 0 {
        Seq::empty()
    } else {
        let i = first_newline(data);
        proof {
            lemma_first_newline(data);
        }
        let head = data.subrange(0, i);
        let rest = if i < data.len() {
            log_lines(data.subrange(i + 1, data.len() as int))
        } else {
            Seq::empty()
        };
        if head.len() > 0 {
            seq![head] + rest
        } else {
            rest
        }
    }
}

/// Index of the first `\n` in `data` (its length when there is none).
pub open spec fn first_newline(data: Seq<u8>) -> int
    decreases data.len(),
{
    if data.len() == 0 {
        0
    } else if data[0] == 10u8 {
        0
    } else {
        1 + first_newline(data.subrange(1, data.len() as int))
    }
}

pub proof fn lemma_first_newline(data: Seq<u8>)
    ensures
        0 <= first_newline(data) <= data.len(),
        forall|k: int| 0 <= k < first_newline(data) ==> data[k] != 10u8,
        first_newline(data) < data.len() ==> data[first_newline(data)] == 10u8,
    decreases data.len(),
{
    if data.len() > 0 && data[0] != 10u8 {
        let t = data.subrange(1, data.len() as int);
        lemma_first_newline(t);
        assert forall|k: int| 0 <= k < first_newline(data) implies data[k] != 10u8 by {
            if k > 0 {
                assert(data[k] == t[k - 1]);
            }
        }
        if first_newline(data) < data.len() {
            assert(data[first_newline(data)] == t[first_newline(t)]);
        }
    }
}

proof fn lemma_first_newline_at(data: Seq<u8>, i: int)
    requires
        0 <= i <= data.len(),
        forall|k: int| 0 <= k < i ==> data[k] != 10u8,
        i < data.len() ==> data[i] == 10u8,
    ensures
        first_newline(data) == i,
    decreases data.len(),
{
    if data.len() > 0 && data[0] != 10u8 {
        let t = data.subrange(1, data.len() as int);
        assert forall|k: int| 0 <= k < i - 1 implies t[k] != 10u8 by {
            assert(t[k] == data[k + 1]);
        }
        if i - 1 < t.len() {
            assert(t[i - 1] == data[i]);
        }
        lemma_first_newline_at(t, i - 1);
    }
}

/// Splits a log file into its non-empty lines (record candidates; corrupt
/// ones are skipped by the caller when they do not parse).
pub fn split_log_lines(data: &[u8]) -> (r: Vec<Vec<u8>>)
    ensures
        r@.len() == log_lines(data@).len(),
        forall|k: int| 0 <= k < r@.len() ==> #[trigger] r@[k]@ == log_lines(data@)[k],
{
    let mut out: Vec<Vec<u8>> = Vec::new();
    let mut start: usize = 0;
    let ghost mut done: Seq<Seq<u8>> = Seq::empty();
    assert(data@.subrange(0, data@.len() as int) =~= data@);
    assert(done + log_lines(data@) =~= log_lines(data@));
    while start < data.len()
        invariant
            start <= data@.len(),
            out@.len() == done.len(),
            forall|k: int| 0 <= k < out@.len() ==> #[trigger] out@[k]@ == done[k],
            done + log_lines(data@.subrange(start as int, data@.len() as int)) == log_lines(data@),
        decreases data.len() - start,
    {
        let ghost rest = data@.subrange(start as int, data@.len() as int);
        let mut line: Vec<u8> = Vec::new();
        let mut i = start;
        while i < data.len() && data[i] != 10u8
            invariant
                start <= i <= data@.len(),
                line@ == data@.subrange(start as int, i as int),
                forall|k: int| start <= k < i ==> data@[k] != 10u8,
            decreases data.len() - i,
        {
            line.push(data[i]);
            assert(data@.subrange(start as int, i + 1) =~= data@.subrange(start as int, i as int).push(data@[i as int]));
            i = i + 1;
        }
        proof {
            assert forall|k: int| 0 <= k < i - start implies rest[k] != 10u8 by {
                assert(rest[k] == data@[start + k]);
            }
            if i < data.len() {
                assert(rest[i - start] == data@[i as int]);
            }
            lemma_first_newline_at(rest, i - start);
            assert(rest.subrange(0, i - start) =~= line@);
            if i < data.len() {
                assert(rest.subrange(i - start + 1, rest.len() as int) =~= data@.subrange(i + 1, data@.len() as int));
            } else {
                assert(data@.subrange(data@.len() as int, data@.len() as int) =~= Seq::<u8>::empty());
            }
        }
        if line.len() > 0 {
            proof {
                done = done.push(line@);
            }
            out.push(line);
        }
        proof {
            if i < data.len() {
                assert(done + log_lines(data@.subrange(i + 1, data@.len() as int)) =~= log_lines(data@)) by {
                    if line@.len() > 0 {
                        assert(done.drop_last() + (seq![line@] + log_lines(data@.subrange(i + 1, data@.len() as int))) =~= done + log_lines(data@.subrange(i + 1, data@.len() as int)));
                    }
                }
            } else {
                assert(done + log_lines(data@.subrange(data@.len() as int, data@.len() as int)) =~= log_lines(data@)) by {
                    if line@.len() > 0 {
                        assert(done.drop_last() + (seq![line@] + Seq::<Seq<u8>>::empty()) =~= done + Seq::<Seq<u8>>::empty());
                    }
                }
            }
        }
        start = if i < data.len() {
            i + 1
        } else {
            i
        };
    }
    assert(data@.subrange(start as int, data@.len() as int) =~= Seq::<u8>::empty());
    assert(done + Seq::<Seq<u8>>::empty() =~= done);
    out
}

} // verus!
