//! Properties of the library as a whole, proved over the specifications
//! that the operations' contracts use.

use vstd::prelude::*;
use crate::archive::{apply_field, entry_for_path, flushed, listing_after, listing_step, redacted, resume_skips, tail_after, SevenZListing};
use crate::types::{builtin_format, ArchiveFormat, EntryModel};
use crate::checksum::digest_of;
use crate::engine::{has_candidate, is_first_ranked, ranks_before, verdict_matches, workspace_candidate, StorageVerdict};
use crate::integrity::{state_matches, RecordModel};
use crate::mount::{is_device_char, is_device_path_spec, listed_before, slot_for, stable_sorted, DeviceModel};
use crate::paths::{components, extension, file_name, kept_segments, last_index, path_eq, split_char};
use crate::queue::{
    cleaned, first_with_status, insert_pos, is_terminal, lemma_first_with_status, lemma_insert_pos_bounds,
    lemma_max_id_bound, max_id, ordered_by_priority, rank, restored, restored_queue, ItemModel, QueueItemStatus,
};
use crate::text::{first_index, split_once, starts_with, trim};
use crate::types::{sat_add, sat_sub, ChecksumAlgorithm, CompressionEstimate, DiskInfo};
use crate::utils::{is_control, is_reserved_name_char, sanitized, sanitized_char};

verus! {

// ---------------------------------------------------------------------------
// Storage decisions
// ---------------------------------------------------------------------------

/// A verdict never sends work to a disk without room: an internal rewrite
/// fits on the source disk; an external workspace is a non-system disk
/// other than the source with room for the whole need; a critical verdict
/// means the source disk lacks room and, when automatic selection is on,
/// no other disk has it either.
pub proof fn law_verdict_respects_space(
    v: StorageVerdict,
    disks: Seq<DiskInfo>,
    src: DiskInfo,
    estimate: CompressionEstimate,
    margin: u64,
    auto_select: bool,
)
    requires
        verdict_matches(v, disks, src, estimate, margin, auto_select),
    ensures
        ({
            let needed = sat_add(estimate.space_needed_for_rewrite, margin);
            &&& v is InternalOk ==> src.free_bytes >= needed
            &&& (v matches StorageVerdict::ExternalRequired { workspace_disk, .. } ==> {
                &&& workspace_disk.free_bytes >= needed
                &&& !workspace_disk.is_system
                &&& !path_eq(workspace_disk.mount_point@, src.mount_point@)
            })
            &&& v is CriticalError ==> src.free_bytes < needed && (auto_select ==> !has_candidate(
                disks,
                needed,
                Some(src.mount_point@),
            ))
        }),
{
    let needed = sat_add(estimate.space_needed_for_rewrite, margin);
    let ex = Some(src.mount_point@);
    if src.free_bytes < needed && auto_select && has_candidate(disks, needed, ex) {
        let i = choose|i: int| #![trigger disks[i]] is_first_ranked(disks, needed, ex, i) && match v {
            StorageVerdict::ExternalRequired { workspace_disk, .. } => workspace_disk == disks[i],
            _ => false,
        };
        assert(workspace_candidate(disks[i], needed, ex));
    }
}

/// The disk chosen as workspace has the most free space among the
/// candidates of its kind (removable or not), and an internal disk is only
/// chosen when no removable disk qualifies.
pub proof fn law_chosen_disk_has_most_room(
    disks: Seq<DiskInfo>,
    needed: u64,
    excluded: Option<Seq<char>>,
    i: int,
    j: int,
)
    requires
        is_first_ranked(disks, needed, excluded, i),
        0 <= j < disks.len(),
        workspace_candidate(disks[j], needed, excluded),
    ensures
        disks[j].is_removable == disks[i].is_removable ==> disks[j].free_bytes <= disks[i].free_bytes,
        !disks[i].is_removable ==> !disks[j].is_removable,
{
    assert(!ranks_before(disks[j], disks[i]));
}

/// An external workspace is the roomiest candidate of its kind: every other
/// non-system disk (not the source) with the needed room and the same
/// removability has no more free space.
pub proof fn law_external_workspace_is_roomiest(
    v: StorageVerdict,
    disks: Seq<DiskInfo>,
    src: DiskInfo,
    estimate: CompressionEstimate,
    margin: u64,
    auto_select: bool,
    j: int,
)
    requires
        verdict_matches(v, disks, src, estimate, margin, auto_select),
        v is ExternalRequired,
        0 <= j < disks.len(),
        workspace_candidate(
            disks[j],
            sat_add(estimate.space_needed_for_rewrite, margin),
            Some(src.mount_point@),
        ),
    ensures
        v matches StorageVerdict::ExternalRequired { workspace_disk, .. } ==> {
            &&& disks[j].is_removable == workspace_disk.is_removable ==> disks[j].free_bytes
                <= workspace_disk.free_bytes
            &&& !workspace_disk.is_removable ==> !disks[j].is_removable
        },
{
    let needed = sat_add(estimate.space_needed_for_rewrite, margin);
    let ex = Some(src.mount_point@);
    let i = choose|i: int| #![trigger disks[i]] is_first_ranked(disks, needed, ex, i) && match v {
        StorageVerdict::ExternalRequired { workspace_disk, .. } => workspace_disk == disks[i],
        _ => false,
    };
    law_chosen_disk_has_most_room(disks, needed, ex, i, j);
}

// ---------------------------------------------------------------------------
// Queue
// ---------------------------------------------------------------------------

/// The item a worker takes next has the highest priority among the pending
/// items, and among those of that priority it was queued first.
pub proof fn law_next_item_has_top_priority(items: Seq<ItemModel>)
    requires
        ordered_by_priority(items),
    ensures
        match first_with_status(items, QueueItemStatus::Pending) {
            Some(k) => forall|j: int|
                0 <= j < items.len() && items[j].status == QueueItemStatus::Pending ==> k <= j && rank(
                    #[trigger] items[j].priority,
                ) <= rank(items[k].priority),
            None => forall|j: int| 0 <= j < items.len() ==> items[j].status != QueueItemStatus::Pending,
        },
{
    lemma_first_with_status(items, QueueItemStatus::Pending);
}

/// A newly queued item goes after every item of equal or higher priority
/// and before every item of lower priority.
pub proof fn law_enqueue_position(items: Seq<ItemModel>, m: ItemModel)
    requires
        ordered_by_priority(items),
    ensures
        ({
            let k = insert_pos(items, m.priority);
            let after = items.insert(k, m);
            &&& after[k] == m
            &&& forall|j: int| 0 <= j < k ==> rank(#[trigger] after[j].priority) >= rank(m.priority)
            &&& forall|j: int| k < j < after.len() ==> rank(#[trigger] after[j].priority) < rank(m.priority)
        }),
{
    lemma_insert_pos_bounds(items, m.priority);
    let k = insert_pos(items, m.priority);
    let after = items.insert(k, m);
    assert forall|j: int| k < j < after.len() implies rank(#[trigger] after[j].priority) < rank(m.priority) by {
        assert(after[j] == items[j - 1]);
        assert(rank(items[j - 1].priority) <= rank(items[k].priority));
    }
}

/// The id given to a newly queued item (one above the largest) differs from
/// every id already queued.
pub proof fn law_new_id_is_fresh(items: Seq<ItemModel>)
    requires
        max_id(items) < u64::MAX,
    ensures
        forall|j: int| 0 <= j < items.len() ==> (#[trigger] items[j]).id.0 != max_id(items) + 1,
{
    lemma_max_id_bound(items);
}

/// Pausing a pending item and resuming it gives back the queue as it was.
pub proof fn law_pause_then_resume(items: Seq<ItemModel>, k: int)
    requires
        0 <= k < items.len(),
        items[k].status == QueueItemStatus::Pending,
    ensures
        ({
            let paused = items.update(k, ItemModel { status: QueueItemStatus::Paused, ..items[k] });
            paused.update(k, ItemModel { status: QueueItemStatus::Pending, ..paused[k] }) == items
        }),
{
    let paused = items.update(k, ItemModel { status: QueueItemStatus::Paused, ..items[k] });
    assert(paused.update(k, ItemModel { status: QueueItemStatus::Pending, ..paused[k] }) =~= items);
}

/// A clean-up never drops an unfinished (pending, running or paused) item.
pub proof fn law_cleanup_keeps_unfinished(items: Seq<ItemModel>, cutoff: u64, j: int)
    requires
        0 <= j < items.len(),
        !is_terminal(items[j].status),
    ensures
        cleaned(items, cutoff).contains(items[j]),
{
    items.lemma_filter_contains(|m: ItemModel| crate::queue::survives_cleanup(m, cutoff), j);
}

/// Clean-up by age: with `max_age` seconds and the clock at `now`, a
/// finished item completed `max_age` or more seconds before `now` is gone,
/// and one completed less than `max_age` seconds before `now` is kept
/// (unless its completion time is 0, which counts as unknown).
pub proof fn law_cleanup_by_age(items: Seq<ItemModel>, now: u64, max_age: u64, j: int)
    requires
        0 <= j < items.len(),
        is_terminal(items[j].status),
    ensures
        items[j].completed_at matches Some(t) && t + max_age <= now ==> !cleaned(
            items,
            sat_sub(now, max_age),
        ).contains(items[j]),
        items[j].completed_at matches Some(t) && t + max_age > now && t > 0 ==> cleaned(
            items,
            sat_sub(now, max_age),
        ).contains(items[j]),
{
    let cutoff = sat_sub(now, max_age);
    let pred = |m: ItemModel| crate::queue::survives_cleanup(m, cutoff);
    let c = items.filter(pred);
    if c.contains(items[j]) {
        let k = choose|k: int| 0 <= k < c.len() && c[k] == items[j];
        items.lemma_filter_pred(pred, k);
    }
    if pred(items[j]) {
        items.lemma_filter_contains(pred, j);
    }
}

/// After a restart the queue holds only waiting items (pending or paused),
/// still in priority order.
pub proof fn law_restart_leaves_only_waiting(items: Seq<ItemModel>)
    ensures
        ordered_by_priority(restored_queue(items)),
        forall|j: int|
            0 <= j < restored_queue(items).len() ==> {
                let s = (#[trigger] restored_queue(items)[j]).status;
                s == QueueItemStatus::Pending || s == QueueItemStatus::Paused
            },
    decreases items.len(),
{
    if items.len() > 0 {
        law_restart_leaves_only_waiting(items.drop_last());
        let q = restored_queue(items.drop_last());
        match restored(items.last()) {
            Some(m) => {
                crate::queue::lemma_insert_keeps_order(q, m);
                lemma_insert_pos_bounds(q, m.priority);
                let k = insert_pos(q, m.priority);
                assert forall|j: int| 0 <= j < q.insert(k, m).len() implies {
                    let s = (#[trigger] q.insert(k, m)[j]).status;
                    s == QueueItemStatus::Pending || s == QueueItemStatus::Paused
                } by {
                    if j < k {
                        assert(q.insert(k, m)[j] == q[j]);
                    } else if j > k {
                        assert(q.insert(k, m)[j] == q[j - 1]);
                    }
                }
            },
            None => {},
        }
    }
}

// ---------------------------------------------------------------------------
// Device listing and paths
// ---------------------------------------------------------------------------

/// Sort key of a listing entry: removable above everything else, then size.
pub open spec fn listing_key(d: DeviceModel) -> int {
    (if d.removable {
        0x1_0000_0000_0000_0000int
    } else {
        0int
    }) + d.size_bytes as int
}

/// The offered devices come removable first, then biggest first.
pub open spec fn listing_ordered(s: Seq<DeviceModel>) -> bool {
    forall|i: int, j: int| 0 <= i < j < s.len() ==> listing_key(#[trigger] s[j]) <= listing_key(#[trigger] s[i])
}

proof fn lemma_listed_before_key(a: DeviceModel, b: DeviceModel)
    ensures
        listed_before(a, b) <==> listing_key(a) > listing_key(b),
{
}

proof fn lemma_slot_splits(t: Seq<DeviceModel>, x: DeviceModel)
    requires
        listing_ordered(t),
    ensures
        0 <= slot_for(t, x) <= t.len(),
        forall|i: int| 0 <= i < slot_for(t, x) ==> listing_key(#[trigger] t[i]) >= listing_key(x),
        forall|i: int| slot_for(t, x) <= i < t.len() ==> listing_key(#[trigger] t[i]) < listing_key(x),
    decreases t.len(),
{
    if t.len() > 0 {
        let u = t.drop_last();
        assert(listing_ordered(u)) by {
            assert forall|i: int, j: int| 0 <= i < j < u.len() implies listing_key(#[trigger] u[j]) <= listing_key(#[trigger] u[i]) by {
                assert(u[i] == t[i] && u[j] == t[j]);
            }
        }
        lemma_slot_splits(u, x);
        lemma_listed_before_key(x, t.last());
        if listed_before(x, t.last()) {
            assert forall|i: int| slot_for(t, x) <= i < t.len() implies listing_key(#[trigger] t[i]) < listing_key(x) by {
                if i < t.len() - 1 {
                    assert(t[i] == u[i]);
                }
            }
            assert forall|i: int| 0 <= i < slot_for(t, x) implies listing_key(#[trigger] t[i]) >= listing_key(x) by {
                assert(t[i] == u[i]);
            }
        } else {
            assert forall|i: int| 0 <= i < slot_for(t, x) implies listing_key(#[trigger] t[i]) >= listing_key(x) by {
                assert(listing_key(t[i]) >= listing_key(t[t.len() - 1]));
            }
        }
    }
}

/// The listing of unmounted partitions is ordered: removable first, then by
/// size, biggest first; nothing is lost or added.
pub proof fn law_listing_sorted(s: Seq<DeviceModel>)
    ensures
        listing_ordered(stable_sorted(s)),
        stable_sorted(s).len() == s.len(),
        stable_sorted(s).to_multiset() == s.to_multiset(),
    decreases s.len(),
{
    if s.len() == 0 {
        assert(stable_sorted(s) =~= s);
    } else {
        law_listing_sorted(s.drop_last());
        let t = stable_sorted(s.drop_last());
        let x = s.last();
        lemma_slot_splits(t, x);
        let k = slot_for(t, x);
        let r = t.insert(k, x);
        vstd::seq_lib::to_multiset_insert(t, k, x);
        vstd::seq_lib::to_multiset_build(s.drop_last(), x);
        assert(s.drop_last().push(x) =~= s);
        assert forall|i: int, j: int| 0 <= i < j < r.len() implies listing_key(#[trigger] r[j]) <= listing_key(#[trigger] r[i]) by {
            if j < k {
                assert(r[i] == t[i] && r[j] == t[j]);
            } else if j == k {
                assert(r[i] == t[i]);
            } else if i < k {
                assert(r[i] == t[i] && r[j] == t[j - 1]);
            } else if i == k {
                assert(r[j] == t[j - 1]);
            } else {
                assert(r[i] == t[i - 1] && r[j] == t[j - 1]);
            }
        }
    }
}

/// A device path that passes the check holds no space, quote, separator or
/// other shell metacharacter: only letters, digits and `/ _ - +`.
pub proof fn law_device_path_is_inert(p: Seq<char>, i: int)
    requires
        is_device_path_spec(p),
        0 <= i < p.len(),
    ensures
        p[i] != ' ' && p[i] != ';' && p[i] != '&' && p[i] != '|' && p[i] != '$' && p[i] != '`' && p[i]
            != '\'' && p[i] != '"' && p[i] != '\n' && p[i] != '.',
{
    if i >= 5 {
        assert(is_device_char(p[i]));
    } else {
        reveal_strlit("/dev/");
        assert(p.take(5) == "/dev/"@);
        assert(p[i] == p.take(5)[i]);
    }
}

// ---------------------------------------------------------------------------
// Archive formats
// ---------------------------------------------------------------------------

/// The extension of a plain file name `pre.ext` (no `/`, not starting with
/// `.`, no `.` in `ext`) is `ext`.
proof fn lemma_simple_extension(pre: Seq<char>, ext: Seq<char>)
    requires
        pre.len() > 0,
        pre[0] != '.',
        forall|i: int| 0 <= i < pre.len() ==> pre[i] != '/',
        forall|i: int| 0 <= i < ext.len() ==> ext[i] != '/' && ext[i] != '.',
    ensures
        extension(pre + seq!['.'] + ext) == Some(ext),
{
    let s = pre + seq!['.'] + ext;
    let n = pre.len() as int;
    assert(forall|i: int| 0 <= i < s.len() ==> s[i] != '/') by {
        assert forall|i: int| 0 <= i < s.len() implies s[i] != '/' by {
            if i < n {
                assert(s[i] == pre[i]);
            } else if i > n {
                assert(s[i] == ext[i - n - 1]);
            }
        }
    }
    assert(first_index(s, '/') is None);
    assert(split_char(s, '/') == seq![s]);
    assert(s.len() >= 2);
    assert(s != seq!['.']);
    assert(seq![s].drop_first() =~= Seq::<Seq<char>>::empty());
    assert(kept_segments(seq![s].drop_first()) == Seq::<Seq<char>>::empty());
    assert(kept_segments(seq![s]) =~= seq![s]);
    reveal(components);
    assert(components(s) =~= seq![s]);
    assert(s != seq!['/']);
    assert(s != seq!['.', '.']) by {
        if s == seq!['.', '.'] {
            assert(s[0] == pre[0]);
        }
    }
    assert(file_name(s) == Some(s));
    assert(s[n] == '.');
    let k = last_index(s, '.')->0;
    assert(last_index(s, '.') is Some);
    assert(k == n) by {
        if k < n {
            assert(s[n] != '.');
        } else if k > n {
            assert(s[k] == ext[k - n - 1]);
        }
    }
    assert(s.skip(n + 1) =~= ext);
}

/// The builtin table on the final extensions of the default extensions.
#[verifier::spinoff_prover]
proof fn lemma_builtin_table()
    ensures
        builtin_format(seq!['7', 'z']) == Some(ArchiveFormat::SevenZ),
        builtin_format(seq!['z', 'i', 'p']) == Some(ArchiveFormat::Zip),
        builtin_format(seq!['r', 'a', 'r']) == Some(ArchiveFormat::Rar),
        builtin_format(seq!['t', 'a', 'r']) == Some(ArchiveFormat::Tar),
        builtin_format(seq!['g', 'z']) == Some(ArchiveFormat::TarGz),
        builtin_format(seq!['x', 'z']) == Some(ArchiveFormat::TarXz),
        builtin_format(seq!['z', 's', 't']) == Some(ArchiveFormat::TarZst),
        builtin_format(seq!['b', 'z', '2']) == Some(ArchiveFormat::TarBz2),
        builtin_format(seq!['p', 'i', 'x', 'z']) == Some(ArchiveFormat::Pixz),
{
    reveal_strlit("7z");
    reveal_strlit("zip");
    reveal_strlit("rar");
    reveal_strlit("tar");
    reveal_strlit("gz");
    reveal_strlit("tgz");
    reveal_strlit("xz");
    reveal_strlit("txz");
    reveal_strlit("zst");
    reveal_strlit("tzst");
    reveal_strlit("bz2");
    reveal_strlit("tbz2");
    reveal_strlit("pixz");
    assert(seq!['7', 'z'] =~= "7z"@);
    assert(seq!['z', 'i', 'p'] =~= "zip"@);
    assert(seq!['r', 'a', 'r'] =~= "rar"@);
    assert(seq!['t', 'a', 'r'] =~= "tar"@);
    assert(seq!['g', 'z'] =~= "gz"@);
    assert(seq!['x', 'z'] =~= "xz"@);
    assert(seq!['z', 's', 't'] =~= "zst"@);
    assert(seq!['b', 'z', '2'] =~= "bz2"@);
    assert(seq!['p', 'i', 'x', 'z'] =~= "pixz"@);
}

/// A builtin format is recovered from its own default extension: the
/// extension of `a.<default extension>` names that very format (so a
/// `.tar.zst` archive is zstd, a `.tar.xz` one xz, and so on).
#[verifier::spinoff_prover]
pub proof fn law_default_extension_round_trip(f: ArchiveFormat)
    requires
        !(f is External),
    ensures
        extension("a."@ + f.default_extension_spec()) is Some,
        builtin_format(extension("a."@ + f.default_extension_spec())->0) == Some(f),
{
    reveal_strlit("a.");
    lemma_builtin_table();
    match f {
        ArchiveFormat::SevenZ => {
            reveal_strlit("7z");
            let pre = seq!['a'];
            let ext = seq!['7', 'z'];
            assert("a."@ + "7z"@ =~= pre + seq!['.'] + ext);
            lemma_simple_extension(pre, ext);
        },
        ArchiveFormat::Zip => {
            reveal_strlit("zip");
            let pre = seq!['a'];
            let ext = seq!['z', 'i', 'p'];
            assert("a."@ + "zip"@ =~= pre + seq!['.'] + ext);
            lemma_simple_extension(pre, ext);
        },
        ArchiveFormat::Rar => {
            reveal_strlit("rar");
            let pre = seq!['a'];
            let ext = seq!['r', 'a', 'r'];
            assert("a."@ + "rar"@ =~= pre + seq!['.'] + ext);
            lemma_simple_extension(pre, ext);
        },
        ArchiveFormat::Tar => {
            reveal_strlit("tar");
            let pre = seq!['a'];
            let ext = seq!['t', 'a', 'r'];
            assert("a."@ + "tar"@ =~= pre + seq!['.'] + ext);
            lemma_simple_extension(pre, ext);
        },
        ArchiveFormat::TarGz => {
            reveal_strlit("tar.gz");
            let pre = seq!['a', '.', 't', 'a', 'r'];
            let ext = seq!['g', 'z'];
            assert("a."@ + "tar.gz"@ =~= pre + seq!['.'] + ext);
            lemma_simple_extension(pre, ext);
        },
        ArchiveFormat::TarXz => {
            reveal_strlit("tar.xz");
            let pre = seq!['a', '.', 't', 'a', 'r'];
            let ext = seq!['x', 'z'];
            assert("a."@ + "tar.xz"@ =~= pre + seq!['.'] + ext);
            lemma_simple_extension(pre, ext);
        },
        ArchiveFormat::TarZst => {
            reveal_strlit("tar.zst");
            let pre = seq!['a', '.', 't', 'a', 'r'];
            let ext = seq!['z', 's', 't'];
            assert("a."@ + "tar.zst"@ =~= pre + seq!['.'] + ext);
            lemma_simple_extension(pre, ext);
        },
        ArchiveFormat::TarBz2 => {
            reveal_strlit("tar.bz2");
            let pre = seq!['a', '.', 't', 'a', 'r'];
            let ext = seq!['b', 'z', '2'];
            assert("a."@ + "tar.bz2"@ =~= pre + seq!['.'] + ext);
            lemma_simple_extension(pre, ext);
        },
        ArchiveFormat::Pixz => {
            reveal_strlit("tar.pixz");
            let pre = seq!['a', '.', 't', 'a', 'r'];
            let ext = seq!['p', 'i', 'x', 'z'];
            assert("a."@ + "tar.pixz"@ =~= pre + seq!['.'] + ext);
            lemma_simple_extension(pre, ext);
        },
        ArchiveFormat::External(_) => {},
    }
}

// ---------------------------------------------------------------------------
// Archive listings
// ---------------------------------------------------------------------------

/// The path a line of `7z l -slt -ba` names, when it is a `Path = p` line
/// (key and value trimmed; `----------` lines name nothing).
pub open spec fn named_path(line: Seq<char>) -> Option<Seq<char>> {
    if starts_with(line, "----------"@) {
        None
    } else {
        match split_once(line, '=') {
            Some((k, v)) => if trim(k) == "Path"@ {
                Some(trim(v))
            } else {
                None
            },
            None => None,
        }
    }
}

/// The paths named by `lines`, in order.
pub open spec fn named_paths(lines: Seq<Seq<char>>) -> Seq<Seq<char>>
    decreases lines.len(),
{
    if lines.len() == 0 {
        Seq::empty()
    } else {
        match named_path(lines.last()) {
            Some(p) => named_paths(lines.drop_last()).push(p),
            None => named_paths(lines.drop_last()),
        }
    }
}

/// The paths of a list of entries.
pub open spec fn entry_paths(es: Seq<EntryModel>) -> Seq<Seq<char>> {
    es.map_values(|e: EntryModel| e.path)
}

proof fn lemma_listing_step_paths(st: SevenZListing, line: Seq<char>)
    ensures
        entry_paths(flushed(listing_step(st, line))) == match named_path(line) {
            Some(p) => entry_paths(flushed(st)).push(p),
            None => entry_paths(flushed(st)),
        },
{
    reveal_strlit("Path");
    reveal_strlit("Encrypted");
    let f = flushed(st);
    if starts_with(line, "----------"@) {
        assert(entry_paths(flushed(listing_step(st, line))) =~= entry_paths(f));
    } else {
        match split_once(line, '=') {
            None => {},
            Some((k, v)) => {
                let key = trim(k);
                let value = trim(v);
                if key == "Encrypted"@ {
                    assert("Encrypted"@.len() == 9 && "Path"@.len() == 4);
                    assert(key != "Path"@);
                } else if key == "Path"@ {
                    assert(flushed(listing_step(st, line)) == f.push(entry_for_path(value)));
                    assert(entry_paths(f.push(entry_for_path(value))) =~= entry_paths(f).push(value));
                } else {
                    match st.current {
                        Some(e) => {
                            let e2 = apply_field(e, key, value);
                            assert(e2.path == e.path);
                            assert(entry_paths(st.entries.push(e2)) =~= entry_paths(st.entries.push(e)));
                        },
                        None => {},
                    }
                }
            },
        }
    }
}

/// Every `Path = p` line of a 7z technical listing yields exactly one entry,
/// with path `p`, in the order of the lines, whether or not `----------`
/// separators stand between them; no other line yields an entry.
pub proof fn law_one_entry_per_path_line(lines: Seq<Seq<char>>)
    ensures
        entry_paths(flushed(listing_after(lines))) == named_paths(lines),
        flushed(listing_after(lines)).len() == named_paths(lines).len(),
    decreases lines.len(),
{
    if lines.len() == 0 {
        assert(entry_paths(flushed(listing_after(lines))) =~= Seq::<Seq<char>>::empty());
    } else {
        law_one_entry_per_path_line(lines.drop_last());
        lemma_listing_step_paths(listing_after(lines.drop_last()), lines.last());
    }
}

// ---------------------------------------------------------------------------
// Resuming an extraction
// ---------------------------------------------------------------------------

/// Resuming skips exactly the completed files: every skipped path belongs to
/// a regular, non-empty entry whose file was found with exactly the entry's
/// size, and every such entry is skipped. A partly written file (found with
/// another size) is extracted again unless another entry of the same path
/// is complete.
#[verifier::spinoff_prover]
pub proof fn law_resume_skips_only_complete_files(entries: Seq<EntryModel>, existing: Seq<Option<u64>>)
    requires
        existing.len() == entries.len(),
    ensures
        forall|k: int|
            #![trigger resume_skips(entries, existing)[k]]
            0 <= k < resume_skips(entries, existing).len() ==> exists|i: int|
                #![trigger entries[i]]
                0 <= i < entries.len() && entries[i].path == resume_skips(entries, existing)[k]
                    && !entries[i].is_directory && entries[i].size != 0 && existing[i] == Some(
                    entries[i].size,
                ),
        forall|i: int|
            0 <= i < entries.len() && !(#[trigger] entries[i]).is_directory && entries[i].size != 0
                && existing[i] == Some(entries[i].size) ==> resume_skips(entries, existing).contains(
                entries[i].path,
            ),
    decreases entries.len(),
{
    if entries.len() > 0 {
        let es = entries.drop_last();
        let xs = existing.drop_last();
        law_resume_skips_only_complete_files(es, xs);
        let rest = resume_skips(es, xs);
        let r = resume_skips(entries, existing);
        let n = entries.len() - 1;
        assert forall|k: int| #![trigger r[k]] 0 <= k < r.len() implies exists|i: int|
            #![trigger entries[i]]
            0 <= i < entries.len() && entries[i].path == r[k] && !entries[i].is_directory
                && entries[i].size != 0 && existing[i] == Some(entries[i].size) by {
            if k < rest.len() {
                assert(r[k] == rest[k]);
                let i = choose|i: int|
                    #![trigger es[i]]
                    0 <= i < es.len() && es[i].path == rest[k] && !es[i].is_directory && es[i].size
                        != 0 && xs[i] == Some(es[i].size);
                assert(entries[i] == es[i]);
            } else {
                assert(entries[n] == entries.last());
            }
        }
        assert forall|i: int|
            0 <= i < entries.len() && !(#[trigger] entries[i]).is_directory && entries[i].size != 0
                && existing[i] == Some(entries[i].size) implies r.contains(entries[i].path) by {
            if i < n {
                assert(es[i] == entries[i]);
                assert(xs[i] == existing[i]);
                assert(rest.contains(entries[i].path));
                let k = choose|k: int| 0 <= k < rest.len() && rest[k] == entries[i].path;
                assert(r[k] == rest[k]);
            } else {
                assert(r[r.len() - 1] == entries[i].path);
            }
        }
    }
}

// ---------------------------------------------------------------------------
// File names, logs, checksums, integrity
// ---------------------------------------------------------------------------

/// A sanitized name keeps its length, holds no reserved or control
/// character, and sanitizing it again changes nothing.
pub proof fn law_sanitized_is_safe(name: Seq<char>)
    ensures
        sanitized(name).len() == name.len(),
        forall|i: int|
            0 <= i < name.len() ==> !is_reserved_name_char(#[trigger] sanitized(name)[i]) && !is_control(
                sanitized(name)[i],
            ),
        sanitized(sanitized(name)) == sanitized(name),
{
    assert(sanitized(sanitized(name)) =~= sanitized(name));
}

/// No logged argument still carries a password: every `-p<secret>`
/// argument is logged as `-p***`.
pub proof fn law_redaction_hides_passwords(arg: Seq<char>, secret: Seq<char>)
    requires
        secret.len() > 0,
        secret != "***"@,
    ensures
        redacted("-p"@ + secret) == "-p***"@,
        redacted("-p"@ + secret) != "-p"@ + secret,
{
    reveal_strlit("-p");
    reveal_strlit("-p***");
    reveal_strlit("***");
    let a = "-p"@ + secret;
    assert(a.take(2) =~= "-p"@);
    if "-p***"@ == a {
        assert(secret =~= a.skip(2));
        assert("-p***"@.skip(2) =~= "***"@);
    }
}

/// The error tail of an extraction is the last five lines seen (all of
/// them when fewer), in order.
pub proof fn law_error_tail_is_last_five(lines: Seq<Seq<char>>)
    ensures
        tail_after(lines) == lines.skip(if lines.len() > 5 { lines.len() - 5 } else { 0 }),
    decreases lines.len(),
{
    if lines.len() > 0 {
        law_error_tail_is_last_five(lines.drop_last());
        let n = lines.len();
        let t = tail_after(lines.drop_last());
        if t.len() >= 5 {
            assert(t.drop_first().push(lines.last()) =~= lines.skip(n - 5));
        } else {
            assert(t.push(lines.last()) =~= lines.skip(if n > 5 { n - 5 } else { 0 }));
        }
    } else {
        assert(lines.skip(0) =~= lines);
    }
}

/// Hashing in chunks gives the digest of the whole: feeding `a` then `b`
/// leaves the same input as feeding `a + b`.
pub proof fn law_chunking_is_invisible(alg: ChecksumAlgorithm, before: Seq<u8>, a: Seq<u8>, b: Seq<u8>)
    ensures
        digest_of(alg, (before + a) + b) == digest_of(alg, before + (a + b)),
{
    assert((before + a) + b =~= before + (a + b));
}

/// An archive state whose record is the latest one matches it.
pub proof fn law_unchanged_state_matches(r: RecordModel)
    ensures
        state_matches(Some(r), r),
{
}

} // verus!
