//! Mounting external devices through UDisks2: which partitions may be
//! offered, which paths may be handed to `udisksctl`, and what its answers
//! mean.

use vstd::prelude::*;
use crate::error::{Result, TripleWrapperError};
use crate::paths::last_index;
use crate::text::{
    chars_of, concat, is_str, occurs_at, occurs_at_exec, owned, push_arg, slice_of, starts_with,
    starts_with_str, str_eq, string_from, string_views, trim, trim_exec, trim_str,
};

verus! {

/// A partition that exists but is mounted nowhere.
pub struct UnmountedDevice {
    /// e.g. `/dev/sdb1`, always taken from the device listing.
    pub dev_path: String,
    pub label: String,
    pub fstype: String,
    pub size_bytes: u64,
    pub removable: bool,
}

/// One node of the block-device tree as `lsblk -J` describes it.
pub struct LsblkDevice {
    pub path: Option<String>,
    pub mountpoint: Option<String>,
    pub fstype: Option<String>,
    pub size: Option<u64>,
    /// `disk`, `part`, ...
    pub kind: Option<String>,
    pub rm: Option<bool>,
    pub children: Vec<LsblkDevice>,
}

pub struct DeviceModel {
    pub dev_path: Seq<char>,
    pub label: Seq<char>,
    pub fstype: Seq<char>,
    pub size_bytes: u64,
    pub removable: bool,
}

impl View for UnmountedDevice {
    type V = DeviceModel;

    open spec fn view(&self) -> DeviceModel {
        DeviceModel {
            dev_path: self.dev_path@,
            label: self.label@,
            fstype: self.fstype@,
            size_bytes: self.size_bytes,
            removable: self.removable,
        }
    }
}

// ---------------------------------------------------------------------------
// Device paths
// ---------------------------------------------------------------------------

pub open spec fn is_device_char(c: char) -> bool {
    ('a' <= c && c <= 'z') || ('A' <= c && c <= 'Z') || ('0' <= c && c <= '9') || c == '/' || c
        == '_' || c == '-' || c == '+'
}

/// A strict `/dev/...` path: at most 64 bytes, something after `/dev/`,
/// and only ASCII letters, digits and `/ _ - +` there. (Every accepted
/// character is ASCII, so bytes and characters count alike.)
pub open spec fn is_device_path_spec(p: Seq<char>) -> bool {
    &&& starts_with(p, "/dev/"@)
    &&& p.len() <= 64
    &&& p.len() > 5
    &&& forall|i: int| 5 <= i < p.len() ==> #[trigger] is_device_char(p[i])
}

/// Strict device-path shape check; anything else is never passed on.
pub fn is_device_path(path: &str) -> (r: bool)
    ensures
        r == is_device_path_spec(path@),
{
    let v = chars_of(path);
    proof {
        reveal_strlit("/dev/");
    }
    if !starts_with_str(&v, "/dev/") || v.len() > 64 || v.len() <= 5 {
        return false;
    }
    let mut i: usize = 5;
    while i < v.len()
        invariant
            5 <= i <= v@.len(),
            v@ == path@,
            forall|k: int| 5 <= k < i ==> #[trigger] is_device_char(v@[k]),
        decreases v.len() - i,
    {
        let c = v[i];
        let ok = ('a' <= c && c <= 'z') || ('A' <= c && c <= 'Z') || ('0' <= c && c <= '9') || c
            == '/' || c == '_' || c == '-' || c == '+';
        if !ok {
            assert(!is_device_char(v@[i as int]));
            return false;
        }
        i = i + 1;
    }
    true
}

// ---------------------------------------------------------------------------
// The device listing
// ---------------------------------------------------------------------------

/// The nodes of a device forest in the order a last-in-first-out walk
/// meets them: the last root first, each node before its own children.
pub open spec fn walk_order(devs: Seq<LsblkDevice>) -> Seq<LsblkDevice>
    decreases devs,
{
    if devs.len() == 0 {
        Seq::empty()
    } else {
        let d = devs.last();
        proof {
            assert(decreases_to!(devs => devs[devs.len() - 1]));
        }
        seq![d] + walk_order(d.children@) + walk_order(devs.drop_last())
    }
}

pub open spec fn opt_str(o: Option<String>) -> Seq<char> {
    match o {
        Some(s) => s@,
        None => Seq::empty(),
    }
}

/// The part of a path after its last `/`.
pub open spec fn after_last_slash(p: Seq<char>) -> Seq<char> {
    match last_index(p, '/') {
        Some(i) => p.subrange(i + 1, p.len() as int),
        None => p,
    }
}

/// Whether node `d` is an offerable partition: type `part`, a file system
/// other than swap, mounted nowhere, with a valid device path.
pub open spec fn offerable(d: LsblkDevice) -> bool {
    &&& d.kind is Some && d.kind->Some_0@ == "part"@
    &&& opt_str(d.fstype).len() > 0
    &&& opt_str(d.fstype) != "swap"@
    &&& opt_str(d.mountpoint).len() == 0
    &&& d.path is Some
    &&& is_device_path_spec(d.path->Some_0@)
}

/// The listing entry for an offerable node.
pub open spec fn device_entry(d: LsblkDevice) -> DeviceModel {
    DeviceModel {
        dev_path: opt_str(d.path),
        label: after_last_slash(opt_str(d.path)),
        fstype: opt_str(d.fstype),
        size_bytes: match d.size {
            Some(s) => s,
            None => 0,
        },
        removable: match d.rm {
            Some(b) => b,
            None => false,
        },
    }
}

/// Offerable nodes of `s`, as entries, in order.
pub open spec fn entries_of(s: Seq<LsblkDevice>) -> Seq<DeviceModel>
    decreases s.len(),
{
    if s.len() == 0 {
        Seq::empty()
    } else if offerable(s.last()) {
        entries_of(s.drop_last()).push(device_entry(s.last()))
    } else {
        entries_of(s.drop_last())
    }
}

/// Whether `a` is listed before `b`: removable first, then bigger.
pub open spec fn listed_before(a: DeviceModel, b: DeviceModel) -> bool {
    (a.removable && !b.removable) || (a.removable == b.removable && a.size_bytes > b.size_bytes)
}

/// Where a stable insertion puts `x` into the already sorted `s`: after the
/// last entry that `x` is not listed before.
pub open spec fn slot_for(s: Seq<DeviceModel>, x: DeviceModel) -> int
    decreases s.len(),
{
    if s.len() == 0 {
        0
    } else if listed_before(x, s.last()) {
        slot_for(s.drop_last(), x)
    } else {
        s.len() as int
    }
}

/// `s` stably sorted: removable first, then by size, biggest first; equal
/// entries keep their order.
pub open spec fn stable_sorted(s: Seq<DeviceModel>) -> Seq<DeviceModel>
    decreases s.len(),
{
    if s.len() == 0 {
        Seq::empty()
    } else {
        let t = stable_sorted(s.drop_last());
        t.insert(slot_for(t, s.last()), s.last())
    }
}

/// The offerable partitions of a device forest, as listed to the user.
pub open spec fn unmounted_listing(roots: Seq<LsblkDevice>) -> Seq<DeviceModel> {
    stable_sorted(entries_of(walk_order(roots)))
}

pub open spec fn device_views(v: Seq<UnmountedDevice>) -> Seq<DeviceModel> {
    v.map_values(|d: UnmountedDevice| d@)
}

fn opt_string_chars(o: &Option<String>) -> (r: Vec<char>)
    ensures
        r@ == opt_str(*o),
{
    match o {
        Some(s) => chars_of(s.as_str()),
        None => Vec::new(),
    }
}

fn after_last_slash_exec(p: &Vec<char>) -> (r: Vec<char>)
    ensures
        r@ == after_last_slash(p@),
{
    match crate::paths::rfind_char(p, '/') {
        Some(k) => slice_of(p, k + 1, p.len()),
        None => slice_of(p, 0, p.len()),
    }
}

fn offerable_exec(d: &LsblkDevice) -> (r: Option<UnmountedDevice>)
    ensures
        offerable(*d) ==> r is Some && r->Some_0@ == device_entry(*d),
        !offerable(*d) ==> r is None,
{
    let kind_ok = match &d.kind {
        Some(k) => str_eq(k.as_str(), "part"),
        None => false,
    };
    if !kind_ok {
        return None;
    }
    let fs = opt_string_chars(&d.fstype);
    if fs.len() == 0 || is_str(&fs, "swap") {
        return None;
    }
    let mp = opt_string_chars(&d.mountpoint);
    if mp.len() > 0 {
        return None;
    }
    match &d.path {
        None => None,
        Some(p) => {
            if !is_device_path(p.as_str()) {
                return None;
            }
            let pv = chars_of(p.as_str());
            let label = after_last_slash_exec(&pv);
            Some(
                UnmountedDevice {
                    dev_path: owned(p.as_str()),
                    label: string_from(&label),
                    fstype: string_from(&fs),
                    size_bytes: match d.size {
                        Some(s) => s,
                        None => 0,
                    },
                    removable: match d.rm {
                        Some(b) => b,
                        None => false,
                    },
                },
            )
        },
    }
}

proof fn lemma_entries_append(a: Seq<LsblkDevice>, b: Seq<LsblkDevice>)
    ensures
        entries_of(a + b) == entries_of(a) + entries_of(b),
    decreases b.len(),
{
    if b.len() == 0 {
        assert(a + b =~= a);
        assert(entries_of(a) + entries_of(b) =~= entries_of(a));
    } else {
        assert((a + b).drop_last() =~= a + b.drop_last());
        assert((a + b).last() == b.last());
        lemma_entries_append(a, b.drop_last());
        if offerable(b.last()) {
            assert(entries_of(a) + entries_of(b) =~= (entries_of(a) + entries_of(b.drop_last())).push(
                device_entry(b.last()),
            ));
        }
    }
}

/// Appends the entries of the offerable nodes of `devs`, in walk order.
fn collect_walk(devs: &Vec<LsblkDevice>, out: &mut Vec<UnmountedDevice>)
    ensures
        device_views(final(out)@) == device_views(old(out)@) + entries_of(walk_order(devs@)),
    decreases devs@,
{
    let ghost start = device_views(out@);
    let mut i = devs.len();
    assert(devs@.take(devs@.len() as int) =~= devs@);
    while i > 0
        invariant
            i <= devs@.len(),
            device_views(out@) + entries_of(walk_order(devs@.take(i as int))) == start
                + entries_of(walk_order(devs@)),
        decreases i,
    {
        let ghost before = device_views(out@);
        let ghost t = devs@.take(i as int);
        assert(t.last() == devs@[i - 1]);
        assert(t.drop_last() =~= devs@.take(i - 1));
        let d = &devs[i - 1];
        proof {
            lemma_entries_append(seq![*d], walk_order(d.children@) + walk_order(t.drop_last()));
            lemma_entries_append(walk_order(d.children@), walk_order(t.drop_last()));
            assert(seq![*d] + walk_order(d.children@) + walk_order(t.drop_last()) =~= seq![*d] + (
            walk_order(d.children@) + walk_order(t.drop_last())));
            assert(seq![*d].drop_last() =~= Seq::<LsblkDevice>::empty());
            assert(seq![*d].last() == *d);
            assert(entries_of(Seq::<LsblkDevice>::empty()) =~= Seq::<DeviceModel>::empty());
            assert(entries_of(seq![*d].drop_last()) =~= Seq::<DeviceModel>::empty());
        }
        match offerable_exec(d) {
            Some(e) => {
                out.push(e);
                assert(device_views(out@) =~= before.push(device_entry(*d)));
                assert(entries_of(seq![*d]) =~= seq![device_entry(*d)]);
            },
            None => {
                assert(entries_of(seq![*d]) =~= Seq::<DeviceModel>::empty());
            },
        }
        let ghost mid = device_views(out@);
        assert(decreases_to!(devs@ => d.children@)) by {
            assert(decreases_to!(devs@ => devs@[i - 1]));
        }
        collect_walk(&d.children, out);
        assert(device_views(out@) == mid + entries_of(walk_order(d.children@)));
        i = i - 1;
    }
    assert(devs@.take(0) =~= Seq::<LsblkDevice>::empty());
    assert(devs@.take(devs@.len() as int) =~= devs@);
}

fn listed_before_exec(a: &UnmountedDevice, b: &UnmountedDevice) -> (r: bool)
    ensures
        r == listed_before(a@, b@),
{
    (a.removable && !b.removable) || (a.removable == b.removable && a.size_bytes > b.size_bytes)
}

/// Sorts entries stably: removable first, then biggest first.
fn sort_listing(items: Vec<UnmountedDevice>) -> (r: Vec<UnmountedDevice>)
    ensures
        device_views(r@) == stable_sorted(device_views(items@)),
{
    let ghost all = device_views(items@);
    let mut sorted: Vec<UnmountedDevice> = Vec::new();
    let mut src = items;
    let mut rev: Vec<UnmountedDevice> = Vec::new();
    while src.len() > 0
        invariant
            device_views(rev@).len() + device_views(src@).len() == all.len(),
            src@.len() <= all.len(),
            forall|k: int| 0 <= k < src@.len() ==> src@[k]@ == all[k],
            forall|k: int| 0 <= k < rev@.len() ==> rev@[k]@ == all[all.len() - 1 - k],
        decreases src.len(),
    {
        let x = src.pop().unwrap();
        rev.push(x);
    }
    let n = rev.len();
    let mut i: usize = 0;
    while i < n
        invariant
            n == rev@.len() + i,
            n == all.len(),
            i <= n,
            forall|k: int| 0 <= k < rev@.len() ==> rev@[k]@ == all[all.len() - 1 - k],
            device_views(sorted@) == stable_sorted(all.take(i as int)),
            sorted@.len() == i,
        decreases n - i,
    {
        let x = rev.pop().unwrap();
        assert(x@ == all[i as int]);
        let ghost t = all.take(i + 1);
        assert(t.drop_last() =~= all.take(i as int));
        let ghost s = device_views(sorted@);
        // Position: just before the first entry `x` is listed before,
        // scanning from the back while `x` ranks above.
        let mut j = sorted.len();
        assert(s.take(s.len() as int) =~= s);
        while j > 0 && listed_before_exec(&x, &sorted[j - 1])
            invariant
                j <= sorted@.len(),
                s == device_views(sorted@),
                slot_for(s, x@) == slot_for(s.take(j as int), x@),
            decreases j,
        {
            proof {
                let u = s.take(j as int);
                assert(u.drop_last() =~= s.take(j - 1));
                assert(u.last() == s[j - 1]);
                lemma_slot_bound(u.drop_last(), x@);
            }
            j = j - 1;
        }
        proof {
            let u = s.take(j as int);
            if j > 0 {
                assert(u.last() == s[j - 1]);
                assert(!listed_before(x@, u.last()));
            } else {
                assert(u.len() == 0);
            }
            assert(slot_for(u, x@) == j);
        }
        sorted.insert(j, x);
        assert(device_views(sorted@) =~= s.insert(j as int, x@));
        i = i + 1;
    }
    assert(all.take(all.len() as int) =~= all);
    sorted
}

proof fn lemma_slot_bound(s: Seq<DeviceModel>, x: DeviceModel)
    ensures
        0 <= slot_for(s, x) <= s.len(),
    decreases s.len(),
{
    if s.len() > 0 {
        lemma_slot_bound(s.drop_last(), x);
    }
}

/// The offerable partitions of a parsed `lsblk -J` listing: removable
/// first, then biggest first, otherwise in walk order.
pub fn unmounted_from_devices(roots: &Vec<LsblkDevice>) -> (r: Vec<UnmountedDevice>)
    ensures
        device_views(r@) == unmounted_listing(roots@),
{
    let mut found: Vec<UnmountedDevice> = Vec::new();
    collect_walk(roots, &mut found);
    assert(device_views(Seq::<UnmountedDevice>::empty()) + entries_of(walk_order(roots@)) =~= entries_of(
        walk_order(roots@),
    ));
    sort_listing(found)
}

// ---------------------------------------------------------------------------
// Talking to udisksctl
// ---------------------------------------------------------------------------

/// Arguments of the `lsblk` call that lists block devices as JSON.
pub fn lsblk_args() -> (r: Vec<String>)
    ensures
        string_views(r@) == seq!["-J"@, "-o"@, "NAME,PATH,MOUNTPOINT,FSTYPE,SIZE,TYPE,RM"@],
{
    let mut r: Vec<String> = Vec::new();
    push_arg(&mut r, "-J");
    push_arg(&mut r, "-o");
    push_arg(&mut r, "NAME,PATH,MOUNTPOINT,FSTYPE,SIZE,TYPE,RM");
    assert(string_views(r@) =~= seq!["-J"@, "-o"@, "NAME,PATH,MOUNTPOINT,FSTYPE,SIZE,TYPE,RM"@]);
    r
}

/// Arguments of `udisksctl` for `verb` (`mount` or `unmount`) on a device.
pub fn udisks_args(verb: &str, dev_path: &str) -> (r: Vec<String>)
    ensures
        string_views(r@) == seq![verb@, "-b"@, dev_path@, "--no-user-interaction"@],
{
    let mut r: Vec<String> = Vec::new();
    push_arg(&mut r, verb);
    push_arg(&mut r, "-b");
    push_arg(&mut r, dev_path);
    push_arg(&mut r, "--no-user-interaction");
    assert(string_views(r@) =~= seq![verb@, "-b"@, dev_path@, "--no-user-interaction"@]);
    r
}

pub open spec fn not_listed_text(dev: Seq<char>) -> Seq<char> {
    "device not in unmounted list (already mounted or unknown): "@ + dev
}

/// The enumerated device with path `dev_path`; anything not enumerated is
/// refused.
pub fn find_candidate(candidates: &Vec<UnmountedDevice>, dev_path: &str) -> (r: Result<usize>)
    ensures
        match r {
            Ok(k) => k < candidates@.len() && candidates@[k as int]@.dev_path == dev_path@ && forall|
                j: int,
            | 0 <= j < k ==> #[trigger] candidates@[j]@.dev_path != dev_path@,
            Err(e) => e is Internal && e->Internal_0@ == not_listed_text(dev_path@) && forall|j: int|
                0 <= j < candidates@.len() ==> #[trigger] candidates@[j]@.dev_path != dev_path@,
        },
{
    let mut i: usize = 0;
    while i < candidates.len()
        invariant
            i <= candidates@.len(),
            forall|j: int| 0 <= j < i ==> #[trigger] candidates@[j]@.dev_path != dev_path@,
        decreases candidates.len() - i,
    {
        if str_eq(candidates[i].dev_path.as_str(), dev_path) {
            return Ok(i);
        }
        i = i + 1;
    }
    Err(TripleWrapperError::Internal(concat("device not in unmounted list (already mounted or unknown): ", dev_path)))
}

/// First index at or after `from` where `p` occurs in `s`.
pub open spec fn find_from(s: Seq<char>, p: Seq<char>, from: int) -> Option<int>
    decreases s.len() + 1 - from,
{
    if from < 0 || from + p.len() > s.len() {
        None
    } else if occurs_at(s, p, from) {
        Some(from)
    } else {
        find_from(s, p, from + 1)
    }
}

/// `s` without its trailing dots.
pub open spec fn strip_trailing_dots(s: Seq<char>) -> Seq<char>
    decreases s.len(),
{
    if s.len() > 0 && s.last() == '.' {
        strip_trailing_dots(s.drop_last())
    } else {
        s
    }
}

/// The mount point in `udisksctl mount` output (`Mounted /dev/sdb1 at
/// /run/media/u/Disk.`): the text between the first ` at ` and the next one
/// (or the end), trimmed, trailing dots removed; `None` when that is empty
/// or there is no ` at `.
pub open spec fn mounted_at(out: Seq<char>) -> Option<Seq<char>> {
    let sep = " at "@;
    match find_from(out, sep, 0) {
        Some(i) => {
            let start = i + 4;
            let end = match find_from(out, sep, start) {
                Some(j) => j,
                None => out.len() as int,
            };
            let p = strip_trailing_dots(trim(out.subrange(start, end)));
            if p.len() > 0 {
                Some(p)
            } else {
                None
            }
        },
        None => None,
    }
}

proof fn lemma_find_from_bound(s: Seq<char>, p: Seq<char>, from: int, k: int)
    requires
        find_from(s, p, from) == Some(k),
    ensures
        from <= k,
        k + p.len() <= s.len(),
        occurs_at(s, p, k),
    decreases s.len() + 1 - from,
{
    if !(from < 0 || from + p.len() > s.len()) && !occurs_at(s, p, from) {
        lemma_find_from_bound(s, p, from + 1, k);
    }
}

fn find_from_exec(s: &Vec<char>, p: &Vec<char>, from: usize) -> (r: Option<usize>)
    requires
        from <= s@.len(),
    ensures
        match r {
            Some(k) => find_from(s@, p@, from as int) == Some(k as int),
            None => find_from(s@, p@, from as int) is None,
        },
{
    let mut i = from;
    while p.len() <= s.len() - i
        invariant
            from <= i <= s@.len(),
            find_from(s@, p@, from as int) == find_from(s@, p@, i as int),
        decreases s.len() + 1 - i,
    {
        proof {
            if p@.len() == 0 {
                assert(s@.subrange(i as int, i as int) =~= p@);
            }
        }
        if occurs_at_exec(s, p, i) {
            return Some(i);
        }
        i = i + 1;
    }
    None
}

/// Reads the mount point out of `udisksctl mount` output (see
/// [`mounted_at`]).
pub fn parse_mounted_at(out: &str) -> (r: Option<String>)
    ensures
        match r {
            Some(p) => mounted_at(out@) == Some(p@),
            None => mounted_at(out@) is None,
        },
{
    let s = chars_of(out);
    let sep = chars_of(" at ");
    proof {
        reveal_strlit(" at ");
    }
    match find_from_exec(&s, &sep, 0) {
        None => None,
        Some(i) => {
            proof {
                lemma_find_from_bound(s@, sep@, 0, i as int);
            }
            let start = i + 4;
            let end = match find_from_exec(&s, &sep, start) {
                Some(j) => {
                    proof {
                        lemma_find_from_bound(s@, sep@, start as int, j as int);
                    }
                    j
                },
                None => s.len(),
            };
            let seg = slice_of(&s, start, end);
            let t = trim_exec(&seg);
            let mut k = t.len();
            assert(t@.take(t@.len() as int) =~= t@);
            while k > 0 && t[k - 1] == '.'
                invariant
                    k <= t@.len(),
                    strip_trailing_dots(t@) == strip_trailing_dots(t@.take(k as int)),
                decreases k,
            {
                assert(t@.take(k as int).drop_last() =~= t@.take(k - 1));
                k = k - 1;
            }
            let p = slice_of(&t, 0, k);
            assert(p@ =~= t@.take(k as int));
            if p.len() > 0 {
                Some(string_from(&p))
            } else {
                None
            }
        },
    }
}

/// The error of a mount that reported no mount point: udisksctl's trimmed
/// stderr, or its trimmed stdout when stderr is empty.
pub fn mount_failure(stdout: &str, stderr: &str) -> (e: TripleWrapperError)
    ensures
        e is Internal && e->Internal_0@ == (if trim(stderr@).len() == 0 {
            trim(stdout@)
        } else {
            trim(stderr@)
        }),
{
    let err = trim_str(stderr);
    if err.len() == 0 {
        let out = trim_str(stdout);
        TripleWrapperError::Internal(string_from(&out))
    } else {
        TripleWrapperError::Internal(string_from(&err))
    }
}

pub open spec fn suspicious_text(dev: Seq<char>) -> Seq<char> {
    "refusing to unmount suspicious path: "@ + dev
}

/// Refuses to unmount anything that is not a strict device path.
pub fn check_unmount_target(dev_path: &str) -> (r: Result<()>)
    ensures
        is_device_path_spec(dev_path@) <==> r is Ok,
        r is Err ==> r->Err_0 is Internal && r->Err_0->Internal_0@ == suspicious_text(dev_path@),
{
    if is_device_path(dev_path) {
        Ok(())
    } else {
        Err(TripleWrapperError::Internal(concat("refusing to unmount suspicious path: ", dev_path)))
    }
}

/// The result of `udisksctl unmount`: success, or its trimmed stderr.
pub fn unmount_outcome(success: bool, stderr: &str) -> (r: Result<()>)
    ensures
        success <==> r is Ok,
        !success ==> r->Err_0 is Internal && r->Err_0->Internal_0@ == trim(stderr@),
{
    if success {
        Ok(())
    } else {
        let e = trim_str(stderr);
        Err(TripleWrapperError::Internal(string_from(&e)))
    }
}

} // verus!
