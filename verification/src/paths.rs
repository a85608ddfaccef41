//! Unix path arithmetic on strings: components, prefix tests, file names,
//! extensions and joining, with the meaning `std::path` gives them on Unix.

use vstd::prelude::*;
use crate::text::{
    chars_of, find_char_from, first_index, is_str, push_all, seq_eq, slice_of, string_from,
};

verus! {

/// `str::split(c)`: every part between occurrences of `c` (empty parts kept).
pub open spec fn split_char(s: Seq<char>, c: char) -> Seq<Seq<char>>
    decreases s.len(),
{
    match first_index(s, c) {
        Some(k) => if 0 <= k < s.len() {
            seq![s.take(k)] + split_char(s.skip(k + 1), c)
        } else {
            seq![s]
        },
        None => seq![s],
    }
}

/// A part that names a directory entry (not empty, not `.`).
pub open spec fn keeps_segment(p: Seq<char>) -> bool {
    p.len() > 0 && p != seq!['.']
}

/// The parts that name directory entries, in order.
pub open spec fn kept_segments(parts: Seq<Seq<char>>) -> Seq<Seq<char>>
    decreases parts.len(),
{
    if parts.len() == 0 {
        Seq::empty()
    } else if keeps_segment(parts[0]) {
        seq![parts[0]] + kept_segments(parts.drop_first())
    } else {
        kept_segments(parts.drop_first())
    }
}

/// `Path::components` on Unix. The root is the component `/`; a leading
/// `.` of a relative path is the component `.`; other `.` and empty parts vanish.
#[verifier::opaque]
pub open spec fn components(s: Seq<char>) -> Seq<Seq<char>> {
    if s.len() == 0 {
        Seq::empty()
    } else if s[0] == '/' {
        seq![seq!['/']] + kept_segments(split_char(s.drop_first(), '/'))
    } else {
        let parts = split_char(s, '/');
        if parts.len() > 0 && parts[0] == seq!['.'] {
            seq![seq!['.']] + kept_segments(parts.drop_first())
        } else {
            kept_segments(parts)
        }
    }
}

/// `Path::starts_with`: `base`'s components are a prefix of `p`'s.
pub open spec fn path_starts_with(p: Seq<char>, base: Seq<char>) -> bool {
    let a = components(p);
    let b = components(base);
    b.len() <= a.len() && a.take(b.len() as int) == b
}

/// `Path == Path`: equal component lists.
pub open spec fn path_eq(a: Seq<char>, b: Seq<char>) -> bool {
    components(a) == components(b)
}

/// `Path::file_name`: the last component when it is a plain name.
pub open spec fn file_name(s: Seq<char>) -> Option<Seq<char>> {
    let c = components(s);
    if c.len() == 0 {
        None
    } else {
        let last = c.last();
        if last == seq!['/'] || last == seq!['.'] || last == seq!['.', '.'] {
            None
        } else {
            Some(last)
        }
    }
}

/// Index of the last `c` in `s`, if any.
pub open spec fn last_index(s: Seq<char>, c: char) -> Option<int> {
    if exists|i: int| 0 <= i < s.len() && s[i] == c {
        Some(choose|i: int| 0 <= i < s.len() && s[i] == c && forall|j: int| i < j < s.len() ==> s[j] != c)
    } else {
        None
    }
}

/// `Path::extension`: what follows the last `.` of the file name, unless the
/// name has no `.` or its only `.` is the first character.
pub open spec fn extension(s: Seq<char>) -> Option<Seq<char>> {
    match file_name(s) {
        Some(f) => match last_index(f, '.') {
            Some(k) => if k == 0 {
                None
            } else {
                Some(f.skip(k + 1))
            },
            None => None,
        },
        None => None,
    }
}

/// `PathBuf::push` / `Path::join` on Unix.
pub open spec fn join(base: Seq<char>, rel: Seq<char>) -> Seq<char> {
    if rel.len() > 0 && rel[0] == '/' {
        rel
    } else if base.len() == 0 || base.last() == '/' {
        base + rel
    } else {
        base + seq!['/'] + rel
    }
}

// ---------------------------------------------------------------------------

proof fn lemma_split_step(v: Seq<char>, i: int, k: int, c: char)
    requires
        0 <= i <= v.len(),
        i <= k <= v.len(),
        k < v.len() ==> v[k] == c,
        forall|j: int| i <= j < k ==> v[j] != c,
    ensures
        k < v.len() ==> split_char(v.skip(i), c) == seq![v.subrange(i, k)] + split_char(
            v.skip(k + 1),
            c,
        ),
        k == v.len() ==> split_char(v.skip(i), c) == seq![v.subrange(i, k)],
{
    let s = v.skip(i);
    assert forall|j: int| 0 <= j < k - i implies s[j] != c by {
        assert(s[j] == v[i + j]);
    }
    if k < v.len() {
        assert(s[k - i] == v[k]);
        lemma_first_index_at(s, c, k - i);
        assert(s.take(k - i) =~= v.subrange(i, k));
        assert(s.skip(k - i + 1) =~= v.skip(k + 1));
    } else {
        lemma_first_index_none(s, c);
        assert(s =~= v.subrange(i, k));
    }
}

proof fn lemma_first_index_at(s: Seq<char>, c: char, k: int)
    requires
        0 <= k < s.len(),
        s[k] == c,
        forall|j: int| 0 <= j < k ==> s[j] != c,
    ensures
        first_index(s, c) == Some(k),
{
    let i = choose|i: int| 0 <= i < s.len() && s[i] == c && forall|j: int| 0 <= j < i ==> s[j] != c;
    assert(0 <= k < s.len() && s[k] == c && forall|j: int| 0 <= j < k ==> s[j] != c);
    if i < k {
        assert(s[i] != c);
    }
    if i > k {
        assert(s[k] != c);
    }
}

proof fn lemma_first_index_none(s: Seq<char>, c: char)
    requires
        forall|j: int| 0 <= j < s.len() ==> s[j] != c,
    ensures
        first_index(s, c) is None,
{
}

/// `str::split(c)` on a character sequence.
pub fn split_on(v: &Vec<char>, c: char) -> (r: Vec<Vec<char>>)
    ensures
        r@.len() == split_char(v@, c).len(),
        forall|k: int| 0 <= k < r@.len() ==> (#[trigger] r@[k])@ == split_char(v@, c)[k],
{
    let mut r: Vec<Vec<char>> = Vec::new();
    let ghost mut done: Seq<Seq<char>> = Seq::empty();
    let mut i: usize = 0;
    assert(v@.skip(0) =~= v@);
    loop
        invariant
            i <= v.len(),
            r@.len() == done.len(),
            forall|k: int| 0 <= k < r@.len() ==> (#[trigger] r@[k])@ == done[k],
            split_char(v@, c) == done + split_char(v@.skip(i as int), c),
        decreases v.len() - i,
    {
        let k = find_char_from(v, i, c);
        proof {
            lemma_split_step(v@, i as int, k as int, c);
        }
        let part = slice_of(v, i, k);
        r.push(part);
        proof {
            let old_done = done;
            done = done.push(v@.subrange(i as int, k as int));
            if k < v.len() {
                assert(old_done + (seq![v@.subrange(i as int, k as int)] + split_char(
                    v@.skip(k + 1),
                    c,
                )) =~= done + split_char(v@.skip(k + 1), c));
            } else {
                assert(old_done + seq![v@.subrange(i as int, k as int)] =~= done);
            }
        }
        if k == v.len() {
            return r;
        }
        i = k + 1;
    }
}

/// The parts of `parts[from..]` that name directory entries.
fn keep_segments_from(parts: &Vec<Vec<char>>, from: usize, out: &mut Vec<Vec<char>>)
    requires
        from <= parts@.len(),
    ensures
        final(out)@.len() == old(out)@.len() + kept_segments(
            parts@.skip(from as int).map_values(|p: Vec<char>| p@),
        ).len(),
        forall|k: int| 0 <= k < old(out)@.len() ==> (#[trigger] final(out)@[k]) == old(out)@[k],
        forall|k: int|
            0 <= k < final(out)@.len() - old(out)@.len() ==> (#[trigger] final(out)@[old(
                out,
            )@.len() + k])@ == kept_segments(parts@.skip(from as int).map_values(|p: Vec<char>| p@))[k],
    decreases parts@.len() - from,
{
    let ghost views = parts@.skip(from as int).map_values(|p: Vec<char>| p@);
    if from == parts.len() {
        assert(views.len() == 0);
        return ;
    }
    let ghost rest = parts@.skip(from + 1).map_values(|p: Vec<char>| p@);
    assert(views.drop_first() =~= rest);
    assert(views[0] == parts@[from as int]@);
    let p = &parts[from];
    let keep = p.len() > 0 && !(p.len() == 1 && p[0] == '.');
    assert(keep == keeps_segment(views[0])) by {
        if p@.len() == 1 {
            assert(p@ == seq!['.'] <==> p@[0] == '.') by {
                if p@[0] == '.' {
                    assert(p@ =~= seq!['.']);
                }
            }
        }
    }
    let ghost n0 = out@.len() as int;
    let ghost out0 = out@;
    if keep {
        out.push(slice_of(p, 0, p.len()));
        assert(p@.subrange(0, p@.len() as int) =~= p@);
    }
    let ghost out1 = out@;
    keep_segments_from(parts, from + 1, out);
    proof {
        if keep {
            assert(kept_segments(views) == seq![views[0]] + kept_segments(rest));
            assert forall|k: int| 0 <= k < out@.len() - n0 implies (#[trigger] out@[n0 + k])@
                == kept_segments(views)[k] by {
                if k == 0 {
                    assert(out@[n0 + k] == out1[n0]);
                } else {
                    assert(out@[n0 + 1 + (k - 1)] == out@[n0 + k]);
                }
            }
        } else {
            assert(kept_segments(views) == kept_segments(rest));
        }
    }
}

/// `Path::components` on a character sequence; the root is `/`.
pub fn components_exec(v: &Vec<char>) -> (r: Vec<Vec<char>>)
    ensures
        r@.len() == components(v@).len(),
        forall|k: int| 0 <= k < r@.len() ==> (#[trigger] r@[k])@ == components(v@)[k],
{
    reveal(components);
    let mut out: Vec<Vec<char>> = Vec::new();
    if v.len() == 0 {
        return out;
    }
    if v[0] == '/' {
        let rest = slice_of(v, 1, v.len());
        assert(rest@ =~= v@.drop_first());
        let parts = split_on(&rest, '/');
        let ghost pv = parts@.map_values(|p: Vec<char>| p@);
        assert(pv =~= split_char(rest@, '/'));
        let mut root: Vec<char> = Vec::new();
        root.push('/');
        out.push(root);
        assert(parts@.skip(0) =~= parts@);
        keep_segments_from(&parts, 0, &mut out);
        proof {
            let spec = components(v@);
            assert(spec == seq![seq!['/']] + kept_segments(pv));
            assert(out@[0]@ =~= seq!['/']);
            assert forall|k: int| 0 <= k < out@.len() implies (#[trigger] out@[k])@ == spec[k] by {
                if k > 0 {
                    assert(out@[1 + (k - 1)] == out@[k]);
                }
            }
        }
        out
    } else {
        let parts = split_on(v, '/');
        let ghost pv = parts@.map_values(|p: Vec<char>| p@);
        assert(pv =~= split_char(v@, '/'));
        let lead_dot = parts.len() > 0 && parts[0].len() == 1 && parts[0][0] == '.';
        assert(lead_dot == (pv.len() > 0 && pv[0] == seq!['.'])) by {
            if pv.len() > 0 && pv[0].len() == 1 && pv[0][0] == '.' {
                assert(pv[0] =~= seq!['.']);
            }
        }
        if lead_dot {
            let mut dot: Vec<char> = Vec::new();
            dot.push('.');
            out.push(dot);
            keep_segments_from(&parts, 1, &mut out);
            proof {
                let spec = components(v@);
                assert(parts@.skip(1).map_values(|p: Vec<char>| p@) =~= pv.drop_first());
                assert(spec == seq![seq!['.']] + kept_segments(pv.drop_first()));
                assert(out@[0]@ =~= seq!['.']);
                assert forall|k: int| 0 <= k < out@.len() implies (#[trigger] out@[k])@
                    == spec[k] by {
                    if k > 0 {
                        assert(out@[1 + (k - 1)] == out@[k]);
                    }
                }
            }
        } else {
            assert(parts@.skip(0) =~= parts@);
            keep_segments_from(&parts, 0, &mut out);
            proof {
                assert(parts@.skip(0).map_values(|p: Vec<char>| p@) =~= pv);
                assert forall|k: int| 0 <= k < out@.len() implies (#[trigger] out@[k])@
                    == components(v@)[k] by {
                    assert(out@[0 + k] == out@[k]);
                }
            }
        }
        out
    }
}

/// Whether two component lists are equal.
fn components_eq(a: &Vec<Vec<char>>, b: &Vec<Vec<char>>, n: usize) -> (r: bool)
    requires
        n <= a@.len(),
        n <= b@.len(),
    ensures
        r == (forall|k: int| 0 <= k < n ==> a@[k]@ == b@[k]@),
{
    let mut i: usize = 0;
    while i < n
        invariant
            n <= a@.len(),
            n <= b@.len(),
            i <= n,
            forall|k: int| 0 <= k < i ==> a@[k]@ == b@[k]@,
        decreases n - i,
    {
        if !seq_eq(&a[i], &b[i]) {
            return false;
        }
        i = i + 1;
    }
    true
}

/// `Path::starts_with` on strings.
pub fn path_starts_with_exec(p: &str, base: &str) -> (r: bool)
    ensures
        r == path_starts_with(p@, base@),
{
    let pv = chars_of(p);
    let bv = chars_of(base);
    let a = components_exec(&pv);
    let b = components_exec(&bv);
    if b.len() > a.len() {
        return false;
    }
    let r = components_eq(&a, &b, b.len());
    proof {
        let sa = components(p@);
        let sb = components(base@);
        if r {
            assert forall|k: int| 0 <= k < sb.len() implies sa.take(sb.len() as int)[k] == sb[k] by {
                assert(a@[k]@ == b@[k]@);
            }
            assert(sa.take(sb.len() as int) =~= sb);
        } else {
            assert(sa.take(sb.len() as int) != sb) by {
                let k = choose|k: int| 0 <= k < b@.len() && !(a@[k]@ == b@[k]@);
                assert(sa.take(sb.len() as int)[k] == sa[k]);
            }
        }
    }
    r
}

/// `Path == Path` on strings.
pub fn path_eq_exec(x: &str, y: &str) -> (r: bool)
    ensures
        r == path_eq(x@, y@),
{
    let xv = chars_of(x);
    let yv = chars_of(y);
    let a = components_exec(&xv);
    let b = components_exec(&yv);
    if a.len() != b.len() {
        return false;
    }
    let r = components_eq(&a, &b, b.len());
    proof {
        if r {
            assert forall|k: int| 0 <= k < b@.len() implies components(x@)[k] == components(y@)[k] by {
                assert(a@[k]@ == b@[k]@);
            }
            assert(components(x@) =~= components(y@));
        } else {
            let k = choose|k: int| 0 <= k < b@.len() && !(a@[k]@ == b@[k]@);
            assert(components(x@)[k] != components(y@)[k]);
        }
    }
    r
}

/// Number of components of a path.
pub fn component_count(p: &str) -> (n: usize)
    ensures
        n == components(p@).len(),
{
    let pv = chars_of(p);
    let a = components_exec(&pv);
    a.len()
}

/// `Path::file_name` on a string.
pub fn file_name_exec(p: &str) -> (r: Option<String>)
    ensures
        match r {
            Some(f) => file_name(p@) == Some(f@),
            None => file_name(p@) is None,
        },
{
    let pv = chars_of(p);
    let c = components_exec(&pv);
    if c.len() == 0 {
        return None;
    }
    let last = &c[c.len() - 1];
    assert(last@ == components(p@).last());
    if is_str(last, "/") || is_str(last, ".") || is_str(last, "..") {
        proof {
            reveal_strlit("/");
            reveal_strlit(".");
            reveal_strlit("..");
            assert("/"@ =~= seq!['/']);
            assert("."@ =~= seq!['.']);
            assert(".."@ =~= seq!['.', '.']);
        }
        return None;
    }
    proof {
        reveal_strlit("/");
        reveal_strlit(".");
        reveal_strlit("..");
        assert("/"@ =~= seq!['/']);
        assert("."@ =~= seq!['.']);
        assert(".."@ =~= seq!['.', '.']);
    }
    Some(string_from(last))
}

/// Index of the last `c` in `v`, if any.
pub(crate) fn rfind_char(v: &Vec<char>, c: char) -> (r: Option<usize>)
    ensures
        match r {
            Some(k) => k < v.len() && last_index(v@, c) == Some(k as int),
            None => last_index(v@, c) is None,
        },
{
    let mut i = v.len();
    while i > 0
        invariant
            i <= v.len(),
            forall|j: int| i <= j < v.len() ==> v@[j] != c,
        decreases i,
    {
        if v[i - 1] == c {
            proof {
                let s = v@;
                let k = (i - 1) as int;
                assert(0 <= k < s.len() && s[k] == c && forall|j: int| k < j < s.len() ==> s[j] != c);
                let m = choose|m: int| 0 <= m < s.len() && s[m] == c && forall|j: int| m < j < s.len() ==> s[j] != c;
                if m < k {
                    assert(s[k] != c);
                }
                if m > k {
                    assert(s[m] != c);
                }
            }
            return Some(i - 1);
        }
        i = i - 1;
    }
    None
}

/// `Path::extension` on a string.
pub fn extension_exec(p: &str) -> (r: Option<String>)
    ensures
        match r {
            Some(e) => extension(p@) == Some(e@),
            None => extension(p@) is None,
        },
{
    match file_name_exec(p) {
        None => None,
        Some(f) => {
            let fv = chars_of(f.as_str());
            match rfind_char(&fv, '.') {
                None => None,
                Some(k) => {
                    if k == 0 {
                        None
                    } else {
                        let e = slice_of(&fv, k + 1, fv.len());
                        assert(e@ =~= fv@.skip(k + 1));
                        Some(string_from(&e))
                    }
                },
            }
        },
    }
}

/// `Path::join` on strings.
pub fn join_exec(base: &str, rel: &str) -> (r: String)
    ensures
        r@ == join(base@, rel@),
{
    let rv = chars_of(rel);
    if rv.len() > 0 && rv[0] == '/' {
        return string_from(&rv);
    }
    let mut bv = chars_of(base);
    if bv.len() == 0 || bv[bv.len() - 1] == '/' {
        push_all(&mut bv, &rv);
        string_from(&bv)
    } else {
        bv.push('/');
        push_all(&mut bv, &rv);
        string_from(&bv)
    }
}

} // verus!
