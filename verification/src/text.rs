//! Character-sequence helpers shared by the parsers and formatters.
//!
//! Strings are handled as sequences of `char`; the functions here carry the
//! meaning of the `str` operations the rest of the library relies on
//! (`trim`, `split_whitespace`, `lines`, integer parsing, decimal output).

use vstd::prelude::*;

verus! {

broadcast use vstd::string::group_string_axioms;

// ---------------------------------------------------------------------------
// Character classes
// ---------------------------------------------------------------------------

/// Unicode `White_Space`, the property behind `char::is_whitespace`.
pub open spec fn is_ws(c: char) -> bool {
    ||| ('\u{9}' <= c && c <= '\u{d}')
    ||| c == ' '
    ||| c == '\u{85}'
    ||| c == '\u{a0}'
    ||| c == '\u{1680}'
    ||| ('\u{2000}' <= c && c <= '\u{200a}')
    ||| c == '\u{2028}'
    ||| c == '\u{2029}'
    ||| c == '\u{202f}'
    ||| c == '\u{205f}'
    ||| c == '\u{3000}'
}

/// `char::is_whitespace`.
pub fn char_is_ws(c: char) -> (b: bool)
    ensures
        b == is_ws(c),
{
    ('\u{9}' <= c && c <= '\u{d}') || c == ' ' || c == '\u{85}' || c == '\u{a0}' || c
        == '\u{1680}' || ('\u{2000}' <= c && c <= '\u{200a}') || c == '\u{2028}' || c
        == '\u{2029}' || c == '\u{202f}' || c == '\u{205f}' || c == '\u{3000}'
}

pub open spec fn is_digit(c: char) -> bool {
    '0' <= c && c <= '9'
}

pub open spec fn digit_value(c: char) -> nat {
    (c as int - '0' as int) as nat
}

pub open spec fn is_hex_digit(c: char) -> bool {
    ||| is_digit(c)
    ||| ('a' <= c && c <= 'f')
    ||| ('A' <= c && c <= 'F')
}

pub open spec fn hex_value(c: char) -> nat {
    if is_digit(c) {
        digit_value(c)
    } else if 'a' <= c && c <= 'f' {
        (c as int - 'a' as int + 10) as nat
    } else {
        (c as int - 'A' as int + 10) as nat
    }
}

/// The ASCII lower-case of `c` (other characters unchanged).
pub open spec fn ascii_lower(c: char) -> char {
    if 'A' <= c && c <= 'Z' {
        ((c as int) + 32) as char
    } else {
        c
    }
}

// ---------------------------------------------------------------------------
// Conversions between `str`/`String` and `Vec<char>`
// ---------------------------------------------------------------------------

/// Collects the characters of `s`.
pub fn chars_of(s: &str) -> (v: Vec<char>)
    ensures
        v@ == s@,
{
    let mut v: Vec<char> = Vec::new();
    for c in it: s.chars()
        invariant
            v@ == it.seq().take(it.index() as int),
    {
        v.push(c);
    }
    v
}

/// `String::push`.
#[verifier::external_body]
fn string_push(s: &mut String, c: char)
    ensures
        final(s)@ == old(s)@.push(c),
{
    s.push(c);
}

/// Builds a `String` holding exactly the characters of `v`.
pub fn string_from(v: &Vec<char>) -> (s: String)
    ensures
        s@ == v@,
{
    let mut s = String::new();
    let mut i: usize = 0;
    while i < v.len()
        invariant
            i <= v.len(),
            s@ == v@.take(i as int),
        decreases v.len() - i,
    {
        string_push(&mut s, v[i]);
        assert(v@.take(i as int).push(v@[i as int]) =~= v@.take(i + 1));
        i = i + 1;
    }
    assert(v@.take(v.len() as int) =~= v@);
    s
}

/// A fresh `String` with the characters of `s`.
pub fn owned(s: &str) -> (r: String)
    ensures
        r@ == s@,
{
    let v = chars_of(s);
    string_from(&v)
}

/// Appends the characters of `s` to `v`.
pub fn push_str(v: &mut Vec<char>, s: &str)
    ensures
        final(v)@ == old(v)@ + s@,
{
    let w = chars_of(s);
    push_all(v, &w);
}

/// Appends the elements of `w` to `v`.
pub fn push_all(v: &mut Vec<char>, w: &Vec<char>)
    ensures
        final(v)@ == old(v)@ + w@,
{
    let ghost v0 = v@;
    let mut i: usize = 0;
    while i < w.len()
        invariant
            i <= w.len(),
            v@ == v0 + w@.take(i as int),
        decreases w.len() - i,
    {
        v.push(w[i]);
        assert(v0 + w@.take(i + 1) =~= (v0 + w@.take(i as int)).push(w@[i as int]));
        i = i + 1;
    }
    assert(w@.take(w.len() as int) =~= w@);
}

/// The concatenation `a + b` as a `String`.
pub fn concat(a: &str, b: &str) -> (r: String)
    ensures
        r@ == a@ + b@,
{
    let mut v = chars_of(a);
    push_str(&mut v, b);
    string_from(&v)
}

/// The concatenation `a + b + c` as a `String`.
pub fn concat3(a: &str, b: &str, c: &str) -> (r: String)
    ensures
        r@ == a@ + b@ + c@,
{
    let mut v = chars_of(a);
    push_str(&mut v, b);
    push_str(&mut v, c);
    string_from(&v)
}

/// The characters of an optional string slice.
pub open spec fn opt_view(o: Option<&str>) -> Option<Seq<char>> {
    match o {
        Some(s) => Some(s@),
        None => None,
    }
}

/// The characters of each string.
pub open spec fn string_views(v: Seq<String>) -> Seq<Seq<char>> {
    v.map_values(|s: String| s@)
}

/// Appends a copy of `s` to a list of strings.
pub fn push_arg(args: &mut Vec<String>, s: &str)
    ensures
        string_views(final(args)@) == string_views(old(args)@).push(s@),
{
    let ghost a0 = args@;
    args.push(owned(s));
    assert(string_views(args@) =~= string_views(a0).push(s@));
}

/// Appends `prefix + s` to a list of strings.
pub fn push_arg2(args: &mut Vec<String>, prefix: &str, s: &str)
    ensures
        string_views(final(args)@) == string_views(old(args)@).push(prefix@ + s@),
{
    let ghost a0 = args@;
    args.push(concat(prefix, s));
    assert(string_views(args@) =~= string_views(a0).push(prefix@ + s@));
}

/// Appends `prefix + x` for every `x` of `items`.
pub fn push_each_prefixed(args: &mut Vec<String>, prefix: &str, items: &Vec<String>)
    ensures
        string_views(final(args)@) == string_views(old(args)@) + string_views(items@).map_values(
            |x: Seq<char>| prefix@ + x,
        ),
{
    let ghost a0 = args@;
    let mut i: usize = 0;
    while i < items.len()
        invariant
            i <= items.len(),
            string_views(args@) == string_views(a0) + string_views(items@.take(i as int)).map_values(
                |x: Seq<char>| prefix@ + x,
            ),
        decreases items.len() - i,
    {
        push_arg2(args, prefix, items[i].as_str());
        assert(string_views(items@.take(i + 1)).map_values(|x: Seq<char>| prefix@ + x) =~= string_views(
            items@.take(i as int),
        ).map_values(|x: Seq<char>| prefix@ + x).push(prefix@ + items@[i as int]@));
        i = i + 1;
    }
    assert(items@.take(items.len() as int) =~= items@);
}

/// Appends a copy of every string of `items`.
pub fn push_each(args: &mut Vec<String>, items: &Vec<String>)
    ensures
        string_views(final(args)@) == string_views(old(args)@) + string_views(items@),
{
    let ghost a0 = args@;
    let mut i: usize = 0;
    while i < items.len()
        invariant
            i <= items.len(),
            string_views(args@) == string_views(a0) + string_views(items@.take(i as int)),
        decreases items.len() - i,
    {
        push_arg(args, items[i].as_str());
        assert(string_views(items@.take(i + 1)) =~= string_views(items@.take(i as int)).push(
            items@[i as int]@,
        ));
        i = i + 1;
    }
    assert(items@.take(items.len() as int) =~= items@);
}

// ---------------------------------------------------------------------------
// Comparisons
// ---------------------------------------------------------------------------

/// Element-wise equality of two character sequences.
pub fn seq_eq(a: &Vec<char>, b: &Vec<char>) -> (r: bool)
    ensures
        r == (a@ == b@),
{
    if a.len() != b.len() {
        return false;
    }
    let mut i: usize = 0;
    while i < a.len()
        invariant
            a.len() == b.len(),
            i <= a.len(),
            a@.take(i as int) == b@.take(i as int),
        decreases a.len() - i,
    {
        if a[i] != b[i] {
            assert(a@[i as int] != b@[i as int]);
            return false;
        }
        assert(a@.take(i + 1) =~= a@.take(i as int).push(a@[i as int]));
        assert(b@.take(i + 1) =~= b@.take(i as int).push(b@[i as int]));
        i = i + 1;
    }
    assert(a@.take(a.len() as int) =~= a@);
    assert(b@.take(b.len() as int) =~= b@);
    true
}

/// `a == b` on string slices.
pub fn str_eq(a: &str, b: &str) -> (r: bool)
    ensures
        r == (a@ == b@),
{
    let x = chars_of(a);
    let y = chars_of(b);
    seq_eq(&x, &y)
}

/// Whether the characters of `v` spell `lit`.
pub fn is_str(v: &Vec<char>, lit: &str) -> (r: bool)
    ensures
        r == (v@ == lit@),
{
    let w = chars_of(lit);
    seq_eq(v, &w)
}

pub open spec fn starts_with(s: Seq<char>, p: Seq<char>) -> bool {
    p.len() <= s.len() && s.take(p.len() as int) == p
}

pub open spec fn ends_with(s: Seq<char>, p: Seq<char>) -> bool {
    p.len() <= s.len() && s.skip(s.len() - p.len()) == p
}

pub open spec fn occurs_at(s: Seq<char>, p: Seq<char>, i: int) -> bool {
    0 <= i && i + p.len() <= s.len() && s.subrange(i, i + p.len()) == p
}

pub open spec fn contains(s: Seq<char>, p: Seq<char>) -> bool {
    exists|i: int| occurs_at(s, p, i)
}

/// Whether `p` occurs in `s` starting at index `i`.
pub fn occurs_at_exec(s: &Vec<char>, p: &Vec<char>, i: usize) -> (r: bool)
    ensures
        r == occurs_at(s@, p@, i as int),
{
    if i > s.len() || p.len() > s.len() - i {
        return false;
    }
    let mut k: usize = 0;
    while k < p.len()
        invariant
            i + p.len() <= s.len(),
            k <= p.len(),
            s@.subrange(i as int, i + k) == p@.take(k as int),
        decreases p.len() - k,
    {
        if s[i + k] != p[k] {
            assert(s@.subrange(i as int, i + p.len())[k as int] != p@[k as int]);
            return false;
        }
        assert(s@.subrange(i as int, i + k + 1) =~= s@.subrange(i as int, i + k).push(
            s@[i + k],
        ));
        assert(p@.take(k + 1) =~= p@.take(k as int).push(p@[k as int]));
        k = k + 1;
    }
    assert(p@.take(p.len() as int) =~= p@);
    true
}

/// `str::starts_with` on character sequences.
pub fn starts_with_exec(s: &Vec<char>, p: &Vec<char>) -> (r: bool)
    ensures
        r == starts_with(s@, p@),
{
    let r = occurs_at_exec(s, p, 0);
    assert(r ==> s@.subrange(0, p@.len() as int) =~= s@.take(p@.len() as int));
    assert(starts_with(s@, p@) ==> s@.subrange(0, p@.len() as int) =~= s@.take(
        p@.len() as int,
    ));
    r
}

/// `str::ends_with` on character sequences.
pub fn ends_with_exec(s: &Vec<char>, p: &Vec<char>) -> (r: bool)
    ensures
        r == ends_with(s@, p@),
{
    if p.len() > s.len() {
        return false;
    }
    let i = s.len() - p.len();
    let r = occurs_at_exec(s, p, i);
    assert(s@.subrange(i as int, i + p@.len()) =~= s@.skip(i as int));
    r
}

/// `str::contains` on character sequences.
pub fn contains_exec(s: &Vec<char>, p: &Vec<char>) -> (r: bool)
    ensures
        r == contains(s@, p@),
{
    if p.len() > s.len() {
        return false;
    }
    let last = s.len() - p.len();
    let mut i: usize = 0;
    loop
        invariant
            p.len() <= s.len(),
            last == s.len() - p.len(),
            i <= last,
            forall|j: int| 0 <= j < i ==> !occurs_at(s@, p@, j),
        ensures
            forall|j: int| 0 <= j <= last ==> !occurs_at(s@, p@, j),
        decreases last - i,
    {
        if occurs_at_exec(s, p, i) {
            return true;
        }
        if i == last {
            break;
        }
        i = i + 1;
    }
    assert forall|j: int| !occurs_at(s@, p@, j) by {
        if 0 <= j && j + p@.len() <= s@.len() {
            assert(j <= last);
        }
    }
    false
}

/// Whether `s` contains the literal `lit`.
pub fn contains_str(s: &Vec<char>, lit: &str) -> (r: bool)
    ensures
        r == contains(s@, lit@),
{
    let p = chars_of(lit);
    contains_exec(s, &p)
}

/// Whether `s` starts with the literal `lit`.
pub fn starts_with_str(s: &Vec<char>, lit: &str) -> (r: bool)
    ensures
        r == starts_with(s@, lit@),
{
    let p = chars_of(lit);
    starts_with_exec(s, &p)
}

/// Whether `s` ends with the literal `lit`.
pub fn ends_with_str(s: &Vec<char>, lit: &str) -> (r: bool)
    ensures
        r == ends_with(s@, lit@),
{
    let p = chars_of(lit);
    ends_with_exec(s, &p)
}

/// The sub-sequence `v[from..to]`.
pub fn slice_of(v: &Vec<char>, from: usize, to: usize) -> (r: Vec<char>)
    requires
        from <= to <= v.len(),
    ensures
        r@ == v@.subrange(from as int, to as int),
{
    let mut r: Vec<char> = Vec::new();
    let mut i = from;
    while i < to
        invariant
            from <= i <= to <= v.len(),
            r@ == v@.subrange(from as int, i as int),
        decreases to - i,
    {
        r.push(v[i]);
        assert(v@.subrange(from as int, i + 1) =~= v@.subrange(from as int, i as int).push(
            v@[i as int],
        ));
        i = i + 1;
    }
    r
}

// ---------------------------------------------------------------------------
// Trimming
// ---------------------------------------------------------------------------

pub open spec fn trim_start(s: Seq<char>) -> Seq<char>
    decreases s.len(),
{
    if s.len() > 0 && is_ws(s[0]) {
        trim_start(s.drop_first())
    } else {
        s
    }
}

pub open spec fn trim_end(s: Seq<char>) -> Seq<char>
    decreases s.len(),
{
    if s.len() > 0 && is_ws(s.last()) {
        trim_end(s.drop_last())
    } else {
        s
    }
}

/// `str::trim`: leading and trailing white space removed.
pub open spec fn trim(s: Seq<char>) -> Seq<char> {
    trim_end(trim_start(s))
}

/// Index of the first non-white-space character (or the length).
fn skip_ws_from(v: &Vec<char>, start: usize) -> (i: usize)
    requires
        start <= v.len(),
    ensures
        start <= i <= v.len(),
        trim_start(v@.skip(start as int)) == v@.skip(i as int),
        forall|k: int| start <= k < i ==> is_ws(v@[k]),
        i < v.len() ==> !is_ws(v@[i as int]),
{
    let mut i = start;
    while i < v.len() && char_is_ws(v[i])
        invariant
            start <= i <= v.len(),
            trim_start(v@.skip(start as int)) == trim_start(v@.skip(i as int)),
            forall|k: int| start <= k < i ==> is_ws(v@[k]),
        decreases v.len() - i,
    {
        assert(v@.skip(i as int).drop_first() =~= v@.skip(i + 1));
        i = i + 1;
    }
    i
}

proof fn lemma_trim_end_take(s: Seq<char>, j: int)
    requires
        0 <= j <= s.len(),
        forall|k: int| j <= k < s.len() ==> is_ws(s[k]),
        j == 0 || !is_ws(s[j - 1]),
    ensures
        trim_end(s) == s.take(j),
    decreases s.len() - j,
{
    if j == s.len() {
        assert(s.take(j) =~= s);
        if s.len() > 0 {
            assert(s.last() == s[j - 1]);
        }
    } else {
        let t = s.drop_last();
        assert(is_ws(s.last()));
        lemma_trim_end_take(t, j);
        assert(t.take(j) =~= s.take(j));
    }
}

/// `str::trim` on a character sequence.
pub fn trim_exec(v: &Vec<char>) -> (r: Vec<char>)
    ensures
        r@ == trim(v@),
{
    let i = skip_ws_from(v, 0);
    assert(v@.skip(0) =~= v@);
    let mut j = v.len();
    while j > i && char_is_ws(v[j - 1])
        invariant
            i <= j <= v.len(),
            forall|k: int| j <= k < v.len() ==> is_ws(v@[k]),
        decreases j,
    {
        j = j - 1;
    }
    proof {
        let s = v@.skip(i as int);
        assert forall|k: int| (j - i) <= k < s.len() implies is_ws(s[k]) by {
            assert(s[k] == v@[i + k]);
        }
        if j > i {
            assert(s[j - i - 1] == v@[j - 1]);
        } else if i < v.len() {
            assert(!is_ws(v@[i as int]));
            assert(s[0] == v@[i as int]);
            assert(false);
        }
        lemma_trim_end_take(s, (j - i) as int);
        assert(s.take((j - i) as int) =~= v@.subrange(i as int, j as int));
    }
    slice_of(v, i, j)
}

/// `str::trim` on a string slice.
pub fn trim_str(s: &str) -> (r: Vec<char>)
    ensures
        r@ == trim(s@),
{
    let v = chars_of(s);
    trim_exec(&v)
}

// ---------------------------------------------------------------------------
// Splitting on white space
// ---------------------------------------------------------------------------

/// Longest prefix without white space.
pub open spec fn take_word(s: Seq<char>) -> Seq<char>
    decreases s.len(),
{
    if s.len() > 0 && !is_ws(s[0]) {
        seq![s[0]] + take_word(s.drop_first())
    } else {
        Seq::empty()
    }
}

proof fn lemma_take_word_len(s: Seq<char>)
    ensures
        take_word(s).len() <= s.len(),
        take_word(s) == s.take(take_word(s).len() as int),
        forall|k: int| 0 <= k < take_word(s).len() ==> !is_ws(s[k]),
        take_word(s).len() < s.len() ==> is_ws(s[take_word(s).len() as int]),
    decreases s.len(),
{
    if s.len() > 0 && !is_ws(s[0]) {
        lemma_take_word_len(s.drop_first());
        let w = take_word(s.drop_first());
        assert(take_word(s) =~= seq![s[0]] + w);
        assert(s.take(take_word(s).len() as int) =~= seq![s[0]] + s.drop_first().take(
            w.len() as int,
        ));
        assert forall|k: int| 0 <= k < take_word(s).len() implies !is_ws(s[k]) by {
            if k > 0 {
                assert(s[k] == s.drop_first()[k - 1]);
            }
        }
        if take_word(s).len() < s.len() {
            assert(s[take_word(s).len() as int] == s.drop_first()[w.len() as int]);
        }
    } else {
        assert(s.take(0) =~= Seq::<char>::empty());
    }
}

/// `str::split_whitespace`: the maximal runs of non-white-space characters.
pub open spec fn words(s: Seq<char>) -> Seq<Seq<char>>
    decreases s.len(),
{
    let t = trim_start(s);
    if t.len() == 0 {
        Seq::empty()
    } else {
        let w = take_word(t);
        if w.len() == 0 || w.len() > t.len() || t.len() > s.len() {
            Seq::empty()  // unreachable: `t` starts with a non-white-space char

        } else {
            seq![w] + words(t.skip(w.len() as int))
        }
    }
}

proof fn lemma_trim_start_suffix(s: Seq<char>)
    ensures
        trim_start(s).len() <= s.len(),
        trim_start(s) == s.skip(s.len() - trim_start(s).len()),
        trim_start(s).len() > 0 ==> !is_ws(trim_start(s)[0]),
    decreases s.len(),
{
    if s.len() > 0 && is_ws(s[0]) {
        lemma_trim_start_suffix(s.drop_first());
        let t = trim_start(s.drop_first());
        assert(s.drop_first().skip(s.drop_first().len() - t.len()) =~= s.skip(
            s.len() - t.len(),
        ));
    } else {
        assert(s.skip(0) =~= s);
    }
}

/// Index just past the word starting at `start`.
fn word_end(v: &Vec<char>, start: usize) -> (j: usize)
    requires
        start <= v.len(),
    ensures
        start <= j <= v.len(),
        take_word(v@.skip(start as int)) == v@.subrange(start as int, j as int),
{
    let mut j = start;
    while j < v.len() && !char_is_ws(v[j])
        invariant
            start <= j <= v.len(),
            forall|k: int| start <= k < j ==> !is_ws(v@[k]),
        decreases v.len() - j,
    {
        j = j + 1;
    }
    proof {
        let s = v@.skip(start as int);
        lemma_take_word_len(s);
        let n = take_word(s).len() as int;
        if n < j - start {
            assert(is_ws(s[n]));
            assert(s[n] == v@[start + n]);
        }
        if n > j - start {
            assert(!is_ws(s[j - start]));
            assert(s[j - start] == v@[j as int]);
        }
        assert(n == j - start);
        assert(s.take(n) =~= v@.subrange(start as int, j as int));
    }
    j
}

/// `str::split_whitespace` on a character sequence.
pub fn split_words(v: &Vec<char>) -> (r: Vec<Vec<char>>)
    ensures
        r@.len() == words(v@).len(),
        forall|k: int| 0 <= k < r@.len() ==> (#[trigger] r@[k])@ == words(v@)[k],
{
    let mut r: Vec<Vec<char>> = Vec::new();
    let ghost mut done: Seq<Seq<char>> = Seq::empty();
    let mut i: usize = 0;
    assert(v@.skip(0) =~= v@);
    loop
        invariant
            i <= v.len(),
            r@.len() == done.len(),
            forall|k: int| 0 <= k < r@.len() ==> (#[trigger] r@[k])@ == done[k],
            words(v@) == done + words(v@.skip(i as int)),
        decreases v.len() - i,
    {
        let a = skip_ws_from(v, i);
        proof {
            lemma_trim_start_suffix(v@.skip(i as int));
        }
        if a == v.len() {
            assert(v@.skip(a as int).len() == 0);
            assert(words(v@.skip(i as int)) == Seq::<Seq<char>>::empty());
            assert(done + Seq::<Seq<char>>::empty() =~= done);
            return r;
        }
        let b = word_end(v, a);
        proof {
            let t = v@.skip(a as int);
            assert(t[0] == v@[a as int]);
            assert(!is_ws(v@[a as int]));
            lemma_take_word_len(t);
            assert(take_word(t).len() >= 1) by {
                assert(take_word(t) =~= seq![t[0]] + take_word(t.drop_first()));
            }
            assert(t.skip((b - a) as int) =~= v@.skip(b as int));
            assert(words(v@.skip(i as int)) == seq![v@.subrange(a as int, b as int)] + words(
                v@.skip(b as int),
            ));
        }
        let w = slice_of(v, a, b);
        r.push(w);
        proof {
            let old_done = done;
            done = done.push(v@.subrange(a as int, b as int));
            assert(old_done + (seq![v@.subrange(a as int, b as int)] + words(v@.skip(b as int)))
                =~= done + words(v@.skip(b as int)));
        }
        i = b;
    }
}

// ---------------------------------------------------------------------------
// Lines
// ---------------------------------------------------------------------------

/// Index of the first `c` in `s`, if any.
pub open spec fn first_index(s: Seq<char>, c: char) -> Option<int> {
    if exists|i: int| 0 <= i < s.len() && s[i] == c {
        Some(choose|i: int| 0 <= i < s.len() && s[i] == c && forall|j: int| 0 <= j < i ==> s[j] != c)
    } else {
        None
    }
}

/// The first line of `s` and what follows its line ending.
pub open spec fn line_head(s: Seq<char>) -> (Seq<char>, Seq<char>) {
    match first_index(s, '\n') {
        Some(k) => {
            let line = s.take(k);
            let line = if line.len() > 0 && line.last() == '\r' {
                line.drop_last()
            } else {
                line
            };
            (line, s.skip(k + 1))
        },
        None => (s, Seq::empty()),
    }
}

/// `str::lines`: split at `\n` or `\r\n`; a final line ending adds no empty line.
#[verifier::opaque]
pub open spec fn lines(s: Seq<char>) -> Seq<Seq<char>>
    decreases s.len(),
{
    if s.len() == 0 {
        Seq::empty()
    } else {
        let (line, rest) = line_head(s);
        if rest.len() < s.len() {
            seq![line] + lines(rest)
        } else {
            seq![line]
        }
    }
}

/// Index of the first `c` at or after `start` (or the length).
pub fn find_char_from(v: &Vec<char>, start: usize, c: char) -> (k: usize)
    requires
        start <= v.len(),
    ensures
        start <= k <= v.len(),
        k < v.len() ==> v@[k as int] == c,
        forall|j: int| start <= j < k ==> v@[j] != c,
{
    let mut k = start;
    while k < v.len() && v[k] != c
        invariant
            start <= k <= v.len(),
            forall|j: int| start <= j < k ==> v@[j] != c,
        decreases v.len() - k,
    {
        k = k + 1;
    }
    k
}

proof fn lemma_first_index(s: Seq<char>, c: char, k: int)
    requires
        0 <= k <= s.len(),
        k < s.len() ==> s[k] == c,
        forall|j: int| 0 <= j < k ==> s[j] != c,
    ensures
        first_index(s, c) == (if k < s.len() {
            Some(k)
        } else {
            None::<int>
        }),
{
    if k < s.len() {
        assert(0 <= k < s.len() && s[k] == c);
        let i = choose|i: int| 0 <= i < s.len() && s[i] == c && forall|j: int| 0 <= j < i ==> s[j] != c;
        assert(0 <= k < s.len() && s[k] == c && forall|j: int| 0 <= j < k ==> s[j] != c);
        if i < k {
            assert(s[i] != c);
        }
        if i > k {
            assert(s[k] != c);
        }
    }
}

proof fn lemma_lines_step(v: Seq<char>, i: int, k: int, end: int, next: int)
    requires
        0 <= i < v.len(),
        i <= k <= v.len(),
        k < v.len() ==> v[k] == '\n',
        forall|j: int| i <= j < k ==> v[j] != '\n',
        end == (if k < v.len() && k > i && v[k - 1] == '\r' {
            k - 1
        } else {
            k
        }),
        next == (if k < v.len() {
            k + 1
        } else {
            k
        }),
    ensures
        lines(v.skip(i)) == seq![v.subrange(i, end)] + lines(v.skip(next)),
{
    reveal(lines);
    let s = v.skip(i);
    assert forall|j: int| 0 <= j < k - i implies s[j] != '\n' by {
        assert(s[j] == v[i + j]);
    }
    if k < v.len() {
        assert(s[k - i] == v[k]);
    }
    lemma_first_index(s, '\n', k - i);
    let (lh, rest) = line_head(s);
    if k < v.len() {
        assert(s.take(k - i) =~= v.subrange(i, k));
        if k > i {
            assert(s.take(k - i).last() == v[k - 1]);
        }
        if end < k {
            assert(s.take(k - i).drop_last() =~= v.subrange(i, end));
        }
        assert(lh == v.subrange(i, end));
        assert(rest =~= v.skip(next));
        assert(rest.len() < s.len());
        assert(lines(s) == seq![lh] + lines(rest));
    } else {
        assert(s =~= v.subrange(i, end));
        assert(rest.len() == 0);
        assert(v.skip(next).len() == 0);
        assert(lines(v.skip(next)) == Seq::<Seq<char>>::empty());
        assert(rest =~= v.skip(next));
        assert(lines(s) == seq![lh] + lines(rest));
        assert(seq![lh] + Seq::<Seq<char>>::empty() =~= seq![lh]);
    }
}

/// `str::lines` on a character sequence.
pub fn split_lines(v: &Vec<char>) -> (r: Vec<Vec<char>>)
    ensures
        r@.len() == lines(v@).len(),
        forall|k: int| 0 <= k < r@.len() ==> (#[trigger] r@[k])@ == lines(v@)[k],
{
    let mut r: Vec<Vec<char>> = Vec::new();
    let ghost mut done: Seq<Seq<char>> = Seq::empty();
    let mut i: usize = 0;
    assert(v@.skip(0) =~= v@);
    while i < v.len()
        invariant
            i <= v.len(),
            r@.len() == done.len(),
            forall|k: int| 0 <= k < r@.len() ==> (#[trigger] r@[k])@ == done[k],
            lines(v@) == done + lines(v@.skip(i as int)),
        decreases v.len() - i,
    {
        let k = find_char_from(v, i, '\n');
        let mut end = k;
        if k < v.len() && k > i && v[k - 1] == '\r' {
            end = k - 1;
        }
        let next = if k < v.len() {
            k + 1
        } else {
            k
        };
        proof {
            lemma_lines_step(v@, i as int, k as int, end as int, next as int);
        }
        let line = slice_of(v, i, end);
        r.push(line);
        proof {
            let old_done = done;
            done = done.push(v@.subrange(i as int, end as int));
            assert(old_done + (seq![v@.subrange(i as int, end as int)] + lines(
                v@.skip(next as int),
            )) =~= done + lines(v@.skip(next as int)));
        }
        i = next;
    }
    assert(v@.skip(i as int).len() == 0);
    assert(lines(v@.skip(i as int)) == Seq::<Seq<char>>::empty()) by {
        reveal(lines);
    }
    assert(done + lines(v@.skip(i as int)) =~= done);
    r
}

// ---------------------------------------------------------------------------
// Splitting at a separator character
// ---------------------------------------------------------------------------

/// `str::split_once(c)`: the parts before and after the first `c`.
pub open spec fn split_once(s: Seq<char>, c: char) -> Option<(Seq<char>, Seq<char>)> {
    match first_index(s, c) {
        Some(k) => Some((s.take(k), s.skip(k + 1))),
        None => None,
    }
}

/// `str::split_once(c)` on a character sequence.
pub fn split_once_exec(v: &Vec<char>, c: char) -> (r: Option<(Vec<char>, Vec<char>)>)
    ensures
        match r {
            Some((a, b)) => split_once(v@, c) == Some((a@, b@)),
            None => split_once(v@, c) is None,
        },
{
    let k = find_char_from(v, 0, c);
    proof {
        lemma_first_index(v@, c, k as int);
    }
    if k == v.len() {
        None
    } else {
        let a = slice_of(v, 0, k);
        let b = slice_of(v, k + 1, v.len());
        assert(a@ =~= v@.take(k as int));
        assert(b@ =~= v@.skip(k + 1));
        Some((a, b))
    }
}

// ---------------------------------------------------------------------------
// Integers
// ---------------------------------------------------------------------------

pub open spec fn all_digits(s: Seq<char>) -> bool {
    forall|i: int| 0 <= i < s.len() ==> is_digit(s[i])
}

/// Value of a sequence of decimal digits.
pub open spec fn dec_value(s: Seq<char>) -> nat
    decreases s.len(),
{
    if s.len() == 0 {
        0
    } else {
        dec_value(s.drop_last()) * 10 + digit_value(s.last())
    }
}

pub open spec fn all_hex_digits(s: Seq<char>) -> bool {
    forall|i: int| 0 <= i < s.len() ==> is_hex_digit(s[i])
}

/// Value of a sequence of hexadecimal digits.
pub open spec fn hex_seq_value(s: Seq<char>) -> nat
    decreases s.len(),
{
    if s.len() == 0 {
        0
    } else {
        hex_seq_value(s.drop_last()) * 16 + hex_value(s.last())
    }
}

/// Digits after an optional leading `+`.
pub open spec fn unsigned_body(s: Seq<char>) -> Seq<char> {
    if s.len() > 0 && s[0] == '+' {
        s.drop_first()
    } else {
        s
    }
}

/// `u64::from_str`: optional `+`, at least one decimal digit, no overflow.
pub open spec fn parse_u64(s: Seq<char>) -> Option<u64> {
    let d = unsigned_body(s);
    if d.len() > 0 && all_digits(d) && dec_value(d) <= u64::MAX {
        Some(dec_value(d) as u64)
    } else {
        None
    }
}

/// `u32::from_str_radix(s, 16)`: optional `+`, at least one hex digit, no overflow.
pub open spec fn parse_hex_u32(s: Seq<char>) -> Option<u32> {
    let d = unsigned_body(s);
    if d.len() > 0 && all_hex_digits(d) && hex_seq_value(d) <= u32::MAX {
        Some(hex_seq_value(d) as u32)
    } else {
        None
    }
}

proof fn lemma_dec_value_step(s: Seq<char>, i: int)
    requires
        0 <= i < s.len(),
    ensures
        dec_value(s.take(i + 1)) == dec_value(s.take(i)) * 10 + digit_value(s[i]),
{
    assert(s.take(i + 1).drop_last() =~= s.take(i));
}

proof fn lemma_hex_value_step(s: Seq<char>, i: int)
    requires
        0 <= i < s.len(),
    ensures
        hex_seq_value(s.take(i + 1)) == hex_seq_value(s.take(i)) * 16 + hex_value(s[i]),
{
    assert(s.take(i + 1).drop_last() =~= s.take(i));
}

proof fn lemma_dec_value_mono(s: Seq<char>, i: int)
    requires
        0 <= i <= s.len(),
    ensures
        dec_value(s.take(i)) <= dec_value(s),
    decreases s.len() - i,
{
    if i < s.len() {
        lemma_dec_value_mono(s, i + 1);
        lemma_dec_value_step(s, i);
    } else {
        assert(s.take(i) =~= s);
    }
}

proof fn lemma_hex_value_mono(s: Seq<char>, i: int)
    requires
        0 <= i <= s.len(),
    ensures
        hex_seq_value(s.take(i)) <= hex_seq_value(s),
    decreases s.len() - i,
{
    if i < s.len() {
        lemma_hex_value_mono(s, i + 1);
        lemma_hex_value_step(s, i);
    } else {
        assert(s.take(i) =~= s);
    }
}

proof fn lemma_accumulate(acc: int, base: int, dv: int, max: int)
    requires
        0 <= acc,
        2 <= base,
        0 <= dv < base,
        dv <= max,
    ensures
        acc > (max - dv) / base ==> acc * base + dv > max,
        acc <= (max - dv) / base ==> acc * base + dv <= max,
{
    assert(acc > (max - dv) / base ==> acc * base + dv > max) by (nonlinear_arith)
        requires
            0 <= acc,
            2 <= base,
            0 <= dv < base,
            dv <= max,
    ;
    assert(acc <= (max - dv) / base ==> acc * base + dv <= max) by (nonlinear_arith)
        requires
            0 <= acc,
            2 <= base,
            0 <= dv < base,
            dv <= max,
    ;
}

/// `str::parse::<u64>()` on a character sequence.
pub fn parse_u64_exec(v: &Vec<char>) -> (r: Option<u64>)
    ensures
        r == parse_u64(v@),
{
    let start: usize = if v.len() > 0 && v[0] == '+' {
        1
    } else {
        0
    };
    let ghost d = unsigned_body(v@);
    assert(d =~= v@.skip(start as int));
    if start == v.len() {
        return None;
    }
    let mut acc: u64 = 0;
    let mut i = start;
    while i < v.len()
        invariant
            start <= i <= v.len(),
            d == v@.skip(start as int),
            d == unsigned_body(v@),
            all_digits(d.take(i - start)),
            acc as nat == dec_value(d.take(i - start)),
        decreases v.len() - i,
    {
        let c = v[i];
        if !('0' <= c && c <= '9') {
            assert(d[i - start] == c);
            assert(!is_digit(d[i - start]));
            assert(!all_digits(d));
            return None;
        }
        let dv = (c as u32 - '0' as u32) as u64;
        proof {
            lemma_dec_value_step(d, i - start);
            assert(d[i - start] == c);
            assert(dv as nat == digit_value(c));
        }
        proof {
            lemma_accumulate(acc as int, 10, dv as int, u64::MAX as int);
        }
        if acc > (u64::MAX - dv) / 10 {
            proof {
                lemma_dec_value_mono(d, i - start + 1);
                assert(dec_value(d) > u64::MAX);
            }
            return None;
        }
        proof {
            assert forall|k: int| 0 <= k < i - start + 1 implies is_digit(
                #[trigger] d.take(i - start + 1)[k],
            ) by {
                if k < i - start {
                    assert(d.take(i - start + 1)[k] == d.take(i - start)[k]);
                }
            }
        }
        acc = acc * 10 + dv;
        i = i + 1;
    }
    assert(d.take(i - start) =~= d);
    Some(acc)
}

/// `str::parse::<u64>()` on a string slice.
pub fn parse_u64_str(s: &str) -> (r: Option<u64>)
    ensures
        r == parse_u64(s@),
{
    let v = chars_of(s);
    parse_u64_exec(&v)
}

/// `u32::from_str_radix(_, 16)` on a character sequence.
pub fn parse_hex_u32_exec(v: &Vec<char>) -> (r: Option<u32>)
    ensures
        r == parse_hex_u32(v@),
{
    let start: usize = if v.len() > 0 && v[0] == '+' {
        1
    } else {
        0
    };
    let ghost d = unsigned_body(v@);
    assert(d =~= v@.skip(start as int));
    if start == v.len() {
        return None;
    }
    let mut acc: u32 = 0;
    let mut i = start;
    while i < v.len()
        invariant
            start <= i <= v.len(),
            d == v@.skip(start as int),
            d == unsigned_body(v@),
            all_hex_digits(d.take(i - start)),
            acc as nat == hex_seq_value(d.take(i - start)),
        decreases v.len() - i,
    {
        let c = v[i];
        let dv: u32 = if '0' <= c && c <= '9' {
            (c as u32 - '0' as u32)
        } else if 'a' <= c && c <= 'f' {
            (c as u32 - 'a' as u32 + 10)
        } else if 'A' <= c && c <= 'F' {
            (c as u32 - 'A' as u32 + 10)
        } else {
            assert(d[i - start] == c);
            assert(!is_hex_digit(d[i - start]));
            assert(!all_hex_digits(d));
            return None;
        };
        proof {
            lemma_hex_value_step(d, i - start);
            assert(d[i - start] == c);
            assert(dv as nat == hex_value(c));
        }
        proof {
            lemma_accumulate(acc as int, 16, dv as int, u32::MAX as int);
        }
        if acc > (u32::MAX - dv) / 16 {
            proof {
                lemma_hex_value_mono(d, i - start + 1);
                assert(hex_seq_value(d) > u32::MAX);
            }
            return None;
        }
        proof {
            assert forall|k: int| 0 <= k < i - start + 1 implies is_hex_digit(
                #[trigger] d.take(i - start + 1)[k],
            ) by {
                if k < i - start {
                    assert(d.take(i - start + 1)[k] == d.take(i - start)[k]);
                }
            }
        }
        acc = acc * 16 + dv;
        i = i + 1;
    }
    assert(d.take(i - start) =~= d);
    Some(acc)
}

/// Decimal digits of `n`, most significant first, without leading zeros.
pub open spec fn dec_chars(n: nat) -> Seq<char>
    decreases n,
{
    if n < 10 {
        seq![('0' as int + n) as char]
    } else {
        dec_chars(n / 10) + seq![('0' as int + n % 10) as char]
    }
}

/// `n.to_string()` for an unsigned integer, as characters.
pub fn u64_chars(n: u64) -> (r: Vec<char>)
    ensures
        r@ == dec_chars(n as nat),
    decreases n,
{
    if n < 10 {
        let mut r: Vec<char> = Vec::new();
        r.push(('0' as u8 + n as u8) as char);
        assert(r@ =~= dec_chars(n as nat));
        r
    } else {
        let mut r = u64_chars(n / 10);
        let d = (n % 10) as u8;
        r.push(('0' as u8 + d) as char);
        assert(r@ =~= dec_chars(n as nat));
        r
    }
}

/// `n.to_string()` for an unsigned integer.
pub fn u64_to_string(n: u64) -> (r: String)
    ensures
        r@ == dec_chars(n as nat),
{
    let v = u64_chars(n);
    string_from(&v)
}

// ---------------------------------------------------------------------------
// Case
// ---------------------------------------------------------------------------

/// The result of `str::to_lowercase` (full Unicode lower-casing).
pub uninterp spec fn lowercase_of(s: Seq<char>) -> Seq<char>;

/// `str::to_lowercase`: Unicode lower-case mapping of `s`, as defined by std.
#[verifier::external_body]
pub fn to_lowercase(s: &str) -> (r: String)
    ensures
        r@ == lowercase_of(s@),
{
    s.to_lowercase()
}

pub open spec fn eq_ignore_ascii_case(a: Seq<char>, b: Seq<char>) -> bool {
    a.len() == b.len() && forall|i: int| 0 <= i < a.len() ==> ascii_lower(a[i]) == ascii_lower(
        b[i],
    )
}

fn ascii_lower_exec(c: char) -> (r: char)
    ensures
        r == ascii_lower(c),
{
    if 'A' <= c && c <= 'Z' {
        ((c as u8) + 32) as char
    } else {
        c
    }
}

/// `str::eq_ignore_ascii_case`.
pub fn eq_ignore_ascii_case_exec(a: &str, b: &str) -> (r: bool)
    ensures
        r == eq_ignore_ascii_case(a@, b@),
{
    let x = chars_of(a);
    let y = chars_of(b);
    if x.len() != y.len() {
        return false;
    }
    let mut i: usize = 0;
    while i < x.len()
        invariant
            x.len() == y.len(),
            x@ == a@,
            y@ == b@,
            i <= x.len(),
            forall|k: int| 0 <= k < i ==> ascii_lower(x@[k]) == ascii_lower(y@[k]),
        decreases x.len() - i,
    {
        if ascii_lower_exec(x[i]) != ascii_lower_exec(y[i]) {
            return false;
        }
        i = i + 1;
    }
    true
}

} // verus!
