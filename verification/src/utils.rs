//! Human-readable sizes and durations, and safe file names.

use vstd::prelude::*;
use crate::text::{dec_chars, u64_chars, push_all, string_from, chars_of};

verus! {

// ---------------------------------------------------------------------------
// Sizes
// ---------------------------------------------------------------------------

/// `n / d` rounded to the nearest integer, ties to the even neighbour.
pub open spec fn div_round_even(n: nat, d: nat) -> nat
    recommends
        d > 0,
{
    let q = n / d;
    let r = n % d;
    if 2 * r > d || (2 * r == d && q % 2 == 1) {
        q + 1
    } else {
        q
    }
}

/// 2^53: below it every integer is exactly a double.
pub open spec fn exact_limit() -> nat {
    9007199254740992
}

/// Spacing of the doubles around `b`, searched from spacing `p` upwards
/// (powers of two; a 64-bit integer needs at most 2^11).
pub open spec fn grain_from(b: nat, p: nat) -> nat
    decreases 2048 - p,
    when 1 <= p <= 2048
{
    if p > 1024 || b < exact_limit() * p {
        p
    } else {
        grain_from(b, 2 * p)
    }
}

/// The value of `b as f64`: `b` rounded to the nearest double, ties to even.
pub open spec fn as_double(b: nat) -> nat {
    let g = grain_from(b, 1);
    div_round_even(b, g) * g
}

/// `1024^k` for the units B .. PB.
pub open spec fn unit_divisor(k: nat) -> nat {
    if k == 0 {
        1
    } else if k == 1 {
        1024
    } else if k == 2 {
        1048576
    } else if k == 3 {
        1073741824
    } else if k == 4 {
        1099511627776
    } else {
        1125899906842624
    }
}

/// How many times a value can be divided by 1024 while it stays at least
/// 1024, up to PB.
pub open spec fn unit_index(v: nat) -> nat {
    if v < 1024 {
        0
    } else if v < 1048576 {
        1
    } else if v < 1073741824 {
        2
    } else if v < 1099511627776 {
        3
    } else if v < 1125899906842624 {
        4
    } else {
        5
    }
}

pub open spec fn unit_name(k: nat) -> Seq<char> {
    if k == 0 {
        seq!['B']
    } else if k == 1 {
        seq!['K', 'B']
    } else if k == 2 {
        seq!['M', 'B']
    } else if k == 3 {
        seq!['G', 'B']
    } else if k == 4 {
        seq!['T', 'B']
    } else {
        seq!['P', 'B']
    }
}

/// The text of `format_bytes(bytes)`: plain bytes below 1 KB, else the value
/// in the largest unit (up to PB) with one decimal, rounded half to even
/// from the exact value of the double.
pub open spec fn bytes_text(bytes: nat) -> Seq<char> {
    let v = as_double(bytes);
    let k = unit_index(v);
    if k == 0 {
        dec_chars(bytes) + seq![' ', 'B']
    } else {
        let t = div_round_even(10 * v, unit_divisor(k));
        dec_chars(t / 10) + seq!['.'] + dec_chars(t % 10) + seq![' '] + unit_name(k)
    }
}

fn div_round_even_exec(n: u128, d: u128) -> (q: u128)
    requires
        0 < d < 0x1_0000_0000_0000_0000,
        n < 0x1_0000_0000_0000_0000_0000_0000,
    ensures
        q == div_round_even(n as nat, d as nat),
        q <= n / d + 1,
{
    let q = n / d;
    let r = n % d;
    if 2 * r > d || (2 * r == d && q % 2 == 1) {
        q + 1
    } else {
        q
    }
}

fn unit_chars(k: u32) -> (r: Vec<char>)
    requires
        k <= 5,
    ensures
        r@ == unit_name(k as nat),
{
    let mut r: Vec<char> = Vec::new();
    if k == 0 {
        r.push('B');
    } else {
        if k == 1 {
            r.push('K');
        } else if k == 2 {
            r.push('M');
        } else if k == 3 {
            r.push('G');
        } else if k == 4 {
            r.push('T');
        } else {
            r.push('P');
        }
        r.push('B');
    }
    assert(r@ =~= unit_name(k as nat));
    r
}

/// Human-readable size: `500 B`, `1.0 KB`, `1.5 GB`, ... up to PB.
pub fn format_bytes(bytes: u64) -> (r: String)
    ensures
        r@ == bytes_text(bytes as nat),
{
    let b: u128 = bytes as u128;
    // Spacing of the doubles around `bytes`.
    let mut p: u128 = 1;
    while p <= 1024 && b >= 9007199254740992 * p
        invariant
            1 <= p <= 2048,
            b == bytes,
            b < 0x1_0000_0000_0000_0000,
            grain_from(b as nat, 1) == grain_from(b as nat, p as nat),
        decreases 2048 - p,
    {
        p = 2 * p;
    }
    assert(grain_from(b as nat, p as nat) == p);
    let q = div_round_even_exec(b, p);
    assert(q * p <= b + p) by (nonlinear_arith)
        requires
            q <= b / p + 1,
            p > 0,
    {
        assert((b / p) * p <= b);
    }
    let v: u128 = q * p;
    assert(v == as_double(bytes as nat));
    let (k, den): (u32, u128) = if v < 1024 {
        (0, 1)
    } else if v < 1048576 {
        (1, 1024)
    } else if v < 1073741824 {
        (2, 1048576)
    } else if v < 1099511627776 {
        (3, 1073741824)
    } else if v < 1125899906842624 {
        (4, 1099511627776)
    } else {
        (5, 1125899906842624)
    };
    assert(k as nat == unit_index(v as nat) && den as nat == unit_divisor(k as nat));
    let mut out: Vec<char> = Vec::new();
    if k == 0 {
        out = u64_chars(bytes);
        out.push(' ');
        out.push('B');
        assert(v < 1024);
        assert(out@ =~= bytes_text(bytes as nat));
    } else {
        let tv: u128 = 10 * v;
        let t = div_round_even_exec(tv, den);
        assert(t < 0x1_0000_0000_0000_0000) by (nonlinear_arith)
            requires
                t <= tv / den + 1,
                den >= 1024,
                tv <= 10 * (0x1_0000_0000_0000_0000 + 2048),
        {
            assert(tv / den <= tv / 1024);
        }
        let whole = (t / 10) as u64;
        let tenth = (t % 10) as u64;
        out = u64_chars(whole);
        out.push('.');
        let frac = u64_chars(tenth);
        push_all(&mut out, &frac);
        out.push(' ');
        let unit = unit_chars(k);
        push_all(&mut out, &unit);
        assert(out@ =~= bytes_text(bytes as nat));
    }
    string_from(&out)
}

// ---------------------------------------------------------------------------
// Durations
// ---------------------------------------------------------------------------

/// The text of `format_duration`: `30s`, `1m 30s`, `1h 1m`, `1d 1h`.
pub open spec fn duration_text(secs: nat) -> Seq<char> {
    if secs < 60 {
        dec_chars(secs) + seq!['s']
    } else if secs < 3600 {
        dec_chars(secs / 60) + seq!['m', ' '] + dec_chars(secs % 60) + seq!['s']
    } else if secs < 86400 {
        dec_chars(secs / 3600) + seq!['h', ' '] + dec_chars((secs % 3600) / 60) + seq!['m']
    } else {
        dec_chars(secs / 86400) + seq!['d', ' '] + dec_chars((secs % 86400) / 3600) + seq!['h']
    }
}

/// Human-readable duration of `secs` whole seconds, in its two largest
/// units.
pub fn format_duration(secs: u64) -> (r: String)
    ensures
        r@ == duration_text(secs as nat),
{
    let (a, first, b, second): (u64, char, u64, char) = if secs < 60 {
        (secs, 's', 0, 's')
    } else if secs < 3600 {
        (secs / 60, 'm', secs % 60, 's')
    } else if secs < 86400 {
        (secs / 3600, 'h', (secs % 3600) / 60, 'm')
    } else {
        (secs / 86400, 'd', (secs % 86400) / 3600, 'h')
    };
    let mut out = u64_chars(a);
    out.push(first);
    if secs >= 60 {
        out.push(' ');
        let rest = u64_chars(b);
        push_all(&mut out, &rest);
        out.push(second);
    }
    assert(out@ =~= duration_text(secs as nat));
    string_from(&out)
}

// ---------------------------------------------------------------------------
// File names
// ---------------------------------------------------------------------------

/// `char::is_control`: the Unicode control codes C0 (U+0000..U+001F) and
/// C1 with DEL (U+007F..U+009F).
pub open spec fn is_control(c: char) -> bool {
    (c as u32) <= 0x1f || (0x7f <= (c as u32) && (c as u32) <= 0x9f)
}

/// Characters that are unsafe in a file name.
pub open spec fn is_reserved_name_char(c: char) -> bool {
    c == '/' || c == '\\' || c == ':' || c == '*' || c == '?' || c == '"' || c == '<' || c == '>'
        || c == '|'
}

pub open spec fn sanitized_char(c: char) -> char {
    if is_reserved_name_char(c) || is_control(c) {
        '_'
    } else {
        c
    }
}

/// `name` with every reserved or control character replaced by `_`.
pub open spec fn sanitized(name: Seq<char>) -> Seq<char> {
    name.map_values(|c: char| sanitized_char(c))
}

/// Replaces characters that are unsafe in a file name by `_`.
pub fn sanitize_filename(name: &str) -> (r: String)
    ensures
        r@ == sanitized(name@),
        r@.len() == name@.len(),
{
    let v = chars_of(name);
    let mut out: Vec<char> = Vec::new();
    let mut i: usize = 0;
    while i < v.len()
        invariant
            i <= v@.len(),
            v@ == name@,
            out@ == sanitized(v@.take(i as int)),
        decreases v.len() - i,
    {
        let c = v[i];
        let u = c as u32;
        let bad = c == '/' || c == '\\' || c == ':' || c == '*' || c == '?' || c == '"' || c == '<'
            || c == '>' || c == '|' || u <= 0x1f || (0x7f <= u && u <= 0x9f);
        if bad {
            out.push('_');
        } else {
            out.push(c);
        }
        assert(sanitized(v@.take(i + 1)) =~= sanitized(v@.take(i as int)).push(sanitized_char(c)));
        i = i + 1;
    }
    assert(v@.take(v.len() as int) =~= v@);
    string_from(&out)
}

} // verus!
