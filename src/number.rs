use crate::timing::MAX_MICROS;
use vstd::prelude::*;

verus! {

/// The longest number text that is read.
pub const MAX_NUMBER_TEXT: usize = 64;

/// The largest exponent magnitude that is read.
pub const MAX_EXPONENT: u64 = 1000;

pub open spec fn is_digit(c: char) -> bool {
    '0' <= c <= '9'
}

pub open spec fn digit_val(c: char) -> int {
    c as int - '0' as int
}

/// The first index at or after `i` that holds no digit, or the length.
pub open spec fn digit_end(t: Seq<char>, i: int) -> int
    decreases t.len() - i,
{
    if i >= t.len() {
        t.len() as int
    } else if !is_digit(t[i]) {
        i
    } else {
        digit_end(t, i + 1)
    }
}

/// The value of the first `p` digits of `ds`, reading zeros past its end.
pub open spec fn shifted(ds: Seq<char>, p: int) -> int
    decreases p,
{
    if p <= 0 {
        0
    } else {
        shifted(ds, p - 1) * 10 + (if p - 1 < ds.len() { digit_val(ds[p - 1]) } else { 0 })
    }
}

/// The value in microseconds of a decimal number of seconds, truncated toward zero.
/// The text is `-?D+(.D+)?([eE][+-]?D+)?`; the exponent is at most `MAX_EXPONENT` in
/// magnitude, the text at most `MAX_NUMBER_TEXT` long and the result at most
/// `MAX_MICROS` in magnitude, else there is none.
pub open spec fn number_micros(t: Seq<char>) -> Option<int> {
    let neg = t.len() > 0 && t[0] == '-';
    let s1: int = if neg { 1 } else { 0 };
    let a = digit_end(t, s1);
    let has_frac = a < t.len() && t[a] == '.';
    let b = if has_frac { digit_end(t, a + 1) } else { a };
    let has_exp = b < t.len() && (t[b] == 'e' || t[b] == 'E');
    let eneg = has_exp && b + 1 < t.len() && t[b + 1] == '-';
    let esigned = has_exp && b + 1 < t.len() && (t[b + 1] == '-' || t[b + 1] == '+');
    let c = if esigned { b + 2 } else { b + 1 };
    let d = if has_exp { digit_end(t, c) } else { b };
    let ev = if has_exp { shifted(t.subrange(c, d), d - c) } else { 0 };
    let digits = t.subrange(s1, a) + (if has_frac { t.subrange(a + 1, b) } else { Seq::empty() });
    let p = (a - s1) + (if eneg { -ev } else { ev }) + 6;
    let v = if p <= 0 { 0 } else { shifted(digits, p) };
    if t.len() > MAX_NUMBER_TEXT || a == s1 || (has_frac && b == a + 1) || (has_exp && d == c)
        || d != t.len() || ev > MAX_EXPONENT || v > MAX_MICROS {
        None
    } else {
        Some(if neg { -v } else { v })
    }
}

proof fn lemma_digit_end(t: Seq<char>, i: int)
    requires
        0 <= i <= t.len(),
    ensures
        i <= digit_end(t, i) <= t.len(),
        digit_end(t, i) < t.len() ==> !is_digit(t[digit_end(t, i)]),
        forall|k: int| i <= k < digit_end(t, i) ==> is_digit(t[k]),
    decreases t.len() - i,
{
    if i < t.len() && is_digit(t[i]) {
        lemma_digit_end(t, i + 1);
    }
}

proof fn lemma_shifted_grows(ds: Seq<char>, p: int, q: int)
    requires
        forall|k: int| 0 <= k < ds.len() ==> is_digit(#[trigger] ds[k]),
        0 <= p <= q,
    ensures
        0 <= shifted(ds, p) <= shifted(ds, q),
    decreases q,
{
    if p < q {
        lemma_shifted_grows(ds, p, q - 1);
    } else if p > 0 {
        lemma_shifted_grows(ds, p - 1, p - 1);
    }
}

/// The index of the first non-digit at or after `i`, or the length.
fn find_digit_end(t: &Vec<char>, i: usize) -> (r: usize)
    requires
        i <= t.len(),
    ensures
        r as int == digit_end(t@, i as int),
{
    let mut k: usize = i;
    while k < t.len()
        invariant
            i <= k <= t.len(),
            digit_end(t@, i as int) == digit_end(t@, k as int),
        decreases t.len() - k,
    {
        if !('0' <= t[k] && t[k] <= '9') {
            return k;
        }
        k = k + 1;
    }
    k
}

/// Appends `v[a..b]`.
fn push_range(out: &mut Vec<char>, v: &Vec<char>, a: usize, b: usize)
    requires
        a <= b <= v.len(),
    ensures
        final(out)@ == old(out)@ + v@.subrange(a as int, b as int),
{
    let ghost start = out@;
    let mut k: usize = a;
    while k < b
        invariant
            a <= k <= b,
            b <= v.len(),
            out@ == start + v@.subrange(a as int, k as int),
        decreases b - k,
    {
        out.push(v[k]);
        k = k + 1;
        assert(out@ =~= start + v@.subrange(a as int, k as int));
    }
}

/// `shifted(ds, p)` when it is at most `cap`.
fn shifted_capped(ds: &Vec<char>, p: usize, cap: u64) -> (r: Option<u64>)
    requires
        forall|k: int| 0 <= k < ds.len() ==> is_digit(#[trigger] ds@[k]),
        cap <= 1_000_000_000_000_000_000,
    ensures
        r is Some <==> shifted(ds@, p as int) <= cap,
        r matches Some(v) ==> v == shifted(ds@, p as int),
{
    let mut acc: u64 = 0;
    let mut i: usize = 0;
    while i < p
        invariant
            i <= p,
            acc == shifted(ds@, i as int),
            acc <= cap,
            forall|k: int| 0 <= k < ds.len() ==> is_digit(#[trigger] ds@[k]),
            cap <= 1_000_000_000_000_000_000,
        decreases p - i,
    {
        let d: u64 = if i < ds.len() { (ds[i] as u32 - '0' as u32) as u64 } else { 0 };
        acc = acc * 10 + d;
        i = i + 1;
        if acc > cap {
            proof { lemma_shifted_grows(ds@, i as int, p as int); }
            return None;
        }
    }
    Some(acc)
}

/// Reads a decimal number of seconds as whole microseconds, truncated toward zero.
#[verifier::rlimit(60)]
#[verifier::spinoff_prover]
pub fn parse_micros(text: &str) -> (r: Option<i64>)
    ensures
        r is Some <==> number_micros(text@) is Some,
        r matches Some(v) ==> v == number_micros(text@)->0,
        r matches Some(v) ==> -MAX_MICROS <= v <= MAX_MICROS,
{
    let t = crate::text::chars_of(text);
    let n = t.len();
    if n > MAX_NUMBER_TEXT {
        return None;
    }
    let neg = n > 0 && t[0] == '-';
    let s1: usize = if neg { 1 } else { 0 };
    let a = find_digit_end(&t, s1);
    proof { lemma_digit_end(t@, s1 as int); }
    if a == s1 {
        return None;
    }
    let has_frac = a < n && t[a] == '.';
    let b = if has_frac { find_digit_end(&t, a + 1) } else { a };
    proof { if has_frac { lemma_digit_end(t@, a + 1); } }
    if has_frac && b == a + 1 {
        return None;
    }
    let has_exp = b < n && (t[b] == 'e' || t[b] == 'E');
    let eneg = has_exp && b + 1 < n && t[b + 1] == '-';
    let esigned = has_exp && b + 1 < n && (t[b + 1] == '-' || t[b + 1] == '+');
    let c: usize = if esigned { b + 2 } else { b + 1 };
    let d = if has_exp { find_digit_end(&t, c) } else { b };
    proof { if has_exp { lemma_digit_end(t@, c as int); } }
    if (has_exp && d == c) || d != n {
        return None;
    }
    let mut ev: u64 = 0;
    if has_exp {
        let mut exp_digits: Vec<char> = Vec::new();
        push_range(&mut exp_digits, &t, c, d);
        match shifted_capped(&exp_digits, d - c, MAX_EXPONENT) {
            Some(x) => { ev = x; },
            None => { return None; },
        }
    }
    let mut digits: Vec<char> = Vec::new();
    push_range(&mut digits, &t, s1, a);
    if has_frac {
        push_range(&mut digits, &t, a + 1, b);
    }
    assert(digits@ =~= t@.subrange(s1 as int, a as int) + (if has_frac {
        t@.subrange(a + 1, b as int)
    } else {
        Seq::empty()
    }));
    let p: i64 = (a - s1) as i64 + (if eneg { -(ev as i64) } else { ev as i64 }) + 6;
    let v: u64 = if p <= 0 {
        0
    } else {
        match shifted_capped(&digits, p as usize, MAX_MICROS as u64) {
            Some(x) => x,
            None => { return None; },
        }
    };
    if neg { Some(-(v as i64)) } else { Some(v as i64) }
}

} // verus!
