//! Reading numbers and booleans out of filter text, as `str::parse` does for
//! `i64`, `bool` and `f64`. Each accepted syntax is the one std documents.

use vstd::prelude::*;
use crate::text::{chars_of, is_ascii_digit, lower, lower_vec, seq_eq};

verus! {

/// Every character of `d` is an ASCII digit.
pub open spec fn all_digits(d: Seq<char>) -> bool {
    forall|i: int| 0 <= i < d.len() ==> is_ascii_digit(#[trigger] d[i])
}

/// The value of a run of ASCII digits.
pub open spec fn digits_value(d: Seq<char>) -> nat
    decreases d.len(),
{
    if d.len() == 0 {
        0
    } else {
        digits_value(d.drop_last()) * 10 + ((d.last() as u32) - 48) as nat
    }
}

/// `s` with one leading `+` or `-` removed, if it has one.
pub open spec fn strip_sign(s: Seq<char>) -> Seq<char> {
    if s.len() > 0 && (s[0] == '+' || s[0] == '-') {
        s.drop_first()
    } else {
        s
    }
}

/// What `str::parse::<i64>` gives: an optional `+` or `-`, then one or more
/// ASCII digits, whose value must lie in the range of `i64`.
pub open spec fn parse_i64(s: Seq<char>) -> Option<i64> {
    let d = strip_sign(s);
    let neg = s.len() > 0 && s[0] == '-';
    if d.len() == 0 || !all_digits(d) {
        None
    } else {
        let v: int = if neg {
            -(digits_value(d) as int)
        } else {
            digits_value(d) as int
        };
        if i64::MIN <= v && v <= i64::MAX {
            Some(v as i64)
        } else {
            None
        }
    }
}

/// What `str::parse::<bool>` gives: exactly `true` or `false`.
pub open spec fn parse_bool(s: Seq<char>) -> Option<bool> {
    if s == "true"@ {
        Some(true)
    } else if s == "false"@ {
        Some(false)
    } else {
        None
    }
}

/// The length of the run of ASCII digits that starts at `i`.
pub open spec fn digit_run(s: Seq<char>, i: int) -> nat
    decreases s.len() - i,
{
    if 0 <= i < s.len() && is_ascii_digit(s[i]) {
        1 + digit_run(s, i + 1)
    } else {
        0
    }
}

/// `inf`, `infinity` or `nan`, in any mix of cases.
pub open spec fn is_float_word(t: Seq<char>) -> bool {
    lower(t) == "inf"@ || lower(t) == "infinity"@ || lower(t) == "nan"@
}

/// `e` or `E`, an optional sign, then one or more digits.
pub open spec fn is_exponent(e: Seq<char>) -> bool {
    e.len() > 0 && (e[0] == 'e' || e[0] == 'E') && strip_sign(e.drop_first()).len() > 0
        && all_digits(strip_sign(e.drop_first()))
}

/// Digits, an optional `.` and more digits, at least one digit in all, then
/// an optional exponent.
pub open spec fn is_decimal(t: Seq<char>) -> bool {
    let a = digit_run(t, 0);
    let dot = a < t.len() && t[a as int] == '.';
    let b: nat = if dot {
        digit_run(t, a as int + 1)
    } else {
        0
    };
    let end: int = if dot {
        (a + 1 + b) as int
    } else {
        a as int
    };
    a + b > 0 && (end == t.len() || is_exponent(t.skip(end)))
}

/// The texts `str::parse::<f64>` accepts. std documents the grammar
/// `Sign? ('inf' | 'infinity' | 'nan' | Number)`, with
/// `Number ::= (Digit+ | Digit+ '.' Digit* | Digit* '.' Digit+) Exp?` and
/// `Exp ::= 'e' Sign? Digit+`, read case-insensitively, no whitespace.
pub open spec fn is_float_text(s: Seq<char>) -> bool {
    is_float_word(strip_sign(s)) || is_decimal(strip_sign(s))
}

proof fn lemma_digits_value_grows(d: Seq<char>, k: int)
    requires
        0 <= k <= d.len(),
        all_digits(d),
    ensures
        digits_value(d) >= digits_value(d.take(k)),
    decreases d.len() - k,
{
    if k < d.len() {
        lemma_digits_value_grows(d, k + 1);
        assert(d.take(k + 1).drop_last() =~= d.take(k));
        assert(is_ascii_digit(d[k]));
    } else {
        assert(d.take(k) =~= d);
    }
}

proof fn lemma_digit_run(s: Seq<char>, i: int, j: int)
    requires
        0 <= i <= j <= s.len(),
        forall|k: int| i <= k < j ==> is_ascii_digit(#[trigger] s[k]),
    ensures
        digit_run(s, i) == (j - i) + digit_run(s, j),
    decreases j - i,
{
    if i < j {
        lemma_digit_run(s, i + 1, j);
    }
}

/// The value `str::parse::<i64>` gives for `s`, if any.
pub fn parse_i64_exec(s: &[char]) -> (r: Option<i64>)
    ensures
        r == parse_i64(s@),
{
    let n = s.len();
    let mut start: usize = 0;
    let mut neg = false;
    if n > 0 && (s[0] == '+' || s[0] == '-') {
        neg = s[0] == '-';
        start = 1;
    }
    let ghost d = strip_sign(s@);
    assert(d =~= s@.skip(start as int));
    if start == n {
        return None;
    }
    let mut acc: u128 = 0;
    assert(d.take(0) =~= Seq::<char>::empty());
    for i in start..n
        invariant
            start <= n,
            n == s@.len(),
            d == s@.skip(start as int),
            d == strip_sign(s@),
            neg == (s@.len() > 0 && s@[0] == '-'),
            acc == digits_value(d.take(i - start)),
            acc <= 9223372036854775808u128,
            forall|k: int| 0 <= k < i - start ==> is_ascii_digit(#[trigger] d[k]),
    {
        let c = s[i];
        assert(d[i - start] == c);
        if !('0' <= c && c <= '9') {
            assert(!all_digits(d));
            return None;
        }
        let dv = (c as u32 - 48) as u128;
        let next = acc * 10 + dv;
        assert(d.take(i - start + 1).drop_last() =~= d.take(i - start));
        assert(next == digits_value(d.take(i - start + 1)));
        if next > 9223372036854775808u128 {
            proof {
                if all_digits(d) {
                    lemma_digits_value_grows(d, i - start + 1);
                }
            }
            return None;
        }
        acc = next;
    }
    assert(d.take(n - start) =~= d);
    if neg {
        if acc == 9223372036854775808u128 {
            Some(i64::MIN)
        } else {
            Some(-(acc as i64))
        }
    } else {
        if acc > 9223372036854775807u128 {
            None
        } else {
            Some(acc as i64)
        }
    }
}

/// The value `str::parse::<bool>` gives for `s`, if any.
pub fn parse_bool_exec(s: &[char]) -> (r: Option<bool>)
    ensures
        r == parse_bool(s@),
{
    let t = chars_of("true");
    let f = chars_of("false");
    if seq_eq(s, t.as_slice()) {
        Some(true)
    } else if seq_eq(s, f.as_slice()) {
        Some(false)
    } else {
        None
    }
}

/// The characters of `s` from position `k` on.
pub fn skip_vec(s: &[char], k: usize) -> (r: Vec<char>)
    requires
        k <= s@.len(),
    ensures
        r@ == s@.skip(k as int),
{
    let mut r: Vec<char> = Vec::new();
    let n = s.len();
    for i in k..n
        invariant
            k <= n,
            n == s@.len(),
            r@ == s@.subrange(k as int, i as int),
    {
        r.push(s[i]);
        assert(s@.subrange(k as int, i + 1) =~= s@.subrange(k as int, i as int).push(s@[i as int]));
    }
    r
}

fn digit_run_exec(s: &[char], i: usize) -> (r: usize)
    requires
        i <= s@.len(),
    ensures
        r == digit_run(s@, i as int),
        i + r <= s@.len(),
{
    let mut j = i;
    while j < s.len() && '0' <= s[j] && s[j] <= '9'
        invariant
            i <= j <= s@.len(),
            forall|k: int| i <= k < j ==> is_ascii_digit(#[trigger] s@[k]),
        decreases s@.len() - j,
    {
        j = j + 1;
    }
    proof {
        lemma_digit_run(s@, i as int, j as int);
    }
    j - i
}

fn all_digits_exec(s: &[char]) -> (r: bool)
    ensures
        r == all_digits(s@),
{
    let n = s.len();
    for i in 0..n
        invariant
            n == s@.len(),
            forall|k: int| 0 <= k < i ==> is_ascii_digit(#[trigger] s@[k]),
    {
        if !('0' <= s[i] && s[i] <= '9') {
            return false;
        }
    }
    true
}

fn strip_sign_exec(s: &[char]) -> (r: Vec<char>)
    ensures
        r@ == strip_sign(s@),
{
    if s.len() > 0 && (s[0] == '+' || s[0] == '-') {
        let r = skip_vec(s, 1);
        assert(s@.skip(1) =~= s@.drop_first());
        r
    } else {
        let r = skip_vec(s, 0);
        assert(s@.skip(0) =~= s@);
        r
    }
}

fn is_exponent_exec(e: &[char]) -> (r: bool)
    ensures
        r == is_exponent(e@),
{
    if e.len() == 0 || !(e[0] == 'e' || e[0] == 'E') {
        return false;
    }
    let rest = skip_vec(e, 1);
    assert(e@.skip(1) =~= e@.drop_first());
    let t = strip_sign_exec(rest.as_slice());
    t.len() > 0 && all_digits_exec(t.as_slice())
}

/// `s` is a text `str::parse::<f64>` accepts.
pub fn is_float_text_exec(s: &[char]) -> (r: bool)
    ensures
        r == is_float_text(s@),
{
    let t = strip_sign_exec(s);
    let low = lower_vec(t.as_slice());
    let w1 = chars_of("inf");
    let w2 = chars_of("infinity");
    let w3 = chars_of("nan");
    if seq_eq(low.as_slice(), w1.as_slice()) || seq_eq(low.as_slice(), w2.as_slice()) || seq_eq(
        low.as_slice(),
        w3.as_slice(),
    ) {
        return true;
    }
    let a = digit_run_exec(t.as_slice(), 0);
    let dot = a < t.len() && t[a] == '.';
    let b: usize = if dot {
        digit_run_exec(t.as_slice(), a + 1)
    } else {
        0
    };
    let end: usize = if dot {
        a + 1 + b
    } else {
        a
    };
    if a + b == 0 {
        return false;
    }
    if end == t.len() {
        return true;
    }
    let e = skip_vec(t.as_slice(), end);
    is_exponent_exec(e.as_slice())
}

} // verus!
