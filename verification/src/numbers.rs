//! Verified numeric parsing: the exact acceptance and value semantics of
//! `i32::from_str`, and the acceptance grammar of `f64::from_str` (the
//! library never holds a floating-point value; it only decides whether a
//! field text denotes one, and keeps the text).

use vstd::prelude::*;
use crate::text::{is_digit_char, digit_val, lower_seq, char_is_digit, digit_u64, lower_vec,
    vecs_eq, to_chars};

verus! {

pub open spec fn all_digits(s: Seq<char>) -> bool {
    forall|k: int| 0 <= k < s.len() ==> is_digit_char(s[k])
}

/// The integer denoted by a sequence of decimal digits.
pub open spec fn digits_val(s: Seq<char>) -> int
    decreases s.len(),
{
    if s.len() == 0 {
        0
    } else {
        digits_val(s.drop_last()) * 10 + digit_val(s.last())
    }
}

pub open spec fn pow10(n: nat) -> int
    decreases n,
{
    if n == 0 {
        1
    } else {
        10 * pow10((n - 1) as nat)
    }
}

/// What `str::parse::<i32>` returns: an optional sign, then one or more
/// decimal digits, the value within the `i32` range; anything else fails.
pub open spec fn spec_parse_i32(s: Seq<char>) -> Option<int> {
    let neg = s.len() > 0 && s[0] == '-';
    let d = if s.len() > 0 && (s[0] == '+' || s[0] == '-') {
        s.subrange(1, s.len() as int)
    } else {
        s
    };
    if d.len() > 0 && all_digits(d) {
        let v = if neg {
            -digits_val(d)
        } else {
            digits_val(d)
        };
        if -0x8000_0000 <= v && v <= 0x7fff_ffff {
            Some(v)
        } else {
            None
        }
    } else {
        None
    }
}

proof fn lemma_digits_bound(s: Seq<char>)
    requires
        all_digits(s),
    ensures
        0 <= digits_val(s) < pow10(s.len()),
    decreases s.len(),
{
    if s.len() > 0 {
        assert(all_digits(s.drop_last()));
        lemma_digits_bound(s.drop_last());
    }
}

proof fn lemma_pow10_pos(n: nat)
    ensures
        pow10(n) >= 1,
    decreases n,
{
    if n > 0 {
        lemma_pow10_pos((n - 1) as nat);
    }
}

proof fn lemma_pow10_mono(a: nat, b: nat)
    requires
        a <= b,
    ensures
        pow10(a) <= pow10(b),
    decreases b,
{
    lemma_pow10_pos(a);
    if a < b {
        lemma_pow10_mono(a, (b - 1) as nat);
        lemma_pow10_pos((b - 1) as nat);
    }
}

proof fn lemma_digits_lower(s: Seq<char>)
    requires
        all_digits(s),
        s.len() > 0,
        s[0] != '0',
    ensures
        digits_val(s) >= pow10((s.len() - 1) as nat),
    decreases s.len(),
{
    assert(is_digit_char(s[0]));
    if s.len() > 1 {
        assert(all_digits(s.drop_last()));
        assert(s.drop_last()[0] == s[0]);
        lemma_digits_lower(s.drop_last());
        assert(is_digit_char(s.last()));
        assert(digit_val(s.last()) >= 0);
        assert(pow10((s.len() - 1) as nat) == 10 * pow10((s.len() - 2) as nat));
        assert(digits_val(s) == digits_val(s.drop_last()) * 10 + digit_val(s.last()));
    } else {
        assert(s.last() == s[0]);
        assert(s.drop_last() =~= Seq::<char>::empty());
        assert(digits_val(Seq::<char>::empty()) == 0);
        assert(pow10(0) == 1);
        assert(digit_val(s[0]) >= 1);
    }
}

proof fn lemma_strip_zero(s: Seq<char>)
    requires
        s.len() > 0,
        s[0] == '0',
    ensures
        digits_val(s) == digits_val(s.subrange(1, s.len() as int)),
    decreases s.len(),
{
    if s.len() == 1 {
        assert(s.subrange(1, 1) =~= Seq::<char>::empty());
        assert(s.drop_last() =~= Seq::<char>::empty());
        assert(digits_val(Seq::<char>::empty()) == 0);
        assert(s.last() == '0');
        assert(digits_val(s) == 0);
    } else {
        assert(s.drop_last()[0] == '0');
        lemma_strip_zero(s.drop_last());
        let t = s.subrange(1, s.len() as int);
        assert(s.drop_last().subrange(1, s.len() - 1) =~= t.drop_last());
        assert(t.last() == s.last());
        assert(digits_val(s) == digits_val(s.drop_last()) * 10 + digit_val(s.last()));
        assert(digits_val(t) == digits_val(t.drop_last()) * 10 + digit_val(t.last()));
    }
}

/// `str::parse::<i32>`, verified against `spec_parse_i32`.
#[verifier::loop_isolation(false)]
pub fn parse_i32_chars(v: &Vec<char>) -> (r: Option<i32>)
    ensures
        match r {
            Some(n) => spec_parse_i32(v@) == Some(n as int),
            None => spec_parse_i32(v@) is None,
        },
{
    let signed = v.len() > 0 && (v[0] == '+' || v[0] == '-');
    let neg = v.len() > 0 && v[0] == '-';
    let start: usize = if signed {
        1
    } else {
        0
    };
    let ghost d = if signed {
        v@.subrange(1, v@.len() as int)
    } else {
        v@
    };
    if start == v.len() {
        assert(d.len() == 0);
        return None;
    }
    // every remaining character must be a digit
    let mut i = start;
    while i < v.len()
        invariant
            start <= i <= v@.len(),
            start <= 1,
            d =~= v@.subrange(start as int, v@.len() as int),
            forall|k: int| start <= k < i ==> is_digit_char(v@[k]),
        decreases v@.len() - i,
    {
        if !char_is_digit(v[i]) {
            assert(d[i - start] == v@[i as int]);
            assert(!all_digits(d));
            return None;
        }
        i += 1;
    }
    assert(all_digits(d));
    // strip leading zeros
    let mut z = start;
    while z < v.len() && v[z] == '0'
        invariant
            start <= z <= v@.len(),
            digits_val(v@.subrange(start as int, v@.len() as int)) == digits_val(
                v@.subrange(z as int, v@.len() as int),
            ),
        decreases v@.len() - z,
    {
        proof {
            lemma_strip_zero(v@.subrange(z as int, v@.len() as int));
            assert(v@.subrange(z as int, v@.len() as int).subrange(
                1,
                v@.len() - z,
            ) =~= v@.subrange(z + 1, v@.len() as int));
        }
        z += 1;
    }
    let ghost sig = v@.subrange(z as int, v@.len() as int);
    assert(digits_val(d) == digits_val(sig));
    assert(all_digits(sig));
    if v.len() - z > 10 {
        // more than ten significant digits cannot fit in an i32
        proof {
            assert(sig[0] != '0');
            lemma_digits_lower(sig);
            lemma_pow10_mono(10, (sig.len() - 1) as nat);
            assert(pow10(10) == 10000000000) by {
                reveal_with_fuel(pow10, 12);
            }
        }
        return None;
    }
    let mut acc: u64 = 0;
    let mut j = z;
    while j < v.len()
        invariant
            z <= j <= v@.len(),
            v@.len() - z <= 10,
            all_digits(sig),
            sig == v@.subrange(z as int, v@.len() as int),
            acc == digits_val(v@.subrange(z as int, j as int)),
            acc < pow10((j - z) as nat),
        decreases v@.len() - j,
    {
        let c = v[j];
        assert(is_digit_char(c)) by {
            assert(sig[j - z] == v@[j as int]);
        }
        let dd: u64 = digit_u64(c);
        proof {
            lemma_pow10_mono((j - z) as nat, 9);
            assert(pow10(9) == 1000000000) by {
                reveal_with_fuel(pow10, 12);
            }
            assert(v@.subrange(z as int, j + 1).drop_last() =~= v@.subrange(z as int, j as int));
            assert(v@.subrange(z as int, j + 1).last() == v@[j as int]);
            assert(pow10((j + 1 - z) as nat) == 10 * pow10((j - z) as nat));
        }
        acc = acc * 10 + dd;
        j += 1;
    }
    assert(v@.subrange(z as int, v@.len() as int) =~= sig);
    assert(acc == digits_val(d));
    if neg {
        if acc <= 0x8000_0000 {
            let sv: i64 = -(acc as i64);
            Some(sv as i32)
        } else {
            None
        }
    } else {
        if acc <= 0x7fff_ffff {
            Some(acc as i32)
        } else {
            None
        }
    }
}

/// First index at or after `i` holding a non-digit character.
pub open spec fn digit_end(s: Seq<char>, i: int) -> int
    decreases s.len() - i,
{
    if 0 <= i && i < s.len() && is_digit_char(s[i]) {
        digit_end(s, i + 1)
    } else {
        i
    }
}

pub fn digit_end_at(v: &Vec<char>, i: usize) -> (j: usize)
    requires
        i <= v@.len(),
    ensures
        j == digit_end(v@, i as int),
        i <= j <= v@.len(),
{
    let mut j = i;
    while j < v.len() && char_is_digit(v[j])
        invariant
            i <= j <= v@.len(),
            digit_end(v@, i as int) == digit_end(v@, j as int),
        decreases v@.len() - j,
    {
        j += 1;
    }
    j
}

/// The exponent part of a floating-point literal: `e`/`E`, an optional
/// sign, then one or more digits running to the end.
pub open spec fn is_exp_part(b: Seq<char>, q: int) -> bool {
    &&& 0 <= q < b.len()
    &&& (b[q] == 'e' || b[q] == 'E')
    &&& {
        let r = if q + 1 < b.len() && (b[q + 1] == '+' || b[q + 1] == '-') {
            q + 2
        } else {
            q + 1
        };
        r < b.len() && digit_end(b, r) == b.len()
    }
}

pub open spec fn is_decimal_lit(b: Seq<char>) -> bool {
    let p = digit_end(b, 0);
    let q = if p < b.len() && b[p] == '.' {
        digit_end(b, p + 1)
    } else {
        p
    };
    let has_digits = p > 0 || (p < b.len() && b[p] == '.' && q > p + 1);
    has_digits && (q == b.len() || is_exp_part(b, q))
}

/// Whether `str::parse::<f64>` accepts `s`: per its documentation, an
/// optional sign followed by `inf`, `infinity` or `nan` (case-insensitive)
/// or by a decimal number with optional fraction and exponent.
pub open spec fn is_f64_literal(s: Seq<char>) -> bool {
    let b = if s.len() > 0 && (s[0] == '+' || s[0] == '-') {
        s.subrange(1, s.len() as int)
    } else {
        s
    };
    lower_seq(b) == "inf"@ || lower_seq(b) == "infinity"@ || lower_seq(b) == "nan"@
        || is_decimal_lit(b)
}

/// Decides `is_f64_literal`.
pub fn check_f64_literal(v: &Vec<char>) -> (r: bool)
    ensures
        r == is_f64_literal(v@),
{
    let signed = v.len() > 0 && (v[0] == '+' || v[0] == '-');
    let start: usize = if signed {
        1
    } else {
        0
    };
    let b = crate::text::sub_vec(v, start, v.len());
    let ghost bs = b@;
    assert(v@.subrange(0, v@.len() as int) =~= v@);
    let low = lower_vec(&b);
    let inf = to_chars("inf");
    let infinity = to_chars("infinity");
    let nan = to_chars("nan");
    if vecs_eq(&low, &inf) || vecs_eq(&low, &infinity) || vecs_eq(&low, &nan) {
        return true;
    }
    let p = digit_end_at(&b, 0);
    let q: usize = if p < b.len() && b[p] == '.' {
        digit_end_at(&b, p + 1)
    } else {
        p
    };
    let has_digits = p > 0 || (p < b.len() && b[p] == '.' && q > p + 1);
    if !has_digits {
        return false;
    }
    if q == b.len() {
        return true;
    }
    if !(b[q] == 'e' || b[q] == 'E') {
        return false;
    }
    let r: usize = if q + 1 < b.len() && (b[q + 1] == '+' || b[q + 1] == '-') {
        q + 2
    } else {
        q + 1
    };
    r < b.len() && digit_end_at(&b, r) == b.len()
}

} // verus!
