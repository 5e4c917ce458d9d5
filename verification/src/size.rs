//! Conversion of a decimal size in gigabytes into mebibytes.

use vstd::prelude::*;
use crate::error::{AppError, AppResult};
use crate::text::{char_vec, first_index, lemma_first_index};

verus! {

broadcast use vstd::string::group_string_axioms;

/// The value of a string of decimal digits (empty: 0).
pub open spec fn digits_value(s: Seq<char>) -> nat
    decreases s.len(),
{
    if s.len() == 0 {
        0
    } else {
        digits_value(s.drop_last()) * 10 + ((s.last() as nat) - ('0' as nat)) as nat
    }
}

/// Whether every character of `s` is a decimal digit.
pub open spec fn all_digits(s: Seq<char>) -> bool {
    forall|i: int| 0 <= i < s.len() ==> '0' <= #[trigger] s[i] && s[i] <= '9'
}

/// Ten to the power `n`.
pub open spec fn pow10(n: nat) -> nat
    decreases n,
{
    if n == 0 {
        1
    } else {
        10 * pow10((n - 1) as nat)
    }
}

pub open spec fn u128_max() -> nat {
    340282366920938463463374607431768211455
}

pub open spec fn positive_error() -> Seq<char> {
    "Size must be a positive number of GB."@
}

pub open spec fn too_large_error() -> Seq<char> {
    "Size is too large."@
}

pub open spec fn zero_error() -> Seq<char> {
    "Size must be greater than zero."@
}

/// The result once the size in MiB is known: zero and values beyond `u64` are refused.
pub open spec fn finish_mib(mib: nat) -> Result<u64, Seq<char>> {
    if mib == 0 {
        Err(zero_error())
    } else if mib > u64::MAX {
        Err(too_large_error())
    } else {
        Ok(mib as u64)
    }
}

/// The size in MiB that a size in GB denotes, or the error for it.
///
/// The text is a whole part and an optional fraction after one `.`, each made of ASCII digits
/// (one of them may be empty, not both). The value is `whole * 1024 + fraction * 1024 / 10^len`,
/// the division rounding down, every step computed in 128 bits: a part that does not fit is
/// refused as not a number, a product or sum that does not fit as too large. The fraction's
/// length enters the power of ten truncated to 32 bits.
pub open spec fn spec_size_mib(raw: Seq<char>) -> Result<u64, Seq<char>> {
    let i = first_index(raw, '.');
    let whole = raw.take(i as int);
    let has_fraction = i < raw.len();
    let fraction = raw.skip(i + 1 as int);
    if raw.len() == 0 {
        Err(positive_error())
    } else if has_fraction && first_index(fraction, '.') < fraction.len() {
        Err(positive_error())
    } else if !all_digits(whole) || (has_fraction && (fraction.len() == 0 || !all_digits(fraction))) || (whole.len() == 0 && !has_fraction) {
        Err(positive_error())
    } else if digits_value(whole) > u128_max() {
        Err(positive_error())
    } else if digits_value(whole) * 1024 > u128_max() {
        Err(too_large_error())
    } else if !has_fraction {
        finish_mib(digits_value(whole) * 1024)
    } else {
        let e = (fraction.len() % 0x1_0000_0000) as nat;
        if pow10(e) > u128_max() {
            Err(too_large_error())
        } else if digits_value(fraction) > u128_max() {
            Err(positive_error())
        } else if digits_value(fraction) * 1024 > u128_max() {
            Err(too_large_error())
        } else {
            let sum = digits_value(whole) * 1024 + (digits_value(fraction) * 1024) / pow10(e);
            if sum > u128_max() {
                Err(too_large_error())
            } else {
                finish_mib(sum)
            }
        }
    }
}

proof fn lemma_digits_value_prefix(s: Seq<char>, k: int)
    requires
        0 <= k <= s.len(),
    ensures
        digits_value(s.take(k)) <= digits_value(s),
    decreases s.len() - k,
{
    if k < s.len() {
        lemma_digits_value_prefix(s, k + 1);
        assert(s.take(k + 1).drop_last() =~= s.take(k));
        let a = digits_value(s.take(k));
        let d = ((s.take(k + 1).last() as nat) - ('0' as nat)) as nat;
        assert(digits_value(s.take(k + 1)) == a * 10 + d);
        assert(a <= a * 10 + d) by (nonlinear_arith);
    } else {
        assert(s.take(k) =~= s);
    }
}

/// The value of a digit string, or `None` when it does not fit in 128 bits.
fn parse_digits(s: &Vec<char>, from: usize, to: usize) -> (r: Option<u128>)
    requires
        from <= to <= s.len(),
        all_digits(s@.subrange(from as int, to as int)),
    ensures
        match r {
            Some(v) => v == digits_value(s@.subrange(from as int, to as int)),
            None => digits_value(s@.subrange(from as int, to as int)) > u128_max(),
        },
{
    let ghost t = s@.subrange(from as int, to as int);
    let mut value: u128 = 0;
    let mut k = from;
    while k < to
        invariant
            from <= k <= to <= s.len(),
            t == s@.subrange(from as int, to as int),
            all_digits(t),
            value == digits_value(t.take(k - from)),
        decreases to - k,
    {
        let c = s[k];
        assert(t[k - from] == c);
        let d: u128 = (c as u32 - '0' as u32) as u128;
        assert(t.take(k - from + 1).drop_last() =~= t.take(k - from));
        assert(digits_value(t.take(k - from + 1)) == value * 10 + d);
        match value.checked_mul(10) {
            Some(m) => match m.checked_add(d) {
                Some(n) => {
                    value = n;
                },
                None => {
                    proof { lemma_digits_value_prefix(t, k - from + 1); }
                    return None;
                },
            },
            None => {
                proof {
                    lemma_digits_value_prefix(t, k - from + 1);
                    assert(value * 10 + d >= value * 10) by (nonlinear_arith) requires d >= 0;
                }
                return None;
            },
        }
        k = k + 1;
    }
    assert(t.take(to - from) =~= t);
    Some(value)
}

proof fn lemma_pow10_monotone(a: nat, b: nat)
    requires
        a <= b,
    ensures
        pow10(a) <= pow10(b),
    decreases b - a,
{
    if a < b {
        lemma_pow10_monotone(a, (b - 1) as nat);
        assert(pow10(b) == 10 * pow10((b - 1) as nat));
    }
}

/// Ten to the power `e`, or `None` when that does not fit in 128 bits.
fn checked_pow10(e: u32) -> (r: Option<u128>)
    ensures
        match r {
            Some(v) => v == pow10(e as nat),
            None => pow10(e as nat) > u128_max(),
        },
{
    let mut value: u128 = 1;
    let mut k: u32 = 0;
    while k < e
        invariant
            k <= e,
            value == pow10(k as nat),
        decreases e - k,
    {
        match value.checked_mul(10) {
            Some(v) => {
                value = v;
            },
            None => {
                proof {
                    lemma_pow10_monotone((k + 1) as nat, e as nat);
                }
                return None;
            },
        }
        k = k + 1;
    }
    Some(value)
}

fn positive() -> (r: AppError)
    ensures
        r.message@ == positive_error(),
        r.exit_code == 1,
{
    AppError::new(crate::text::owned("Size must be a positive number of GB."))
}

fn too_large() -> (r: AppError)
    ensures
        r.message@ == too_large_error(),
        r.exit_code == 1,
{
    AppError::new(crate::text::owned("Size is too large."))
}

fn finish(mib: u128) -> (r: AppResult<u64>)
    ensures
        match (r, finish_mib(mib as nat)) {
            (Ok(v), Ok(w)) => v == w,
            (Err(e), Err(m)) => e.message@ == m && e.exit_code == 1,
            _ => false,
        },
{
    if mib == 0 {
        return Err(AppError::new(crate::text::owned("Size must be greater than zero.")));
    }
    if mib > u64::MAX as u128 {
        return Err(too_large());
    }
    Ok(mib as u64)
}

fn digits_between(s: &Vec<char>, from: usize, to: usize) -> (r: bool)
    requires
        from <= to <= s.len(),
    ensures
        r == all_digits(s@.subrange(from as int, to as int)),
{
    let mut k = from;
    while k < to
        invariant
            from <= k <= to <= s.len(),
            forall|j: int| from <= j < k ==> '0' <= s@[j] && s@[j] <= '9',
        decreases to - k,
    {
        if !('0' <= s[k] && s[k] <= '9') {
            assert(s@.subrange(from as int, to as int)[k - from] == s@[k as int]);
            return false;
        }
        k = k + 1;
    }
    assert forall|i: int| 0 <= i < to - from implies '0' <= #[trigger] s@.subrange(from as int, to as int)[i] && s@.subrange(from as int, to as int)[i] <= '9' by {
        assert(s@.subrange(from as int, to as int)[i] == s@[from + i]);
    }
    true
}

fn find_char(s: &Vec<char>, from: usize, c: char) -> (r: usize)
    requires
        from <= s.len(),
    ensures
        r - from == first_index(s@.subrange(from as int, s@.len() as int), c),
        from <= r <= s.len(),
{
    let mut k = from;
    while k < s.len() && s[k] != c
        invariant
            from <= k <= s.len(),
            forall|j: int| from <= j < k ==> s@[j] != c,
        decreases s.len() - k,
    {
        k = k + 1;
    }
    let ghost t = s@.subrange(from as int, s@.len() as int);
    proof {
        assert forall|j: int| 0 <= j < k - from implies t[j] != c by {
            assert(t[j] == s@[from + j]);
        }
        if k < s.len() {
            assert(t[k - from] == s@[k as int]);
        }
        lemma_first_index(t, c, k - from);
    }
    k
}

/// Converts a size in gigabytes, written in decimal, into mebibytes.
pub fn size_gb_to_mib(raw: &str) -> (r: AppResult<u64>)
    ensures
        match (r, spec_size_mib(raw@)) {
            (Ok(v), Ok(w)) => v == w,
            (Err(e), Err(m)) => e.message@ == m && e.exit_code == 1,
            _ => false,
        },
{
    let s = char_vec(raw);
    let ghost w = s@;
    assert(w.subrange(0, w.len() as int) =~= w);
    if s.len() == 0 {
        return Err(positive());
    }
    let dot = find_char(&s, 0, '.');
    let ghost i = first_index(w, '.');
    assert(dot == i);
    let has_fraction = dot < s.len();
    let ghost whole = w.take(i as int);
    let ghost fraction = w.skip(i + 1 as int);
    assert(whole =~= w.subrange(0, dot as int));
    if has_fraction {
        let second = find_char(&s, dot + 1, '.');
        assert(fraction =~= w.subrange(dot + 1, w.len() as int));
        if second < s.len() {
            return Err(positive());
        }
    }
    let whole_ok = digits_between(&s, 0, dot);
    let fraction_ok = if has_fraction {
        assert(fraction =~= w.subrange(dot + 1, w.len() as int));
        dot + 1 < s.len() && digits_between(&s, dot + 1, s.len())
    } else {
        true
    };
    if !whole_ok || !fraction_ok || (dot == 0 && !has_fraction) {
        return Err(positive());
    }
    let whole_value = match parse_digits(&s, 0, dot) {
        Some(v) => v,
        None => return Err(positive()),
    };
    let whole_mib = match whole_value.checked_mul(1024) {
        Some(v) => v,
        None => return Err(too_large()),
    };
    if !has_fraction {
        return finish(whole_mib);
    }
    assert(fraction =~= w.subrange(dot + 1, w.len() as int));
    let flen = s.len() - (dot + 1);
    let e = flen as u32;
    assert(e == (flen as int % 0x1_0000_0000)) by (bit_vector)
        requires
            e == flen as u32,
    ;
    assert(fraction.len() == flen);
    let denominator = match checked_pow10(e) {
        Some(v) => v,
        None => return Err(too_large()),
    };
    let fraction_value = match parse_digits(&s, dot + 1, s.len()) {
        Some(v) => v,
        None => return Err(positive()),
    };
    let scaled = match fraction_value.checked_mul(1024) {
        Some(v) => v,
        None => return Err(too_large()),
    };
    assert(denominator > 0) by {
        lemma_pow10_monotone(0, e as nat);
    }
    let part = scaled / denominator;
    let total = match whole_mib.checked_add(part) {
        Some(v) => v,
        None => return Err(too_large()),
    };
    finish(total)
}


/// A whole number of gigabytes is that many times 1024 MiB (when it is positive and fits).
pub proof fn whole_gigabytes_scale_by_1024(raw: Seq<char>)
    requires
        raw.len() > 0,
        all_digits(raw),
        digits_value(raw) > 0,
        digits_value(raw) * 1024 <= u64::MAX,
    ensures
        spec_size_mib(raw) == Ok::<u64, Seq<char>>((digits_value(raw) * 1024) as u64),
{
    assert forall|j: int| 0 <= j < raw.len() implies raw[j] != '.' by {
        assert('0' <= raw[j] && raw[j] <= '9');
    }
    lemma_first_index(raw, '.', raw.len() as int);
    assert(raw.take(raw.len() as int) =~= raw);
}

} // verus!
