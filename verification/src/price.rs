//! Prices as exact fixed-point numbers.
//!
//! Feeds put prices on the wire as decimal strings.  The library holds a
//! price as an unsigned count of billionths (nine fractional decimal
//! digits), so that accumulation and averaging are exact integer
//! arithmetic.  A fraction beyond nine digits is truncated; a string that
//! is not a plain non-negative decimal is rejected, never coerced.

use vstd::prelude::*;
use vstd::string::*;

use crate::text::{seq_views, split_char, split_on};
use vstd::arithmetic::mul::{lemma_mul_inequality, lemma_mul_strict_inequality};

verus! {

/// Fixed-point scale: price units are billionths.
pub const PRICE_SCALE: u128 = 1_000_000_000;

/// Number of fractional decimal digits a price keeps.
pub const FRAC_DIGITS: usize = 9;

pub open spec fn is_digit(c: char) -> bool {
    match c {
        '0' | '1' | '2' | '3' | '4' | '5' | '6' | '7' | '8' | '9' => true,
        _ => false,
    }
}

pub open spec fn digit_val(c: char) -> int {
    match c {
        '0' => 0,
        '1' => 1,
        '2' => 2,
        '3' => 3,
        '4' => 4,
        '5' => 5,
        '6' => 6,
        '7' => 7,
        '8' => 8,
        '9' => 9,
        _ => 0,
    }
}

pub open spec fn all_digits(s: Seq<char>) -> bool {
    forall|j: int| 0 <= j < s.len() ==> is_digit(#[trigger] s[j])
}

/// Value of a digit string read in base ten.
pub open spec fn digits_val(s: Seq<char>) -> int
    decreases s.len(),
{
    if s.len() == 0 {
        0
    } else {
        digits_val(s.drop_last()) * 10 + digit_val(s.last())
    }
}

pub open spec fn pow10(k: nat) -> int
    decreases k,
{
    if k == 0 {
        1
    } else {
        10 * pow10((k - 1) as nat)
    }
}

/// Billionths contributed by the fractional digit string; digits past
/// the ninth are truncated.
pub open spec fn frac_nanos(fr: Seq<char>) -> int {
    if fr.len() >= FRAC_DIGITS {
        digits_val(fr.take(FRAC_DIGITS as int))
    } else {
        digits_val(fr) * pow10((FRAC_DIGITS - fr.len()) as nat)
    }
}

/// A price string is one or two runs of digits around at most one dot,
/// with at least one digit overall.
pub open spec fn price_valid(s: Seq<char>) -> bool {
    let parts = split_on(s, '.');
    if parts.len() == 1 {
        parts[0].len() > 0 && all_digits(parts[0])
    } else if parts.len() == 2 {
        parts[0].len() + parts[1].len() > 0 && all_digits(parts[0]) && all_digits(parts[1])
    } else {
        false
    }
}

/// The value of a valid price string, in billionths.
pub open spec fn price_nanos(s: Seq<char>) -> int {
    let parts = split_on(s, '.');
    if parts.len() == 1 {
        digits_val(parts[0]) * PRICE_SCALE
    } else {
        digits_val(parts[0]) * PRICE_SCALE + frac_nanos(parts[1])
    }
}

#[derive(Clone, Copy, Debug, PartialEq, Eq, Structural)]
pub enum PriceError {
    /// The string is not a plain non-negative decimal number.
    Invalid,
    /// The value does not fit the fixed-point representation.
    Overflow,
}

pub proof fn lemma_digits_val_bounds(s: Seq<char>)
    requires
        all_digits(s),
    ensures
        0 <= digits_val(s) < pow10(s.len()),
    decreases s.len(),
{
    if s.len() > 0 {
        lemma_digits_val_bounds(s.drop_last());
    }
}

pub proof fn lemma_digits_val_prefix(s: Seq<char>, i: int)
    requires
        all_digits(s),
        0 <= i <= s.len(),
    ensures
        digits_val(s.take(i)) <= digits_val(s),
    decreases s.len() - i,
{
    if i < s.len() {
        lemma_digits_val_prefix(s, i + 1);
        assert(s.take(i + 1).drop_last() =~= s.take(i));
        assert(s.take(i + 1).last() == s[i]);
        lemma_digits_val_bounds(s.take(i));
        assert(digits_val(s.take(i + 1)) == digits_val(s.take(i)) * 10 + digit_val(s[i]));
        assert(digits_val(s.take(i)) * 10 >= digits_val(s.take(i)));
    } else {
        assert(s.take(i) =~= s);
    }
}

pub fn digit_char_val(c: char) -> (r: u8)
    ensures
        r == digit_val(c),
{
    match c {
        '0' => 0,
        '1' => 1,
        '2' => 2,
        '3' => 3,
        '4' => 4,
        '5' => 5,
        '6' => 6,
        '7' => 7,
        '8' => 8,
        '9' => 9,
        _ => 0,
    }
}

pub fn is_digit_char(c: char) -> (r: bool)
    ensures
        r == is_digit(c),
{
    match c {
        '0' | '1' | '2' | '3' | '4' | '5' | '6' | '7' | '8' | '9' => true,
        _ => false,
    }
}

/// Whether every character of `s` is a decimal digit.
pub fn check_all_digits(s: &str) -> (r: bool)
    ensures
        r == all_digits(s@),
{
    let n = s.unicode_len();
    let mut i: usize = 0;
    while i < n
        invariant
            0 <= i <= n,
            n == s@.len(),
            forall|j: int| 0 <= j < i ==> is_digit(#[trigger] s@[j]),
        decreases n - i,
    {
        if !is_digit_char(s.get_char(i)) {
            return false;
        }
        i += 1;
    }
    true
}

/// Base-ten value of a digit string; `None` when it exceeds `u128`.
pub fn digits_to_val(s: &str) -> (r: Option<u128>)
    requires
        all_digits(s@),
    ensures
        match r {
            Some(v) => v == digits_val(s@),
            None => digits_val(s@) > u128::MAX,
        },
{
    let n = s.unicode_len();
    let mut val: u128 = 0;
    let mut i: usize = 0;
    while i < n
        invariant
            0 <= i <= n,
            n == s@.len(),
            all_digits(s@),
            val == digits_val(s@.take(i as int)),
        decreases n - i,
    {
        let d = digit_char_val(s.get_char(i)) as u128;
        proof {
            assert(s@.take(i + 1 as int).drop_last() =~= s@.take(i as int));
            assert(s@.take(i + 1 as int).last() == s@[i as int]);
        }
        let stepped = match val.checked_mul(10) {
            Some(m) => m.checked_add(d),
            None => None,
        };
        match stepped {
            Some(v2) => {
                val = v2;
            },
            None => {
                proof {
                    assert(digits_val(s@.take(i + 1 as int)) > u128::MAX);
                    lemma_digits_val_prefix(s@, i + 1);
                }
                return None;
            },
        }
        i += 1;
    }
    proof {
        assert(s@.take(n as int) =~= s@);
    }
    Some(val)
}

pub proof fn lemma_pow10_vals()
    ensures
        pow10(0) == 1,
        pow10(1) == 10,
        pow10(2) == 100,
        pow10(3) == 1_000,
        pow10(4) == 10_000,
        pow10(5) == 100_000,
        pow10(6) == 1_000_000,
        pow10(7) == 10_000_000,
        pow10(8) == 100_000_000,
        pow10(9) == 1_000_000_000,
{
    reveal_with_fuel(pow10, 11);
}

pub fn pow10_val(k: usize) -> (r: u128)
    requires
        k <= FRAC_DIGITS,
    ensures
        r == pow10(k as nat),
{
    proof {
        lemma_pow10_vals();
    }
    match k {
        0 => 1,
        1 => 10,
        2 => 100,
        3 => 1_000,
        4 => 10_000,
        5 => 100_000,
        6 => 1_000_000,
        7 => 10_000_000,
        8 => 100_000_000,
        _ => 1_000_000_000,
    }
}

/// Parse a decimal price string into billionths.  Accepts exactly the
/// strings of `price_valid`; a value beyond `u128` billionths is an
/// overflow, never wrapped or clamped.
pub fn parse_price(s: &str) -> (r: Result<u128, PriceError>)
    ensures
        match r {
            Ok(v) => price_valid(s@) && price_nanos(s@) <= u128::MAX && v == price_nanos(s@),
            Err(PriceError::Invalid) => !price_valid(s@),
            Err(PriceError::Overflow) => price_valid(s@) && price_nanos(s@) > u128::MAX,
        },
{
    let parts = split_char(s, '.');
    proof {
        assert(seq_views(parts@).len() == parts@.len());
    }
    if parts.len() == 1 {
        proof {
            assert(seq_views(parts@)[0] == split_on(s@, '.')[0]);
        }
        let ip = &parts[0];
        if ip.as_str().is_empty() || !check_all_digits(ip.as_str()) {
            return Err(PriceError::Invalid);
        }
        proof {
            lemma_digits_val_bounds(ip@);
        }
        match digits_to_val(ip.as_str()) {
            None => {
                proof {
                    lemma_mul_inequality(1, PRICE_SCALE as int, digits_val(ip@));
                }
                Err(PriceError::Overflow)
            },
            Some(v) => {
                match v.checked_mul(PRICE_SCALE) {
                    None => Err(PriceError::Overflow),
                    Some(total) => Ok(total),
                }
            },
        }
    } else if parts.len() == 2 {
        proof {
            assert(seq_views(parts@)[0] == split_on(s@, '.')[0]);
            assert(seq_views(parts@)[1] == split_on(s@, '.')[1]);
        }
        let ip = &parts[0];
        let fp = &parts[1];
        if ip.as_str().is_empty() && fp.as_str().is_empty() {
            return Err(PriceError::Invalid);
        }
        if !check_all_digits(ip.as_str()) || !check_all_digits(fp.as_str()) {
            return Err(PriceError::Invalid);
        }
        let frac: u128 = if fp.as_str().unicode_len() >= FRAC_DIGITS {
            let head = fp.as_str().substring_char(0, FRAC_DIGITS);
            proof {
                assert(head@ =~= fp@.take(FRAC_DIGITS as int));
                assert(forall|j: int| 0 <= j < head@.len() ==> is_digit(#[trigger] head@[j]));
                lemma_digits_val_bounds(head@);
                lemma_pow10_vals();
            }
            match digits_to_val(head) {
                Some(v) => v,
                None => {
                    proof {
                        assert(false);
                    }
                    0
                },
            }
        } else {
            let flen = fp.as_str().unicode_len();
            proof {
                lemma_digits_val_bounds(fp@);
                lemma_pow10_monotone(fp@.len() as nat, 8);
                lemma_pow10_vals();
            }
            match digits_to_val(fp.as_str()) {
                Some(v) => {
                    let p = pow10_val(FRAC_DIGITS - flen);
                    proof {
                        lemma_pow10_mul_bound(fp@.len() as nat);
                        lemma_mul_strict_inequality(
                            digits_val(fp@),
                            pow10(fp@.len() as nat),
                            pow10((9 - fp@.len()) as nat),
                        );
                    }
                    v * p
                },
                None => {
                    proof {
                        assert(false);
                    }
                    0
                },
            }
        };
        proof {
            assert(frac == frac_nanos(fp@));
            assert(frac < PRICE_SCALE);
            lemma_digits_val_bounds(ip@);
        }
        match digits_to_val(ip.as_str()) {
            None => {
                proof {
                    lemma_mul_inequality(1, PRICE_SCALE as int, digits_val(ip@));
                }
                Err(PriceError::Overflow)
            },
            Some(v) => {
                match v.checked_mul(PRICE_SCALE) {
                    None => Err(PriceError::Overflow),
                    Some(scaled) => {
                        match scaled.checked_add(frac) {
                            None => Err(PriceError::Overflow),
                            Some(total) => Ok(total),
                        }
                    },
                }
            },
        }
    } else {
        Err(PriceError::Invalid)
    }
}

pub proof fn lemma_pow10_monotone(a: nat, b: nat)
    requires
        a <= b,
    ensures
        1 <= pow10(a) <= pow10(b),
    decreases b,
{
    if b > 0 {
        if a <= b - 1 {
            lemma_pow10_monotone(a, (b - 1) as nat);
        } else {
            lemma_pow10_monotone((a - 1) as nat, (b - 1) as nat);
        }
    }
}

/// Padding a fractional run of fewer than nine digits multiplies its
/// power bound up to exactly the scale.
proof fn lemma_pow10_mul_bound(flen: nat)
    requires
        flen < 9,
    ensures
        pow10(flen) * pow10((9 - flen) as nat) == pow10(9),
    decreases flen,
{
    if flen > 0 {
        lemma_pow10_mul_bound((flen - 1) as nat);
        let a = pow10((flen - 1) as nat);
        let b = pow10((9 - flen) as nat);
        assert(pow10(flen) == 10 * a);
        assert(pow10((9 - (flen - 1)) as nat) == 10 * b);
        assert(a * (10 * b) == (10 * a) * b) by (nonlinear_arith);
    }
}

} // verus!
