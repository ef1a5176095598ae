//! Exact decimal prices and quantities as fixed-point integers.
//!
//! Wire fields arrive as decimal strings such as `"10.5"`. They are kept
//! as non-negative `u128` values scaled by `10^FIXED_SCALE`, so that
//! comparisons and zero tests are exact integer operations. A string that
//! does not denote such a value (malformed, negative, too large, or with
//! more fractional digits than the encoding keeps) is not representable;
//! callers choose between `parse_fixed` (which reports that) and
//! `parse_or_zero` (which degrades it to zero).

use vstd::prelude::*;
use vstd::arithmetic::power::pow;

verus! {

/// Number of decimal digits kept after the point by the fixed-point encoding.
pub const FIXED_SCALE: u32 = 18;

/// `10^e`.
pub open spec fn pow10(e: nat) -> int {
    pow(10, e)
}

/// The fixed-point encoding of the non-negative decimal `m / 10^s`:
/// `m * 10^(FIXED_SCALE - s)`, or `None` when the value is negative,
/// overflows a `u128`, or is not exactly representable.
pub open spec fn fixed_of(m: int, s: nat) -> Option<u128> {
    if m < 0 {
        None
    } else if s <= FIXED_SCALE {
        if m * pow10((FIXED_SCALE - s) as nat) <= u128::MAX {
            Some((m * pow10((FIXED_SCALE - s) as nat)) as u128)
        } else {
            None
        }
    } else {
        if m % pow10((s - FIXED_SCALE) as nat) == 0 {
            Some((m / pow10((s - FIXED_SCALE) as nat)) as u128)
        } else {
            None
        }
    }
}

/// `10^e` as a `u128`, for the exponents the fixed-point encoding uses.
fn pow10_u128(e: u32) -> (r: u128)
    requires
        e <= 18,
    ensures
        r == pow10(e as nat),
        r >= 1,
{
    proof {
        reveal_with_fuel(vstd::arithmetic::power::pow, 19);
    }
    match e {
        0 => 1,
        1 => 10,
        2 => 100,
        3 => 1000,
        4 => 10000,
        5 => 100000,
        6 => 1000000,
        7 => 10000000,
        8 => 100000000,
        9 => 1000000000,
        10 => 10000000000,
        11 => 100000000000,
        12 => 1000000000000,
        13 => 10000000000000,
        14 => 100000000000000,
        15 => 1000000000000000,
        16 => 10000000000000000,
        17 => 100000000000000000,
        _ => 1000000000000000000,
    }
}

/// Encodes a decimal given as mantissa and scale (the value `m / 10^s`)
/// into the fixed-point representation.
pub fn fixed_from_parts(m: i128, s: u32) -> (r: Option<u128>)
    requires
        s <= 28,
    ensures
        r == fixed_of(m as int, s as nat),
{
    if m < 0 {
        return None;
    }
    let mu: u128 = m as u128;
    if s <= FIXED_SCALE {
        let factor = pow10_u128(FIXED_SCALE - s);
        mu.checked_mul(factor)
    } else {
        let divisor = pow10_u128(s - FIXED_SCALE);
        if mu % divisor == 0 {
            Some(mu / divisor)
        } else {
            None
        }
    }
}

/// What `rust_decimal::Decimal::from_str_exact` parses a string into,
/// as a mantissa/scale pair.
pub uninterp spec fn dec_parts_of(s: Seq<char>) -> Option<(i128, u32)>;

/// Relies on `rust_decimal::Decimal::from_str_exact`, `mantissa` and
/// `scale`: the parse result depends on the characters alone, and a
/// `Decimal` carries at most 28 fractional digits.
#[verifier::external_body]
fn dec_parts(s: &str) -> (r: Option<(i128, u32)>)
    ensures
        r == dec_parts_of(s@),
        r matches Some(p) ==> p.1 <= 28,
{
    match rust_decimal::Decimal::from_str_exact(s) {
        Ok(d) => Some((d.mantissa(), d.scale())),
        Err(_) => None,
    }
}

/// The fixed-point value a decimal string denotes, if any.
pub open spec fn parse_fixed_spec(s: Seq<char>) -> Option<u128> {
    match dec_parts_of(s) {
        Some(p) => fixed_of(p.0 as int, p.1 as nat),
        None => None,
    }
}

/// The fixed-point value a decimal string denotes, with zero standing in
/// for anything unrepresentable.
pub open spec fn parse_or_zero_spec(s: Seq<char>) -> u128 {
    match parse_fixed_spec(s) {
        Some(v) => v,
        None => 0,
    }
}

/// Parses a decimal string into the fixed-point representation.
pub fn parse_fixed(s: &str) -> (r: Option<u128>)
    ensures
        r == parse_fixed_spec(s@),
{
    match dec_parts(s) {
        Some(p) => fixed_from_parts(p.0, p.1),
        None => None,
    }
}

/// Parses a decimal string, degrading anything unrepresentable to zero.
pub fn parse_or_zero(s: &str) -> (r: u128)
    ensures
        r == parse_or_zero_spec(s@),
{
    match parse_fixed(s) {
        Some(v) => v,
        None => 0,
    }
}

} // verus!
