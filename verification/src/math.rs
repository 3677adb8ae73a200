//! Fixed point arithmetic of `cosmwasm_std`: `Uint128` amounts are `u128`
//! values and a `Decimal` is its `u128` count of atomics, where
//! `DECIMAL_FRACTIONAL` atomics make one.
use cosmwasm_std::{Decimal, Uint128};
use vstd::prelude::*;

verus! {

/// Number of atomics in one `Decimal`.
pub const DECIMAL_FRACTIONAL: u128 = 1_000_000_000_000_000_000u128;

/// The exact value of `value * numerator / denominator`, rounded down.
pub open spec fn mul_ratio(value: int, numerator: int, denominator: int) -> int {
    value * numerator / denominator
}

/// `Uint128 * Decimal`: the amount scaled by the decimal, rounded down.
pub open spec fn spec_mul_dec(amount: int, dec: int) -> int {
    mul_ratio(amount, dec, DECIMAL_FRACTIONAL as int)
}

/// `Decimal::from_ratio(numerator, denominator)` in atomics.
pub open spec fn spec_from_ratio(numerator: int, denominator: int) -> int {
    mul_ratio(numerator, DECIMAL_FRACTIONAL as int, denominator)
}

/// Calls `Uint128::checked_multiply_ratio`. Its source computes
/// `value * numerator` in 256 bits, divides by `denominator` and fails when
/// the denominator is zero or the quotient does not fit in 128 bits.
#[verifier::external_body]
pub(crate) fn checked_multiply_ratio(value: u128, numerator: u128, denominator: u128) -> (r: Option<u128>)
    ensures
        r is Some <==> (denominator != 0 && mul_ratio(value as int, numerator as int, denominator as int) <= u128::MAX),
        r matches Some(v) ==> v == mul_ratio(value as int, numerator as int, denominator as int),
{
    match Uint128::new(value).checked_multiply_ratio(numerator, denominator) {
        Ok(v) => Some(v.u128()),
        Err(_) => None,
    }
}

/// Calls `Uint128::multiply_ratio`, which panics where
/// `checked_multiply_ratio` fails and otherwise returns its quotient.
#[verifier::external_body]
pub(crate) fn multiply_ratio(value: u128, numerator: u128, denominator: u128) -> (r: u128)
    requires
        denominator != 0,
        mul_ratio(value as int, numerator as int, denominator as int) <= u128::MAX,
    ensures
        r == mul_ratio(value as int, numerator as int, denominator as int),
{
    Uint128::new(value).multiply_ratio(numerator, denominator).u128()
}

/// Calls `<Uint128 as Mul<Decimal>>::mul`: zero when either side is zero,
/// otherwise `multiply_ratio(atomics, DECIMAL_FRACTIONAL)`, which panics when
/// the product does not fit.
#[verifier::external_body]
pub(crate) fn mul_dec(amount: u128, dec: u128) -> (r: u128)
    requires
        spec_mul_dec(amount as int, dec as int) <= u128::MAX,
    ensures
        r == spec_mul_dec(amount as int, dec as int),
{
    (Uint128::new(amount) * Decimal::raw(dec)).u128()
}

/// Calls `Decimal::from_ratio`, which panics on a zero denominator or when
/// `numerator * DECIMAL_FRACTIONAL / denominator` does not fit.
#[verifier::external_body]
pub(crate) fn dec_from_ratio(numerator: u128, denominator: u128) -> (r: u128)
    requires
        denominator != 0,
        spec_from_ratio(numerator as int, denominator as int) <= u128::MAX,
    ensures
        r == spec_from_ratio(numerator as int, denominator as int),
{
    Decimal::from_ratio(numerator, denominator).atomics().u128()
}

/// Calls `Decimal::checked_from_ratio`: fails on a zero denominator or when
/// the ratio does not fit, and otherwise gives the ratio rounded down.
#[verifier::external_body]
pub(crate) fn dec_checked_from_ratio(numerator: u128, denominator: u128) -> (r: Option<u128>)
    ensures
        r is Some <==> (denominator != 0 && spec_from_ratio(numerator as int, denominator as int) <= u128::MAX),
        r matches Some(v) ==> v == spec_from_ratio(numerator as int, denominator as int),
{
    match Decimal::checked_from_ratio(numerator, denominator) {
        Ok(v) => Some(v.atomics().u128()),
        Err(_) => None,
    }
}

/// Calls `Decimal::checked_mul`: the product of two decimals rounded down,
/// failing when it does not fit.
#[verifier::external_body]
pub(crate) fn dec_checked_mul(a: u128, b: u128) -> (r: Option<u128>)
    ensures
        r is Some <==> spec_mul_dec(a as int, b as int) <= u128::MAX,
        r matches Some(v) ==> v == spec_mul_dec(a as int, b as int),
{
    match Decimal::raw(a).checked_mul(Decimal::raw(b)) {
        Ok(v) => Some(v.atomics().u128()),
        Err(_) => None,
    }
}

/// Calls `<Decimal as Mul>::mul`, which panics where `checked_mul` fails.
#[verifier::external_body]
pub(crate) fn dec_mul(a: u128, b: u128) -> (r: u128)
    requires
        spec_mul_dec(a as int, b as int) <= u128::MAX,
    ensures
        r == spec_mul_dec(a as int, b as int),
{
    (Decimal::raw(a) * Decimal::raw(b)).atomics().u128()
}

/// The number written by decimal digits.
pub open spec fn digits_value(s: Seq<char>) -> int
    decreases s.len(),
{
    if s.len() == 0 {
        0
    } else {
        digits_value(s.drop_last()) * 10 + (s.last() as int - '0' as int)
    }
}

/// `10^n`.
pub open spec fn ten_to(n: nat) -> int
    decreases n,
{
    if n == 0 { 1 } else { 10 * ten_to((n - 1) as nat) }
}

/// What `u128::from_str` reads: decimal digits after an optional `+`, at
/// least one, whose value fits.
pub open spec fn spec_parse_u128(s: Seq<char>) -> Option<int> {
    let d = if s.len() > 0 && s[0] == '+' { s.drop_first() } else { s };
    if d.len() == 0 || exists|i: int| 0 <= i < d.len() && !('0' <= #[trigger] d[i] && d[i] <= '9') {
        None
    } else if digits_value(d) > u128::MAX {
        None
    } else {
        Some(digits_value(d))
    }
}

/// The position of the first `.` of `s` at or after `from`.
pub open spec fn spec_dot_from(s: Seq<char>, from: int) -> Option<int>
    decreases s.len() - from,
{
    if from < 0 || from >= s.len() {
        None
    } else if s[from] == '.' {
        Some(from)
    } else {
        spec_dot_from(s, from + 1)
    }
}

/// What `<Decimal as FromStr>::from_str` gives for a text, in atomics: a
/// whole part as `u128::from_str` reads it, then at most one `.` and a
/// fractional part of at most 18 characters read the same way, scaled to
/// 18 places; `None` when a part does not read or the value does not fit.
pub open spec fn spec_decimal_from_str(s: Seq<char>) -> Option<u128> {
    match spec_dot_from(s, 0) {
        None => match spec_parse_u128(s) {
            Some(w) => if w * DECIMAL_FRACTIONAL > u128::MAX { None } else { Some((w * DECIMAL_FRACTIONAL) as u128) },
            None => None,
        },
        Some(i) => {
            let whole = s.subrange(0, i);
            let frac = s.subrange(i + 1, s.len() as int);
            if spec_dot_from(frac, 0) is Some || frac.len() > 18 {
                None
            } else {
                match (spec_parse_u128(whole), spec_parse_u128(frac)) {
                    (Some(w), Some(f)) => {
                        let a = w * DECIMAL_FRACTIONAL + f * ten_to((18 - frac.len()) as nat);
                        if w * DECIMAL_FRACTIONAL > u128::MAX || a > u128::MAX { None } else { Some(a as u128) }
                    },
                    _ => None,
                }
            }
        },
    }
}

/// Calls `<Decimal as FromStr>::from_str` and keeps the atomics of the
/// parsed value. Its source splits the text at `.`, reads the whole and
/// the fractional part with `Uint128::from_str` (which is `u128::from_str`),
/// refuses more than 18 fractional characters, more than one `.` and any
/// overflow, and adds the fractional part scaled to 18 places.
#[verifier::external_body]
pub(crate) fn decimal_from_str(s: &str) -> (r: Option<u128>)
    ensures
        r == spec_decimal_from_str(s@),
{
    match <Decimal as core::str::FromStr>::from_str(s) {
        Ok(d) => Some(d.atomics().u128()),
        Err(_) => None,
    }
}

/// `amount / ratio` for a decimal ratio: `amount * DECIMAL_FRACTIONAL /
/// ratio`, rounded down; `None` when the ratio is zero or the quotient does
/// not fit.
pub fn div_ratio_decimal(amount: u128, ratio: u128) -> (r: Option<u128>)
    ensures
        r is Some <==> (ratio != 0 && mul_ratio(amount as int, DECIMAL_FRACTIONAL as int, ratio as int) <= u128::MAX),
        r matches Some(v) ==> v == mul_ratio(amount as int, DECIMAL_FRACTIONAL as int, ratio as int),
{
    checked_multiply_ratio(amount, DECIMAL_FRACTIONAL, ratio)
}

/// `limit.unwrap_or(default).min(max)`, the page size of every listing.
pub fn page_limit(limit: Option<u32>, default_limit: u32, max_limit: u32) -> (r: u32)
    ensures
        r == (match limit { Some(l) => if l < max_limit { l } else { max_limit }, None => if default_limit < max_limit { default_limit } else { max_limit } }),
{
    let l = match limit {
        Some(l) => l,
        None => default_limit,
    };
    if l < max_limit { l } else { max_limit }
}

} // verus!
