//! Reading an amount from the text of an input field.
use rust_decimal::Decimal;
use vstd::prelude::*;

use crate::amount::{parts_valid, unit_factor, Amount, MAX_DP};

verus! {

/// Why the text of an amount was refused.
#[derive(Clone, Copy, Debug, PartialEq, Eq, Structural)]
pub enum AmountError {
    /// The number starts with its decimal point (`.5`).
    LeadingPoint,
    /// The text is no decimal number.
    NotANumber,
    /// The number is negative.
    Negative,
    /// The number is zero.
    Zero,
    /// The number has more than four fractional digits.
    TooManyDecimals,
    /// The number is too large for an amount.
    TooLarge,
}

/// The text that `str::trim` leaves of `s`.
pub uninterp spec fn trimmed(s: Seq<char>) -> Seq<char>;

/// Mantissa, scale and sign of the number that `Decimal::from_str_exact`
/// reads from `s`, if it reads one.
pub uninterp spec fn decimal_parse(s: Seq<char>) -> Option<(int, int, bool)>;

/// What a number read as mantissa, scale and sign (`None`: no number) gives.
pub open spec fn checked_model(parsed: Option<(int, int, bool)>) -> Result<(int, int), AmountError> {
    match parsed {
        None => Err(AmountError::NotANumber),
        Some((m, scale, negative)) => if negative {
            Err(AmountError::Negative)
        } else if m == 0 {
            Err(AmountError::Zero)
        } else if scale > MAX_DP {
            Err(AmountError::TooManyDecimals)
        } else if !parts_valid(m, scale) {
            Err(AmountError::TooLarge)
        } else {
            Ok((m, scale))
        },
    }
}

/// What the text of an amount field gives: `None` for an empty field.
pub open spec fn parse_model(s: Seq<char>) -> Result<Option<(int, int)>, AmountError> {
    let t = trimmed(s);
    if t.len() == 0 {
        Ok(None)
    } else if t[0] == '.' {
        Err(AmountError::LeadingPoint)
    } else {
        match checked_model(decimal_parse(t)) {
            Ok(p) => Ok(Some(p)),
            Err(e) => Err(e),
        }
    }
}

/// The amount for a number read as mantissa, scale and sign: it must be
/// above zero with at most four fractional digits.
pub fn check_parsed(parsed: Option<(i128, u32, bool)>) -> (r: Result<Amount, AmountError>)
    ensures
        match checked_model(
            match parsed {
                Some(p) => Some((p.0 as int, p.1 as int, p.2)),
                None => None,
            },
        ) {
            Ok((m, scale)) => r matches Ok(a) && a.spec_mantissa() == m && a.spec_scale() == scale
                && a.value() == m * unit_factor(scale),
            Err(e) => r == Err::<Amount, AmountError>(e),
        },
{
    match parsed {
        None => Err(AmountError::NotANumber),
        Some((m, scale, negative)) => {
            if negative {
                Err(AmountError::Negative)
            } else if m == 0 {
                Err(AmountError::Zero)
            } else if scale > MAX_DP {
                Err(AmountError::TooManyDecimals)
            } else {
                match Amount::new(m, scale) {
                    Some(a) => Ok(a),
                    None => Err(AmountError::TooLarge),
                }
            }
        },
    }
}

/// Read the amount field `s`: surrounding whitespace is ignored, an empty
/// field is no amount, and an amount must be a plain decimal number above
/// zero with at most four fractional digits.
pub fn parse_amount(s: &str) -> (r: Result<Option<Amount>, AmountError>)
    ensures
        match parse_model(s@) {
            Ok(None) => r == Ok::<Option<Amount>, AmountError>(None),
            Ok(Some((m, scale))) => r matches Ok(Some(a)) && a.spec_mantissa() == m
                && a.spec_scale() == scale && a.value() == m * unit_factor(scale),
            Err(e) => r == Err::<Option<Amount>, AmountError>(e),
        },
{
    let t = trim_text(s);
    if t.is_empty() {
        return Ok(None);
    }
    let mut chars = t.chars();
    let first = chars.next();
    if first == Some('.') {
        return Err(AmountError::LeadingPoint);
    }
    match check_parsed(parse_decimal(t)) {
        Ok(a) => Ok(Some(a)),
        Err(e) => Err(e),
    }
}

/// Relies on `str::trim`: the text without leading and trailing whitespace.
#[verifier::external_body]
fn trim_text(s: &str) -> (r: &str)
    ensures
        r@ == trimmed(s@),
{
    s.trim()
}

/// Relies on `Decimal::from_str_exact` (rust_decimal): the mantissa, scale
/// and sign of the number the text writes, or `None` where it writes none
/// that a `Decimal` holds without rounding.
#[verifier::external_body]
fn parse_decimal(s: &str) -> (r: Option<(i128, u32, bool)>)
    ensures
        match r {
            Some(p) => decimal_parse(s@) == Some((p.0 as int, p.1 as int, p.2)),
            None => decimal_parse(s@) is None,
        },
{
    match Decimal::from_str_exact(s) {
        Ok(d) => Some((d.mantissa(), d.scale(), d.is_sign_negative())),
        Err(_) => None,
    }
}

} // verus!
