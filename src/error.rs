//! The one error of the parsers, and the scaling of a magnitude by a unit.
use vstd::prelude::*;
use crate::text::{digits_value, magnitude_agrees};

verus! {

/// Why a token was refused.
#[derive(Clone, Copy, Debug, PartialEq, Eq, Structural)]
pub enum ParseErrorKind {
    /// The token is not a magnitude followed by one of the known units.
    Malformed,
    /// The magnitude times the unit exceeds `u64::MAX`.
    Overflow,
}

/// A token that could not be read as a value, with the token itself.
#[derive(Debug)]
pub struct ValidationError {
    pub input: String,
    pub kind: ParseErrorKind,
}

/// The value of `digits` in a unit worth `factor`, or why there is none.
pub open spec fn scaled(digits: Seq<char>, factor: Option<u64>) -> Result<u64, ParseErrorKind> {
    match factor {
        None => Err(ParseErrorKind::Malformed),
        Some(f) => if digits_value(digits) * f <= u64::MAX {
            Ok((digits_value(digits) * f) as u64)
        } else {
            Err(ParseErrorKind::Overflow)
        },
    }
}

/// Scales the magnitude `m` of `digits` by `factor`, refusing what exceeds `u64::MAX`.
pub(crate) fn scale(
    m: Option<u64>,
    factor: Option<u64>,
    Ghost(digits): Ghost<Seq<char>>,
) -> (r: Result<u64, ParseErrorKind>)
    requires
        magnitude_agrees(m, digits),
        factor matches Some(f) ==> f >= 1,
    ensures
        r == scaled(digits, factor),
{
    match factor {
        None => Err(ParseErrorKind::Malformed),
        Some(f) => match m {
            None => {
                assert(digits_value(digits) * f >= digits_value(digits)) by (nonlinear_arith)
                    requires
                        f >= 1,
                        digits_value(digits) > 0,
                ;
                Err(ParseErrorKind::Overflow)
            },
            Some(v) => match v.checked_mul(f) {
                Some(p) => Ok(p),
                None => Err(ParseErrorKind::Overflow),
            },
        },
    }
}

/// The error for `input`, which carries the token verbatim.
pub(crate) fn validation_error(input: &str, kind: ParseErrorKind) -> (r: ValidationError)
    ensures
        r.input@ == input@,
        r.kind == kind,
{
    ValidationError { input: input.to_owned(), kind }
}

} // verus!
