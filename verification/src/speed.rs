//! The transfer speed that the footer reports.

use crate::number::{parse_u128, parsed_u128};
use crate::text::{
    chars_of, eq_ignore_ascii_case, find_char, first_index, same_chars_ignore_ascii_case,
};
use vstd::prelude::*;
use vstd::slice::slice_subrange;

verus! {

/// Why a speed could not be read.
#[derive(Clone, Copy, Debug, PartialEq, Eq, Structural)]
pub enum SpeedError {
    /// No space parts a number from a unit.
    MissingSeparator,
    /// The unit is not bytes per second.
    UnexpectedUnit,
    /// What stands before the unit is no unsigned number.
    InvalidNumber,
}

/// The unit of the one speed line that is read, as the log writes it.
pub open spec fn speed_unit() -> Seq<char> {
    "Bytes/sec."@
}

/// The speed that `value` writes: a number, one space, and the unit in any case
/// of its letters.
pub open spec fn speed_of(value: Seq<char>) -> Result<u128, SpeedError> {
    match first_index(value, ' ') {
        None => Err(SpeedError::MissingSeparator),
        Some(i) => if !eq_ignore_ascii_case(value.skip(i + 1), speed_unit()) {
            Err(SpeedError::UnexpectedUnit)
        } else {
            match parsed_u128(value.take(i)) {
                Some(n) => Ok(n),
                None => Err(SpeedError::InvalidNumber),
            }
        },
    }
}

/// Reads a speed given by its characters.
pub fn parse_speed_chars(value: &[char]) -> (r: Result<u128, SpeedError>)
    ensures
        r == speed_of(value@),
{
    let n = value.len();
    let i = match find_char(value, ' ') {
        Some(i) => i,
        None => {
            return Err(SpeedError::MissingSeparator);
        },
    };
    let number = slice_subrange(value, 0, i);
    let unit = slice_subrange(value, i + 1, n);
    assert(number@ == value@.take(i as int));
    assert(unit@ == value@.skip(i + 1));
    let expected = chars_of("Bytes/sec.");
    if !same_chars_ignore_ascii_case(unit, expected.as_slice()) {
        return Err(SpeedError::UnexpectedUnit);
    }
    match parse_u128(number) {
        Some(n) => Ok(n),
        None => Err(SpeedError::InvalidNumber),
    }
}

/// Reads the value of the speed line, in bytes per second. The value is a number
/// and a unit with one space between them; a speed in any unit but bytes per
/// second is not converted, it is an error.
pub fn parse_speed(value: &str) -> (r: Result<u128, SpeedError>)
    ensures
        r == speed_of(value@),
{
    let chars = chars_of(value);
    parse_speed_chars(chars.as_slice())
}

} // verus!
