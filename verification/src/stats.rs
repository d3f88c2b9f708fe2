//! The six-column statistics lines of the footer.

use crate::number::{parse_u128, parsed_u128};
use crate::text::{chars_of, split_words, words};
use vstd::prelude::*;

verus! {

/// What became of the items of one category: how many there were, and how many
/// were copied, skipped, found mismatched, failed or found extra.
#[derive(Clone, Copy, Debug, PartialEq, Eq, Structural)]
pub struct CopyStat {
    pub total: u128,
    pub copied: u128,
    pub skipped: u128,
    pub mismatch: u128,
    pub failed: u128,
    pub extras: u128,
}

/// The statistics of a run, by category. A category that the log does not report,
/// or reports in a line that cannot be read, is absent.
#[derive(Clone, Copy, Debug, PartialEq, Eq)]
pub struct Stats {
    pub dirs: Option<CopyStat>,
    pub files: Option<CopyStat>,
    pub bytes: Option<CopyStat>,
}

/// Why a statistics line could not be read.
#[derive(Clone, Copy, Debug, PartialEq, Eq, Structural)]
pub enum StatsError {
    /// The line holds this many columns, not six.
    FieldCount(usize),
    /// A column is no unsigned number.
    InvalidNumber,
}

/// The statistics that `value` writes: six numbers separated by ASCII white space,
/// in the order of the fields of [`CopyStat`].
pub open spec fn stats_of(value: Seq<char>) -> Result<CopyStat, StatsError> {
    let columns = words(value);
    if columns.len() != 6 {
        Err(StatsError::FieldCount(columns.len() as usize))
    } else {
        match (
            parsed_u128(columns[0]),
            parsed_u128(columns[1]),
            parsed_u128(columns[2]),
            parsed_u128(columns[3]),
            parsed_u128(columns[4]),
            parsed_u128(columns[5]),
        ) {
            (Some(total), Some(copied), Some(skipped), Some(mismatch), Some(failed), Some(extras)) => Ok(
                CopyStat { total, copied, skipped, mismatch, failed, extras },
            ),
            _ => Err(StatsError::InvalidNumber),
        }
    }
}

impl Stats {
    /// No category reported.
    pub open spec fn empty() -> Stats {
        Stats { dirs: None, files: None, bytes: None }
    }
}

impl Default for Stats {
    fn default() -> (r: Stats)
        ensures
            r == Stats::empty(),
    {
        Stats { dirs: None, files: None, bytes: None }
    }
}

/// Reads a statistics line given by its characters.
pub fn parse_stats_chars(value: &[char]) -> (r: Result<CopyStat, StatsError>)
    ensures
        r == stats_of(value@),
{
    let columns = split_words(value);
    if columns.len() != 6 {
        return Err(StatsError::FieldCount(columns.len()));
    }
    let total = parse_u128(columns[0]);
    let copied = parse_u128(columns[1]);
    let skipped = parse_u128(columns[2]);
    let mismatch = parse_u128(columns[3]);
    let failed = parse_u128(columns[4]);
    let extras = parse_u128(columns[5]);
    match (total, copied, skipped, mismatch, failed, extras) {
        (Some(total), Some(copied), Some(skipped), Some(mismatch), Some(failed), Some(extras)) => Ok(
            CopyStat { total, copied, skipped, mismatch, failed, extras },
        ),
        _ => Err(StatsError::InvalidNumber),
    }
}

/// Reads the value of a statistics line: six unsigned numbers separated by white
/// space. Any other number of columns, or a column that is no number, is an error,
/// and no statistics are returned.
pub fn parse_stats(value: &str) -> (r: Result<CopyStat, StatsError>)
    ensures
        r == stats_of(value@),
{
    let chars = chars_of(value);
    parse_stats_chars(chars.as_slice())
}

} // verus!
