//! The kinds of line in a log, and the split of a content line into key and value.

use crate::text::{
    chars_of, find_char, first_index, lemma_first_index, lemma_trimmed_keeps, trim_bounds,
    trimmed,
};
use vstd::prelude::*;
use vstd::slice::slice_subrange;
use vstd::string::StrSliceExecFns;

verus! {

/// What a line of the log is, once its surrounding white space is set aside.
#[derive(Clone, Copy, Debug, PartialEq, Eq, Structural)]
pub enum LineKind {
    /// Nothing but white space.
    Blank,
    /// Nothing but dashes: the start of the next section.
    Divider,
    /// Anything else: it belongs to the section that the last divider opened.
    Content,
}

/// Whether `s` holds dashes only.
pub open spec fn all_dashes(s: Seq<char>) -> bool {
    forall|i: int| 0 <= i < s.len() ==> #[trigger] s[i] == '-'
}

/// The kind of `line`.
pub open spec fn line_kind(line: Seq<char>) -> LineKind {
    let t = trimmed(line);
    if t.len() == 0 {
        LineKind::Blank
    } else if all_dashes(t) {
        LineKind::Divider
    } else {
        LineKind::Content
    }
}

/// The key and the value of `line`: what stands before and after its first colon,
/// each without surrounding white space. A line without a colon has neither.
pub open spec fn key_value(line: Seq<char>) -> Option<(Seq<char>, Seq<char>)> {
    let t = trimmed(line);
    match first_index(t, ':') {
        Some(i) => Some((trimmed(t.take(i)), trimmed(t.skip(i + 1)))),
        None => None,
    }
}

/// A line has a key and a value exactly when it holds a colon.
pub proof fn lemma_key_value_needs_colon(line: Seq<char>)
    ensures
        key_value(line) is Some <==> line.contains(':'),
{
    let t = trimmed(line);
    lemma_trimmed_keeps(line, ':');
    lemma_first_index(t, ':');
}

/// Whether `s` holds dashes only.
pub fn is_all_dashes(s: &[char]) -> (r: bool)
    ensures
        r == all_dashes(s@),
{
    let n = s.len();
    let mut i: usize = 0;
    while i < n
        invariant
            i <= n == s@.len(),
            forall|j: int| 0 <= j < i ==> #[trigger] s@[j] == '-',
        decreases n - i,
    {
        if s[i] != '-' {
            return false;
        }
        i += 1;
    }
    true
}

/// The kind of a line given by its characters.
pub fn classify_chars(line: &[char]) -> (r: LineKind)
    ensures
        r == line_kind(line@),
{
    let (a, b) = trim_bounds(line);
    if a == b {
        LineKind::Blank
    } else if is_all_dashes(slice_subrange(line, a, b)) {
        LineKind::Divider
    } else {
        LineKind::Content
    }
}

/// The kind of `line`.
pub fn classify_line(line: &str) -> (r: LineKind)
    ensures
        r == line_kind(line@),
{
    let chars = chars_of(line);
    classify_chars(chars.as_slice())
}

/// Where the key and the value of `line` start and end in it.
pub(crate) fn key_value_bounds(line: &[char]) -> (r: Option<((usize, usize), (usize, usize))>)
    ensures
        match r {
            Some((k, v)) => {
                &&& k.0 <= k.1 <= v.0 <= v.1 <= line@.len()
                &&& key_value(line@) == Some(
                    (line@.subrange(k.0 as int, k.1 as int), line@.subrange(v.0 as int, v.1 as int)),
                )
            },
            None => key_value(line@) is None,
        },
{
    let (a, b) = trim_bounds(line);
    let t = slice_subrange(line, a, b);
    match find_char(t, ':') {
        Some(i) => {
            let before = slice_subrange(t, 0, i);
            let after = slice_subrange(t, i + 1, t.len());
            let (ka, kb) = trim_bounds(before);
            let (va, vb) = trim_bounds(after);
            assert(before@ == t@.take(i as int));
            assert(after@ == t@.skip(i + 1));
            assert(before@.subrange(ka as int, kb as int) == line@.subrange(a + ka, a + kb));
            assert(after@.subrange(va as int, vb as int) == line@.subrange(
                a + i + 1 + va,
                a + i + 1 + vb,
            ));
            Some(((a + ka, a + kb), (a + i + 1 + va, a + i + 1 + vb)))
        },
        None => None,
    }
}

/// Splits `line` at its first colon into a key and a value, each without
/// surrounding white space. A line without a colon gives `None`.
pub fn split_key_value<'a>(line: &'a str) -> (r: Option<(&'a str, &'a str)>)
    ensures
        match r {
            Some((k, v)) => key_value(line@) == Some((k@, v@)),
            None => key_value(line@) is None,
        },
        r is Some <==> line@.contains(':'),
{
    proof {
        lemma_key_value_needs_colon(line@);
    }
    let chars = chars_of(line);
    match key_value_bounds(chars.as_slice()) {
        Some((k, v)) => Some((line.substring_char(k.0, k.1), line.substring_char(v.0, v.1))),
        None => None,
    }
}

} // verus!
