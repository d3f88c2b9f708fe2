//! Reading a log line by line: the sections, and the lines that fill the record.

use crate::decode::{read_utf16le, utf16le_decoded};
use crate::line::{
    classify_chars, key_value, key_value_bounds, lemma_key_value_needs_colon, line_kind, LineKind,
};
use crate::record::{footer_entry, header_entry, FieldError, RecordModel, RobocopyResult};
use crate::text::{chars_of, find_char, first_index, lemma_first_index, string_of};
use crate::timestamp::{may_be_read, Timestamp};
use vstd::prelude::*;
use vstd::slice::slice_subrange;
use vstd::string::StrSliceExecFns;

verus! {

/// The section whose lines fill the header fields of the record.
pub const HEADER_SECTION: usize = 2;

/// The section whose lines fill the footer fields of the record.
pub const FOOTER_SECTION: usize = 4;

/// A line with a key and a value that filled no field.
#[derive(Clone, Debug, PartialEq, Eq)]
pub struct Warning {
    pub key: String,
    pub error: FieldError,
}

/// A [`Warning`] with its key as the sequence of its characters.
pub struct WarningModel {
    pub key: Seq<char>,
    pub error: FieldError,
}

impl View for Warning {
    type V = WarningModel;

    open spec fn view(&self) -> WarningModel {
        WarningModel { key: self.key@, error: self.error }
    }
}

/// The view of a warning that may be absent.
pub open spec fn warning_view(warning: Option<Warning>) -> Option<WarningModel> {
    match warning {
        Some(w) => Some(w@),
        None => None,
    }
}

/// The views of the warnings of a list.
pub open spec fn warning_views(warnings: Seq<Warning>) -> Seq<WarningModel> {
    Seq::new(warnings.len(), |i: int| warnings[i]@)
}

/// The reader of a log: the number of dividers among the lines that it was fed,
/// and the record that those lines filled.
#[derive(Clone, Debug, PartialEq, Eq)]
pub struct LogParser {
    pub section: usize,
    pub result: RobocopyResult,
}

/// A [`LogParser`] with the view of its record and a section counter without bound.
pub struct ParserModel {
    pub section: nat,
    pub record: RecordModel,
}

impl View for LogParser {
    type V = ParserModel;

    open spec fn view(&self) -> ParserModel {
        ParserModel { section: self.section as nat, record: self.result@ }
    }
}

impl ParserModel {
    /// The reader before the first line: no section opened, nothing recorded.
    pub open spec fn start() -> ParserModel {
        ParserModel { section: 0, record: RecordModel::empty() }
    }
}

/// What reading a log gave: the reader after the last line, and the warnings of
/// the lines in their order.
pub struct LogModel {
    pub state: ParserModel,
    pub warnings: Seq<WarningModel>,
}

/// What reading a log gave: the record, the number of dividers in the log, and
/// the warnings of its lines in their order.
#[derive(Clone, Debug, PartialEq, Eq)]
pub struct ParsedLog {
    pub result: RobocopyResult,
    pub sections: usize,
    pub warnings: Vec<Warning>,
}

impl View for ParsedLog {
    type V = LogModel;

    open spec fn view(&self) -> LogModel {
        LogModel {
            state: ParserModel { section: self.sections as nat, record: self.result@ },
            warnings: warning_views(self.warnings@),
        }
    }
}

/// Whether a line is one whose value is read as a date and time: a line with
/// the key `Started` in the header, or with the key `Ended` in the footer.
pub open spec fn is_time_line(section: nat, line: Seq<char>) -> bool {
    &&& line_kind(line) == LineKind::Content
    &&& key_value(line) matches Some((key, value))
    &&& (section == HEADER_SECTION && key == "Started"@) || (section == FOOTER_SECTION && key
        == "Ended"@)
}

/// The reader after `line`, and the warning that the line gives, where `time` is
/// what reading its value as a date and time gives.
///
/// A blank line changes nothing and a divider opens the next section. A content
/// line with a key and a value is entered in the header in section 2 and in the
/// footer in section 4; any other content line is passed over.
pub open spec fn fed(state: ParserModel, line: Seq<char>, time: Option<Timestamp>) -> (
    ParserModel,
    Option<WarningModel>,
) {
    match line_kind(line) {
        LineKind::Blank => (state, None),
        LineKind::Divider => (ParserModel { section: state.section + 1, ..state }, None),
        LineKind::Content => match key_value(line) {
            None => (state, None),
            Some((key, value)) => {
                let entry = if state.section == HEADER_SECTION {
                    header_entry(state.record, key, value, time)
                } else if state.section == FOOTER_SECTION {
                    footer_entry(state.record, key, value, time)
                } else {
                    Ok(state.record)
                };
                match entry {
                    Ok(record) => (ParserModel { record, ..state }, None),
                    Err(error) => (state, Some(WarningModel { key, error })),
                }
            },
        },
    }
}

/// The lines of `text`: what stands before its first line feed, then the lines
/// of what stands after it. A text without a line feed is one line.
pub open spec fn lines_of(text: Seq<char>) -> Seq<Seq<char>>
    decreases text.len(),
{
    match first_index(text, '\n') {
        Some(i) => {
            proof {
                lemma_first_index(text, '\n');
            }
            seq![text.take(i)] + lines_of(text.skip(i + 1))
        },
        None => seq![text],
    }
}

/// The number of dividers among `lines`.
pub open spec fn divider_count(lines: Seq<Seq<char>>) -> nat
    decreases lines.len(),
{
    if lines.len() == 0 {
        0
    } else if line_kind(lines.last()) == LineKind::Divider {
        divider_count(lines.drop_last()) + 1
    } else {
        divider_count(lines.drop_last())
    }
}

/// What reading `lines` gives, where `times[i]` is what reading the value of line
/// `i` as a date and time gives.
pub open spec fn run(lines: Seq<Seq<char>>, times: Seq<Option<Timestamp>>) -> LogModel
    decreases lines.len(),
{
    if lines.len() == 0 {
        LogModel { state: ParserModel::start(), warnings: Seq::empty() }
    } else {
        let before = run(lines.drop_last(), times.drop_last());
        let (state, warning) = fed(before.state, lines.last(), times.last());
        LogModel {
            state,
            warnings: match warning {
                Some(w) => before.warnings.push(w),
                None => before.warnings,
            },
        }
    }
}

/// Whether line `i` of `lines` is one whose value is read as a date and time, in
/// the section that the lines before it have opened.
pub open spec fn is_time_line_at(lines: Seq<Seq<char>>, i: int) -> bool {
    is_time_line(divider_count(lines.take(i)), lines[i])
}

/// Whether `lines` hold a line whose value is read as a date and time.
pub open spec fn has_time_line(lines: Seq<Seq<char>>) -> bool {
    exists|i: int| 0 <= i < lines.len() && is_time_line_at(lines, i)
}

/// Whether `log` is what reading `lines` gives for some outcome of reading each
/// date and time.
pub open spec fn is_reading_of(lines: Seq<Seq<char>>, log: LogModel) -> bool {
    exists|times: Seq<Option<Timestamp>>|
        {
            &&& times.len() == lines.len()
            &&& forall|i: int| 0 <= i < times.len() ==> may_be_read(#[trigger] times[i])
            &&& #[trigger] run(lines, times) == log
        }
}

/// The section counter after a log is the number of its dividers, whatever the
/// dates and times of the log were read as.
pub proof fn lemma_sections_are_dividers(lines: Seq<Seq<char>>, times: Seq<Option<Timestamp>>)
    ensures
        run(lines, times).state.section == divider_count(lines),
    decreases lines.len(),
{
    if lines.len() > 0 {
        lemma_sections_are_dividers(lines.drop_last(), times.drop_last());
    }
}

/// The section counter never falls, and it rises, by one, at a divider and
/// nowhere else.
pub proof fn lemma_section_rises_at_dividers(
    state: ParserModel,
    line: Seq<char>,
    time: Option<Timestamp>,
)
    ensures
        fed(state, line, time).0.section == if line_kind(line) == LineKind::Divider {
            state.section + 1
        } else {
            state.section
        },
{
}

/// A line without a colon fills no field and gives no warning: the record
/// after it is the record before it.
pub proof fn lemma_line_without_colon(state: ParserModel, line: Seq<char>, time: Option<Timestamp>)
    requires
        !line.contains(':'),
    ensures
        fed(state, line, time).0.record == state.record,
        fed(state, line, time).1 is None,
{
    lemma_key_value_needs_colon(line);
}

/// What the record holds besides its dates and times.
pub open spec fn without_times(record: RecordModel) -> RecordModel {
    RecordModel { started: None, ended: None, ..record }
}

/// Whatever the dates and times of a log are read as, the section counter and
/// every field of the record but `started` and `ended` come out the same.
pub proof fn lemma_run_apart_from_times(
    lines: Seq<Seq<char>>,
    first: Seq<Option<Timestamp>>,
    second: Seq<Option<Timestamp>>,
)
    ensures
        run(lines, first).state.section == run(lines, second).state.section,
        without_times(run(lines, first).state.record) == without_times(
            run(lines, second).state.record,
        ),
    decreases lines.len(),
{
    if lines.len() > 0 {
        lemma_run_apart_from_times(lines.drop_last(), first.drop_last(), second.drop_last());
    }
}

/// A log without a line that is read as a date and time is read the same
/// whatever would have come of reading one.
pub proof fn lemma_run_without_time_lines(
    lines: Seq<Seq<char>>,
    first: Seq<Option<Timestamp>>,
    second: Seq<Option<Timestamp>>,
)
    requires
        !has_time_line(lines),
    ensures
        run(lines, first) == run(lines, second),
    decreases lines.len(),
{
    if lines.len() > 0 {
        let earlier = lines.drop_last();
        assert forall|i: int| 0 <= i < earlier.len() implies !is_time_line_at(earlier, i) by {
            assert(earlier.take(i) == lines.take(i));
            assert(!is_time_line_at(lines, i));
        }
        lemma_run_without_time_lines(earlier, first.drop_last(), second.drop_last());
        lemma_sections_are_dividers(earlier, first.drop_last());
        assert(lines.take(lines.len() - 1) == earlier);
        assert(!is_time_line_at(lines, lines.len() - 1));
    }
}

/// Reading the same log twice gives the same section count and the same record,
/// but for the two fields that depend on the time zone of the machine: where
/// `started` and `ended` came out the same, the records are equal.
pub proof fn lemma_readings_agree(lines: Seq<Seq<char>>, first: LogModel, second: LogModel)
    requires
        is_reading_of(lines, first),
        is_reading_of(lines, second),
    ensures
        first.state.section == second.state.section,
        without_times(first.state.record) == without_times(second.state.record),
        first.state.record.started == second.state.record.started && first.state.record.ended
            == second.state.record.ended ==> first.state.record == second.state.record,
{
    let t1 = choose|times: Seq<Option<Timestamp>>|
        {
            &&& times.len() == lines.len()
            &&& forall|i: int| 0 <= i < times.len() ==> may_be_read(#[trigger] times[i])
            &&& #[trigger] run(lines, times) == first
        };
    let t2 = choose|times: Seq<Option<Timestamp>>|
        {
            &&& times.len() == lines.len()
            &&& forall|i: int| 0 <= i < times.len() ==> may_be_read(#[trigger] times[i])
            &&& #[trigger] run(lines, times) == second
        };
    lemma_run_apart_from_times(lines, t1, t2);
}

/// Reading twice a log without a line that is read as a date and time gives the
/// same record, the same section count and the same warnings.
pub proof fn lemma_readings_without_time_lines_agree(
    lines: Seq<Seq<char>>,
    first: LogModel,
    second: LogModel,
)
    requires
        is_reading_of(lines, first),
        is_reading_of(lines, second),
        !has_time_line(lines),
    ensures
        first == second,
{
    let t1 = choose|times: Seq<Option<Timestamp>>|
        {
            &&& times.len() == lines.len()
            &&& forall|i: int| 0 <= i < times.len() ==> may_be_read(#[trigger] times[i])
            &&& #[trigger] run(lines, times) == first
        };
    let t2 = choose|times: Seq<Option<Timestamp>>|
        {
            &&& times.len() == lines.len()
            &&& forall|i: int| 0 <= i < times.len() ==> may_be_read(#[trigger] times[i])
            &&& #[trigger] run(lines, times) == second
        };
    lemma_run_without_time_lines(lines, t1, t2);
}

impl LogParser {
    /// A reader that was fed no line.
    pub fn new() -> (r: LogParser)
        ensures
            r@ == ParserModel::start(),
    {
        LogParser { section: 0, result: RobocopyResult::default() }
    }

    /// Feeds the next line of the log to the reader, and returns the warning
    /// where the line has a key and a value but fills no field.
    pub fn feed_line(&mut self, line: &str) -> (r: Option<Warning>)
        requires
            old(self).section < usize::MAX,
        ensures
            exists|time: Option<Timestamp>| #[trigger]
                may_be_read(time) && fed(old(self)@, line@, time) == (
                    final(self)@,
                    warning_view(r),
                ),
            !is_time_line(old(self)@.section, line@) ==> fed(old(self)@, line@, None) == (
                final(self)@,
                warning_view(r),
            ),
            !line@.contains(':') ==> final(self)@.record == old(self)@.record && r is None,
    {
        let chars = chars_of(line);
        assert(may_be_read(None));
        proof {
            lemma_key_value_needs_colon(line@);
        }
        match classify_chars(chars.as_slice()) {
            LineKind::Blank => None,
            LineKind::Divider => {
                self.section = self.section + 1;
                None
            },
            LineKind::Content => {
                let (k, v) = match key_value_bounds(chars.as_slice()) {
                    Some(bounds) => bounds,
                    None => {
                        return None;
                    },
                };
                let key = line.substring_char(k.0, k.1);
                let value = line.substring_char(v.0, v.1);
                let entered = if self.section == HEADER_SECTION {
                    self.result.parse_header(key, value)
                } else if self.section == FOOTER_SECTION {
                    self.result.parse_footer(key, value)
                } else {
                    return None;
                };
                match entered {
                    Ok(()) => None,
                    Err(error) => Some(Warning { key: key.to_owned(), error }),
                }
            },
        }
    }
}

/// Reads a log given as its text, line by line from the first to the last.
pub fn parse_log(text: &str) -> (r: ParsedLog)
    ensures
        is_reading_of(lines_of(text@), r@),
        r.sections == divider_count(lines_of(text@)),
{
    let chars = chars_of(text);
    let n = chars.len();
    let mut parser = LogParser::new();
    let mut warnings: Vec<Warning> = Vec::new();
    let mut start: usize = 0;
    let mut finished = false;
    let ghost mut done: Seq<Seq<char>> = Seq::empty();
    let ghost mut times: Seq<Option<Timestamp>> = Seq::empty();
    assert(chars@.skip(0) == chars@);
    assert(warning_views(warnings@) == Seq::<WarningModel>::empty());
    while !finished
        invariant
            chars@ == text@,
            n == chars@.len(),
            start <= n,
            parser.section <= start,
            times.len() == done.len(),
            forall|i: int| 0 <= i < times.len() ==> may_be_read(#[trigger] times[i]),
            run(done, times) == (LogModel {
                state: parser@,
                warnings: warning_views(warnings@),
            }),
            !finished ==> lines_of(chars@) == done + lines_of(chars@.skip(start as int)),
            finished ==> lines_of(chars@) == done,
        decreases n - start + (if finished { 0int } else { 1int }),
    {
        let rest = slice_subrange(chars.as_slice(), start, n);
        assert(rest@ == chars@.skip(start as int));
        let end = match find_char(rest, '\n') {
            Some(k) => k,
            None => rest.len(),
        };
        let line = slice_subrange(rest, 0, end);
        let ghost before = parser@;
        let ghost time: Option<Timestamp> = None;
        let mut warning: Option<Warning> = None;
        // An empty line is blank: there is nothing to feed.
        if end > 0 {
            let owned = string_of(line);
            warning = parser.feed_line(owned.as_str());
            proof {
                time = choose|time: Option<Timestamp>| #[trigger]
                    may_be_read(time) && fed(before, line@, time) == (
                        parser@,
                        warning_view(warning),
                    );
            }
        }
        proof {
            assert(fed(before, line@, time) == (parser@, warning_view(warning)));
            let lines = done.push(line@);
            let outcomes = times.push(time);
            assert(lines.drop_last() == done);
            assert(outcomes.drop_last() == times);
            if end < rest.len() {
                assert(line@ == rest@.take(end as int));
                assert(rest@.skip(end + 1) == chars@.skip(start + end + 1));
                assert(done + (seq![line@] + lines_of(rest@.skip(end + 1))) == lines + lines_of(
                    rest@.skip(end + 1),
                ));
            } else {
                assert(line@ == rest@);
                assert(done + seq![line@] == lines);
            }
            done = lines;
            times = outcomes;
        }
        let ghost listed = warning_views(warnings@);
        match warning {
            Some(w) => {
                warnings.push(w);
                assert(warning_views(warnings@) == listed.push(w@));
            },
            None => {},
        }
        if end < rest.len() {
            start = start + end + 1;
        } else {
            start = n;
            finished = true;
        }
    }
    proof {
        lemma_sections_are_dividers(done, times);
    }
    ParsedLog { result: parser.result, sections: parser.section, warnings }
}

/// Reads a log given as the bytes of its file, which hold its text as UTF-16,
/// little-endian: where reading the bytes to their end gives a text, the log is
/// read from that text as [`parse_log`] reads it; where it gives none, nothing
/// is returned.
pub fn parse_log_bytes(bytes: &[u8]) -> (r: Option<ParsedLog>)
    ensures
        match utf16le_decoded(bytes@) {
            Some(text) => {
                &&& r matches Some(log)
                &&& is_reading_of(lines_of(text), log@)
                &&& log.sections == divider_count(lines_of(text))
            },
            None => r is None,
        },
{
    match read_utf16le(bytes) {
        Some(text) => Some(parse_log(text.as_str())),
        None => None,
    }
}

} // verus!
