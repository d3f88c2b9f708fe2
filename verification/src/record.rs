//! The record that a log is read into, and the lines that fill it.

use crate::speed::{parse_speed, speed_of, SpeedError};
use crate::stats::{parse_stats, stats_of, Stats, StatsError};
use crate::text::{chars_are, chars_of};
use crate::timestamp::{local_datetime_from_str, may_be_read, Timestamp};
use vstd::prelude::*;

verus! {

/// What a Robocopy log says of the run that wrote it. Each field is absent until
/// a line of the log gives it; where a key occurs again, the last line that could
/// be read stands.
#[derive(Clone, Debug, PartialEq, Eq)]
pub struct RobocopyResult {
    pub started: Option<Timestamp>,
    pub ended: Option<Timestamp>,
    pub source: Option<String>,
    pub destination: Option<String>,
    /// The pattern by which files were selected.
    pub files: Option<String>,
    pub options: Option<String>,
    /// In bytes per second.
    pub speed: Option<u128>,
    pub stats: Stats,
}

/// A [`RobocopyResult`] with each text as the sequence of its characters.
pub struct RecordModel {
    pub started: Option<Timestamp>,
    pub ended: Option<Timestamp>,
    pub source: Option<Seq<char>>,
    pub destination: Option<Seq<char>>,
    pub files: Option<Seq<char>>,
    pub options: Option<Seq<char>>,
    pub speed: Option<u128>,
    pub stats: Stats,
}

/// Why a line with a key and a value filled no field.
#[derive(Clone, Copy, Debug, PartialEq, Eq, Structural)]
pub enum FieldError {
    /// The section has no field of that key.
    UnknownKey,
    /// The value is no date and time in the log's format, or none that exists
    /// once in the local time zone.
    Timestamp,
    Speed(SpeedError),
    Stats(StatsError),
}

/// The characters of a text that may be absent.
pub open spec fn text_view(text: Option<String>) -> Option<Seq<char>> {
    match text {
        Some(s) => Some(s@),
        None => None,
    }
}

impl View for RobocopyResult {
    type V = RecordModel;

    open spec fn view(&self) -> RecordModel {
        RecordModel {
            started: self.started,
            ended: self.ended,
            source: text_view(self.source),
            destination: text_view(self.destination),
            files: text_view(self.files),
            options: text_view(self.options),
            speed: self.speed,
            stats: self.stats,
        }
    }
}

impl RecordModel {
    /// The record of a log that gave nothing.
    pub open spec fn empty() -> RecordModel {
        RecordModel {
            started: None,
            ended: None,
            source: None,
            destination: None,
            files: None,
            options: None,
            speed: None,
            stats: Stats::empty(),
        }
    }
}

/// The record after a line of the header with this key and value, where `time` is
/// what reading the value as a date and time gives; or why the line fills no field.
pub open spec fn header_entry(
    record: RecordModel,
    key: Seq<char>,
    value: Seq<char>,
    time: Option<Timestamp>,
) -> Result<RecordModel, FieldError> {
    if key == "Started"@ {
        match time {
            Some(t) => Ok(RecordModel { started: Some(t), ..record }),
            None => Err(FieldError::Timestamp),
        }
    } else if key == "Source"@ {
        Ok(RecordModel { source: Some(value), ..record })
    } else if key == "Dest"@ {
        Ok(RecordModel { destination: Some(value), ..record })
    } else if key == "Files"@ {
        Ok(RecordModel { files: Some(value), ..record })
    } else if key == "Options"@ {
        Ok(RecordModel { options: Some(value), ..record })
    } else {
        Err(FieldError::UnknownKey)
    }
}

/// The record after a line of the footer with this key and value, where `time` is
/// what reading the value as a date and time gives; or why the line fills no field.
pub open spec fn footer_entry(
    record: RecordModel,
    key: Seq<char>,
    value: Seq<char>,
    time: Option<Timestamp>,
) -> Result<RecordModel, FieldError> {
    if key == "Ended"@ {
        match time {
            Some(t) => Ok(RecordModel { ended: Some(t), ..record }),
            None => Err(FieldError::Timestamp),
        }
    } else if key == "Speed"@ {
        match speed_of(value) {
            Ok(speed) => Ok(RecordModel { speed: Some(speed), ..record }),
            Err(e) => Err(FieldError::Speed(e)),
        }
    } else if key == "Dirs"@ {
        match stats_of(value) {
            Ok(stat) => Ok(RecordModel { stats: Stats { dirs: Some(stat), ..record.stats }, ..record }),
            Err(e) => Err(FieldError::Stats(e)),
        }
    } else if key == "Files"@ {
        match stats_of(value) {
            Ok(stat) => Ok(RecordModel { stats: Stats { files: Some(stat), ..record.stats }, ..record }),
            Err(e) => Err(FieldError::Stats(e)),
        }
    } else if key == "Bytes"@ {
        match stats_of(value) {
            Ok(stat) => Ok(RecordModel { stats: Stats { bytes: Some(stat), ..record.stats }, ..record }),
            Err(e) => Err(FieldError::Stats(e)),
        }
    } else {
        Err(FieldError::UnknownKey)
    }
}

/// Whether a line with the outcome `entry` takes the record from `before` to
/// `after` and reports `report`: a line that fills a field changes that field
/// alone, and one that fills none changes nothing and says why.
pub open spec fn entry_made(
    before: RecordModel,
    entry: Result<RecordModel, FieldError>,
    after: RecordModel,
    report: Result<(), FieldError>,
) -> bool {
    match entry {
        Ok(record) => after == record && report is Ok,
        Err(e) => after == before && report == Err::<(), FieldError>(e),
    }
}

impl Default for RobocopyResult {
    fn default() -> (r: RobocopyResult)
        ensures
            r@ == RecordModel::empty(),
    {
        RobocopyResult {
            started: None,
            ended: None,
            source: None,
            destination: None,
            files: None,
            options: None,
            speed: None,
            stats: Stats::default(),
        }
    }
}

impl RobocopyResult {
    /// Enters a line of the header, given its key, its value and, in `started`,
    /// what reading the value as a date and time gave.
    pub fn enter_header(&mut self, key: &str, value: &str, started: Option<Timestamp>) -> (r:
        Result<(), FieldError>)
        ensures
            entry_made(old(self)@, header_entry(old(self)@, key@, value@, started), final(self)@, r),
    {
        let k = chars_of(key);
        if chars_are(k.as_slice(), "Started") {
            match started {
                Some(t) => {
                    self.started = Some(t);
                },
                None => {
                    return Err(FieldError::Timestamp);
                },
            }
        } else if chars_are(k.as_slice(), "Source") {
            self.source = Some(value.to_owned());
        } else if chars_are(k.as_slice(), "Dest") {
            self.destination = Some(value.to_owned());
        } else if chars_are(k.as_slice(), "Files") {
            self.files = Some(value.to_owned());
        } else if chars_are(k.as_slice(), "Options") {
            self.options = Some(value.to_owned());
        } else {
            return Err(FieldError::UnknownKey);
        }
        Ok(())
    }

    /// Enters a line of the footer, given its key, its value and, in `ended`,
    /// what reading the value as a date and time gave.
    pub fn enter_footer(&mut self, key: &str, value: &str, ended: Option<Timestamp>) -> (r:
        Result<(), FieldError>)
        ensures
            entry_made(old(self)@, footer_entry(old(self)@, key@, value@, ended), final(self)@, r),
    {
        let k = chars_of(key);
        if chars_are(k.as_slice(), "Ended") {
            match ended {
                Some(t) => {
                    self.ended = Some(t);
                },
                None => {
                    return Err(FieldError::Timestamp);
                },
            }
        } else if chars_are(k.as_slice(), "Speed") {
            match parse_speed(value) {
                Ok(speed) => {
                    self.speed = Some(speed);
                },
                Err(e) => {
                    return Err(FieldError::Speed(e));
                },
            }
        } else if chars_are(k.as_slice(), "Dirs") {
            match parse_stats(value) {
                Ok(stat) => {
                    self.stats.dirs = Some(stat);
                },
                Err(e) => {
                    return Err(FieldError::Stats(e));
                },
            }
        } else if chars_are(k.as_slice(), "Files") {
            match parse_stats(value) {
                Ok(stat) => {
                    self.stats.files = Some(stat);
                },
                Err(e) => {
                    return Err(FieldError::Stats(e));
                },
            }
        } else if chars_are(k.as_slice(), "Bytes") {
            match parse_stats(value) {
                Ok(stat) => {
                    self.stats.bytes = Some(stat);
                },
                Err(e) => {
                    return Err(FieldError::Stats(e));
                },
            }
        } else {
            return Err(FieldError::UnknownKey);
        }
        Ok(())
    }

    /// Reads a line of the header, given its key and its value without
    /// surrounding white space. `Started` is read as a date and time; `Source`,
    /// `Dest`, `Files` and `Options` are kept as they stand. A line that cannot
    /// be read changes nothing, and the error says why.
    pub fn parse_header(&mut self, key: &str, value: &str) -> (r: Result<(), FieldError>)
        ensures
            exists|time: Option<Timestamp>| #[trigger]
                may_be_read(time) && entry_made(
                    old(self)@,
                    header_entry(old(self)@, key@, value@, time),
                    final(self)@,
                    r,
                ),
            key@ != "Started"@ ==> entry_made(
                old(self)@,
                header_entry(old(self)@, key@, value@, None),
                final(self)@,
                r,
            ),
    {
        let k = chars_of(key);
        let started = if chars_are(k.as_slice(), "Started") {
            local_datetime_from_str(value)
        } else {
            None
        };
        assert(may_be_read(started));
        self.enter_header(key, value, started)
    }

    /// Reads a line of the footer, given its key and its value without
    /// surrounding white space. `Ended` is read as a date and time, `Speed` as a
    /// number of bytes per second, `Dirs`, `Files` and `Bytes` as statistics. A
    /// line that cannot be read changes nothing, and the error says why.
    pub fn parse_footer(&mut self, key: &str, value: &str) -> (r: Result<(), FieldError>)
        ensures
            exists|time: Option<Timestamp>| #[trigger]
                may_be_read(time) && entry_made(
                    old(self)@,
                    footer_entry(old(self)@, key@, value@, time),
                    final(self)@,
                    r,
                ),
            key@ != "Ended"@ ==> entry_made(
                old(self)@,
                footer_entry(old(self)@, key@, value@, None),
                final(self)@,
                r,
            ),
    {
        let k = chars_of(key);
        let ended = if chars_are(k.as_slice(), "Ended") {
            local_datetime_from_str(value)
        } else {
            None
        };
        assert(may_be_read(ended));
        self.enter_footer(key, value, ended)
    }
}

} // verus!
