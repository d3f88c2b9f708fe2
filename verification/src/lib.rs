//! Structured records from Robocopy text logs.
//!
//! A log has four sections, each opened by a line of dashes: the banner, the
//! header, the list of files and the footer. [`parse_log`] reads the header and
//! the footer into a [`RobocopyResult`]; a line that cannot be read leaves its
//! field absent and gives a [`Warning`].

pub mod decode;
pub mod line;
pub mod number;
pub mod parser;
pub mod record;
pub mod speed;
pub mod stats;
pub mod text;
pub mod timestamp;

pub use crate::line::{classify_line, split_key_value, LineKind};
pub use crate::parser::{parse_log, parse_log_bytes, LogParser, ParsedLog, Warning};
pub use crate::record::{FieldError, RobocopyResult};
pub use crate::speed::{parse_speed, SpeedError};
pub use crate::stats::{parse_stats, CopyStat, Stats, StatsError};
pub use crate::timestamp::{Timestamp, DATE_TIME_FORMAT};
