use robocopy_log::{
    parse_log, CopyStat, FieldError, LogParser, RobocopyResult, SpeedError, Stats, StatsError,
    Warning,
};

const LOG: &str = "\r
-------------------------------------------------------------------------------\r
   ROBOCOPY     ::     Robust File Copy for Windows                              \r
-------------------------------------------------------------------------------\r
\r
  Started : Monday, January  1, 2024 12:00:00 AM\r
   Source : C:\\data\\\r
     Dest : D:\\backup\\\r
\r
    Files : *.*\r
\t    \r
 Exc Files : thumbs.db\r
\t    \r
  Options : *.* /S /E /DCOPY:DA /COPY:DAT /R:1000000 /W:30 \r
\r
------------------------------------------------------------------------------\r
\r
\t                   1\tC:\\data\\\r
\t    New File  \t\t     123\ta.txt\r
  Source : not the source\r
\r
------------------------------------------------------------------------------\r
\r
               Total    Copied   Skipped  Mismatch    FAILED    Extras\r
    Dirs :         1         0         1         0         0         0\r
   Files :        10         8         2         0         0         0\r
   Bytes :   1.234 m   1.000 m         0         0         0         0\r
   Times :   0:00:00   0:00:00                       0:00:00   0:00:00\r
\r
\r
   Speed :            12345 Bytes/sec.\r
   Speed :               0.706 MegaBytes/min.\r
   Ended : Monday, January  1, 2024 12:00:05 AM\r
\r
";

fn warning(key: &str, error: FieldError) -> Warning {
    Warning { key: key.to_string(), error }
}

#[test]
fn whole_log_is_read() {
    let log = parse_log(LOG);
    assert_eq!(log.sections, 4);
    let started = log.result.started.expect("started is set");
    assert_eq!((started.year, started.month, started.day), (2024, 1, 1));
    assert_eq!((started.hour, started.minute, started.second), (0, 0, 0));
    let ended = log.result.ended.expect("ended is set");
    assert_eq!((ended.year, ended.month, ended.day), (2024, 1, 1));
    assert_eq!((ended.hour, ended.minute, ended.second), (0, 0, 5));
    assert_eq!(
        log.result,
        RobocopyResult {
            started: Some(started),
            ended: Some(ended),
            source: Some("C:\\data\\".to_string()),
            destination: Some("D:\\backup\\".to_string()),
            files: Some("*.*".to_string()),
            options: Some("*.* /S /E /DCOPY:DA /COPY:DAT /R:1000000 /W:30".to_string()),
            speed: Some(12345),
            stats: Stats {
                dirs: Some(CopyStat { total: 1, copied: 0, skipped: 1, mismatch: 0, failed: 0, extras: 0 }),
                files: Some(CopyStat { total: 10, copied: 8, skipped: 2, mismatch: 0, failed: 0, extras: 0 }),
                bytes: None,
            },
        }
    );
    assert_eq!(
        log.warnings,
        vec![
            warning("Exc Files", FieldError::UnknownKey),
            warning("Bytes", FieldError::Stats(StatsError::FieldCount(8))),
            warning("Times", FieldError::UnknownKey),
            warning("Speed", FieldError::Speed(SpeedError::UnexpectedUnit)),
        ]
    );
}

#[test]
fn reading_twice_gives_the_same() {
    assert_eq!(parse_log(LOG), parse_log(LOG));
}

#[test]
fn line_feeds_alone_end_lines_too() {
    let unix = LOG.replace("\r\n", "\n");
    assert_eq!(parse_log(&unix), parse_log(LOG));
}

#[test]
fn sections_are_the_dividers() {
    assert_eq!(parse_log("").sections, 0);
    assert_eq!(parse_log("no divider\nat all\n").sections, 0);
    assert_eq!(parse_log("---").sections, 1);
    assert_eq!(parse_log("---\n").sections, 1);
    assert_eq!(parse_log("-\n--\n\n ---\t\n----\n-----\n").sections, 5);
    assert_eq!(parse_log("--- -\n- x\n").sections, 0);
}

#[test]
fn empty_log_gives_an_empty_record() {
    let log = parse_log("");
    assert_eq!(log.result, RobocopyResult::default());
    assert_eq!(log.warnings, Vec::new());
}

#[test]
fn lines_before_the_second_divider_are_passed_over() {
    let log = parse_log("Source : a\n---\nSource : b\nSpeed : 1 Bytes/sec.\nUnknown : x\n");
    assert_eq!(log.sections, 1);
    assert_eq!(log.result, RobocopyResult::default());
    assert_eq!(log.warnings, Vec::new());
}

#[test]
fn log_that_ends_in_the_header_keeps_what_it_gave() {
    let log = parse_log("---\n---\nSource : C:\\\nDest : D:\\");
    assert_eq!(log.sections, 2);
    assert_eq!(log.result.source, Some("C:\\".to_string()));
    assert_eq!(log.result.destination, Some("D:\\".to_string()));
    assert_eq!(log.result.speed, None);
}

#[test]
fn header_keys_fill_nothing_in_the_footer() {
    let log = parse_log("---\n---\n---\n---\nSource : C:\\\nSpeed : 9 Bytes/sec.\n");
    assert_eq!(log.result.source, None);
    assert_eq!(log.result.speed, Some(9));
    assert_eq!(log.warnings, vec![warning("Source", FieldError::UnknownKey)]);
}

#[test]
fn footer_keys_fill_nothing_in_the_header() {
    let log = parse_log("---\n---\nSpeed : 9 Bytes/sec.\nSource : C:\\\n");
    assert_eq!(log.result.speed, None);
    assert_eq!(log.result.source, Some("C:\\".to_string()));
    assert_eq!(log.warnings, vec![warning("Speed", FieldError::UnknownKey)]);
}

#[test]
fn lines_after_a_fifth_divider_are_passed_over() {
    let log = parse_log("---\n---\n---\n---\nSpeed : 9 Bytes/sec.\n---\nSpeed : 10 Bytes/sec.\nOdd : x\n");
    assert_eq!(log.sections, 5);
    assert_eq!(log.result.speed, Some(9));
    assert_eq!(log.warnings, Vec::new());
}

#[test]
fn line_without_colon_fills_nothing() {
    let with = parse_log("---\n---\nSource : C:\\\nSource other\n---\n---\nSpeed 9 Bytes/sec.\n");
    let without = parse_log("---\n---\nSource : C:\\\n---\n---\n");
    assert_eq!(with, without);
    assert_eq!(with.warnings, Vec::new());
}

#[test]
fn key_that_occurs_again_wins_where_it_can_be_read() {
    let log = parse_log(
        "---\n---\nSource : a\nSource : b\n---\n---\nFiles : 1 1 0 0 0 0\nFiles : 2 2 0 0 0\nSpeed : 1 Bytes/sec.\nSpeed : 2 Bytes/sec.\n",
    );
    assert_eq!(log.result.source, Some("b".to_string()));
    assert_eq!(log.result.speed, Some(2));
    assert_eq!(
        log.result.stats.files,
        Some(CopyStat { total: 1, copied: 1, skipped: 0, mismatch: 0, failed: 0, extras: 0 })
    );
    assert_eq!(log.warnings, vec![warning("Files", FieldError::Stats(StatsError::FieldCount(5)))]);
}

#[test]
fn date_that_cannot_be_read_gives_a_warning() {
    let log = parse_log("---\n---\nStarted : not-a-date\n---\n---\nEnded : later\n");
    assert_eq!(log.result, RobocopyResult::default());
    assert_eq!(
        log.warnings,
        vec![warning("Started", FieldError::Timestamp), warning("Ended", FieldError::Timestamp)]
    );
}

#[test]
fn parser_starts_before_the_first_section() {
    let parser = LogParser::new();
    assert_eq!(parser.section, 0);
    assert_eq!(parser.result, RobocopyResult::default());
}

#[test]
fn parser_counts_dividers_and_fills_the_record() {
    let mut parser = LogParser::new();
    assert_eq!(parser.feed_line("Source : early"), None);
    assert_eq!(parser.feed_line("-----"), None);
    assert_eq!(parser.section, 1);
    assert_eq!(parser.feed_line(""), None);
    assert_eq!(parser.feed_line("   ROBOCOPY     ::     Robust File Copy for Windows"), None);
    assert_eq!(parser.feed_line(" ----- \r\n"), None);
    assert_eq!(parser.section, 2);
    assert_eq!(parser.result, RobocopyResult::default());
    assert_eq!(parser.feed_line("   Source : C:\\data\\\r"), None);
    assert_eq!(parser.feed_line("  Monitor : off"), Some(warning("Monitor", FieldError::UnknownKey)));
    assert_eq!(parser.feed_line("  no colon here"), None);
    assert_eq!(parser.section, 2);
    assert_eq!(parser.result.source, Some("C:\\data\\".to_string()));
    assert_eq!(parser.feed_line("-"), None);
    assert_eq!(parser.feed_line("   Source : C:\\other\\"), None);
    assert_eq!(parser.feed_line("-"), None);
    assert_eq!(parser.section, 4);
    assert_eq!(
        parser.feed_line("   Speed : 1 KB/sec."),
        Some(warning("Speed", FieldError::Speed(SpeedError::UnexpectedUnit)))
    );
    assert_eq!(parser.feed_line("   Speed : 1 Bytes/sec."), None);
    assert_eq!(parser.result.speed, Some(1));
    assert_eq!(parser.result.source, Some("C:\\data\\".to_string()));
}
