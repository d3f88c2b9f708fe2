use robocopy_log::{classify_line, split_key_value, LineKind};

#[test]
fn empty_line_is_blank() {
    assert_eq!(classify_line(""), LineKind::Blank);
}

#[test]
fn white_space_is_blank() {
    assert_eq!(classify_line(" \t \r"), LineKind::Blank);
    assert_eq!(classify_line("\u{a0}\u{3000}\u{2003}"), LineKind::Blank);
}

#[test]
fn dashes_are_a_divider() {
    assert_eq!(classify_line("-"), LineKind::Divider);
    assert_eq!(
        classify_line("-------------------------------------------------------------------------------"),
        LineKind::Divider
    );
}

#[test]
fn dashes_in_white_space_are_a_divider() {
    assert_eq!(classify_line("   ------ \r"), LineKind::Divider);
}

#[test]
fn dashes_with_anything_else_are_content() {
    assert_eq!(classify_line("-- -"), LineKind::Content);
    assert_eq!(classify_line("---x"), LineKind::Content);
    assert_eq!(classify_line("x---"), LineKind::Content);
    assert_eq!(classify_line("\u{2014}\u{2014}"), LineKind::Content);
}

#[test]
fn text_is_content() {
    assert_eq!(classify_line("   Source : C:\\data\\"), LineKind::Content);
    assert_eq!(classify_line("\u{feff}"), LineKind::Content);
}

#[test]
fn key_and_value_are_trimmed() {
    assert_eq!(split_key_value("   Source : C:\\data\\  "), Some(("Source", "C:\\data\\")));
}

#[test]
fn split_is_at_the_first_colon() {
    assert_eq!(
        split_key_value("Options : /S /DCOPY:DA /COPY:DAT"),
        Some(("Options", "/S /DCOPY:DA /COPY:DAT"))
    );
    assert_eq!(split_key_value("a:b:c"), Some(("a", "b:c")));
}

#[test]
fn line_without_colon_has_no_key() {
    assert_eq!(split_key_value("Total    Copied   Skipped"), None);
    assert_eq!(split_key_value(""), None);
    assert_eq!(split_key_value("   "), None);
}

#[test]
fn key_or_value_may_be_empty() {
    assert_eq!(split_key_value(":"), Some(("", "")));
    assert_eq!(split_key_value("  Files :  "), Some(("Files", "")));
    assert_eq!(split_key_value(" : x"), Some(("", "x")));
}

#[test]
fn white_space_inside_key_and_value_stays() {
    assert_eq!(split_key_value("Exc Files : a b"), Some(("Exc Files", "a b")));
}

#[test]
fn characters_beyond_ascii_are_kept() {
    assert_eq!(split_key_value("Dest : D:\\s\u{e4}kerhet\\"), Some(("Dest", "D:\\s\u{e4}kerhet\\")));
    assert_eq!(split_key_value("\u{2003}k\u{e9}y\u{a0}:\u{a0}v\u{2003}"), Some(("k\u{e9}y", "v")));
}
