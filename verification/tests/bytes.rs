use robocopy_log::{parse_log, parse_log_bytes};

fn utf16le(text: &str) -> Vec<u8> {
    let mut bytes = Vec::new();
    for unit in text.encode_utf16() {
        bytes.push(unit as u8);
        bytes.push((unit >> 8) as u8);
    }
    bytes
}

const TEXT: &str = "---\r\n---\r\n Source : C:\\d\u{e4}ta\\\u{1f600}\r\n---\r\n---\r\n Speed : 42 Bytes/sec.\r\n";

#[test]
fn bytes_are_read_as_utf16_little_endian() {
    let log = parse_log_bytes(&utf16le(TEXT)).expect("the bytes are read");
    assert_eq!(log.sections, 4);
    assert_eq!(log.result.source, Some("C:\\d\u{e4}ta\\\u{1f600}".to_string()));
    assert_eq!(log.result.speed, Some(42));
    assert_eq!(log, parse_log(TEXT));
}

#[test]
fn byte_order_mark_is_set_aside() {
    let mut bytes = vec![0xff, 0xfe];
    bytes.extend(utf16le(TEXT));
    let log = parse_log_bytes(&bytes).expect("the bytes are read");
    assert_eq!(log, parse_log(TEXT));
    assert_eq!(log.sections, 4);
}

#[test]
fn text_in_another_encoding_gives_nothing_but_is_read() {
    let log = parse_log_bytes(TEXT.as_bytes()).expect("the bytes are read");
    assert_eq!(log.result, parse_log("").result);
    assert_eq!(log.result.source, None);
}

#[test]
fn ill_formed_bytes_do_not_end_the_reading() {
    let mut bytes = utf16le("---\n---\nSource : a");
    bytes.extend([0x00, 0xd8]);
    bytes.extend(utf16le("b\nDest : c\n"));
    bytes.push(0x41);
    let log = parse_log_bytes(&bytes).expect("the bytes are read");
    assert_eq!(log.result.source, Some("a\u{fffd}b".to_string()));
    assert_eq!(log.result.destination, Some("c".to_string()));
}

#[test]
fn no_bytes_give_an_empty_log() {
    let log = parse_log_bytes(&[]).expect("the bytes are read");
    assert_eq!(log, parse_log(""));
    assert_eq!(log.sections, 0);
}
