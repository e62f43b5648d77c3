use log_watchdog::error::WatchdogError;
use log_watchdog::tail::TailReader;

#[test]
fn test_read_new_lines_from_0() {
    let content = b"Hello, world!\nGoodbye, world!\n";
    let mut reader = TailReader::new(0);
    let lines = reader.poll(content).unwrap();
    assert_eq!(lines, vec!["Hello, world!", "Goodbye, world!"]);
    assert_eq!(reader.offset(), content.len() as u64);
}

#[test]
fn test_read_new_lines_from_position() {
    let first = b"Hello, world!\n";
    let second = b"Goodbye, world!\n";
    let mut reader = TailReader::new(first.len() as u64);
    let lines = reader.poll(second).unwrap();
    assert_eq!(lines, vec!["Goodbye, world!"]);
    assert_eq!(reader.offset(), (first.len() + second.len()) as u64);
}

#[test]
fn seeded_reader_reports_nothing_without_terminator() {
    let mut reader = TailReader::new(42);
    assert_eq!(reader.poll(b"").unwrap(), Vec::<String>::new());
    assert_eq!(reader.poll(b"no end yet").unwrap(), Vec::<String>::new());
    assert_eq!(reader.offset(), 42);
}

#[test]
fn two_appends_yield_lines_in_order() {
    let mut reader = TailReader::new(0);
    let mut seen: Vec<String> = Vec::new();
    seen.extend(reader.poll(b"a\n").unwrap());
    assert_eq!(reader.offset(), 2);
    seen.extend(reader.poll(b"b\n").unwrap());
    assert_eq!(seen, vec!["a", "b"]);
    assert_eq!(reader.offset(), 4);
}

#[test]
fn partial_line_is_reported_once_when_terminated() {
    let mut reader = TailReader::new(0);
    assert!(reader.poll(b"foo bar").unwrap().is_empty());
    assert_eq!(reader.offset(), 0);
    assert_eq!(reader.poll(b"foo bar baz\n").unwrap(), vec!["foo bar baz"]);
    assert_eq!(reader.offset(), 12);
    assert!(reader.poll(b"").unwrap().is_empty());
    assert_eq!(reader.offset(), 12);
}

#[test]
fn trailing_partial_line_is_left_for_later() {
    let mut reader = TailReader::new(10);
    let lines = reader.poll(b"\naaa\naa").unwrap();
    assert_eq!(lines, vec!["", "aaa"]);
    assert_eq!(reader.offset(), 15);
}

#[test]
fn multibyte_text_is_decoded() {
    let mut reader = TailReader::new(0);
    let lines = reader.poll("h\u{e9}llo\n".as_bytes()).unwrap();
    assert_eq!(lines, vec!["h\u{e9}llo"]);
    assert_eq!(reader.offset(), 7);
}

#[test]
fn invalid_utf8_line_is_an_error_and_keeps_offset() {
    let mut reader = TailReader::new(3);
    let r = reader.poll(b"ok\n\xff\xfe\n");
    assert_eq!(r, Err(WatchdogError::InvalidText));
    assert_eq!(reader.offset(), 3);
}
