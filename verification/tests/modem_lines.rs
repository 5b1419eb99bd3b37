use heimdall::modem::lines::{
    contains_delimiter, line_delimiter, ok_delimiter, send_terminator, split_vec_on_crlf, DelimitedRead,
    ReadEvent, ReadOutcome,
};

fn lines(buf: &[u8]) -> Vec<Vec<u8>> {
    split_vec_on_crlf(buf)
}

#[test]
fn split_plain_answer() {
    assert_eq!(lines(b"AT\r\nOK\r\n"), vec![b"AT".to_vec(), b"OK".to_vec()]);
}

#[test]
fn split_keeps_leading_line_end_in_first_line() {
    assert_eq!(lines(b"\r\nAB\r\nOK\r\n"), vec![b"\r\nAB".to_vec(), b"OK".to_vec()]);
}

#[test]
fn split_keeps_line_end_after_empty_line() {
    assert_eq!(lines(b"A\r\n\r\nB"), vec![b"A".to_vec(), b"\r\nB".to_vec()]);
}

#[test]
fn split_single_line() {
    assert_eq!(lines(b"abc"), vec![b"abc".to_vec()]);
}

#[test]
fn split_lines_are_never_empty() {
    for buf in [&b"\r\n\r\n"[..], b"\r\n", b"x\r\n\r\n\r\ny", b"\r\r\n\n"] {
        for line in lines(buf) {
            assert!(!line.is_empty());
        }
    }
}

#[test]
fn split_read_answer() {
    let buf = b"AT+CMGR=1\r\n+CMGR: \"REC READ\",\"+49\",,\"t\"\r\nhello\r\n\r\nOK\r\n";
    let parts = lines(buf);
    assert_eq!(parts.len(), 4);
    assert_eq!(parts[1], b"+CMGR: \"REC READ\",\"+49\",,\"t\"".to_vec());
    assert_eq!(parts[2], b"hello".to_vec());
    assert_eq!(parts[3], b"\r\nOK".to_vec());
}

#[test]
fn delimiter_search() {
    assert!(contains_delimiter(b"xxOKyy", b"OK"));
    assert!(contains_delimiter(b"OK", b"OK"));
    assert!(!contains_delimiter(b"O K", b"OK"));
    assert!(!contains_delimiter(b"O", b"OK"));
    assert!(contains_delimiter(b"abc", b""));
}

#[test]
fn delimited_read_collects_until_delimiter() {
    let mut reader = DelimitedRead::new(ok_delimiter());
    assert!(reader.should_read());
    assert_eq!(reader.on_event(ReadEvent::Received(b"+CSQ: 1".to_vec())), ReadOutcome::Continue);
    assert_eq!(reader.on_event(ReadEvent::Nothing), ReadOutcome::Continue);
    assert_eq!(reader.on_event(ReadEvent::Received(b"\r\nO".to_vec())), ReadOutcome::Continue);
    assert_eq!(reader.on_event(ReadEvent::Received(b"K\r\n".to_vec())), ReadOutcome::Done);
    assert_eq!(reader.into_received(), b"+CSQ: 1\r\nOK\r\n".to_vec());
}

#[test]
fn delimited_read_stops_on_timeout_and_failure() {
    let mut reader = DelimitedRead::new(line_delimiter());
    assert_eq!(reader.on_event(ReadEvent::TimedOut), ReadOutcome::Done);
    assert_eq!(reader.on_event(ReadEvent::Failed), ReadOutcome::Failed);
    assert!(reader.into_received().is_empty());
}

#[test]
fn delimited_read_with_empty_delimiter_reads_nothing() {
    let reader = DelimitedRead::new(Vec::new());
    assert!(!reader.should_read());
}

#[test]
fn protocol_constants() {
    assert_eq!(ok_delimiter(), b"OK".to_vec());
    assert_eq!(line_delimiter(), b"\r".to_vec());
    assert_eq!(send_terminator(), b"\n\r".to_vec());
}
