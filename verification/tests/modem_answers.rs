use heimdall::modem::reports::{parse_message_header, parse_signal_report};
use heimdall::modem::response::{expect_tag, read_int_field, read_raw_string, read_string_field};
use heimdall::modem::{
    classify_notice, error_sms, pull_step, waiting_step, PullAction, WaitStep, online_status, pull_time_from, sent_status, sim_pin_status, sim_status,
    sms_from_lines, stored_message_slot, strategy_from, ModemError, ModemStatus, SimNotReady, Strategy,
    UnparsableATResponse, DEFAULT_PULL_TIME_MS, FIRST_SLOT, LAST_SLOT,
};

const UNPARSABLE: ModemError = ModemError::UnparsableATResponse(UnparsableATResponse);

#[test]
fn tag_then_spaces() {
    assert_eq!(expect_tag(b"+CSQ   20", 0, b"+CSQ"), Some(7));
    assert_eq!(expect_tag(b"+CS", 0, b"+CSQ"), None);
    assert_eq!(expect_tag(b"+CSX", 0, b"+CSQ"), None);
}

#[test]
fn int_fields() {
    assert_eq!(read_int_field(b"12,34", 0), Some((3, Some(12))));
    assert_eq!(read_int_field(b"+7 x", 0), Some((3, Some(7))));
    assert_eq!(read_int_field(b"-42", 0), Some((3, Some(-42))));
    assert_eq!(read_int_field(b"-", 0), Some((1, Some(0))));
    assert_eq!(read_int_field(b",5", 0), Some((1, None)));
    assert_eq!(read_int_field(b"1-2", 0), None);
    assert_eq!(read_int_field(b"+", 0), None);
    assert_eq!(read_int_field(b"2147483647", 0), Some((10, Some(i32::MAX))));
    assert_eq!(read_int_field(b"-2147483648", 0), Some((11, Some(i32::MIN))));
    assert_eq!(read_int_field(b"2147483648", 0), None);
    assert_eq!(read_int_field(b"123456789012", 0), None);
}

#[test]
fn string_fields() {
    assert_eq!(read_string_field(b"\"abc\",x", 0), Some((6, "abc".to_string())));
    assert_eq!(read_string_field(b": \"abc\"", 0), Some((7, " \"abc".to_string())));
    assert_eq!(read_string_field(b"\"abc", 0), None);
    assert_eq!(read_string_field(b"\"\xff\"", 0), None);
}

#[test]
fn raw_strings() {
    assert_eq!(read_raw_string(b"SM\r\n", 0), Some((2, "SM".to_string())));
    assert_eq!(read_raw_string(b"", 0), Some((0, String::new())));
}

#[test]
fn signal_report_and_online() {
    assert_eq!(parse_signal_report(b"+CSQ 20,99 OK"), Some((20, 99)));
    assert_eq!(online_status(b"+CSQ 20,99 OK"), Ok(true));
    assert_eq!(online_status(b"+CSQ 99,0 OK"), Ok(false));
    assert_eq!(online_status(b"+CSQ: 20,99\r\n\r\nOK\r\n"), Err(UNPARSABLE));
}

#[test]
fn pin_answer() {
    assert_eq!(sim_pin_status(b"Ok"), Ok(()));
    assert_eq!(sim_pin_status(b"OK"), Err(UNPARSABLE));
}

#[test]
fn sim_state() {
    assert_eq!(sim_status(b"+QINISTAT 2 OK"), Ok(()));
    assert_eq!(sim_status(b"+QINISTAT 1 OK"), Err(ModemError::SimNotReady(SimNotReady)));
    assert_eq!(sim_status(b"+QINISTAT 3 OK"), Err(ModemError::SimNotReady(SimNotReady)));
    assert_eq!(sim_status(b"ERROR"), Err(UNPARSABLE));
}

#[test]
fn written_integer_reads_back() {
    assert_eq!(sim_status(b"+QINISTAT -7 OK"), Err(ModemError::SimNotReady(SimNotReady)));
    assert_eq!(read_int_field(b"-2147483648", 0).unwrap().1, Some(i32::MIN));
}

fn read_lines(header: &[u8], text: &[u8]) -> Vec<Vec<u8>> {
    vec![b"AT+CMGR=1".to_vec(), header.to_vec(), text.to_vec()]
}

#[test]
fn stored_message() {
    let lines = read_lines(b"+CMGR\"REC UNREAD\",\"+4912345\",,\"24/01/01,12:00:00+04\"", b"hello");
    let header = parse_message_header(&lines[1]).unwrap();
    assert_eq!(header, ("REC UNREAD".to_string(), "+4912345".to_string(), None, "24/01/01,12:00:00+04".to_string()));
    let sms = sms_from_lines(&lines).unwrap();
    assert_eq!(sms.received_number, "+4912345");
    assert_eq!(sms.send_number, "+4912345");
    assert_eq!(sms.time, "24/01/01,12:00:00+04");
    assert_eq!(sms.message_type, "REC UNREAD");
    assert_eq!(sms.data, "hello");
}

#[test]
fn stored_message_errors() {
    let bad_text = read_lines(b"+CMGR\"a\",\"b\",,\"c\"", b"\xff\xfe");
    assert_eq!(sms_from_lines(&bad_text).unwrap_err(), ModemError::InvalidText);
    let bad_header = vec![b"x".to_vec(), b"+CMGR".to_vec()];
    assert_eq!(sms_from_lines(&bad_header).unwrap_err(), UNPARSABLE);
}

#[test]
fn new_message_report_never_completes() {
    assert_eq!(stored_message_slot(b"+CMTI: \"SM\",3\r\n"), Err(UNPARSABLE));
    assert_eq!(stored_message_slot(b"nothing"), Err(UNPARSABLE));
}

#[test]
fn sent_answer() {
    assert_eq!(sent_status(b"+CMGS OK"), Ok(()));
    assert_eq!(sent_status(b"+CMGS: 5\r\n\r\nOK"), Err(UNPARSABLE));
}

#[test]
fn unsolicited_lines() {
    assert_eq!(classify_notice(b"\r\nAPP RDY\r\n"), ModemStatus::NONE);
    assert_eq!(classify_notice(b"\r\n+CMTI: \"SM\",3\r\n"), ModemStatus::SMS(3));
    assert_eq!(classify_notice(b"\r\nRING\r\n"), ModemStatus::NONE);
}

#[test]
fn failed_read_report() {
    let sms = error_sms("boom");
    assert_eq!(sms.received_number, "Error");
    assert_eq!(sms.send_number, "Error");
    assert_eq!(sms.time, "Now");
    assert_eq!(sms.message_type, "Error");
    assert_eq!(sms.data, "There was a error while writing: boom");
}

#[test]
fn waiting_decisions() {
    assert!(matches!(waiting_step(Ok(ModemStatus::SMS(4))), WaitStep::Forward(4)));
    assert!(matches!(waiting_step(Ok(ModemStatus::NONE)), WaitStep::CheckPower));
    assert!(matches!(waiting_step(Ok(ModemStatus::SIM_STAT(1))), WaitStep::CheckPower));
    match waiting_step(Err("garbled".to_string())) {
        WaitStep::Report(sms) => {
            assert_eq!(sms.send_number, "Error");
            assert_eq!(sms.time, "Now");
            assert_eq!(sms.data, "There was a error while writing: garbled");
        },
        other => panic!("expected a report, got {:?}", other),
    }
}

#[test]
fn pulling_steps() {
    let read = error_sms("x");
    let first = pull_step(FIRST_SLOT, Some(read));
    assert!(matches!(first.action, PullAction::Forward(ref sms) if sms.time == "Now"));
    assert_eq!(first.next, Some(FIRST_SLOT + 1));
    let last = pull_step(LAST_SLOT, None);
    assert!(matches!(last.action, PullAction::Skip));
    assert_eq!(last.next, None);
    let mut slots = Vec::new();
    let mut slot = Some(FIRST_SLOT);
    while let Some(i) = slot {
        slots.push(i);
        slot = pull_step(i, None).next;
    }
    assert_eq!(slots, (1..=23).collect::<Vec<i32>>());
}

#[test]
fn strategy_setting() {
    assert_eq!(strategy_from(Some("WAIT".to_string())), Strategy::WAIT);
    assert_eq!(strategy_from(Some("wait".to_string())), Strategy::PULL);
    assert_eq!(strategy_from(None), Strategy::PULL);
}

#[test]
fn pull_time_setting() {
    assert_eq!(pull_time_from(Some("1000".to_string())), 1000);
    assert_eq!(pull_time_from(Some("+5".to_string())), 5);
    assert_eq!(pull_time_from(Some("-5".to_string())), DEFAULT_PULL_TIME_MS);
    assert_eq!(pull_time_from(Some("abc".to_string())), DEFAULT_PULL_TIME_MS);
    assert_eq!(pull_time_from(Some("".to_string())), DEFAULT_PULL_TIME_MS);
    assert_eq!(pull_time_from(Some("18446744073709551615".to_string())), u64::MAX);
    assert_eq!(pull_time_from(Some("18446744073709551616".to_string())), DEFAULT_PULL_TIME_MS);
    assert_eq!(pull_time_from(None), 300000);
}
