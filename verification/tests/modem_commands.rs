use heimdall::modem::response::read_int_field;
use heimdall::modem::command::{
    delete_message_command, message_format_command, pin_command, power_check_command, read_message_command,
    send_message_command, signal_query, sim_state_query,
};

#[test]
fn queries() {
    assert_eq!(signal_query(), b"AT+CSQ?\r\n".to_vec());
    assert_eq!(sim_state_query(), b"AT+QINISTAT?\r\n".to_vec());
}

#[test]
fn set_commands() {
    assert_eq!(read_message_command(3), b"AT+CMGR=3\r\n".to_vec());
    assert_eq!(delete_message_command(-12), b"AT+CMGD=-12\r\n".to_vec());
    assert_eq!(message_format_command(1), b"AT+CMGF=1\r\n".to_vec());
    assert_eq!(read_message_command(i32::MIN), b"AT+CMGR=-2147483648\r\n".to_vec());
}

#[test]
fn pin_entry() {
    assert_eq!(pin_command("1234"), Ok(b"AT+CPIN=1234\r\n".to_vec()));
    assert_eq!(pin_command("12,"), Ok(b"AT+CPIN=12,\r\n".to_vec()));
    let long = "9".repeat(246);
    assert_eq!(pin_command(&long).unwrap().len(), 256);
    let too_long = "9".repeat(247);
    assert!(pin_command(&too_long).is_err());
}

#[test]
fn message_submission() {
    assert_eq!(send_message_command("+49123", "hi"), Ok(b"AT+CMGS=\"+49123\",hi\x1A".to_vec()));
    let huge = "x".repeat(5000);
    assert!(send_message_command("+49123", &huge).is_err());
}

#[test]
fn power_check() {
    assert_eq!(power_check_command(), b"ATI\r\n".to_vec());
}

#[test]
fn every_command_is_framed() {
    let ordinary = vec![
        signal_query(),
        sim_state_query(),
        pin_command("0000").unwrap(),
        read_message_command(23),
        delete_message_command(1),
        message_format_command(0),
    ];
    for c in ordinary {
        assert!(c.starts_with(b"AT"));
        assert!(c.ends_with(b"\r\n"));
    }
    let message = send_message_command("", "").unwrap();
    assert_eq!(message, b"AT+CMGS=\"\",\x1A".to_vec());
    assert!(message.starts_with(b"AT"));
    assert!(message.ends_with(b"\x1A"));
}

#[test]
fn written_integers_read_back() {
    for v in [0, 7, -7, 10, -10, 123456, i32::MAX, i32::MIN] {
        let command = read_message_command(v);
        let digits = &command[8..command.len() - 2];
        assert_eq!(read_int_field(digits, 0), Some((digits.len(), Some(v))));
    }
}
