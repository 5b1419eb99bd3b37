use heimdall::config::{choose_gateway, required_settings_present, ConfigError, GatewayChoice, SerialPortConfig};
use heimdall::email::{sms_email, sms_email_draft, EmailError, SMTPCredentials};
use heimdall::text::{chars_of, parse_u64, replace_chars};

#[test]
fn serial_port_defaults() {
    let c = SerialPortConfig::default();
    assert_eq!(c.serial_port, "/dev/ttyUSB3");
    assert_eq!(c.baud_rate, 115200);
    assert_eq!(c.timeout_ms, 5000);
}

#[test]
fn credentials() {
    let c = SMTPCredentials::new("a@b.c".to_string(), "smtp.b.c".to_string(), "SECRET-REDACTED".to_string());
    assert_eq!(c.email, "a@b.c");
    assert_eq!(c.server, "smtp.b.c");
    assert_eq!(c.password, "SECRET-REDACTED");
}

#[test]
fn settings_presence() {
    assert!(required_settings_present(true, true, true, true));
    assert!(!required_settings_present(true, false, true, true));
}

#[test]
fn gateway_choice() {
    match choose_gateway("default".to_string(), Some("Heimdall".to_string()), Some("list@example.com".to_string()), None) {
        Ok(GatewayChoice::Default { receiver }) => {
            assert_eq!(receiver.email(), "list@example.com");
            assert_eq!(receiver.name(), Some("Heimdall".to_string()));
        },
        _ => panic!("expected the default router"),
    }
    assert_eq!(choose_gateway("default".to_string(), None, None, None).err(), Some(ConfigError::MissingRecipient));
    assert_eq!(
        choose_gateway("default".to_string(), None, Some("nope".to_string()), None).err(),
        Some(ConfigError::InvalidRecipient)
    );
    match choose_gateway("sql".to_string(), None, None, Some("/var/db.sqlite".to_string())) {
        Ok(GatewayChoice::Sql { backend }) => assert_eq!(backend, "/var/db.sqlite"),
        _ => panic!("expected the database router"),
    }
    assert_eq!(choose_gateway("sql".to_string(), None, None, None).err(), Some(ConfigError::MissingSqlBackend));
    assert_eq!(choose_gateway("other".to_string(), None, None, None).err(), Some(ConfigError::UnknownRouter));
}

#[test]
fn forwarded_sms_mail() {
    let draft = sms_email_draft("gw@example.com", "list@example.com", "+49", "hello", "noon").ok().unwrap();
    assert_eq!(draft.from.name(), Some("Scotty".to_string()));
    assert_eq!(draft.from.email(), "gw@example.com");
    assert_eq!(draft.to[0].name(), Some("List".to_string()));
    assert_eq!(draft.to[0].email(), "list@example.com");
    assert_eq!(draft.subject, "Neue SMS von +49 empfangen um noon");
    assert_eq!(draft.body, "hello");
    let mail = sms_email("gw@example.com", "list@example.com", "+49", "hello", "noon").ok().unwrap();
    let text = String::from_utf8(mail.into_message().formatted()).unwrap();
    assert!(text.contains("From: Scotty <gw@example.com>"));
    assert!(text.contains("To: List <list@example.com>"));
    assert!(text.contains("Subject: Neue SMS von +49 empfangen um noon"));
    assert!(text.contains("Content-Type: text/plain; charset=utf-8"));
    assert!(text.ends_with("hello"));
}

#[test]
fn forwarded_sms_mail_errors() {
    assert_eq!(sms_email("bad", "also bad", "+49", "x", "t").err(), Some(EmailError::InvalidSender));
    assert_eq!(sms_email("gw@example.com", "bad", "+49", "x", "t").err(), Some(EmailError::InvalidRecipient));
}

#[test]
fn numbers() {
    assert_eq!(parse_u64("0"), Some(0));
    assert_eq!(parse_u64("007"), Some(7));
    assert_eq!(parse_u64("+"), None);
    assert_eq!(parse_u64("1 "), None);
    assert_eq!(parse_u64("٣"), None);
}

#[test]
fn text_replacement() {
    let s = chars_of("aXbXXc");
    let p = chars_of("XX");
    assert_eq!(replace_chars(&s, &p, "-"), "aXb-c");
    let q = chars_of("aa");
    assert_eq!(replace_chars(&chars_of("aaa"), &q, "b"), "ba");
}
