use heimdall::email::message::{build_message, EmailDraft, Mail, Recipient};
use heimdall::modem::SMS;
use heimdall::router::{default_template, email_draft, fill_template, DefaultRouter, Gateway, GatewayError, SQLRouter};

fn sms(number: &str, time: &str, data: &str) -> SMS {
    SMS {
        received_number: number.to_string(),
        send_number: number.to_string(),
        time: time.to_string(),
        data: data.to_string(),
        message_type: "REC UNREAD".to_string(),
    }
}

fn recipient(name: &str, email: &str) -> Recipient {
    Recipient::new(Some(name.to_string()), email.to_string()).unwrap()
}

fn formatted(mail: Mail) -> String {
    String::from_utf8(mail.into_message().formatted()).unwrap()
}

#[test]
fn default_subject() {
    let m = sms("+4912345", "24/01/01,12:00", "hi");
    assert_eq!(fill_template(&m, &default_template()), "Neue SMS von +4912345 empfangen um 24/01/01,12:00");
}

#[test]
fn custom_template() {
    let m = sms("+49", "noon", "hi");
    assert_eq!(fill_template(&m, "%FROM at %DATE, again %FROM"), "+49 at noon, again +49");
}

#[test]
fn template_without_placeholders() {
    let m = sms("+49", "noon", "hi");
    assert_eq!(fill_template(&m, "Fixed subject %FRO"), "Fixed subject %FRO");
}

#[test]
fn time_stamp_with_sender_placeholder_is_filled_too() {
    let m = sms("+49", "%FROM", "hi");
    assert_eq!(fill_template(&m, "%DATE"), "+49");
}

#[test]
fn non_ascii_template() {
    let m = sms("+49", "jetzt", "hi");
    assert_eq!(fill_template(&m, "Grüße von %FROM – %DATE"), "Grüße von +49 – jetzt");
}

#[test]
fn recipients() {
    assert!(Recipient::new(None, "user@example.com".to_string()).is_ok());
    assert!(Recipient::new(None, "not an address".to_string()).is_err());
    let r = recipient("Alice", "alice@example.com");
    assert_eq!(r.name(), Some("Alice".to_string()));
    assert_eq!(r.email(), "alice@example.com");
    let copy = r.duplicate();
    assert_eq!(copy.email(), "alice@example.com");
}

#[test]
fn email_needs_a_receiver() {
    let sender = recipient("Gateway", "gw@example.com");
    let none = <DefaultRouter as Gateway>::generate_email(sender.duplicate(), Vec::new(), "s".to_string(), "b".to_string());
    assert_eq!(none.err(), Some(GatewayError::NoReceivers));
    let one = <DefaultRouter as Gateway>::generate_email(sender, vec![recipient("A", "a@example.com")], "s".to_string(), "b".to_string());
    assert!(one.is_ok());
}

#[test]
fn draft_fields() {
    let draft = email_draft(
        recipient("Gateway", "gw@example.com"),
        vec![recipient("A", "a@example.com"), recipient("B", "b@example.com")],
        "subject".to_string(),
        "body".to_string(),
    )
    .ok()
    .unwrap();
    assert_eq!(draft.from.email(), "gw@example.com");
    assert_eq!(draft.to.len(), 2);
    assert_eq!(draft.to[1].email(), "b@example.com");
    assert_eq!(draft.subject, "subject");
    assert_eq!(draft.body, "body");
    let text = formatted(build_message(draft).ok().unwrap());
    assert!(text.contains("From: Gateway <gw@example.com>"));
    assert!(text.contains("To: A <a@example.com>, B <b@example.com>"));
    assert!(text.contains("Subject: subject"));
    assert!(text.contains("Content-Type: text/plain; charset=utf-8"));
    assert!(text.ends_with("body"));
}

#[test]
fn message_without_receivers_is_refused_by_lettre() {
    let draft = EmailDraft {
        from: recipient("Gateway", "gw@example.com"),
        to: Vec::new(),
        subject: "s".to_string(),
        body: "b".to_string(),
    };
    assert!(build_message(draft).is_err());
}

#[test]
fn default_router() {
    let router = DefaultRouter::new(recipient("GW", "gw@example.com"), recipient("List", "list@example.com"), None);
    let m = sms("+49", "now", "text");
    let draft = router.draft_sms(&m);
    assert_eq!(draft.from.email(), "gw@example.com");
    assert_eq!(draft.to.len(), 1);
    assert_eq!(draft.to[0].email(), "list@example.com");
    assert_eq!(draft.subject, "Neue SMS von +49 empfangen um now");
    assert_eq!(draft.body, "text");
    assert_eq!(router.gen_header(&m, "%DATE/%FROM"), "now/+49");
    let text = formatted(router.generate_sms(m).unwrap());
    assert!(text.contains("From: GW <gw@example.com>"));
    assert!(text.contains("To: List <list@example.com>"));
    assert!(text.contains("Subject: Neue SMS von +49 empfangen um now"));
    assert!(text.ends_with("text"));
}

#[test]
fn default_router_mail_for() {
    let router = DefaultRouter::new(recipient("GW", "gw@example.com"), recipient("List", "list@example.com"), None);
    let text = formatted(router.mail_for(&sms("+7", "later", "code 1234")).ok().unwrap());
    assert!(text.contains("Subject: Neue SMS von +7 empfangen um later"));
    assert!(text.ends_with("code 1234"));
}

#[test]
fn default_router_with_template() {
    let router = DefaultRouter::new(
        recipient("GW", "gw@example.com"),
        recipient("List", "list@example.com"),
        Some("SMS %FROM".to_string()),
    );
    let draft = router.draft_sms(&sms("+1", "t", "x"));
    assert_eq!(draft.subject, "SMS +1");
}

#[test]
fn rows_to_receivers() {
    let rows = vec![
        ("Alice".to_string(), "alice@example.com".to_string()),
        ("Bob".to_string(), "bogus".to_string()),
        ("Carol".to_string(), "carol@example.com".to_string()),
    ];
    let found = SQLRouter::receivers_from_rows(rows);
    assert_eq!(found.len(), 2);
    assert_eq!(found[0].email(), "alice@example.com");
    assert_eq!(found[0].name(), Some("Alice".to_string()));
    assert_eq!(found[1].email(), "carol@example.com");
    assert_eq!(found[1].name(), Some("Carol".to_string()));
}

#[test]
fn name_column_is_not_read_as_the_address() {
    let rows = vec![("alice@example.com".to_string(), "Alice".to_string())];
    assert_eq!(SQLRouter::receivers_from_rows(rows).len(), 0);
}

#[test]
fn sql_router_fallback() {
    let router = SQLRouter::new(recipient("GW", "gw@example.com"), recipient("Default", "d@example.com"), None);
    let fallback = router.receivers_for(None);
    assert_eq!(fallback.len(), 1);
    assert_eq!(fallback[0].email(), "d@example.com");
    let text = formatted(router.generate_sms(sms("+1", "t", "x"), None).ok().unwrap());
    assert!(text.contains("To: Default <d@example.com>"));
    assert_eq!(router.generate_sms(sms("+1", "t", "x"), Some(Vec::new())).err(), Some(GatewayError::NoReceivers));
    let text = formatted(router.generate_sms(sms("+1", "t", "x"), Some(vec![recipient("A", "a@example.com")])).ok().unwrap());
    assert!(text.contains("From: GW <gw@example.com>"));
    assert!(text.contains("To: A <a@example.com>"));
    assert!(text.contains("Subject: Neue SMS von +1 empfangen um t"));
    assert!(text.ends_with("x"));
}
