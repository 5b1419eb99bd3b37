//! Mail account settings and the mail that forwards one message.
pub mod message;

use vstd::prelude::*;
use crate::email::message::{
    address_accepted, build_message, mail_fields, message_builds, recipients_view, BuildError, EmailDraft, Mail, Recipient,
};

verus! {

/// How to log in to the mail server.
#[derive(Clone, Debug)]
pub struct SMTPCredentials {
    pub email: String,
    pub server: String,
    pub password: String,
}

impl SMTPCredentials {
    pub fn new(email: String, server: String, password: String) -> (credentials: Self)
        ensures
            credentials.email == email,
            credentials.server == server,
            credentials.password == password,
    {
        Self { email: email, server: server, password: password }
    }
}

/// Why the mail for a message could not be made.
#[derive(Clone, Copy, Debug, PartialEq, Eq, Structural)]
pub enum EmailError {
    /// The gateway's own address is not a valid e-mail address.
    InvalidSender,
    /// The recipient's address is not a valid e-mail address.
    InvalidRecipient,
    Build(BuildError),
}

/// The subject of a forwarded message: `Neue SMS von <number> empfangen um <time>`.
pub open spec fn sms_subject(sender_number: Seq<char>, time_stamp: Seq<char>) -> Seq<char> {
    "Neue SMS von "@ + sender_number + " empfangen um "@ + time_stamp
}

/// The mail that forwards one message: from `email` named `Scotty` to
/// `recipient` named `List`, the subject naming the sender and the time, the
/// text as body. The sender's address is checked first.
pub fn sms_email_draft(email: &str, recipient: &str, sender_number: &str, content: &str, time_stamp: &str)
    -> (draft: Result<EmailDraft, EmailError>)
    ensures
        !address_accepted(email@) ==> draft == Err::<EmailDraft, EmailError>(EmailError::InvalidSender),
        address_accepted(email@) && !address_accepted(recipient@)
            ==> draft == Err::<EmailDraft, EmailError>(EmailError::InvalidRecipient),
        address_accepted(email@) && address_accepted(recipient@) ==> draft is Ok,
        draft matches Ok(d) ==> {
            &&& d.from@ == (Some("Scotty"@), email@)
            &&& recipients_view(d.to@) == seq![(Some("List"@), recipient@)]
            &&& d.to@.len() == 1
            &&& d.subject@ == sms_subject(sender_number@, time_stamp@)
            &&& d.body@ == content@
        },
{
    let from = match Recipient::new(Some("Scotty".to_owned()), email.to_owned()) {
        Ok(r) => r,
        Err(_) => return Err(EmailError::InvalidSender),
    };
    let to = match Recipient::new(Some("List".to_owned()), recipient.to_owned()) {
        Ok(r) => r,
        Err(_) => return Err(EmailError::InvalidRecipient),
    };
    let mut subject = "Neue SMS von ".to_owned();
    subject.append(sender_number);
    subject.append(" empfangen um ");
    subject.append(time_stamp);
    let mut receivers: Vec<Recipient> = Vec::new();
    receivers.push(to);
    assert(recipients_view(receivers@) =~= seq![(Some("List"@), recipient@)]);
    Ok(EmailDraft { from, to: receivers, subject, body: content.to_owned() })
}

/// The mail that forwards one message (see `sms_email_draft`): refused for
/// an invalid address; otherwise built exactly where `lettre` builds it
/// (`message_builds`). A built plain-text mail goes from `Scotty <email>` to `List <recipient>`, with the subject
/// naming the sender and the time and the text as body.
pub fn sms_email(email: &str, recipient: &str, sender_number: &str, content: &str, time_stamp: &str)
    -> (mail: Result<Mail, EmailError>)
    ensures
        !address_accepted(email@) ==> mail == Err::<Mail, EmailError>(EmailError::InvalidSender),
        address_accepted(email@) && !address_accepted(recipient@)
            ==> mail == Err::<Mail, EmailError>(EmailError::InvalidRecipient),
        address_accepted(email@) && address_accepted(recipient@) ==> {
            &&& (mail is Ok || mail matches Err(EmailError::Build(_)))
            &&& mail is Ok <==> message_builds(
                (Some("Scotty"@), email@),
                seq![(Some("List"@), recipient@)],
                sms_subject(sender_number@, time_stamp@),
                content@,
            )
        },
        mail matches Ok(m) ==> m@ == mail_fields(
            (Some("Scotty"@), email@),
            seq![(Some("List"@), recipient@)],
            sms_subject(sender_number@, time_stamp@),
            content@,
        ),
{
    match sms_email_draft(email, recipient, sender_number, content, time_stamp) {
        Ok(draft) => match build_message(draft) {
            Ok(mail) => Ok(mail),
            Err(e) => Err(EmailError::Build(e)),
        },
        Err(e) => Err(e),
    }
}

} // verus!
