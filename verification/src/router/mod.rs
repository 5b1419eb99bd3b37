//! Turning a received message into a mail: the subject from a template, the
//! recipients from the router's settings or from a lookup by sender.
use vstd::prelude::*;
use crate::email::message::{
    address_accepted, build_message, mail_fields, message_builds, recipients_view, BuildError, EmailDraft, Mail, MailFields,
    Recipient,
};
use crate::modem::SMS;
use crate::text::{chars_of, lemma_replace_leading_match, lemma_replace_pattern_free,
    lemma_replace_plain_prefix, pattern_free, replace_all, replace_chars};

verus! {

/// `%DATE`: replaced by the message's time stamp.
pub open spec fn date_placeholder() -> Seq<char> { seq!['%', 'D', 'A', 'T', 'E'] }

/// `%FROM`: replaced by the sender's number.
pub open spec fn from_placeholder() -> Seq<char> { seq!['%', 'F', 'R', 'O', 'M'] }

/// The subject template used when none is configured.
pub open spec fn default_template_text() -> Seq<char> {
    "Neue SMS von %FROM empfangen um %DATE"@
}

/// The subject made from a template: first every `%DATE` becomes the time
/// stamp, then every `%FROM` in the result becomes the sender's number.
pub open spec fn header_text(template: Seq<char>, time: Seq<char>, number: Seq<char>) -> Seq<char> {
    replace_all(replace_all(template, date_placeholder(), time), from_placeholder(), number)
}

/// The subject template used when none is configured.
pub fn default_template() -> (template: String)
    ensures
        template@ == default_template_text(),
{
    "Neue SMS von %FROM empfangen um %DATE".to_owned()
}

/// With the default template, the subject reads
/// `Neue SMS von <sender> empfangen um <time>`, for every time stamp in which
/// `%FROM` does not occur.
pub proof fn lemma_default_header(time: Seq<char>, number: Seq<char>)
    requires
        pattern_free(time, from_placeholder()),
    ensures
        header_text(default_template_text(), time, number)
            == "Neue SMS von "@ + number + " empfangen um "@ + time,
{
    reveal_strlit("Neue SMS von %FROM empfangen um %DATE");
    reveal_strlit("Neue SMS von ");
    reveal_strlit(" empfangen um ");
    let a = "Neue SMS von "@;
    let b = " empfangen um "@;
    let f = from_placeholder();
    let d = date_placeholder();
    let from_rest: Seq<char> = seq!['F', 'R', 'O', 'M'];
    assert(default_template_text() =~= a + (f + (b + d)));
    // %DATE
    lemma_replace_plain_prefix(a, f + (b + d), d, time);
    let s = f + (b + d);
    assert(s.take(d.len() as int) =~= f);
    assert(s.skip(1) =~= (from_rest + b) + d);
    lemma_replace_plain_prefix(from_rest + b, d, d, time);
    lemma_replace_leading_match(Seq::empty(), d, time);
    assert(d + Seq::<char>::empty() =~= d);
    lemma_replace_pattern_free(Seq::<char>::empty(), d, time);
    let dated = a + (f + (b + time));
    assert(replace_all(default_template_text(), d, time) =~= dated);
    // %FROM
    lemma_replace_plain_prefix(a, f + (b + time), f, number);
    lemma_replace_leading_match(b + time, f, number);
    lemma_replace_plain_prefix(b, time, f, number);
    lemma_replace_pattern_free(time, f, number);
    assert(a + (number + (b + time)) =~= a + number + b + time);
}

/// A template without placeholders is the subject as it stands.
pub proof fn lemma_header_without_placeholders(template: Seq<char>, time: Seq<char>, number: Seq<char>)
    requires
        pattern_free(template, date_placeholder()),
        pattern_free(template, from_placeholder()),
    ensures
        header_text(template, time, number) == template,
{
    lemma_replace_pattern_free(template, date_placeholder(), time);
    lemma_replace_pattern_free(template, from_placeholder(), number);
}

} // verus!

verus! {

/// Why no mail was made.
#[derive(Clone, Copy, Debug, PartialEq, Eq, Structural)]
pub enum GatewayError {
    /// The list of recipients is empty.
    NoReceivers,
    /// `lettre` refused the message.
    Build(BuildError),
}

/// The draft of a plain-text mail from `sender` to all `receivers`, with the
/// given subject and body; refused when there is no receiver.
pub fn email_draft(sender: Recipient, receivers: Vec<Recipient>, header: String, body: String)
    -> (draft: Result<EmailDraft, GatewayError>)
    ensures
        receivers@.len() == 0 ==> draft == Err::<EmailDraft, GatewayError>(GatewayError::NoReceivers),
        receivers@.len() > 0 ==> draft is Ok,
        draft matches Ok(d) ==> {
            &&& d.from@ == sender@
            &&& recipients_view(d.to@) == recipients_view(receivers@)
            &&& d.to@.len() == receivers@.len()
            &&& d.subject@ == header@
            &&& d.body@ == body@
        },
{
    if receivers.len() == 0 {
        return Err(GatewayError::NoReceivers);
    }
    Ok(EmailDraft { from: sender, to: receivers, subject: header, body })
}

/// Fills the template `content` with the time stamp and the sender of `sms`.
pub fn fill_template(sms: &SMS, content: &str) -> (header: String)
    ensures
        header@ == header_text(content@, sms.time@, sms.send_number@),
{
    let template = chars_of(content);
    let date: Vec<char> = vec!['%', 'D', 'A', 'T', 'E'];
    let from: Vec<char> = vec!['%', 'F', 'R', 'O', 'M'];
    assert(date@ == date_placeholder());
    assert(from@ == from_placeholder());
    let dated = replace_chars(&template, &date, sms.time.as_str());
    let dated_chars = chars_of(dated.as_str());
    replace_chars(&dated_chars, &from, sms.send_number.as_str())
}

/// Something that turns a received message into a mail.
pub trait Gateway: Send {
    /// The mail for `sms`, if one is made.
    fn generate_sms(&self, sms: SMS) -> Option<Mail>;

    /// The plain-text mail from `sender` to all `receivers` (the fields of
    /// `email_draft`): refused when there is no receiver; otherwise the
    /// plain-text mail of exactly these fields, built where `lettre` builds it
    /// (`message_builds`).
    fn generate_email(sender: Recipient, receivers: Vec<Recipient>, header: String, body: String)
        -> (mail: Result<Mail, GatewayError>)
        where Self: Sized
        ensures
            receivers@.len() == 0 <==> mail == Err::<Mail, GatewayError>(GatewayError::NoReceivers),
            receivers@.len() > 0 ==> (mail is Ok || mail matches Err(GatewayError::Build(_))),
            receivers@.len() > 0 ==> (mail is Ok <==> message_builds(sender@, recipients_view(receivers@), header@, body@)),
            mail matches Ok(m) ==> m@ == mail_fields(sender@, recipients_view(receivers@), header@, body@),
    {
        match email_draft(sender, receivers, header, body) {
            Ok(draft) => match build_message(draft) {
                Ok(mail) => Ok(mail),
                Err(e) => Err(GatewayError::Build(e)),
            },
            Err(e) => Err(e),
        }
    }

    /// Fills the template `content` with the time stamp and the sender of `sms`.
    fn gen_header(&self, sms: &SMS, content: &str) -> (header: String)
        ensures
            header@ == header_text(content@, sms.time@, sms.send_number@),
    {
        fill_template(sms, content)
    }
}

/// Forwards every message to one fixed address.
pub struct DefaultRouter {
    mailbox_sender: Recipient,
    mailbox_receiver: Recipient,
    content: String,
}

impl DefaultRouter {
    pub closed spec fn sender_view(&self) -> (Option<Seq<char>>, Seq<char>) {
        self.mailbox_sender@
    }

    pub closed spec fn receiver_view(&self) -> (Option<Seq<char>>, Seq<char>) {
        self.mailbox_receiver@
    }

    pub closed spec fn template_view(&self) -> Seq<char> {
        self.content@
    }

    /// A router with the configured subject template, or the default one.
    pub fn new(mailbox_sender: Recipient, mailbox_receiver: Recipient, template: Option<String>) -> (router: DefaultRouter)
        ensures
            router.sender_view() == mailbox_sender@,
            router.receiver_view() == mailbox_receiver@,
            router.template_view() == match template {
                Some(t) => t@,
                None => default_template_text(),
            },
    {
        match template {
            Some(content) => DefaultRouter { mailbox_sender, mailbox_receiver, content },
            None => DefaultRouter { mailbox_sender, mailbox_receiver, content: default_template() },
        }
    }

    /// The mail for `sms`: from the router's sender to its one receiver, the
    /// subject filled from the template, the message text as body.
    pub fn draft_sms(&self, sms: &SMS) -> (draft: EmailDraft)
        ensures
            draft.from@ == self.sender_view(),
            recipients_view(draft.to@) == seq![self.receiver_view()],
            draft.to@.len() == 1,
            draft.subject@ == header_text(self.template_view(), sms.time@, sms.send_number@),
            draft.body@ == sms.data@,
    {
        let mut to: Vec<Recipient> = Vec::new();
        to.push(self.mailbox_receiver.duplicate());
        assert(recipients_view(to@) =~= seq![self.receiver_view()]);
        EmailDraft {
            from: self.mailbox_sender.duplicate(),
            to,
            subject: self.gen_header(sms, self.content.as_str()),
            body: sms.data.clone(),
        }
    }
}

impl DefaultRouter {
    /// What the mail for `sms` is made of: from the router's sender to its one
    /// receiver, the subject filled from the template, the message text as body.
    pub open spec fn mail_fields_for(&self, sms: SMS) -> MailFields {
        mail_fields(
            self.sender_view(),
            seq![self.receiver_view()],
            header_text(self.template_view(), sms.time@, sms.send_number@),
            sms.data@,
        )
    }

    /// Whether `lettre` builds the mail for `sms`.
    pub open spec fn mail_builds_for(&self, sms: SMS) -> bool {
        let fields = self.mail_fields_for(sms);
        message_builds(fields.from, fields.to, fields.subject, fields.body)
    }

    /// The mail for `sms` (see `draft_sms`), built where `lettre` builds it.
    pub fn mail_for(&self, sms: &SMS) -> (mail: Result<Mail, BuildError>)
        ensures
            mail is Ok <==> self.mail_builds_for(*sms),
            mail matches Ok(m) ==> m@ == self.mail_fields_for(*sms),
    {
        let draft = self.draft_sms(sms);
        build_message(draft)
    }
}

impl Gateway for DefaultRouter {
    /// The mail for `sms` to the router's one receiver (see `mail_for`),
    /// where `lettre` builds it.
    fn generate_sms(&self, sms: SMS) -> (mail: Option<Mail>)
        ensures
            mail is Some <==> self.mail_builds_for(sms),
            mail matches Some(m) ==> m@ == self.mail_fields_for(sms),
    {
        match self.mail_for(&sms) {
            Ok(mail) => Some(mail),
            Err(_) => None,
        }
    }
}

/// The rows of a lookup (`SELECT name, mail ...`), each as two texts: the
/// display name, then the address.
pub open spec fn rows_view(rows: Seq<(String, String)>) -> Seq<(Seq<char>, Seq<char>)> {
    rows.map_values(|r: (String, String)| (r.0@, r.1@))
}

/// The recipients that a lookup yields: for each row, in order, the mail
/// column read as the address and the name column as the display name; rows
/// whose mail column is not an accepted address are left out.
pub open spec fn accepted_rows(rows: Seq<(Seq<char>, Seq<char>)>) -> Seq<(Option<Seq<char>>, Seq<char>)>
    decreases rows.len(),
{
    if rows.len() == 0 {
        Seq::empty()
    } else {
        let rest = accepted_rows(rows.drop_last());
        let (name, address) = rows.last();
        if address_accepted(address) {
            rest.push((Some(name), address))
        } else {
            rest
        }
    }
}

/// Whether the mail column of a row is an address that `lettre` accepts.
pub open spec fn row_accepted(row: (Seq<char>, Seq<char>)) -> bool {
    address_accepted(row.1)
}

/// The recipient a row names: its name column as display name, its mail
/// column as address.
pub open spec fn row_recipient(row: (Seq<char>, Seq<char>)) -> (Option<Seq<char>>, Seq<char>) {
    (Some(row.0), row.1)
}

/// A lookup yields one recipient for every row whose mail column is an
/// accepted address, in row order, and nothing for the other rows; so there
/// are exactly as many recipients as accepted rows.
pub proof fn lemma_accepted_rows_keeps_every_accepted_row(rows: Seq<(Seq<char>, Seq<char>)>)
    ensures
        accepted_rows(rows) == rows.filter(|r: (Seq<char>, Seq<char>)| row_accepted(r)).map_values(
            |r: (Seq<char>, Seq<char>)| row_recipient(r),
        ),
        accepted_rows(rows).len() == rows.filter(|r: (Seq<char>, Seq<char>)| row_accepted(r)).len(),
    decreases rows.len(),
{
    let pred = |r: (Seq<char>, Seq<char>)| row_accepted(r);
    let f = |r: (Seq<char>, Seq<char>)| row_recipient(r);
    reveal(Seq::filter);
    if rows.len() == 0 {
        assert(rows.filter(pred) =~= Seq::<(Seq<char>, Seq<char>)>::empty());
        assert(rows.filter(pred).map_values(f) =~= Seq::<(Option<Seq<char>>, Seq<char>)>::empty());
    } else {
        lemma_accepted_rows_keeps_every_accepted_row(rows.drop_last());
        let rest = rows.drop_last().filter(pred);
        if pred(rows.last()) {
            assert(rows.filter(pred) == rest.push(rows.last()));
            assert(rest.push(rows.last()).map_values(f) =~= rest.map_values(f).push(f(rows.last())));
        } else {
            assert(rows.filter(pred) == rest);
        }
    }
}

/// The recipients a lookup found, if it succeeded.
pub open spec fn lookup_view(found: Option<Vec<Recipient>>) -> Option<Seq<(Option<Seq<char>>, Seq<char>)>> {
    match found {
        Some(v) => Some(recipients_view(v@)),
        None => None,
    }
}

/// Routes each message to the addresses that a table lists for its sender,
/// falling back to a default receiver when the lookup fails.
pub struct SQLRouter {
    mailbox_sender: Recipient,
    header: String,
    default_mailbox_receiver: Recipient,
}

impl SQLRouter {
    pub closed spec fn sender_view(&self) -> (Option<Seq<char>>, Seq<char>) {
        self.mailbox_sender@
    }

    pub closed spec fn default_receiver_view(&self) -> (Option<Seq<char>>, Seq<char>) {
        self.default_mailbox_receiver@
    }

    pub closed spec fn template_view(&self) -> Seq<char> {
        self.header@
    }

    /// A router with the subject template stored in the database, or the
    /// default one where none could be read.
    pub fn new(mailbox_sender: Recipient, default_mailbox_receiver: Recipient, stored_header: Option<String>) -> (router: SQLRouter)
        ensures
            router.sender_view() == mailbox_sender@,
            router.default_receiver_view() == default_mailbox_receiver@,
            router.template_view() == match stored_header {
                Some(h) => h@,
                None => default_template_text(),
            },
    {
        match stored_header {
            Some(header) => SQLRouter { mailbox_sender, default_mailbox_receiver, header },
            None => SQLRouter { mailbox_sender, default_mailbox_receiver, header: default_template() },
        }
    }

    /// The recipients listed in the rows of a lookup (see `accepted_rows`).
    pub fn receivers_from_rows(rows: Vec<(String, String)>) -> (receivers: Vec<Recipient>)
        ensures
            recipients_view(receivers@) == accepted_rows(rows_view(rows@)),
    {
        let mut receivers: Vec<Recipient> = Vec::new();
        let mut i: usize = 0;
        while i < rows.len()
            invariant
                i <= rows@.len(),
                recipients_view(receivers@) == accepted_rows(rows_view(rows@.take(i as int))),
            decreases rows@.len() - i,
        {
            let ghost before = receivers@;
            let name = rows[i].0.clone();
            let address = rows[i].1.clone();
            proof {
                assert(rows_view(rows@.take(i + 1)).drop_last() =~= rows_view(rows@.take(i as int)));
                assert(rows_view(rows@.take(i + 1)).last() == (rows@[i as int].0@, rows@[i as int].1@));
            }
            match Recipient::new(Some(name), address) {
                Ok(recipient) => {
                    receivers.push(recipient);
                    assert(recipients_view(receivers@) =~= recipients_view(before).push(recipient@));
                },
                Err(_) => {},
            }
            i = i + 1;
        }
        assert(rows@.take(i as int) =~= rows@);
        receivers
    }

    /// The receivers of a message: those found for its sender, or the default
    /// receiver where the lookup failed.
    pub fn receivers_for(&self, found: Option<Vec<Recipient>>) -> (receivers: Vec<Recipient>)
        ensures
            recipients_view(receivers@) == match found {
                Some(v) => recipients_view(v@),
                None => seq![self.default_receiver_view()],
            },
            receivers@.len() == match found {
                Some(v) => v@.len(),
                None => 1,
            },
    {
        match found {
            Some(v) => v,
            None => {
                let mut v: Vec<Recipient> = Vec::new();
                v.push(self.default_mailbox_receiver.duplicate());
                assert(recipients_view(v@) =~= seq![self.default_receiver_view()]);
                v
            },
        }
    }

    /// What the mail for `sms` is made of, given the lookup of its sender:
    /// from the router's sender to the receivers that `receivers_for` picks,
    /// the subject filled from the template, the message text as body.
    pub open spec fn mail_fields_for(&self, sms: SMS, found: Option<Seq<(Option<Seq<char>>, Seq<char>)>>) -> MailFields {
        mail_fields(
            self.sender_view(),
            match found {
                Some(v) => v,
                None => seq![self.default_receiver_view()],
            },
            header_text(self.template_view(), sms.time@, sms.send_number@),
            sms.data@,
        )
    }

    /// Whether `lettre` builds the mail for `sms`, given the lookup of its
    /// sender.
    pub open spec fn mail_builds_for(&self, sms: SMS, found: Option<Seq<(Option<Seq<char>>, Seq<char>)>>) -> bool {
        let fields = self.mail_fields_for(sms, found);
        message_builds(fields.from, fields.to, fields.subject, fields.body)
    }

    /// The mail for `sms` given the lookup of its sender (`None` where the
    /// lookup failed), as `draft_sms` describes it: refused when the lookup
    /// found no row; otherwise the plain-text mail of exactly those fields,
    /// built where `lettre` builds it.
    pub fn generate_sms(&self, sms: SMS, found: Option<Vec<Recipient>>) -> (mail: Result<Mail, GatewayError>)
        ensures
            (found matches Some(v) && v@.len() == 0) <==> mail == Err::<Mail, GatewayError>(GatewayError::NoReceivers),
            mail is Ok || mail == Err::<Mail, GatewayError>(GatewayError::NoReceivers)
                || mail matches Err(GatewayError::Build(_)),
            !(found matches Some(v) && v@.len() == 0) ==> (mail is Ok <==> self.mail_builds_for(sms, lookup_view(found))),
            mail matches Ok(m) ==> m@ == self.mail_fields_for(sms, lookup_view(found)),
    {
        match self.draft_sms(&sms, found) {
            Ok(draft) => match build_message(draft) {
                Ok(mail) => Ok(mail),
                Err(e) => Err(GatewayError::Build(e)),
            },
            Err(e) => Err(e),
        }
    }

    /// The mail for `sms` given the lookup of its sender: from the router's
    /// sender to the receivers that `receivers_for` picks, the subject filled
    /// from the template, the message text as body; refused when there is no
    /// receiver.
    pub fn draft_sms(&self, sms: &SMS, found: Option<Vec<Recipient>>) -> (draft: Result<EmailDraft, GatewayError>)
        ensures
            (found matches Some(v) && v@.len() == 0) <==> draft == Err::<EmailDraft, GatewayError>(GatewayError::NoReceivers),
            draft is Ok || draft == Err::<EmailDraft, GatewayError>(GatewayError::NoReceivers),
            draft matches Ok(d) ==> {
                &&& d.from@ == self.sender_view()
                &&& recipients_view(d.to@) == match found {
                    Some(v) => recipients_view(v@),
                    None => seq![self.default_receiver_view()],
                }
                &&& d.subject@ == header_text(self.template_view(), sms.time@, sms.send_number@)
                &&& d.body@ == sms.data@
            },
    {
        let receivers = self.receivers_for(found);
        let header = fill_template(sms, self.header.as_str());
        email_draft(self.mailbox_sender.duplicate(), receivers, header, sms.data.clone())
    }
}

} // verus!
