//! Mail addresses and plain-text messages, built with `lettre`.
use vstd::prelude::*;
use lettre::address::AddressError;
use lettre::message::header::{ContentType, To};
use lettre::message::{Mailbox, Mailboxes};
use lettre::{Address, Message};

verus! {

/// `lettre::Address`, carried through as an opaque value.
#[verifier::external_type_specification]
#[verifier::external_body]
pub struct ExAddress(Address);

/// `lettre::address::AddressError`, carried through as an opaque value.
#[verifier::external_type_specification]
#[verifier::external_body]
pub struct ExAddressError(AddressError);

/// `lettre::message::Mailbox`, carried through as an opaque value.
#[verifier::external_type_specification]
#[verifier::external_body]
pub struct ExMailbox(Mailbox);

/// `lettre::Message`, carried through as an opaque value.
#[verifier::external_type_specification]
#[verifier::external_body]
pub struct ExMessage(Message);

/// `lettre::error::Error`, carried through as an opaque value.
#[verifier::external_type_specification]
#[verifier::external_body]
pub struct ExEmailError(lettre::error::Error);

/// Whether `lettre` accepts `text` as an e-mail address (`user@domain`, both
/// parts valid).
pub uninterp spec fn address_accepted(text: Seq<char>) -> bool;

/// An address that `lettre` accepted, with the text it was read from.
struct ParsedAddress {
    address: Address,
    text: Ghost<Seq<char>>,
}

impl View for ParsedAddress {
    type V = Seq<char>;

    closed spec fn view(&self) -> Seq<char> {
        self.text@
    }
}

/// Reads an e-mail address (`<lettre::Address as FromStr>::from_str`).
///
/// Trusted: whether the text is accepted is a function of the text alone,
/// named `address_accepted`; an accepted address keeps the text it was read
/// from (`lettre` stores the text as given).
#[verifier::external_body]
fn parse_address(text: &str) -> (address: Result<ParsedAddress, AddressError>)
    ensures
        address is Ok <==> address_accepted(text@),
        address matches Ok(a) ==> a@ == text@,
{
    let read = Ghost(text@);
    match text.parse::<Address>() {
        Ok(address) => Ok(ParsedAddress { address, text: read }),
        Err(e) => Err(e),
    }
}

/// A `lettre` mailbox with the display name and address text it was made of.
struct NamedMailbox {
    mailbox: Mailbox,
    model: Ghost<(Option<Seq<char>>, Seq<char>)>,
}

impl View for NamedMailbox {
    type V = (Option<Seq<char>>, Seq<char>);

    closed spec fn view(&self) -> (Option<Seq<char>>, Seq<char>) {
        self.model@
    }
}

/// A mailbox from a display name and an address (`lettre::message::Mailbox::new`).
///
/// Trusted: the mailbox holds the name and the address as given, which is
/// all that `Mailbox::new` does.
#[verifier::external_body]
fn new_mailbox(name: Option<String>, email: ParsedAddress) -> (mailbox: NamedMailbox)
    ensures
        mailbox@ == (optional_text(name), email@),
{
    let model = Ghost((optional_text(name), email@));
    NamedMailbox { mailbox: Mailbox::new(name, email.address), model }
}

/// The content type of every mail built here: `text/plain; charset=utf-8`
/// (`lettre`'s `ContentType::TEXT_PLAIN`).
pub open spec fn plain_text_type() -> Seq<char> {
    "text/plain; charset=utf-8"@
}

/// What a mail was built from: sender, recipients (display name and
/// address each), subject, content type and body text.
pub struct MailFields {
    pub from: (Option<Seq<char>>, Seq<char>),
    pub to: Seq<(Option<Seq<char>>, Seq<char>)>,
    pub subject: Seq<char>,
    pub content_type: Seq<char>,
    pub body: Seq<char>,
}

/// A plain-text mail from `from` to `to` with this subject and body.
pub open spec fn mail_fields(
    from: (Option<Seq<char>>, Seq<char>),
    to: Seq<(Option<Seq<char>>, Seq<char>)>,
    subject: Seq<char>,
    body: Seq<char>,
) -> MailFields {
    MailFields { from, to, subject, content_type: plain_text_type(), body }
}

/// Whether `lettre` builds the plain-text message with this sender,
/// recipients, subject and body: decided by the headers written from these
/// values and read back (`MissingFrom`, `TooManyFrom`, `MissingTo`).
pub uninterp spec fn message_builds(
    from: (Option<Seq<char>>, Seq<char>),
    to: Seq<(Option<Seq<char>>, Seq<char>)>,
    subject: Seq<char>,
    body: Seq<char>,
) -> bool;

/// A `lettre` message, with what it was built from.
pub struct Mail {
    message: Message,
    fields: Ghost<MailFields>,
}

impl View for Mail {
    type V = MailFields;

    closed spec fn view(&self) -> MailFields {
        self.fields@
    }
}

impl Mail {
    pub closed spec fn lettre_message(&self) -> Message {
        self.message
    }

    /// The `lettre` message, ready to be sent.
    pub fn into_message(self) -> (message: Message)
        ensures
            message == self.lettre_message(),
    {
        self.message
    }
}

spec fn mailboxes_view(mailboxes: Seq<NamedMailbox>) -> Seq<(Option<Seq<char>>, Seq<char>)> {
    mailboxes.map_values(|b: NamedMailbox| b@)
}

/// A plain-text message from `from` to all of `to` (`Message::builder`,
/// `from`, `subject`, `header(ContentType::TEXT_PLAIN)`, `mailbox(To)`,
/// `body`).
///
/// Trusted: whether the message is built is a function of the four arguments
/// alone, named `message_builds` (the builder fails only on the sender and
/// recipient headers written from them; the clock only fills the `Date`
/// header); without recipients it is refused (the envelope then has no
/// destination, `MissingTo`). A built message carries the sender, recipients,
/// subject and body text handed to the builder, which writes them into its
/// headers and body as given, with the content type `text/plain;
/// charset=utf-8`.
#[verifier::external_body]
fn compose_plain_text(from: NamedMailbox, to: Vec<NamedMailbox>, subject: String, body: String)
    -> (mail: Result<Mail, lettre::error::Error>)
    ensures
        mail is Ok <==> message_builds(from@, mailboxes_view(to@), subject@, body@),
        to@.len() == 0 ==> mail is Err,
        mail matches Ok(m) ==> m@ == mail_fields(from@, mailboxes_view(to@), subject@, body@),
{
    let fields = Ghost(mail_fields(from@, mailboxes_view(to@), subject@, body@));
    let to: Vec<Mailbox> = to.into_iter().map(|b| b.mailbox).collect();
    let built = Message::builder().from(from.mailbox).subject(subject).header(ContentType::TEXT_PLAIN)
        .mailbox(To::from(Mailboxes::from(to))).body(body);
    match built {
        Ok(message) => Ok(Mail { message, fields }),
        Err(e) => Err(e),
    }
}

pub open spec fn optional_text(name: Option<String>) -> Option<Seq<char>> {
    match name {
        Some(n) => Some(n@),
        None => None,
    }
}

/// A mail address with an optional display name; the address is one that
/// `lettre` accepts.
pub struct Recipient {
    name: Option<String>,
    email: String,
}

/// The address given to `Recipient::new` is not a valid e-mail address.
#[derive(Clone, Copy, Debug, PartialEq, Eq, Structural)]
pub struct InvalidAddress;

impl View for Recipient {
    type V = (Option<Seq<char>>, Seq<char>);

    closed spec fn view(&self) -> (Option<Seq<char>>, Seq<char>) {
        (optional_text(self.name), self.email@)
    }
}

impl Recipient {
    #[verifier::type_invariant]
    spec fn accepted(self) -> bool {
        address_accepted(self.email@)
    }

    /// A recipient, if `lettre` accepts `email` as an address.
    pub fn new(name: Option<String>, email: String) -> (recipient: Result<Recipient, InvalidAddress>)
        ensures
            recipient is Ok <==> address_accepted(email@),
            recipient matches Ok(r) ==> r@ == (optional_text(name), email@),
    {
        match parse_address(email.as_str()) {
            Ok(_) => Ok(Recipient { name, email }),
            Err(_) => Err(InvalidAddress),
        }
    }

    /// The display name.
    pub fn name(&self) -> (name: Option<String>)
        ensures
            optional_text(name) == self@.0,
    {
        match &self.name {
            Some(n) => Some(n.clone()),
            None => None,
        }
    }

    /// The address.
    pub fn email(&self) -> (email: String)
        ensures
            email@ == self@.1,
    {
        self.email.clone()
    }

    /// A second recipient with the same name and address.
    pub fn duplicate(&self) -> (copy: Recipient)
        ensures
            copy@ == self@,
    {
        proof {
            use_type_invariant(self);
        }
        Recipient { name: self.name(), email: self.email.clone() }
    }

    /// The `lettre` mailbox with this name and address; always built, as the
    /// address is accepted.
    fn to_mailbox(&self) -> (mailbox: Option<NamedMailbox>)
        ensures
            mailbox matches Some(m) && m@ == self@,
    {
        proof {
            use_type_invariant(self);
        }
        match parse_address(self.email.as_str()) {
            Ok(address) => Some(new_mailbox(self.name(), address)),
            Err(_) => None,
        }
    }
}

pub open spec fn recipients_view(recipients: Seq<Recipient>) -> Seq<(Option<Seq<char>>, Seq<char>)> {
    recipients.map_values(|r: Recipient| r@)
}

/// The fields of a plain-text mail before it is handed to `lettre`.
pub struct EmailDraft {
    pub from: Recipient,
    pub to: Vec<Recipient>,
    pub subject: String,
    pub body: String,
}

impl EmailDraft {
    /// The plain-text mail of the draft's sender, recipients, subject and body.
    pub open spec fn fields(&self) -> MailFields {
        mail_fields(self.from@, recipients_view(self.to@), self.subject@, self.body@)
    }

    /// Whether `lettre` builds the mail of this draft.
    pub open spec fn builds(&self) -> bool {
        message_builds(self.from@, recipients_view(self.to@), self.subject@, self.body@)
    }
}

/// `lettre` refused to build the message.
#[derive(Clone, Copy, Debug, PartialEq, Eq, Structural)]
pub struct BuildError;

/// Hands a draft to `lettre`, which builds the mail exactly where
/// `message_builds` holds of the draft's fields; a draft without recipients is
/// always refused, and a built mail is the plain-text mail of exactly the
/// draft's sender, recipients, subject and body.
pub fn build_message(draft: EmailDraft) -> (mail: Result<Mail, BuildError>)
    ensures
        mail is Ok <==> draft.builds(),
        draft.to@.len() == 0 ==> mail is Err,
        mail matches Ok(m) ==> m@ == draft.fields(),
{
    let ghost fields = draft.fields();
    let EmailDraft { from, to, subject, body } = draft;
    assert(to@.len() == draft.to@.len());
    let mut mailboxes: Vec<NamedMailbox> = Vec::new();
    let mut i: usize = 0;
    while i < to.len()
        invariant
            i <= to@.len(),
            mailboxes@.len() == i,
            forall|j: int| 0 <= j < i ==> #[trigger] mailboxes@[j]@ == to@[j]@,
        decreases to@.len() - i,
    {
        match to[i].to_mailbox() {
            Some(mailbox) => mailboxes.push(mailbox),
            None => return Err(BuildError),
        }
        i = i + 1;
    }
    assert(mailboxes_view(mailboxes@) =~= recipients_view(to@));
    let sender = match from.to_mailbox() {
        Some(mailbox) => mailbox,
        None => return Err(BuildError),
    };
    match compose_plain_text(sender, mailboxes, subject, body) {
        Ok(mail) => Ok(mail),
        Err(_) => Err(BuildError),
    }
}

} // verus!
