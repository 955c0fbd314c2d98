//! Message assembly: the address pair, the composed plain-text message,
//! and the credentials handed to the transport. Addresses are validated
//! here with the mail library's own parser, so a message that fails that
//! check is rejected before any network activity.

use vstd::prelude::*;

use crate::extract::Field;

verus! {

/// A display name together with an email address, as extracted from a
/// `Name <email>` argument.
#[derive(Clone, Debug)]
pub struct Address {
    pub name: String,
    pub email: String,
}

/// The one content type this library ever produces: plain text.
#[derive(Clone, Copy, PartialEq, Eq, Structural, Debug)]
pub enum ContentKind {
    PlainText,
}

/// A fully assembled message. Nothing here is optional, and no partially
/// built message is ever handed out: composition either returns all four
/// fields or fails.
#[derive(Clone, Debug)]
pub struct ComposedMessage {
    pub from: Address,
    pub to: Address,
    pub subject: String,
    pub body: String,
    pub content_type: ContentKind,
}

/// The SMTP credentials: the sender's email address as the username, and
/// the app password exactly as supplied. Used once, never stored.
#[derive(Clone, Debug)]
pub struct Credentials {
    pub username: String,
    pub password: String,
}

/// Whether `name <email>` forms a mailbox the mail library's address
/// parser accepts; the verdict is a function of the two strings alone.
pub uninterp spec fn mailbox_ok(name: Seq<char>, email: Seq<char>) -> bool;

/// An address rejection: which side of the message failed the mailbox
/// check, and the address parser's own message.
#[derive(Clone, Debug)]
pub struct MessageBuildError {
    pub field: Field,
    pub detail: String,
}

/// Relies on lettre's `Mailbox` parser (`<Mailbox as FromStr>::from_str`
/// applied to `"name <email>"`): a pure parser, so acceptance depends on
/// the two strings alone. Returns the parser's error text when it
/// rejects the pair.
#[verifier::external_body]
fn check_mailbox(name: &str, email: &str) -> (r: Option<String>)
    ensures
        r is None <==> mailbox_ok(name@, email@),
{
    match format!("{} <{}>", name, email).parse::<lettre::message::Mailbox>() {
        Ok(_) => None,
        Err(e) => Some(format!("{}", e)),
    }
}

/// Assemble a plain-text message, validating both addresses the way the
/// transport's own parser will. The four fields are carried over
/// unchanged: no trimming and no re-encoding happens at this level.
pub fn compose_message(from: Address, to: Address, subject: String, body: String) -> (r: Result<
    ComposedMessage,
    MessageBuildError,
>)
    ensures
        r is Ok <==> mailbox_ok(from.name@, from.email@) && mailbox_ok(to.name@, to.email@),
        r matches Ok(m) ==> m.from == from && m.to == to && m.subject == subject && m.body == body
            && m.content_type == ContentKind::PlainText,
        r matches Err(e) ==> e.field == (if !mailbox_ok(from.name@, from.email@) {
            Field::Sender
        } else {
            Field::Receiver
        }),
{
    if let Some(detail) = check_mailbox(from.name.as_str(), from.email.as_str()) {
        return Err(MessageBuildError { field: Field::Sender, detail });
    }
    if let Some(detail) = check_mailbox(to.name.as_str(), to.email.as_str()) {
        return Err(MessageBuildError { field: Field::Receiver, detail });
    }
    Ok(ComposedMessage { from, to, subject, body, content_type: ContentKind::PlainText })
}

/// Validate one extracted address pair on its own, reporting it against
/// the given field; composition succeeds exactly when both of its
/// addresses pass this check.
pub fn validate_address(address: &Address, field: Field) -> (r: Option<MessageBuildError>)
    ensures
        r is None <==> mailbox_ok(address.name@, address.email@),
        r matches Some(e) ==> e.field == field,
{
    match check_mailbox(address.name.as_str(), address.email.as_str()) {
        None => None,
        Some(detail) => Some(MessageBuildError { field, detail }),
    }
}

}
