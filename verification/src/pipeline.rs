//! The submission pipeline: extract the three field pairs in their fixed
//! order (content, then sender, then receiver), build the credentials and
//! the message, and map the transport's outcome to the final report. No
//! step runs past an earlier failure, and nothing here retries.

use vstd::prelude::*;

use crate::extract::{
    address_email, address_matches, address_name, content_body, content_matches, content_subject,
    extract_pair, Field, FormatError, Pattern,
};
use crate::message::{
    compose_message, mailbox_ok, Address, ComposedMessage, ContentKind, Credentials,
    MessageBuildError,
};

verus! {

/// Everything that can end a run early, in the order the run can meet it.
#[derive(Debug)]
pub enum ProcessError {
    /// A raw field did not match its required pattern.
    Format(FormatError),
    /// An address failed the mail library's own syntax check despite
    /// matching the surface pattern.
    Build(MessageBuildError),
    /// The transport rejected the submission; the underlying error text
    /// is carried verbatim.
    Transport(String),
}

/// A submission ready for the transport: the composed message and the
/// credentials to authenticate with.
#[derive(Debug)]
pub struct Prepared {
    pub message: ComposedMessage,
    pub credentials: Credentials,
}

/// Exactly when preparation succeeds: all three raw fields match their
/// patterns and both extracted addresses pass mailbox validation.
pub open spec fn preparation_succeeds(
    sender: Seq<char>,
    receiver: Seq<char>,
    content: Seq<char>,
) -> bool {
    &&& content_matches(content)
    &&& address_matches(sender)
    &&& address_matches(receiver)
    &&& mailbox_ok(address_name(sender), address_email(sender))
    &&& mailbox_ok(address_name(receiver), address_email(receiver))
}

/// Run the pre-network part of a submission on the four raw arguments:
/// extract `(subject, body)` from the content, `(name, email)` from the
/// sender and from the receiver, build the credentials from the sender's
/// email and the raw password, and compose the plain-text message.
///
/// The first failing step decides the error: an unmatched content, sender
/// or receiver field gives its format error, and after all three match, a
/// rejected sender or receiver mailbox gives its build error. On success
/// every field of the result is exactly the corresponding capture group,
/// with nothing transformed.
pub fn prepare_submission(sender: &str, receiver: &str, content: &str, password: &str) -> (r:
    Result<Prepared, ProcessError>)
    ensures
        r is Ok <==> preparation_succeeds(sender@, receiver@, content@),
        r matches Ok(p) ==> {
            &&& p.message.subject@ == content_subject(content@)
            &&& p.message.body@ == content_body(content@)
            &&& p.message.from.name@ == address_name(sender@)
            &&& p.message.from.email@ == address_email(sender@)
            &&& p.message.to.name@ == address_name(receiver@)
            &&& p.message.to.email@ == address_email(receiver@)
            &&& p.message.content_type == ContentKind::PlainText
            &&& p.credentials.username@ == address_email(sender@)
            &&& p.credentials.password@ == password@
        },
        !content_matches(content@) ==> r == Err::<Prepared, ProcessError>(
            ProcessError::Format((FormatError { field: Field::Content })),
        ),
        content_matches(content@) && !address_matches(sender@) ==> r == Err::<
            Prepared,
            ProcessError,
        >(ProcessError::Format((FormatError { field: Field::Sender }))),
        content_matches(content@) && address_matches(sender@) && !address_matches(receiver@)
            ==> r == Err::<Prepared, ProcessError>(
            ProcessError::Format((FormatError { field: Field::Receiver })),
        ),
        content_matches(content@) && address_matches(sender@) && address_matches(receiver@)
            && !mailbox_ok(address_name(sender@), address_email(sender@)) ==> (r matches Err(
            ProcessError::Build(b),
        ) && b.field == Field::Sender),
        content_matches(content@) && address_matches(sender@) && address_matches(receiver@)
            && mailbox_ok(address_name(sender@), address_email(sender@)) && !mailbox_ok(
            address_name(receiver@),
            address_email(receiver@),
        ) ==> (r matches Err(ProcessError::Build(b)) && b.field == Field::Receiver),
{
    let (subject, body) = match extract_pair(Pattern::BracketedContent, Field::Content, content) {
        Ok(p) => p,
        Err(e) => {
            return Err(ProcessError::Format(e));
        },
    };
    let (sender_name, sender_email) = match extract_pair(
        Pattern::NamedAddress,
        Field::Sender,
        sender,
    ) {
        Ok(p) => p,
        Err(e) => {
            return Err(ProcessError::Format(e));
        },
    };
    let (receiver_name, receiver_email) = match extract_pair(
        Pattern::NamedAddress,
        Field::Receiver,
        receiver,
    ) {
        Ok(p) => p,
        Err(e) => {
            return Err(ProcessError::Format(e));
        },
    };
    let credentials = Credentials { username: sender_email.clone(), password: password.to_owned() };
    let from = Address { name: sender_name, email: sender_email };
    let to = Address { name: receiver_name, email: receiver_email };
    let message = match compose_message(from, to, subject, body) {
        Ok(m) => m,
        Err(e) => {
            return Err(ProcessError::Build(e));
        },
    };
    Ok(Prepared { message, credentials })
}

/// The confirmation printed when the transport accepts the message.
pub open spec fn success_text() -> Seq<char> {
    "Email sent successfully!"@
}

/// The prefix put before a transport error in the final report.
pub open spec fn transport_error_prefix() -> Seq<char> {
    "Could not send email: "@
}

/// Map the transport's outcome to the final report: the fixed success
/// confirmation, or the transport's error text carried verbatim. One
/// outcome in, one report out — a failed submission is never retried.
pub fn conclude_submission(outcome: Result<(), String>) -> (r: Result<String, ProcessError>)
    ensures
        outcome is Ok ==> (r matches Ok(m) && m@ == success_text()),
        outcome matches Err(e) ==> r == Err::<String, ProcessError>(
            ProcessError::Transport(e),
        ),
{
    match outcome {
        Ok(()) => Ok("Email sent successfully!".to_owned()),
        Err(e) => Err(ProcessError::Transport(e)),
    }
}

/// The text of a process failure: the format message naming the field,
/// the rejected address with the parser's detail, or the transport's
/// error under the fixed prefix.
pub open spec fn process_error_text(e: ProcessError) -> Seq<char> {
    match e {
        ProcessError::Format(f) => crate::extract::format_error_text(f.field),
        ProcessError::Build(b) => build_error_prefix(b.field) + b.detail@,
        ProcessError::Transport(t) => transport_error_prefix() + t@,
    }
}

/// The prefix of a build failure's text, naming the rejected side.
pub open spec fn build_error_prefix(f: Field) -> Seq<char> {
    match f {
        Field::Sender => "Invalid sender address: "@,
        Field::Receiver => "Invalid receiver address: "@,
        Field::Content => "Invalid content format"@,
    }
}

impl ProcessError {
    /// The human-readable failure report for this error.
    pub fn message(&self) -> (m: String)
        ensures
            m@ == process_error_text(*self),
    {
        match self {
            ProcessError::Format(f) => f.message(),
            ProcessError::Build(b) => {
                let prefix = match b.field {
                    Field::Sender => "Invalid sender address: ",
                    Field::Receiver => "Invalid receiver address: ",
                    Field::Content => "Invalid content format",
                };
                String::from_str(prefix).concat(b.detail.as_str())
            },
            ProcessError::Transport(t) => String::from_str("Could not send email: ").concat(
                t.as_str(),
            ),
        }
    }
}

}
