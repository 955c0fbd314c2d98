use mailer::extract::Field;
use mailer::message::{compose_message, validate_address, Address, ContentKind};
use mailer::pipeline::{conclude_submission, prepare_submission, ProcessError};

fn addr(name: &str, email: &str) -> Address {
    Address { name: name.to_string(), email: email.to_string() }
}

#[test]
fn compose_round_trip() {
    // Composition is an identity mapping on its fields: reading the
    // message back gives exactly the values that went in.
    let m = compose_message(
        addr("Alice", "alice@example.com"),
        addr("Bob", "bob@example.org"),
        "Hello".to_string(),
        " World".to_string(),
    )
    .unwrap();
    assert_eq!(m.from.name, "Alice");
    assert_eq!(m.from.email, "alice@example.com");
    assert_eq!(m.to.name, "Bob");
    assert_eq!(m.to.email, "bob@example.org");
    assert_eq!(m.subject, "Hello");
    assert_eq!(m.body, " World");
    assert_eq!(m.content_type, ContentKind::PlainText);
}

#[test]
fn compose_rejects_bad_sender_address() {
    let e = compose_message(
        addr("Alice", "not-an-email"),
        addr("Bob", "bob@example.org"),
        "s".to_string(),
        "b".to_string(),
    )
    .unwrap_err();
    assert_eq!(e.field, Field::Sender);
}

#[test]
fn compose_rejects_bad_receiver_address() {
    let e = compose_message(
        addr("Alice", "alice@example.com"),
        addr("Bob", "no-domain@"),
        "s".to_string(),
        "b".to_string(),
    )
    .unwrap_err();
    assert_eq!(e.field, Field::Receiver);
}

#[test]
fn validate_address_follows_mail_parser() {
    assert!(validate_address(&addr("Alice", "alice@example.com"), Field::Sender).is_none());
    let e = validate_address(&addr("Alice", "not-an-email"), Field::Receiver).unwrap();
    assert_eq!(e.field, Field::Receiver);
    assert!(!e.detail.is_empty());
}

#[test]
fn prepare_builds_message_and_credentials() {
    let p = prepare_submission(
        "Alice <alice@example.com>",
        "Bob <bob@example.org>",
        "[Hello] World",
        "app-password",
    )
    .unwrap();
    assert_eq!(p.message.from.name, "Alice");
    assert_eq!(p.message.from.email, "alice@example.com");
    assert_eq!(p.message.to.name, "Bob");
    assert_eq!(p.message.to.email, "bob@example.org");
    assert_eq!(p.message.subject, "Hello");
    assert_eq!(p.message.body, " World");
    assert_eq!(p.message.content_type, ContentKind::PlainText);
    // The username is the sender's email, the password the raw argument.
    assert_eq!(p.credentials.username, "alice@example.com");
    assert_eq!(p.credentials.password, "app-password");
}

#[test]
fn prepare_fails_on_bad_content_without_building() {
    let e = prepare_submission(
        "Alice <alice@example.com>",
        "Bob <bob@example.org>",
        "NoBrackets",
        "pw",
    )
    .unwrap_err();
    match e {
        ProcessError::Format(f) => {
            assert_eq!(f.field, Field::Content);
            assert_eq!(f.message(), "Invalid content format");
        }
        _ => panic!("expected a content format error"),
    }
}

#[test]
fn prepare_reports_first_failing_step() {
    // Content is checked first, then sender, then receiver.
    let e = prepare_submission("bad", "also bad", "still bad", "pw").unwrap_err();
    assert!(matches!(e, ProcessError::Format(f) if f.field == Field::Content));
    let e = prepare_submission("bad", "also bad", "[s]b", "pw").unwrap_err();
    assert!(matches!(e, ProcessError::Format(f) if f.field == Field::Sender));
    let e = prepare_submission("A <a@b.c>", "also bad", "[s]b", "pw").unwrap_err();
    assert!(matches!(e, ProcessError::Format(f) if f.field == Field::Receiver));
}

#[test]
fn prepare_surfaces_mailbox_rejection_after_patterns() {
    let e = prepare_submission("A <not-an-email>", "B <b@x.com>", "[s]b", "pw").unwrap_err();
    assert!(matches!(&e, ProcessError::Build(b) if b.field == Field::Sender));
    assert!(e.message().starts_with("Invalid sender address: "));
    let e = prepare_submission("A <a@b.c>", "B <not-an-email>", "[s]b", "pw").unwrap_err();
    assert!(matches!(&e, ProcessError::Build(b) if b.field == Field::Receiver));
}

#[test]
fn conclude_reports_success() {
    let m = conclude_submission(Ok(())).unwrap();
    assert_eq!(m, "Email sent successfully!");
}

#[test]
fn conclude_surfaces_transport_error_verbatim() {
    // A rejected submission surfaces the transport's error text as-is and
    // is reported as a failure; there is no retry path to observe.
    let e = conclude_submission(Err("invalid credentials".to_string())).unwrap_err();
    match &e {
        ProcessError::Transport(t) => assert_eq!(t, "invalid credentials"),
        _ => panic!("expected a transport error"),
    }
    assert_eq!(e.message(), "Could not send email: invalid credentials");
}
