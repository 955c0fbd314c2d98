//! A small mail-composition library: it extracts structured fields from
//! command-line style inputs (`[Subject] Body` content, `Name <email>`
//! addresses), assembles a plain-text message together with the SMTP
//! credentials, and maps the transport's outcome to a report.
//!
//! The SMTP session itself is outside this library; callers hand the
//! prepared message to a transport and hand the outcome back.

pub mod extract;
pub mod message;
pub mod pipeline;
