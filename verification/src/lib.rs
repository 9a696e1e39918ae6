//! Callout verification of email addresses.
//!
//! The crate decides whether an address is likely deliverable without ever
//! transmitting a message. It holds the decisions of the probe: the syntax
//! pre-check of the address, the ordering of mail exchangers, the framing
//! and classification of SMTP replies, the session state machine that stops
//! before the `DATA` phase, and the orchestration over several exchangers.
//! Sockets, DNS queries and timers stay with the caller, which performs the
//! action each step asks for and reports back what happened.

pub mod address;
pub mod classify;
pub mod command;
pub mod orchestrator;
pub mod outcome;
pub mod policy;
pub mod reply;
pub mod resolver;
pub mod retry;
pub mod session;
pub mod text;

pub use address::{EmailAddress, InvalidFormat};
pub use classify::{classify, Classification};
pub use command::Command;
pub use orchestrator::{Directive, Orchestrator, Report, Stage};
pub use outcome::{DnsFailure, ResolutionError, SessionError, VerificationOutcome};
pub use policy::VerificationPolicy;
pub use reply::{frame_reply, parse_line, ReplyFraming, ReplyLine, SmtpReply};
pub use resolver::{
    after_address_lookup, after_mx_lookup, merge_hosts, order_by_preference, MxCandidate, MxDecision,
};
pub use retry::find_retry_hint;
pub use session::{Session, SessionAction, SessionState};
