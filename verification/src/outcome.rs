//! The shared vocabulary of verdicts and failure kinds.

use vstd::prelude::*;
use vstd::string::StringExecFns;

verus! {

/// What went wrong on the connection to one exchanger.
///
/// Transport errors are reduced to these kinds before they reach the session,
/// so no raw socket error travels further.
#[derive(Debug, Clone, Copy, PartialEq, Eq, Structural)]
pub enum SessionError {
    /// No complete reply arrived within the per-command timeout.
    Timeout,
    /// The exchanger refused the connection.
    ConnectionRefused,
    /// The connection was reset or closed under the session.
    ConnectionReset,
    /// The exchanger could not be reached (no route, or the connect attempt
    /// ran out of time).
    Unreachable,
    /// The bytes received are no SMTP reply.
    MalformedReply,
}

/// Why a DNS query produced no records.
#[derive(Debug, Clone, Copy, PartialEq, Eq, Structural)]
pub enum DnsFailure {
    /// The name exists without records of the kind asked for, or does not exist.
    NoRecords,
    /// The query could not be carried out.
    Transport,
    /// The response could not be understood.
    Malformed,
}

/// Why no exchanger could be named for a domain.
#[derive(Debug, Clone, Copy, PartialEq, Eq, Structural)]
pub enum ResolutionError {
    /// Neither a mail exchanger nor an address record exists.
    DomainNotFound,
    /// The DNS query could not be carried out.
    NetworkError,
    /// The DNS response could not be understood.
    ProtocolError,
}

/// The result of one verification.
#[derive(Debug, Clone, PartialEq, Eq)]
pub enum VerificationOutcome {
    /// The exchanger accepted the recipient.
    Deliverable,
    /// The exchanger stated that the mailbox does not exist.
    MailboxNotFound,
    /// The domain has neither a mail exchanger nor an address record.
    DomainNotFound,
    /// The exchanger deferred the probe; the value is the delay in seconds
    /// that the server suggested, where it suggested one.
    TemporarilyUnavailable(Option<u64>),
    /// The exchanger refused the probe for reasons of its own.
    PolicyRejected(String),
    /// The exchanger could not be talked to.
    NetworkError(String),
    /// The exchanger, or the DNS, did not follow the protocol.
    ProtocolError(String),
    /// The input is no email address.
    InvalidFormat,
}

/// A verification outcome as a mathematical value.
pub enum Verdict {
    Deliverable,
    MailboxNotFound,
    DomainNotFound,
    TemporarilyUnavailable(Option<u64>),
    PolicyRejected(Seq<char>),
    NetworkError(Seq<char>),
    ProtocolError(Seq<char>),
    InvalidFormat,
}

impl View for VerificationOutcome {
    type V = Verdict;

    open spec fn view(&self) -> Verdict {
        match self {
            VerificationOutcome::Deliverable => Verdict::Deliverable,
            VerificationOutcome::MailboxNotFound => Verdict::MailboxNotFound,
            VerificationOutcome::DomainNotFound => Verdict::DomainNotFound,
            VerificationOutcome::TemporarilyUnavailable(hint) => Verdict::TemporarilyUnavailable(
                *hint,
            ),
            VerificationOutcome::PolicyRejected(reason) => Verdict::PolicyRejected(reason@),
            VerificationOutcome::NetworkError(detail) => Verdict::NetworkError(detail@),
            VerificationOutcome::ProtocolError(detail) => Verdict::ProtocolError(detail@),
            VerificationOutcome::InvalidFormat => Verdict::InvalidFormat,
        }
    }
}

impl Verdict {
    /// A later attempt may end differently: the exchanger deferred, or the
    /// network failed.
    pub open spec fn is_retryable(self) -> bool {
        self is TemporarilyUnavailable || self is NetworkError
    }

    /// The failure lies on the way to the exchanger, so another exchanger of
    /// the same domain is worth a try.
    pub open spec fn is_network_error(self) -> bool {
        self is NetworkError
    }

    /// Whether a session with an exchanger can end in this way. All verdicts
    /// can but `InvalidFormat` and `DomainNotFound`, which are settled before
    /// any exchanger is talked to.
    pub open spec fn comes_of_a_session(self) -> bool {
        !(self is InvalidFormat) && !(self is DomainNotFound)
    }

    /// The text that accompanies the verdict, where it has one.
    pub open spec fn detail(self) -> Option<Seq<char>> {
        match self {
            Verdict::PolicyRejected(text) => Some(text),
            Verdict::NetworkError(text) => Some(text),
            Verdict::ProtocolError(text) => Some(text),
            _ => None,
        }
    }

    /// The verdict in words, with its text where it has one.
    pub open spec fn description(self) -> Seq<char> {
        match self {
            Verdict::Deliverable => "Email address is valid"@,
            Verdict::MailboxNotFound => "Mailbox not found"@,
            Verdict::DomainNotFound => "No MX records found for the domain"@,
            Verdict::TemporarilyUnavailable(_) => "Temporarily unavailable"@,
            Verdict::PolicyRejected(reason) => "SMTP command error: "@ + reason,
            Verdict::NetworkError(detail) => "SMTP connection error: "@ + detail,
            Verdict::ProtocolError(detail) => "SMTP protocol error: "@ + detail,
            Verdict::InvalidFormat => "Invalid email format"@,
        }
    }

    /// The verdict that a failed connection stands for.
    pub open spec fn of_session_error(error: SessionError) -> Verdict {
        match error {
            SessionError::Timeout => Verdict::TemporarilyUnavailable(None),
            SessionError::ConnectionRefused => Verdict::NetworkError("connection refused"@),
            SessionError::ConnectionReset => Verdict::NetworkError("connection reset"@),
            SessionError::Unreachable => Verdict::NetworkError("exchanger unreachable"@),
            SessionError::MalformedReply => Verdict::ProtocolError("malformed reply"@),
        }
    }

    /// The verdict that a failed resolution stands for.
    pub open spec fn of_resolution_error(error: ResolutionError) -> Verdict {
        match error {
            ResolutionError::DomainNotFound => Verdict::DomainNotFound,
            ResolutionError::NetworkError => Verdict::NetworkError("DNS query failed"@),
            ResolutionError::ProtocolError => Verdict::ProtocolError("malformed DNS response"@),
        }
    }
}

impl SessionError {
    /// The connection itself is gone or was never made, so nothing more can
    /// be written to it.
    pub open spec fn spec_connection_lost(self) -> bool {
        self == SessionError::ConnectionRefused || self == SessionError::ConnectionReset || self
            == SessionError::Unreachable
    }

    /// The connection itself is gone or was never made.
    #[verifier::when_used_as_spec(spec_connection_lost)]
    pub fn connection_lost(self) -> (lost: bool)
        ensures
            lost == self.spec_connection_lost(),
    {
        match self {
            SessionError::ConnectionRefused => true,
            SessionError::ConnectionReset => true,
            SessionError::Unreachable => true,
            SessionError::Timeout => false,
            SessionError::MalformedReply => false,
        }
    }
}

impl VerificationOutcome {
    /// Whether a later attempt may end differently.
    pub fn is_retryable(&self) -> (retryable: bool)
        ensures
            retryable == self@.is_retryable(),
    {
        match self {
            VerificationOutcome::TemporarilyUnavailable(_) => true,
            VerificationOutcome::NetworkError(_) => true,
            _ => false,
        }
    }

    /// Whether the failure lies on the way to the exchanger.
    pub fn is_network_error(&self) -> (network: bool)
        ensures
            network == self@.is_network_error(),
    {
        match self {
            VerificationOutcome::NetworkError(_) => true,
            _ => false,
        }
    }

    /// Whether a session with an exchanger can end in this outcome.
    pub fn comes_of_a_session(&self) -> (possible: bool)
        ensures
            possible == self@.comes_of_a_session(),
    {
        match self {
            VerificationOutcome::InvalidFormat => false,
            VerificationOutcome::DomainNotFound => false,
            _ => true,
        }
    }

    /// The text that accompanies the verdict, where it has one.
    pub fn detail(&self) -> (text: Option<&str>)
        ensures
            match text {
                Some(t) => self@.detail() == Some(t@),
                None => self@.detail() is None,
            },
    {
        match self {
            VerificationOutcome::PolicyRejected(reason) => Some(reason.as_str()),
            VerificationOutcome::NetworkError(detail) => Some(detail.as_str()),
            VerificationOutcome::ProtocolError(detail) => Some(detail.as_str()),
            _ => None,
        }
    }

    /// The verdict in words, with its text where it has one.
    pub fn describe(&self) -> (words: String)
        ensures
            words@ == self@.description(),
    {
        match self {
            VerificationOutcome::Deliverable => "Email address is valid".to_owned(),
            VerificationOutcome::MailboxNotFound => "Mailbox not found".to_owned(),
            VerificationOutcome::DomainNotFound => "No MX records found for the domain".to_owned(),
            VerificationOutcome::TemporarilyUnavailable(_) => "Temporarily unavailable".to_owned(),
            VerificationOutcome::PolicyRejected(reason) => {
                let mut words = "SMTP command error: ".to_owned();
                words.append(reason.as_str());
                words
            },
            VerificationOutcome::NetworkError(detail) => {
                let mut words = "SMTP connection error: ".to_owned();
                words.append(detail.as_str());
                words
            },
            VerificationOutcome::ProtocolError(detail) => {
                let mut words = "SMTP protocol error: ".to_owned();
                words.append(detail.as_str());
                words
            },
            VerificationOutcome::InvalidFormat => "Invalid email format".to_owned(),
        }
    }

    /// The verdict that a failed connection stands for: a timeout defers, a
    /// lost connection is a network error, and bytes that are no reply are a
    /// protocol error.
    pub fn from_session_error(error: SessionError) -> (outcome: VerificationOutcome)
        ensures
            outcome@ == Verdict::of_session_error(error),
    {
        match error {
            SessionError::Timeout => VerificationOutcome::TemporarilyUnavailable(None),
            SessionError::ConnectionRefused => VerificationOutcome::NetworkError(
                "connection refused".to_owned(),
            ),
            SessionError::ConnectionReset => VerificationOutcome::NetworkError(
                "connection reset".to_owned(),
            ),
            SessionError::Unreachable => VerificationOutcome::NetworkError(
                "exchanger unreachable".to_owned(),
            ),
            SessionError::MalformedReply => VerificationOutcome::ProtocolError(
                "malformed reply".to_owned(),
            ),
        }
    }

    /// The verdict that a failed resolution stands for.
    pub fn from_resolution_error(error: ResolutionError) -> (outcome: VerificationOutcome)
        ensures
            outcome@ == Verdict::of_resolution_error(error),
    {
        match error {
            ResolutionError::DomainNotFound => VerificationOutcome::DomainNotFound,
            ResolutionError::NetworkError => VerificationOutcome::NetworkError(
                "DNS query failed".to_owned(),
            ),
            ResolutionError::ProtocolError => VerificationOutcome::ProtocolError(
                "malformed DNS response".to_owned(),
            ),
        }
    }
}

} // verus!
