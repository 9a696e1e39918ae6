//! The meaning of a reply in each phase of the session.
//!
//! | phase             | accepted | otherwise                                   |
//! |-------------------|----------|---------------------------------------------|
//! | `Connecting`      | 220      | network error                               |
//! | `Greeted`         | 250      | 5xx but 550, 551, 553: policy; else protocol |
//! | `SenderAccepted`  | 250      | policy                                      |
//! | `RecipientProbed` | 2xx      | 550, 551, 553: no such mailbox; 4xx: deferred; 5xx: policy; else protocol |
//!
//! Before the table is consulted, a reply that is not well-formed is a
//! protocol error, and 450, 451 and 452 defer in every phase.

use vstd::prelude::*;

use crate::outcome::Verdict;
use crate::outcome::VerificationOutcome;
use crate::reply::ReplyView;
use crate::reply::SmtpReply;
use crate::retry::find_retry_hint;
use crate::retry::retry_hint;
use crate::session::SessionState;
use crate::text::decode_lossy;
use crate::text::decoded;

verus! {

/// What a reply means for the session.
#[derive(Debug, Clone, PartialEq, Eq)]
pub enum Classification {
    /// The command was accepted; the session goes on.
    Continue,
    /// The session ends with this outcome.
    Terminal(VerificationOutcome),
}

/// A classification as a mathematical value.
pub enum Judgement {
    Continue,
    Terminal(Verdict),
}

impl View for Classification {
    type V = Judgement;

    open spec fn view(&self) -> Judgement {
        match self {
            Classification::Continue => Judgement::Continue,
            Classification::Terminal(outcome) => Judgement::Terminal(outcome@),
        }
    }
}

/// The codes by which a server defers: 450, 451 and 452.
pub open spec fn is_deferral(code: u16) -> bool {
    code == 450 || code == 451 || code == 452
}

/// The codes by which a server denies a mailbox: 550, 551 and 553.
pub open spec fn is_mailbox_code(code: u16) -> bool {
    code == 550 || code == 551 || code == 553
}

/// The code that lets the session leave `phase` for the next one.
pub open spec fn accept_code(phase: SessionState) -> Option<u16> {
    match phase {
        SessionState::Connecting => Some(220u16),
        SessionState::Greeted => Some(250u16),
        SessionState::SenderAccepted => Some(250u16),
        SessionState::RecipientProbed => None,
        SessionState::Closed => None,
    }
}

/// The text that goes with a verdict drawn from `reply`.
pub open spec fn reply_text(reply: ReplyView) -> Seq<char> {
    decoded(reply.summary())
}

/// The meaning of `reply`, received in `phase`.
pub open spec fn classify_spec(reply: ReplyView, phase: SessionState) -> Judgement {
    let code = reply.code;
    if !reply.well_formed() {
        Judgement::Terminal(Verdict::ProtocolError("malformed reply"@))
    } else if is_deferral(code) {
        Judgement::Terminal(Verdict::TemporarilyUnavailable(retry_hint(reply.lines)))
    } else {
        match phase {
            SessionState::Connecting => if code == 220 {
                Judgement::Continue
            } else {
                Judgement::Terminal(Verdict::NetworkError(reply_text(reply)))
            },
            SessionState::Greeted => if code == 250 {
                Judgement::Continue
            } else if code >= 500 && !is_mailbox_code(code) {
                Judgement::Terminal(Verdict::PolicyRejected(reply_text(reply)))
            } else {
                Judgement::Terminal(Verdict::ProtocolError(reply_text(reply)))
            },
            SessionState::SenderAccepted => if code == 250 {
                Judgement::Continue
            } else {
                Judgement::Terminal(Verdict::PolicyRejected(reply_text(reply)))
            },
            SessionState::RecipientProbed => if code < 300 {
                Judgement::Terminal(Verdict::Deliverable)
            } else if is_mailbox_code(code) {
                Judgement::Terminal(Verdict::MailboxNotFound)
            } else if 400 <= code < 500 {
                Judgement::Terminal(Verdict::TemporarilyUnavailable(retry_hint(reply.lines)))
            } else if code >= 500 {
                Judgement::Terminal(Verdict::PolicyRejected(reply_text(reply)))
            } else {
                Judgement::Terminal(Verdict::ProtocolError(reply_text(reply)))
            },
            SessionState::Closed => Judgement::Terminal(Verdict::ProtocolError(reply_text(reply))),
        }
    }
}

/// The session goes on only from a phase that has an accept code, and only
/// on that code.
pub proof fn law_continue_only_on_accept_code(reply: ReplyView, phase: SessionState)
    ensures
        classify_spec(reply, phase) is Continue <==> reply.well_formed() && accept_code(phase)
            == Some(reply.code),
{
}

/// At the recipient phase every reply ends the session: a 2xx as
/// deliverable, a mailbox code as no such mailbox.
pub proof fn law_recipient_phase_is_terminal(reply: ReplyView)
    ensures
        classify_spec(reply, SessionState::RecipientProbed) is Terminal,
        reply.well_formed() && reply.code < 300 ==> classify_spec(
            reply,
            SessionState::RecipientProbed,
        ) == Judgement::Terminal(Verdict::Deliverable),
        reply.well_formed() && is_mailbox_code(reply.code) ==> classify_spec(
            reply,
            SessionState::RecipientProbed,
        ) == Judgement::Terminal(Verdict::MailboxNotFound),
{
}

/// The server text of `reply` as characters.
fn text_of(reply: &SmtpReply) -> (text: String)
    ensures
        text@ == reply_text(reply@),
{
    let summary = reply.summary();
    decode_lossy(summary.as_slice())
}

/// Says what `reply` means when it arrives in `phase`.
pub fn classify(reply: &SmtpReply, phase: SessionState) -> (class: Classification)
    ensures
        class@ == classify_spec(reply@, phase),
{
    let code = reply.code;
    if !reply.is_well_formed() {
        return Classification::Terminal(
            VerificationOutcome::ProtocolError("malformed reply".to_owned()),
        );
    }
    if code == 450 || code == 451 || code == 452 {
        return Classification::Terminal(
            VerificationOutcome::TemporarilyUnavailable(find_retry_hint(&reply.lines)),
        );
    }
    let mailbox = code == 550 || code == 551 || code == 553;
    match phase {
        SessionState::Connecting => if code == 220 {
            Classification::Continue
        } else {
            Classification::Terminal(VerificationOutcome::NetworkError(text_of(reply)))
        },
        SessionState::Greeted => if code == 250 {
            Classification::Continue
        } else if code >= 500 && !mailbox {
            Classification::Terminal(VerificationOutcome::PolicyRejected(text_of(reply)))
        } else {
            Classification::Terminal(VerificationOutcome::ProtocolError(text_of(reply)))
        },
        SessionState::SenderAccepted => if code == 250 {
            Classification::Continue
        } else {
            Classification::Terminal(VerificationOutcome::PolicyRejected(text_of(reply)))
        },
        SessionState::RecipientProbed => if code < 300 {
            Classification::Terminal(VerificationOutcome::Deliverable)
        } else if mailbox {
            Classification::Terminal(VerificationOutcome::MailboxNotFound)
        } else if code < 500 && code >= 400 {
            Classification::Terminal(
                VerificationOutcome::TemporarilyUnavailable(find_retry_hint(&reply.lines)),
            )
        } else if code >= 500 {
            Classification::Terminal(VerificationOutcome::PolicyRejected(text_of(reply)))
        } else {
            Classification::Terminal(VerificationOutcome::ProtocolError(text_of(reply)))
        },
        SessionState::Closed => Classification::Terminal(
            VerificationOutcome::ProtocolError(text_of(reply)),
        ),
    }
}

} // verus!
