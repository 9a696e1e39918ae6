//! The session with one exchanger: a state machine that greets, names a
//! sender, probes the recipient, and quits before any message is sent.
//!
//! The session performs no I/O. Its owner connects, reads one reply (or
//! fails to), hands the result to `step`, and does what the returned action
//! says: write a command and read the next reply, or close the connection.
//!
//! | state             | command sent            | accepted | then              |
//! |-------------------|-------------------------|----------|-------------------|
//! | `Connecting`      | none: the banner is awaited | 220  | `Greeted`         |
//! | `Greeted`         | `EHLO`; `HELO` once after 500 or 502 | 250 | `SenderAccepted` |
//! | `SenderAccepted`  | `MAIL FROM`             | 250      | `RecipientProbed` |
//! | `RecipientProbed` | `RCPT TO`               | 2xx      | `Closed`          |
//! | `Closed`          | `QUIT`, errors ignored  |          |                   |
//!
//! A reply that is not accepted closes the session with the verdict of the
//! classifier. So does a failure: a timeout defers, except that a banner
//! which never comes counts as an exchanger out of reach; a lost connection
//! is a network error; bytes that are no reply are a protocol error.

use vstd::prelude::*;

use crate::address::EmailAddress;
use crate::classify::classify;
use crate::classify::classify_spec;
use crate::classify::Classification;
use crate::classify::Judgement;
use crate::command::begins_with_data;
use crate::command::is_one_line;
use crate::command::lemma_command_is_not_data;
use crate::command::lemma_command_is_one_line;
use crate::command::Command;
use crate::command::CommandView;
use crate::outcome::SessionError;
use crate::outcome::Verdict;
use crate::outcome::VerificationOutcome;
use crate::policy::VerificationPolicy;
use crate::reply::ReplyView;
use crate::reply::SmtpReply;
use crate::text::line_safe;

verus! {

/// Where a session stands.
#[derive(Debug, Clone, Copy, PartialEq, Eq, Structural)]
pub enum SessionState {
    /// Waiting for the banner of the server.
    Connecting,
    /// The banner was accepted; the greeting is under way.
    Greeted,
    /// The greeting was accepted; the sender is being named.
    SenderAccepted,
    /// The sender was accepted; the recipient is being probed.
    RecipientProbed,
    /// The session is over.
    Closed,
}

/// What the owner of the connection does next.
#[derive(Debug, Clone, PartialEq, Eq)]
pub enum SessionAction {
    /// Write the command, pause, and read one reply. For `QUIT` a failure to
    /// write or to read is of no account.
    Send(Command),
    /// Close the connection; nothing more is to be written.
    Close,
}

/// An action as a mathematical value.
pub enum ActionView {
    Send(CommandView),
    Close,
}

impl View for SessionAction {
    type V = ActionView;

    open spec fn view(&self) -> ActionView {
        match self {
            SessionAction::Send(command) => ActionView::Send(command@),
            SessionAction::Close => ActionView::Close,
        }
    }
}

/// A session as a mathematical value.
pub struct SessionView {
    pub state: SessionState,
    /// Whether `HELO` has taken the place of `EHLO`.
    pub helo_sent: bool,
    pub identity: Seq<char>,
    pub sender: Seq<char>,
    pub recipient: Seq<char>,
    /// The verdict, once the session is closed.
    pub outcome: Option<Verdict>,
}

/// What one round trip brought: a reply, or the reason why there is none.
pub open spec fn event_view(event: Result<SmtpReply, SessionError>) -> Result<
    ReplyView,
    SessionError,
> {
    match event {
        Ok(reply) => Ok(reply@),
        Err(error) => Err(error),
    }
}

/// The failure as the session counts it: while the banner is awaited, a
/// timeout means that the exchanger cannot be reached; later it means that
/// the server fell silent.
pub open spec fn failure_in(state: SessionState, error: SessionError) -> SessionError {
    if state == SessionState::Connecting && error == SessionError::Timeout {
        SessionError::Unreachable
    } else {
        error
    }
}

/// Whether `reply`, received in answer to `EHLO`, asks for the plain
/// greeting: the server does not know the command (500) or has not
/// implemented it (502).
pub open spec fn wants_helo(reply: ReplyView) -> bool {
    reply.well_formed() && (reply.code == 500 || reply.code == 502)
}

impl SessionView {
    /// A session at its start.
    pub open spec fn opened(identity: Seq<char>, sender: Seq<char>, recipient: Seq<char>)
        -> SessionView {
        SessionView {
            state: SessionState::Connecting,
            helo_sent: false,
            identity,
            sender,
            recipient,
            outcome: None,
        }
    }

    /// A session is closed exactly when it has a verdict, which is one that a
    /// session can end in; `HELO` is never sent before the banner; and what
    /// goes into commands holds no control character.
    pub open spec fn well_formed(self) -> bool {
        &&& (self.state == SessionState::Closed) == (self.outcome is Some)
        &&& self.outcome matches Some(verdict) ==> verdict.comes_of_a_session()
        &&& self.helo_sent ==> self.state != SessionState::Connecting
        &&& line_safe(self.identity)
        &&& line_safe(self.sender)
        &&& line_safe(self.recipient)
    }

    /// The session, closed with `verdict`.
    pub open spec fn closed_with(self, verdict: Verdict) -> SessionView {
        SessionView { state: SessionState::Closed, outcome: Some(verdict), ..self }
    }

    /// The session in `state`, all else unchanged.
    pub open spec fn moved_to(self, state: SessionState) -> SessionView {
        SessionView { state, ..self }
    }

    /// The most round trips the session can still make.
    pub open spec fn rounds_left(self) -> nat {
        match self.state {
            SessionState::Connecting => 5,
            SessionState::Greeted => if self.helo_sent {
                3
            } else {
                4
            },
            SessionState::SenderAccepted => 2,
            SessionState::RecipientProbed => 1,
            SessionState::Closed => 0,
        }
    }
}

/// The session and the action that follow from `session` on `event`.
///
/// A closed session stays as it is. A failure closes the session with the
/// verdict that stands for it, a missing banner counting as an exchanger out
/// of reach; `QUIT` is still sent unless the connection is lost. A reply of 500 or 502 to `EHLO` brings `HELO`, once. Every other
/// reply is classified: an accepted one moves the session on and sends the
/// next command, a terminal one closes the session with its verdict and
/// sends `QUIT`. (The classifier accepts nothing in the last phase; were it
/// to, the recipient would count as deliverable.)
pub open spec fn step_spec(session: SessionView, event: Result<ReplyView, SessionError>) -> (
    SessionView,
    ActionView,
) {
    if session.state == SessionState::Closed {
        (session, ActionView::Close)
    } else {
        match event {
            Err(error) => (
                session.closed_with(Verdict::of_session_error(failure_in(session.state, error))),
                if failure_in(session.state, error).connection_lost() {
                    ActionView::Close
                } else {
                    ActionView::Send(CommandView::Quit)
                },
            ),
            Ok(reply) => if session.state == SessionState::Greeted && !session.helo_sent
                && wants_helo(reply) {
                (
                    SessionView { helo_sent: true, ..session },
                    ActionView::Send(CommandView::Helo(session.identity)),
                )
            } else {
                match classify_spec(reply, session.state) {
                    Judgement::Terminal(verdict) => (
                        session.closed_with(verdict),
                        ActionView::Send(CommandView::Quit),
                    ),
                    Judgement::Continue => match session.state {
                        SessionState::Connecting => (
                            session.moved_to(SessionState::Greeted),
                            ActionView::Send(CommandView::Ehlo(session.identity)),
                        ),
                        SessionState::Greeted => (
                            session.moved_to(SessionState::SenderAccepted),
                            ActionView::Send(CommandView::MailFrom(session.sender)),
                        ),
                        SessionState::SenderAccepted => (
                            session.moved_to(SessionState::RecipientProbed),
                            ActionView::Send(CommandView::RcptTo(session.recipient)),
                        ),
                        _ => (
                            session.closed_with(Verdict::Deliverable),
                            ActionView::Send(CommandView::Quit),
                        ),
                    },
                }
            },
        }
    }
}

/// The session after the events, taken in order.
pub open spec fn run(session: SessionView, events: Seq<Result<ReplyView, SessionError>>)
    -> SessionView
    decreases events.len(),
{
    if events.len() == 0 {
        session
    } else {
        step_spec(run(session, events.drop_last()), events.last()).0
    }
}

/// The action that answers event number `k`.
pub open spec fn action_at(
    session: SessionView,
    events: Seq<Result<ReplyView, SessionError>>,
    k: int,
) -> ActionView {
    step_spec(run(session, events.subrange(0, k)), events[k]).1
}

/// A step keeps a session well-formed and never brings back rounds.
pub proof fn lemma_step_preserves(session: SessionView, event: Result<ReplyView, SessionError>)
    requires
        session.well_formed(),
    ensures
        step_spec(session, event).0.well_formed(),
        step_spec(session, event).0.identity == session.identity,
        step_spec(session, event).0.sender == session.sender,
        step_spec(session, event).0.recipient == session.recipient,
        session.state != SessionState::Closed ==> step_spec(session, event).0.rounds_left()
            < session.rounds_left(),
        session.state == SessionState::Closed ==> step_spec(session, event).0 == session,
{
}

/// A run keeps a session well-formed.
pub proof fn lemma_run_preserves(
    session: SessionView,
    events: Seq<Result<ReplyView, SessionError>>,
)
    requires
        session.well_formed(),
    ensures
        run(session, events).well_formed(),
        run(session, events).identity == session.identity,
        run(session, events).sender == session.sender,
        run(session, events).recipient == session.recipient,
        run(session, events).rounds_left() + events.len() <= session.rounds_left()
            || run(session, events).state == SessionState::Closed,
    decreases events.len(),
{
    if events.len() > 0 {
        lemma_run_preserves(session, events.drop_last());
        lemma_step_preserves(run(session, events.drop_last()), events.last());
    }
}

/// Whatever the server replies, and however often, no session ever sends
/// `DATA`: each command it sends is one line, and that line does not begin
/// with the word.
pub proof fn law_never_sends_data(
    session: SessionView,
    events: Seq<Result<ReplyView, SessionError>>,
    k: int,
)
    requires
        session.well_formed(),
        0 <= k < events.len(),
    ensures
        action_at(session, events, k) matches ActionView::Send(command) ==> is_one_line(
            command.wire(),
        ) && !begins_with_data(command.wire()),
{
    let before = run(session, events.subrange(0, k));
    lemma_run_preserves(session, events.subrange(0, k));
    if let ActionView::Send(command) = step_spec(before, events[k]).1 {
        lemma_command_is_not_data(command);
        lemma_command_is_one_line(command);
    }
}

/// Once a reply has settled the verdict, `QUIT` is sent: every reply that
/// closes a session, with whatever verdict, is answered by `QUIT`.
pub proof fn law_quit_follows_verdict(session: SessionView, reply: ReplyView)
    requires
        session.well_formed(),
        session.state != SessionState::Closed,
    ensures
        step_spec(session, Ok(reply)).0.state == SessionState::Closed ==> step_spec(
            session,
            Ok(reply),
        ).1 == ActionView::Send(CommandView::Quit),
        classify_spec(reply, session.state) matches Judgement::Terminal(verdict) ==> {
            ||| session.state == SessionState::Greeted && !session.helo_sent && wants_helo(reply)
            ||| step_spec(session, Ok(reply)) == (
                session.closed_with(verdict),
                ActionView::Send(CommandView::Quit),
            )
        },
{
}

/// Whatever becomes of `QUIT`, the outcome stands: a closed session
/// stays as it is under every further event, and asks for nothing but to
/// close the connection.
pub proof fn law_verdict_is_final(
    session: SessionView,
    events: Seq<Result<ReplyView, SessionError>>,
)
    requires
        session.state == SessionState::Closed,
    ensures
        run(session, events) == session,
        forall|k: int| 0 <= k < events.len() ==> action_at(session, events, k) == ActionView::Close,
    decreases events.len(),
{
    if events.len() > 0 {
        law_verdict_is_final(session, events.drop_last());
    }
    assert forall|k: int| 0 <= k < events.len() implies action_at(session, events, k)
        == ActionView::Close by {
        law_verdict_is_final(session, events.subrange(0, k));
    }
}

/// Where the banner is 220 and greeting and sender are answered by 250, the
/// reply to `RCPT TO` alone decides: the session ends with the verdict that
/// the classifier gives that reply at the recipient phase.
pub proof fn law_recipient_reply_decides(
    session: SessionView,
    banner: ReplyView,
    greeting: ReplyView,
    sender: ReplyView,
    recipient: ReplyView,
)
    requires
        session.state == SessionState::Connecting,
        banner.well_formed() && banner.code == 220,
        greeting.well_formed() && greeting.code == 250,
        sender.well_formed() && sender.code == 250,
    ensures
        run(session, seq![Ok(banner), Ok(greeting), Ok(sender), Ok(recipient)]).state
            == SessionState::Closed,
        classify_spec(recipient, SessionState::RecipientProbed) == Judgement::Terminal(
            run(session, seq![Ok(banner), Ok(greeting), Ok(sender), Ok(recipient)]).outcome->0,
        ),
        action_at(session, seq![Ok(banner), Ok(greeting), Ok(sender), Ok(recipient)], 3)
            == ActionView::Send(CommandView::Quit),
{
    let events = seq![Ok(banner), Ok(greeting), Ok(sender), Ok(recipient)];
    let three = events.drop_last();
    let two = three.drop_last();
    let one = two.drop_last();
    assert(three =~= seq![Ok(banner), Ok(greeting), Ok(sender)]);
    assert(two =~= seq![Ok(banner), Ok(greeting)]);
    assert(one =~= seq![Ok(banner)]);
    assert(one.drop_last() =~= Seq::empty());
    assert(run(session, one.drop_last()) == session);
    assert(run(session, one).state == SessionState::Greeted);
    assert(run(session, two).state == SessionState::SenderAccepted);
    assert(run(session, three).state == SessionState::RecipientProbed);
    assert(events.subrange(0, 3) =~= three);
}

/// No session ends in a verdict that is settled before any exchanger is
/// talked to: whatever the events, the outcome of a session that was opened
/// is neither `InvalidFormat` nor `DomainNotFound`.
pub proof fn law_session_outcome_comes_of_a_session(
    identity: Seq<char>,
    sender: Seq<char>,
    recipient: Seq<char>,
    events: Seq<Result<ReplyView, SessionError>>,
)
    ensures
        run(SessionView::opened(identity, sender, recipient), events).outcome matches Some(verdict)
            ==> verdict.comes_of_a_session(),
        !(run(SessionView::opened(identity, sender, recipient), events).outcome matches Some(
            Verdict::InvalidFormat,
        )),
        !(run(SessionView::opened(identity, sender, recipient), events).outcome matches Some(
            Verdict::DomainNotFound,
        )),
{
    lemma_run_outcome_comes_of_a_session(
        SessionView::opened(identity, sender, recipient),
        events,
    );
}

/// A run adds no verdict that is settled before any exchanger is talked to.
pub proof fn lemma_run_outcome_comes_of_a_session(
    session: SessionView,
    events: Seq<Result<ReplyView, SessionError>>,
)
    requires
        session.outcome matches Some(verdict) ==> verdict.comes_of_a_session(),
    ensures
        run(session, events).outcome matches Some(verdict) ==> verdict.comes_of_a_session(),
    decreases events.len(),
{
    if events.len() > 0 {
        lemma_run_outcome_comes_of_a_session(session, events.drop_last());
    }
}

/// A session is over after five round trips at the latest: banner, `EHLO`,
/// `HELO`, `MAIL FROM` and `RCPT TO`.
pub proof fn law_session_is_bounded(
    identity: Seq<char>,
    sender: Seq<char>,
    recipient: Seq<char>,
    events: Seq<Result<ReplyView, SessionError>>,
)
    requires
        line_safe(identity),
        line_safe(sender),
        line_safe(recipient),
        events.len() >= 5,
    ensures
        run(SessionView::opened(identity, sender, recipient), events).state
            == SessionState::Closed,
        run(SessionView::opened(identity, sender, recipient), events).outcome is Some,
{
    lemma_run_preserves(SessionView::opened(identity, sender, recipient), events);
}

/// The session with one exchanger.
#[derive(Debug, PartialEq, Eq)]
pub struct Session {
    state: SessionState,
    helo_sent: bool,
    identity: String,
    sender: String,
    recipient: String,
    outcome: Option<VerificationOutcome>,
}

impl View for Session {
    type V = SessionView;

    closed spec fn view(&self) -> SessionView {
        SessionView {
            state: self.state,
            helo_sent: self.helo_sent,
            identity: self.identity@,
            sender: self.sender@,
            recipient: self.recipient@,
            outcome: match self.outcome {
                Some(outcome) => Some(outcome@),
                None => None,
            },
        }
    }
}

impl Session {
    /// A session that is about to connect: it will greet as the identity of
    /// the policy, name the sender of the policy, and probe `recipient`.
    pub fn open(policy: &VerificationPolicy, recipient: &EmailAddress) -> (session: Session)
        ensures
            session@ == SessionView::opened(
                policy@.probe_identity,
                policy@.probe_sender_address,
                recipient@.text(),
            ),
            session@.well_formed(),
    {
        let identity = policy.probe_identity().to_owned();
        let sender = policy.probe_sender_address().to_owned();
        let recipient = recipient.to_text();
        Session {
            state: SessionState::Connecting,
            helo_sent: false,
            identity,
            sender,
            recipient,
            outcome: None,
        }
    }

    /// Where the session stands.
    pub fn state(&self) -> (state: SessionState)
        ensures
            state == self@.state,
            self@.well_formed(),
    {
        proof {
            use_type_invariant(self);
        }
        self.state
    }

    /// Whether the session is over.
    pub fn is_closed(&self) -> (closed: bool)
        ensures
            closed == (self@.state == SessionState::Closed),
            closed == (self@.outcome is Some),
    {
        proof {
            use_type_invariant(self);
        }
        self.state == SessionState::Closed
    }

    /// The verdict of a closed session.
    pub fn outcome(&self) -> (outcome: Option<&VerificationOutcome>)
        ensures
            match outcome {
                Some(verdict) => self@.outcome == Some(verdict@) && verdict@.comes_of_a_session(),
                None => self@.outcome is None,
            },
    {
        proof {
            use_type_invariant(self);
        }
        self.outcome.as_ref()
    }

    /// Gives up the session for its verdict.
    pub fn into_outcome(self) -> (outcome: Option<VerificationOutcome>)
        ensures
            match outcome {
                Some(verdict) => self@.outcome == Some(verdict@) && verdict@.comes_of_a_session(),
                None => self@.outcome is None,
            },
    {
        proof {
            use_type_invariant(&self);
        }
        self.outcome
    }

    fn close_with(self, outcome: VerificationOutcome) -> (closed: Session)
        requires
            outcome@.comes_of_a_session(),
        ensures
            closed@ == self@.closed_with(outcome@),
    {
        proof {
            use_type_invariant(&self);
        }
        Session {
            state: SessionState::Closed,
            helo_sent: self.helo_sent,
            identity: self.identity,
            sender: self.sender,
            recipient: self.recipient,
            outcome: Some(outcome),
        }
    }

    fn move_to(self, state: SessionState) -> (moved: Session)
        requires
            state != SessionState::Closed,
            state != SessionState::Connecting,
            self@.state != SessionState::Closed,
        ensures
            moved@ == self@.moved_to(state),
    {
        proof {
            use_type_invariant(&self);
        }
        Session {
            state,
            helo_sent: self.helo_sent,
            identity: self.identity,
            sender: self.sender,
            recipient: self.recipient,
            outcome: self.outcome,
        }
    }

    /// Takes in what the last round trip brought and says what to do next.
    ///
    /// The command of a `Send` is one line and never `DATA`. A session that
    /// closes on a reply asks for `QUIT`; a closed session asks for nothing
    /// but `Close` and keeps its verdict.
    pub fn step(self, event: Result<SmtpReply, SessionError>) -> (next: (Session, SessionAction))
        ensures
            (next.0@, next.1@) == step_spec(self@, event_view(event)),
            next.0@.well_formed(),
            next.1 matches SessionAction::Send(command) ==> is_one_line(command@.wire())
                && !begins_with_data(command@.wire()),
    {
        proof {
            use_type_invariant(&self);
            lemma_step_preserves(self@, event_view(event));
            if let ActionView::Send(command) = step_spec(self@, event_view(event)).1 {
                lemma_command_is_not_data(command);
                lemma_command_is_one_line(command);
            }
        }
        if self.state == SessionState::Closed {
            return (self, SessionAction::Close);
        }
        match event {
            Err(error) => {
                let error = if self.state == SessionState::Connecting && error
                    == SessionError::Timeout {
                    SessionError::Unreachable
                } else {
                    error
                };
                let action = if error.connection_lost() {
                    SessionAction::Close
                } else {
                    SessionAction::Send(Command::Quit)
                };
                (self.close_with(VerificationOutcome::from_session_error(error)), action)
            },
            Ok(reply) => {
                if self.state == SessionState::Greeted && !self.helo_sent && reply.is_well_formed()
                    && (reply.code == 500 || reply.code == 502) {
                    let command = Command::Helo(self.identity.clone());
                    let session = Session {
                        state: self.state,
                        helo_sent: true,
                        identity: self.identity,
                        sender: self.sender,
                        recipient: self.recipient,
                        outcome: self.outcome,
                    };
                    return (session, SessionAction::Send(command));
                }
                match classify(&reply, self.state) {
                    Classification::Terminal(outcome) => (
                        self.close_with(outcome),
                        SessionAction::Send(Command::Quit),
                    ),
                    Classification::Continue => match self.state {
                        SessionState::Connecting => {
                            let command = Command::Ehlo(self.identity.clone());
                            (self.move_to(SessionState::Greeted), SessionAction::Send(command))
                        },
                        SessionState::Greeted => {
                            let command = Command::MailFrom(self.sender.clone());
                            (
                                self.move_to(SessionState::SenderAccepted),
                                SessionAction::Send(command),
                            )
                        },
                        SessionState::SenderAccepted => {
                            let command = Command::RcptTo(self.recipient.clone());
                            (
                                self.move_to(SessionState::RecipientProbed),
                                SessionAction::Send(command),
                            )
                        },
                        _ => (
                            self.close_with(VerificationOutcome::Deliverable),
                            SessionAction::Send(Command::Quit),
                        ),
                    },
                }
            },
        }
    }

    #[verifier::type_invariant]
    spec fn valid(&self) -> bool {
        self@.well_formed()
    }
}

} // verus!
