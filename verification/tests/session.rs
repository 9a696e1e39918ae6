use email_verify::{
    Command, EmailAddress, Session, SessionAction, SessionError, SessionState, SmtpReply,
    VerificationOutcome, VerificationPolicy,
};

fn policy() -> VerificationPolicy {
    VerificationPolicy::new(5_000, 0, "probe@example.org", "probe.example.org", 3).unwrap()
}

fn open() -> Session {
    Session::open(&policy(), &EmailAddress::parse("test@example.com").unwrap())
}

fn reply(code: u16) -> Result<SmtpReply, SessionError> {
    Ok(SmtpReply::single(code, b"text"))
}

/// Feeds the events to a fresh session until it asks to close or the events
/// run out, and returns the session and what it sent.
fn play(events: Vec<Result<SmtpReply, SessionError>>) -> (Session, Vec<String>, Option<SessionAction>) {
    let mut session = open();
    let mut sent = Vec::new();
    let mut last = None;
    for event in events {
        let (next, action) = session.step(event);
        session = next;
        if let SessionAction::Send(command) = &action {
            sent.push(command.wire());
        }
        last = Some(action);
    }
    (session, sent, last)
}

#[test]
fn a_session_opens_in_connecting() {
    let session = open();
    assert_eq!(session.state(), SessionState::Connecting);
    assert!(!session.is_closed());
    assert_eq!(session.outcome(), None);
}

#[test]
fn an_accepted_recipient_is_deliverable() {
    let (session, sent, last) = play(vec![reply(220), reply(250), reply(250), reply(250)]);
    assert_eq!(session.outcome(), Some(&VerificationOutcome::Deliverable));
    assert_eq!(session.state(), SessionState::Closed);
    assert_eq!(
        sent,
        vec![
            "EHLO probe.example.org\r\n",
            "MAIL FROM:<probe@example.org>\r\n",
            "RCPT TO:<test@example.com>\r\n",
            "QUIT\r\n",
        ]
    );
    assert_eq!(last, Some(SessionAction::Send(Command::Quit)));
}

#[test]
fn a_denied_recipient_is_mailbox_not_found() {
    let (session, sent, _) = play(vec![reply(220), reply(250), reply(250), reply(550)]);
    assert_eq!(session.into_outcome(), Some(VerificationOutcome::MailboxNotFound));
    assert_eq!(sent.last().map(String::as_str), Some("QUIT\r\n"));
}

#[test]
fn a_deferred_recipient_is_temporarily_unavailable() {
    let (session, sent, _) = play(vec![reply(220), reply(250), reply(250), reply(451)]);
    assert_eq!(session.into_outcome(), Some(VerificationOutcome::TemporarilyUnavailable(None)));
    assert_eq!(sent.last().map(String::as_str), Some("QUIT\r\n"));
}

#[test]
fn the_session_passes_through_its_states() {
    let session = open();
    let (session, action) = session.step(reply(220));
    assert_eq!(session.state(), SessionState::Greeted);
    assert_eq!(action, SessionAction::Send(Command::Ehlo("probe.example.org".to_string())));
    let (session, action) = session.step(reply(250));
    assert_eq!(session.state(), SessionState::SenderAccepted);
    assert_eq!(action, SessionAction::Send(Command::MailFrom("probe@example.org".to_string())));
    let (session, action) = session.step(reply(250));
    assert_eq!(session.state(), SessionState::RecipientProbed);
    assert_eq!(action, SessionAction::Send(Command::RcptTo("test@example.com".to_string())));
    let (session, action) = session.step(reply(251));
    assert_eq!(session.state(), SessionState::Closed);
    assert_eq!(action, SessionAction::Send(Command::Quit));
    assert!(session.is_closed());
}

#[test]
fn helo_follows_an_unknown_ehlo() {
    for code in [500u16, 502] {
        let (session, sent, _) =
            play(vec![reply(220), reply(code), reply(250), reply(250), reply(250)]);
        assert_eq!(session.into_outcome(), Some(VerificationOutcome::Deliverable));
        assert_eq!(
            sent,
            vec![
                "EHLO probe.example.org\r\n",
                "HELO probe.example.org\r\n",
                "MAIL FROM:<probe@example.org>\r\n",
                "RCPT TO:<test@example.com>\r\n",
                "QUIT\r\n",
            ]
        );
    }
}

#[test]
fn helo_is_tried_only_once() {
    let (session, sent, _) = play(vec![reply(220), reply(500), reply(500)]);
    assert_eq!(
        session.into_outcome(),
        Some(VerificationOutcome::PolicyRejected("500 text".to_string()))
    );
    assert_eq!(
        sent,
        vec!["EHLO probe.example.org\r\n", "HELO probe.example.org\r\n", "QUIT\r\n"]
    );
}

#[test]
fn other_rejections_of_ehlo_bring_no_helo() {
    let (session, sent, _) = play(vec![reply(220), reply(554)]);
    assert_eq!(
        session.into_outcome(),
        Some(VerificationOutcome::PolicyRejected("554 text".to_string()))
    );
    assert_eq!(sent, vec!["EHLO probe.example.org\r\n", "QUIT\r\n"]);
}

#[test]
fn a_rejected_sender_is_policy_rejected() {
    let (session, sent, _) = play(vec![reply(220), reply(250), reply(550)]);
    assert_eq!(
        session.into_outcome(),
        Some(VerificationOutcome::PolicyRejected("550 text".to_string()))
    );
    assert_eq!(sent.last().map(String::as_str), Some("QUIT\r\n"));
    assert!(!sent.iter().any(|line| line.starts_with("RCPT")));
}

#[test]
fn a_refused_banner_is_a_network_error_and_still_quits() {
    let (session, sent, _) = play(vec![reply(554)]);
    assert_eq!(
        session.into_outcome(),
        Some(VerificationOutcome::NetworkError("554 text".to_string()))
    );
    assert_eq!(sent, vec!["QUIT\r\n"]);
}

#[test]
fn a_timeout_defers_and_still_quits() {
    let (session, sent, last) = play(vec![reply(220), Err(SessionError::Timeout)]);
    assert_eq!(session.into_outcome(), Some(VerificationOutcome::TemporarilyUnavailable(None)));
    assert_eq!(sent, vec!["EHLO probe.example.org\r\n", "QUIT\r\n"]);
    assert_eq!(last, Some(SessionAction::Send(Command::Quit)));
}

#[test]
fn a_malformed_reply_is_a_protocol_error_and_still_quits() {
    let (session, sent, _) = play(vec![Err(SessionError::MalformedReply)]);
    assert_eq!(
        session.into_outcome(),
        Some(VerificationOutcome::ProtocolError("malformed reply".to_string()))
    );
    assert_eq!(sent, vec!["QUIT\r\n"]);
}

#[test]
fn a_lost_connection_is_a_network_error_without_quit() {
    let lost = [
        (SessionError::ConnectionRefused, "connection refused"),
        (SessionError::ConnectionReset, "connection reset"),
        (SessionError::Unreachable, "exchanger unreachable"),
    ];
    for (error, detail) in lost {
        let (session, sent, last) = play(vec![Err(error)]);
        assert_eq!(
            session.into_outcome(),
            Some(VerificationOutcome::NetworkError(detail.to_string()))
        );
        assert!(sent.is_empty());
        assert_eq!(last, Some(SessionAction::Close));
    }
}

#[test]
fn a_failed_quit_does_not_change_the_verdict() {
    let after_quit = vec![
        Err(SessionError::Timeout),
        Err(SessionError::ConnectionReset),
        Err(SessionError::MalformedReply),
        reply(221),
        reply(550),
    ];
    for event in after_quit {
        let (session, _, _) = play(vec![reply(220), reply(250), reply(250), reply(550)]);
        let (session, action) = session.step(event);
        assert_eq!(action, SessionAction::Close);
        assert_eq!(session.state(), SessionState::Closed);
        assert_eq!(session.into_outcome(), Some(VerificationOutcome::MailboxNotFound));
    }
}

#[test]
fn quit_follows_every_terminal_reply() {
    // Every code in every phase: whenever a reply closes the session, the
    // action is QUIT.
    let prefixes: Vec<Vec<u16>> = vec![vec![], vec![220], vec![220, 250], vec![220, 250, 250]];
    for prefix in prefixes {
        for code in 200u16..600 {
            let mut events: Vec<_> = prefix.iter().map(|c| reply(*c)).collect();
            events.push(reply(code));
            let (session, _, last) = play(events);
            if session.is_closed() {
                assert_eq!(last, Some(SessionAction::Send(Command::Quit)));
                assert!(session.outcome().is_some());
            } else {
                assert!(session.outcome().is_none());
            }
        }
    }
}

#[test]
fn no_sequence_of_replies_brings_data() {
    // All sequences of five replies over a set of telling codes, plus
    // failures in between.
    let codes = [220u16, 250, 251, 354, 421, 451, 500, 502, 550, 554];
    let mut pending: Vec<Vec<u16>> = vec![vec![]];
    for _ in 0..5 {
        let mut longer = Vec::new();
        for sequence in &pending {
            for code in codes {
                let mut next = sequence.clone();
                next.push(code);
                longer.push(next);
            }
        }
        pending = longer;
    }
    assert_eq!(pending.len(), 100_000);
    for sequence in pending.iter().step_by(7) {
        let (session, sent, _) = play(sequence.iter().map(|c| reply(*c)).collect());
        assert!(session.is_closed());
        assert!(session.outcome().unwrap().comes_of_a_session());
        for line in sent {
            assert!(!line.to_uppercase().starts_with("DATA"));
            assert!(line.ends_with("\r\n"));
            assert_eq!(line.matches('\n').count(), 1);
            assert_eq!(line.matches('\r').count(), 1);
        }
    }
}

#[test]
fn a_session_is_over_after_five_round_trips() {
    let (session, _, _) =
        play(vec![reply(220), reply(502), reply(250), reply(250), reply(250)]);
    assert!(session.is_closed());
    let (session, _, _) = play(vec![reply(220), reply(502), reply(250), reply(250)]);
    assert!(!session.is_closed());
}

#[test]
fn the_recipient_is_written_in_full() {
    let address = EmailAddress::parse("\"odd@local\"@example.com").unwrap();
    let session = Session::open(&policy(), &address);
    let (session, _) = session.step(reply(220));
    let (session, _) = session.step(reply(250));
    let (_, action) = session.step(reply(250));
    match action {
        SessionAction::Send(command) => {
            assert_eq!(command.wire(), "RCPT TO:<\"odd@local\"@example.com>\r\n")
        }
        SessionAction::Close => panic!("the session closed"),
    }
}

#[test]
fn a_banner_that_never_comes_is_a_network_error() {
    let (session, sent, last) = play(vec![Err(SessionError::Timeout)]);
    assert_eq!(
        session.into_outcome(),
        Some(VerificationOutcome::NetworkError("exchanger unreachable".to_string()))
    );
    assert!(sent.is_empty());
    assert_eq!(last, Some(SessionAction::Close));
}
