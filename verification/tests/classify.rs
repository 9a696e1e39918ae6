use email_verify::{classify, Classification, SessionState, SmtpReply, VerificationOutcome};

fn terminal(outcome: VerificationOutcome) -> Classification {
    Classification::Terminal(outcome)
}

fn of(code: u16, text: &[u8], phase: SessionState) -> Classification {
    classify(&SmtpReply::single(code, text), phase)
}

#[test]
fn accept_codes_let_the_session_go_on() {
    assert_eq!(of(220, b"ready", SessionState::Connecting), Classification::Continue);
    assert_eq!(of(250, b"hello", SessionState::Greeted), Classification::Continue);
    assert_eq!(of(250, b"sender ok", SessionState::SenderAccepted), Classification::Continue);
}

#[test]
fn success_at_the_recipient_phase_is_deliverable() {
    for code in [200u16, 250, 251, 252, 299] {
        assert_eq!(
            of(code, b"ok", SessionState::RecipientProbed),
            terminal(VerificationOutcome::Deliverable)
        );
    }
}

#[test]
fn mailbox_codes_at_the_recipient_phase_are_mailbox_not_found() {
    for code in [550u16, 551, 553] {
        assert_eq!(
            of(code, b"no such user", SessionState::RecipientProbed),
            terminal(VerificationOutcome::MailboxNotFound)
        );
    }
}

#[test]
fn deferrals_are_temporary_in_every_phase() {
    let phases = [
        SessionState::Connecting,
        SessionState::Greeted,
        SessionState::SenderAccepted,
        SessionState::RecipientProbed,
        SessionState::Closed,
    ];
    for phase in phases {
        for code in [450u16, 451, 452] {
            assert_eq!(
                of(code, b"busy", phase),
                terminal(VerificationOutcome::TemporarilyUnavailable(None))
            );
        }
    }
}

#[test]
fn deferrals_carry_the_retry_hint() {
    assert_eq!(
        of(451, b"4.7.1 Greylisted, try again in 5 minutes", SessionState::RecipientProbed),
        terminal(VerificationOutcome::TemporarilyUnavailable(Some(300)))
    );
    assert_eq!(
        of(421, b"too busy, retry in 30 seconds", SessionState::RecipientProbed),
        terminal(VerificationOutcome::TemporarilyUnavailable(Some(30)))
    );
}

#[test]
fn other_transient_codes_at_the_recipient_phase_are_temporary() {
    for code in [400u16, 421, 455, 499] {
        assert_eq!(
            of(code, b"later", SessionState::RecipientProbed),
            terminal(VerificationOutcome::TemporarilyUnavailable(None))
        );
    }
}

#[test]
fn other_permanent_codes_at_the_recipient_phase_are_policy() {
    assert_eq!(
        of(554, b"5.7.1 relay denied", SessionState::RecipientProbed),
        terminal(VerificationOutcome::PolicyRejected("554 5.7.1 relay denied".to_string()))
    );
    assert_eq!(
        of(552, b"over quota", SessionState::RecipientProbed),
        terminal(VerificationOutcome::PolicyRejected("552 over quota".to_string()))
    );
}

#[test]
fn intermediate_codes_at_the_recipient_phase_are_protocol_errors() {
    assert_eq!(
        of(354, b"go ahead", SessionState::RecipientProbed),
        terminal(VerificationOutcome::ProtocolError("354 go ahead".to_string()))
    );
}

#[test]
fn a_refused_banner_is_a_network_error() {
    assert_eq!(
        of(554, b"no service", SessionState::Connecting),
        terminal(VerificationOutcome::NetworkError("554 no service".to_string()))
    );
    assert_eq!(
        of(421, b"shutting down", SessionState::Connecting),
        terminal(VerificationOutcome::NetworkError("421 shutting down".to_string()))
    );
    assert_eq!(
        of(250, b"odd", SessionState::Connecting),
        terminal(VerificationOutcome::NetworkError("250 odd".to_string()))
    );
}

#[test]
fn a_refused_greeting_is_policy_or_protocol() {
    assert_eq!(
        of(554, b"go away", SessionState::Greeted),
        terminal(VerificationOutcome::PolicyRejected("554 go away".to_string()))
    );
    assert_eq!(
        of(500, b"what", SessionState::Greeted),
        terminal(VerificationOutcome::PolicyRejected("500 what".to_string()))
    );
    assert_eq!(
        of(550, b"odd", SessionState::Greeted),
        terminal(VerificationOutcome::ProtocolError("550 odd".to_string()))
    );
    assert_eq!(
        of(421, b"bye", SessionState::Greeted),
        terminal(VerificationOutcome::ProtocolError("421 bye".to_string()))
    );
    assert_eq!(
        of(220, b"again", SessionState::Greeted),
        terminal(VerificationOutcome::ProtocolError("220 again".to_string()))
    );
}

#[test]
fn a_refused_sender_is_policy() {
    for code in [251u16, 354, 421, 500, 530, 550, 553, 554] {
        let expected = format!("{} sender refused", code);
        assert_eq!(
            of(code, b"sender refused", SessionState::SenderAccepted),
            terminal(VerificationOutcome::PolicyRejected(expected))
        );
    }
}

#[test]
fn a_reply_that_is_not_well_formed_is_a_protocol_error() {
    let malformed = terminal(VerificationOutcome::ProtocolError("malformed reply".to_string()));
    let unfinished = SmtpReply { code: 250, lines: vec![b"more".to_vec()], is_final: false };
    let empty = SmtpReply { code: 250, lines: vec![], is_final: true };
    let low = SmtpReply::single(120, b"hm");
    let high = SmtpReply::single(700, b"hm");
    for phase in [SessionState::Connecting, SessionState::RecipientProbed] {
        assert_eq!(classify(&unfinished, phase), malformed);
        assert_eq!(classify(&empty, phase), malformed);
        assert_eq!(classify(&low, phase), malformed);
        assert_eq!(classify(&high, phase), malformed);
    }
}

#[test]
fn a_reply_to_a_closed_session_is_a_protocol_error() {
    assert_eq!(
        of(221, b"bye", SessionState::Closed),
        terminal(VerificationOutcome::ProtocolError("221 bye".to_string()))
    );
}

#[test]
fn server_text_of_several_lines_is_joined() {
    let reply = SmtpReply {
        code: 554,
        lines: vec![b"5.7.1 you are".to_vec(), b"not welcome".to_vec()],
        is_final: true,
    };
    assert_eq!(
        classify(&reply, SessionState::SenderAccepted),
        terminal(VerificationOutcome::PolicyRejected("554 5.7.1 you are not welcome".to_string()))
    );
}

#[test]
fn server_text_that_is_no_utf8_is_decoded_with_replacements() {
    assert_eq!(
        of(554, b"caf\xe9", SessionState::SenderAccepted),
        terminal(VerificationOutcome::PolicyRejected("554 caf\u{fffd}".to_string()))
    );
    assert_eq!(
        of(554, "caf\u{e9}".as_bytes(), SessionState::SenderAccepted),
        terminal(VerificationOutcome::PolicyRejected("554 caf\u{e9}".to_string()))
    );
}
