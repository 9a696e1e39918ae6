use email_verify::reply::MAX_LINE_LEN;
use email_verify::retry::line_retry_hint;
use email_verify::{find_retry_hint, frame_reply, parse_line, ReplyFraming, ReplyLine, SmtpReply};

fn complete(code: u16, lines: &[&[u8]], consumed: usize) -> ReplyFraming {
    ReplyFraming::Complete {
        reply: SmtpReply {
            code,
            lines: lines.iter().map(|l| l.to_vec()).collect(),
            is_final: true,
        },
        consumed,
    }
}

#[test]
fn parse_line_reads_a_last_line() {
    assert_eq!(
        parse_line(b"250 OK"),
        Some(ReplyLine { code: 250, last: true, text: b"OK".to_vec() })
    );
}

#[test]
fn parse_line_reads_a_continuation_line() {
    assert_eq!(
        parse_line(b"250-PIPELINING"),
        Some(ReplyLine { code: 250, last: false, text: b"PIPELINING".to_vec() })
    );
}

#[test]
fn parse_line_reads_a_bare_code() {
    assert_eq!(parse_line(b"220"), Some(ReplyLine { code: 220, last: true, text: vec![] }));
    assert_eq!(parse_line(b"220 "), Some(ReplyLine { code: 220, last: true, text: vec![] }));
}

#[test]
fn parse_line_rejects_what_is_no_reply_line() {
    assert_eq!(parse_line(b""), None);
    assert_eq!(parse_line(b"25"), None);
    assert_eq!(parse_line(b"2500 OK"), None);
    assert_eq!(parse_line(b"250_OK"), None);
    assert_eq!(parse_line(b"abc OK"), None);
    assert_eq!(parse_line(b"2a0 OK"), None);
    assert_eq!(parse_line(b"25x OK"), None);
    assert_eq!(parse_line(b" 250 OK"), None);
}

#[test]
fn parse_line_rejects_codes_outside_two_to_five_hundred() {
    assert_eq!(parse_line(b"199 no"), None);
    assert_eq!(parse_line(b"100 no"), None);
    assert_eq!(parse_line(b"600 no"), None);
    assert_eq!(parse_line(b"999 no"), None);
    assert_eq!(parse_line(b"200 yes").map(|l| l.code), Some(200));
    assert_eq!(parse_line(b"599 yes").map(|l| l.code), Some(599));
}

#[test]
fn frame_reply_takes_one_line() {
    assert_eq!(frame_reply(b"220 mx.example.com ESMTP\r\n"), complete(220, &[b"mx.example.com ESMTP"], 26));
}

#[test]
fn frame_reply_takes_a_multi_line_reply() {
    let bytes = b"250-mx.example.com\r\n250-SIZE 1000\r\n250 HELP\r\n";
    assert_eq!(
        frame_reply(bytes),
        complete(250, &[b"mx.example.com", b"SIZE 1000", b"HELP"], bytes.len())
    );
}

#[test]
fn frame_reply_leaves_the_next_reply_alone() {
    assert_eq!(frame_reply(b"250 OK\r\n550 no\r\n"), complete(250, &[b"OK"], 8));
}

#[test]
fn frame_reply_accepts_a_bare_line_feed() {
    assert_eq!(frame_reply(b"250 OK\n"), complete(250, &[b"OK"], 7));
    assert_eq!(frame_reply(b"250-a\n250 b\r\n"), complete(250, &[b"a", b"b"], 13));
}

#[test]
fn frame_reply_keeps_a_carriage_return_inside_the_text() {
    assert_eq!(frame_reply(b"250 a\rb\r\n"), complete(250, &[b"a\rb"], 9));
}

#[test]
fn frame_reply_waits_for_the_line_feed() {
    assert_eq!(frame_reply(b""), ReplyFraming::Incomplete);
    assert_eq!(frame_reply(b"2"), ReplyFraming::Incomplete);
    assert_eq!(frame_reply(b"250 OK"), ReplyFraming::Incomplete);
    assert_eq!(frame_reply(b"250 OK\r"), ReplyFraming::Incomplete);
    assert_eq!(frame_reply(b"garbage without end"), ReplyFraming::Incomplete);
}

#[test]
fn frame_reply_waits_for_the_last_line() {
    assert_eq!(frame_reply(b"250-first\r\n"), ReplyFraming::Incomplete);
    assert_eq!(frame_reply(b"250-first\r\n250-second\r\n250 thi"), ReplyFraming::Incomplete);
}

#[test]
fn frame_reply_rejects_a_line_that_is_no_reply_line() {
    assert_eq!(frame_reply(b"HTTP/1.1 400 Bad Request\r\n"), ReplyFraming::Malformed);
    assert_eq!(frame_reply(b"\r\n"), ReplyFraming::Malformed);
    assert_eq!(frame_reply(b"250-ok\r\nnonsense\r\n"), ReplyFraming::Malformed);
}

#[test]
fn frame_reply_rejects_a_change_of_code() {
    assert_eq!(frame_reply(b"250-first\r\n251 second\r\n"), ReplyFraming::Malformed);
}

#[test]
fn frame_reply_limits_the_length_of_a_line() {
    let mut longest = b"250 ".to_vec();
    longest.resize(MAX_LINE_LEN - 2, b'x');
    longest.extend_from_slice(b"\r\n");
    assert_eq!(longest.len(), MAX_LINE_LEN);
    assert!(matches!(frame_reply(&longest), ReplyFraming::Complete { consumed: 512, .. }));

    let mut too_long = b"250 ".to_vec();
    too_long.resize(MAX_LINE_LEN - 1, b'x');
    too_long.extend_from_slice(b"\r\n");
    assert_eq!(frame_reply(&too_long), ReplyFraming::Malformed);

    let mut unfinished = b"250 ".to_vec();
    unfinished.resize(MAX_LINE_LEN, b'x');
    assert_eq!(frame_reply(&unfinished), ReplyFraming::Malformed);
    unfinished.truncate(MAX_LINE_LEN - 1);
    assert_eq!(frame_reply(&unfinished), ReplyFraming::Incomplete);
}

#[test]
fn single_makes_a_final_reply_of_one_line() {
    assert_eq!(
        SmtpReply::single(250, b"OK"),
        SmtpReply { code: 250, lines: vec![b"OK".to_vec()], is_final: true }
    );
}

#[test]
fn well_formed_asks_for_code_line_and_end() {
    assert!(SmtpReply::single(200, b"").is_well_formed());
    assert!(SmtpReply::single(599, b"").is_well_formed());
    assert!(!SmtpReply::single(199, b"").is_well_formed());
    assert!(!SmtpReply::single(600, b"").is_well_formed());
    assert!(!SmtpReply { code: 250, lines: vec![], is_final: true }.is_well_formed());
    assert!(!SmtpReply { code: 250, lines: vec![b"a".to_vec()], is_final: false }.is_well_formed());
}

#[test]
fn summary_joins_code_and_lines() {
    assert_eq!(SmtpReply::single(550, b"5.1.1 no such user").summary(), b"550 5.1.1 no such user");
    let reply = SmtpReply {
        code: 554,
        lines: vec![b"5.7.1 relay".to_vec(), b"denied".to_vec()],
        is_final: true,
    };
    assert_eq!(reply.summary(), b"554 5.7.1 relay denied");
    assert_eq!(SmtpReply { code: 7, lines: vec![], is_final: false }.summary(), b"007");
    assert_eq!(SmtpReply { code: 65535, lines: vec![], is_final: false }.summary(), b"535");
}

#[test]
fn retry_hint_reads_seconds_minutes_and_hours() {
    assert_eq!(line_retry_hint(b"4.7.1 Greylisted, try again in 300 seconds"), Some(300));
    assert_eq!(line_retry_hint(b"try again in 5 minutes"), Some(300));
    assert_eq!(line_retry_hint(b"try again in 2 hours"), Some(7200));
    assert_eq!(line_retry_hint(b"retry after 1 hour"), Some(3600));
    assert_eq!(line_retry_hint(b"wait 90sec"), Some(90));
    assert_eq!(line_retry_hint(b"wait 10 MIN"), Some(600));
    assert_eq!(line_retry_hint(b"wait 0 seconds"), Some(0));
}

#[test]
fn retry_hint_is_absent_without_number_and_unit() {
    assert_eq!(line_retry_hint(b""), None);
    assert_eq!(line_retry_hint(b"mailbox busy"), None);
    assert_eq!(line_retry_hint(b"4.7.1 try later"), None);
    assert_eq!(line_retry_hint(b"3 messages in queue"), None);
    assert_eq!(line_retry_hint(b"wait 5  minutes"), None);
    assert_eq!(line_retry_hint(b"wait 5"), None);
    assert_eq!(line_retry_hint(b"wait 5 ho"), None);
    assert_eq!(line_retry_hint(b"wait minutes"), None);
}

#[test]
fn retry_hint_takes_the_first_that_has_a_unit() {
    assert_eq!(line_retry_hint(b"451 4.7.1 id 12345: wait 30 seconds or 2 minutes"), Some(30));
    assert_eq!(line_retry_hint(b"20 30 minutes"), Some(1800));
}

#[test]
fn retry_hint_is_capped() {
    assert_eq!(line_retry_hint(b"18446744073709551615 seconds"), Some(u64::MAX));
    assert_eq!(line_retry_hint(b"18446744073709551616 seconds"), Some(u64::MAX));
    assert_eq!(line_retry_hint(b"99999999999999999999999999 sec"), Some(u64::MAX));
    assert_eq!(line_retry_hint(b"307445734561825861 minutes"), Some(u64::MAX));
    assert_eq!(line_retry_hint(b"307445734561825860 minutes"), Some(18446744073709551600));
    assert_eq!(line_retry_hint(b"18446744073709551615 hours"), Some(u64::MAX));
}

#[test]
fn retry_hint_comes_from_the_first_line_that_has_one() {
    assert_eq!(find_retry_hint(&vec![]), None);
    assert_eq!(
        find_retry_hint(&vec![b"4.7.1 greylisted".to_vec(), b"come back in 2 min".to_vec()]),
        Some(120)
    );
    assert_eq!(
        find_retry_hint(&vec![b"wait 7 seconds".to_vec(), b"or 2 min".to_vec()]),
        Some(7)
    );
}
