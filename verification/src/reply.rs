//! SMTP replies: the form of a reply line, the framing of a reply out of the
//! bytes received so far, and the retry delay a server may name in its text.

use vstd::prelude::*;
use vstd::slice::slice_subrange;
use vstd::slice::slice_to_vec;

use crate::text::append_bytes;

verus! {

/// Line feed, the byte that ends a line.
pub const LF: u8 = 10;

/// Carriage return, dropped where it stands directly before the line feed.
pub const CR: u8 = 13;

/// Space: after the code it marks the last line of a reply.
pub const SP: u8 = 32;

/// Hyphen: after the code it marks a line that another one follows.
pub const HYPHEN: u8 = 45;

/// The most bytes a reply line may have, its terminator included.
pub const MAX_LINE_LEN: usize = 512;

/// One reply, as the server sent it.
#[derive(Debug, Clone, PartialEq, Eq)]
pub struct SmtpReply {
    /// The three-digit code that all lines of the reply share.
    pub code: u16,
    /// The text of each line, without code, separator and terminator.
    pub lines: Vec<Vec<u8>>,
    /// Whether the last line received was marked as the last of the reply.
    pub is_final: bool,
}

/// A reply as a mathematical value.
pub struct ReplyView {
    pub code: u16,
    pub lines: Seq<Seq<u8>>,
    pub is_final: bool,
}

/// One line of a reply.
#[derive(Debug, Clone, PartialEq, Eq)]
pub struct ReplyLine {
    /// The three-digit code.
    pub code: u16,
    /// Whether this line ends the reply.
    pub last: bool,
    /// The text behind the separator.
    pub text: Vec<u8>,
}

/// A reply line as a mathematical value.
pub struct LineView {
    pub code: u16,
    pub last: bool,
    pub text: Seq<u8>,
}

/// What the bytes received so far amount to.
#[derive(Debug, Clone, PartialEq, Eq)]
pub enum ReplyFraming {
    /// The bytes begin with a whole reply, which takes up `consumed` of them.
    Complete { reply: SmtpReply, consumed: usize },
    /// So far every line is a continuation line of one reply; more is needed.
    Incomplete,
    /// The bytes cannot begin a reply.
    Malformed,
}

/// A framing result as a mathematical value.
pub enum Framing {
    Complete { reply: ReplyView, consumed: nat },
    Incomplete,
    Malformed,
}

/// The views of the lines, in order.
pub open spec fn lines_view(lines: Seq<Vec<u8>>) -> Seq<Seq<u8>> {
    Seq::new(lines.len(), |i: int| lines[i]@)
}

impl View for SmtpReply {
    type V = ReplyView;

    open spec fn view(&self) -> ReplyView {
        ReplyView { code: self.code, lines: lines_view(self.lines@), is_final: self.is_final }
    }
}

impl View for ReplyLine {
    type V = LineView;

    open spec fn view(&self) -> LineView {
        LineView { code: self.code, last: self.last, text: self.text@ }
    }
}

impl View for ReplyFraming {
    type V = Framing;

    open spec fn view(&self) -> Framing {
        match self {
            ReplyFraming::Complete { reply, consumed } => Framing::Complete {
                reply: reply@,
                consumed: *consumed as nat,
            },
            ReplyFraming::Incomplete => Framing::Incomplete,
            ReplyFraming::Malformed => Framing::Malformed,
        }
    }
}

/// An ASCII decimal digit.
pub open spec fn is_digit(b: u8) -> bool {
    48 <= b <= 57
}

/// The number that three decimal digits spell.
pub open spec fn code_of(hundreds: u8, tens: u8, units: u8) -> u16 {
    ((hundreds - 48) * 100 + (tens - 48) * 10 + (units - 48)) as u16
}

/// What a line, its terminator removed, says: three digits of which the
/// first is 2 to 5, then nothing more, or a space or a hyphen and any text. A
/// space, or the end of the line, marks the last line of a reply; a hyphen
/// marks a line that another one follows. Anything else is no reply line.
pub open spec fn line_spec(line: Seq<u8>) -> Option<LineView> {
    if line.len() < 3 || !(50 <= line[0] <= 53) || !is_digit(line[1]) || !is_digit(line[2]) {
        None
    } else if line.len() == 3 {
        Some(LineView { code: code_of(line[0], line[1], line[2]), last: true, text: Seq::empty() })
    } else if line[3] == SP {
        Some(
            LineView {
                code: code_of(line[0], line[1], line[2]),
                last: true,
                text: line.subrange(4, line.len() as int),
            },
        )
    } else if line[3] == HYPHEN {
        Some(
            LineView {
                code: code_of(line[0], line[1], line[2]),
                last: false,
                text: line.subrange(4, line.len() as int),
            },
        )
    } else {
        None
    }
}

/// The position of the first line feed at or behind `from`, or the length of
/// the buffer where there is none.
pub open spec fn line_break(buf: Seq<u8>, from: int) -> int
    decreases buf.len() - from,
{
    if from >= buf.len() {
        buf.len() as int
    } else if buf[from] == LF {
        from
    } else {
        line_break(buf, from + 1)
    }
}

/// The bytes of the line that starts at `from` and whose line feed stands at
/// `end`, without a carriage return that directly precedes the line feed.
pub open spec fn line_body(buf: Seq<u8>, from: int, end: int) -> Seq<u8> {
    if end > from && buf[end - 1] == CR {
        buf.subrange(from, end - 1)
    } else {
        buf.subrange(from, end)
    }
}

/// The framing of the bytes from `from` on, after the continuation lines
/// `lines`, which carried the code `code`.
///
/// A line longer than `MAX_LINE_LEN` is malformed, finished or not. A line
/// without its line feed is incomplete. A finished line must be a reply line
/// that carries the code of the lines before it; the first one that is marked
/// as last completes the reply.
pub open spec fn frame_from(buf: Seq<u8>, from: int, code: Option<u16>, lines: Seq<Seq<u8>>)
    -> Framing
    decreases buf.len() - from,
{
    let end = line_break(buf, from);
    if from < 0 || from > buf.len() || end < from {
        Framing::Incomplete
    } else if end - from + 1 > MAX_LINE_LEN {
        Framing::Malformed
    } else if end >= buf.len() {
        Framing::Incomplete
    } else {
        match line_spec(line_body(buf, from, end)) {
            None => Framing::Malformed,
            Some(line) => {
                if code is Some && code->0 != line.code {
                    Framing::Malformed
                } else if line.last {
                    Framing::Complete {
                        reply: ReplyView {
                            code: line.code,
                            lines: lines.push(line.text),
                            is_final: true,
                        },
                        consumed: (end + 1) as nat,
                    }
                } else {
                    frame_from(buf, end + 1, Some(line.code), lines.push(line.text))
                }
            },
        }
    }
}

/// The framing of a buffer that starts at the beginning of a reply.
pub open spec fn frame(buf: Seq<u8>) -> Framing {
    frame_from(buf, 0, None, Seq::empty())
}

/// The last three decimal digits of a code, as ASCII.
pub open spec fn code_digits(code: u16) -> Seq<u8> {
    seq![
        (48 + (code / 100) % 10) as u8,
        (48 + (code / 10) % 10) as u8,
        (48 + code % 10) as u8,
    ]
}

/// The first `upto` lines, each behind a space.
pub open spec fn joined(lines: Seq<Seq<u8>>, upto: int) -> Seq<u8>
    decreases upto,
{
    if upto <= 0 {
        Seq::empty()
    } else {
        joined(lines, upto - 1) + seq![SP] + lines[upto - 1]
    }
}

impl ReplyView {
    /// A reply that can be classified: a code from 200 to 599, at least one
    /// line, and the last line marked as such.
    pub open spec fn well_formed(self) -> bool {
        200 <= self.code <= 599 && self.lines.len() >= 1 && self.is_final
    }

    /// The reply on one line: the code, then each line of text behind a
    /// space.
    pub open spec fn summary(self) -> Seq<u8> {
        code_digits(self.code) + joined(self.lines, self.lines.len() as int)
    }
}

/// The line break lies between `from` and the end of the buffer, no line
/// feed stands before it, and one stands at it unless it is the end.
pub proof fn lemma_line_break(buf: Seq<u8>, from: int)
    requires
        0 <= from <= buf.len(),
    ensures
        from <= line_break(buf, from) <= buf.len(),
        line_break(buf, from) < buf.len() ==> buf[line_break(buf, from)] == LF,
        forall|k: int| from <= k < line_break(buf, from) ==> buf[k] != LF,
    decreases buf.len() - from,
{
    if from < buf.len() && buf[from] != LF {
        lemma_line_break(buf, from + 1);
    }
}

/// Every reply line carries a code from 200 to 599.
pub proof fn lemma_line_code_range(line: Seq<u8>)
    ensures
        line_spec(line) matches Some(l) ==> 200 <= l.code <= 599,
{
}

/// A complete framing names a well-formed reply and takes up at least four
/// bytes and no more than the buffer holds.
proof fn lemma_frame_complete(
    buf: Seq<u8>,
    from: int,
    code: Option<u16>,
    lines: Seq<Seq<u8>>,
)
    requires
        0 <= from <= buf.len(),
    ensures
        frame_from(buf, from, code, lines) matches Framing::Complete { reply, consumed } ==> {
            &&& reply.well_formed()
            &&& from + 4 <= consumed <= buf.len()
            &&& buf[consumed - 1] == LF
            &&& reply.lines.len() > lines.len()
            &&& reply.lines.subrange(0, lines.len() as int) == lines
            &&& code matches Some(c) ==> reply.code == c
        },
    decreases buf.len() - from,
{
    let end = line_break(buf, from);
    lemma_line_break(buf, from);
    if end - from + 1 <= MAX_LINE_LEN && end < buf.len() {
        let body = line_body(buf, from, end);
        lemma_line_code_range(body);
        if let Some(line) = line_spec(body) {
            if !(code is Some && code->0 != line.code) {
                if line.last {
                    assert(lines.push(line.text).subrange(0, lines.len() as int) =~= lines);
                } else {
                    lemma_frame_complete(buf, end + 1, Some(line.code), lines.push(line.text));
                    if let Framing::Complete { reply, consumed } = frame_from(
                        buf,
                        end + 1,
                        Some(line.code),
                        lines.push(line.text),
                    ) {
                        assert(reply.lines.subrange(0, lines.len() as int) =~= reply.lines.subrange(
                            0,
                            lines.len() as int + 1,
                        ).subrange(0, lines.len() as int));
                        assert(lines.push(line.text).subrange(0, lines.len() as int) =~= lines);
                    }
                }
            }
        }
    }
}

/// A complete framing names a well-formed reply, and the bytes it takes up
/// are at least four, no more than were received, and end in a line feed.
pub proof fn law_complete_reply_is_well_formed(received: Seq<u8>)
    ensures
        frame(received) matches Framing::Complete { reply, consumed } ==> {
            &&& reply.well_formed()
            &&& 4 <= consumed <= received.len()
            &&& received[consumed - 1] == LF
        },
{
    lemma_frame_complete(received, 0, None, Seq::empty());
}

/// Within a buffer and within a longer one that begins with it, a line
/// that ends in the shorter ends at the same place in the longer, and a line
/// that does not end in the shorter does not end earlier in the longer.
proof fn lemma_line_break_extends(shorter: Seq<u8>, longer: Seq<u8>, from: int)
    requires
        shorter.is_prefix_of(longer),
        0 <= from <= shorter.len(),
    ensures
        line_break(shorter, from) < shorter.len() ==> line_break(longer, from) == line_break(
            shorter,
            from,
        ),
        line_break(shorter, from) >= shorter.len() ==> line_break(longer, from) >= shorter.len(),
    decreases shorter.len() - from,
{
    lemma_line_break(longer, from);
    if from < shorter.len() {
        assert(shorter[from] == longer[from]);
        if shorter[from] != LF {
            lemma_line_break_extends(shorter, longer, from + 1);
        }
    }
}

proof fn lemma_frame_extends(
    shorter: Seq<u8>,
    longer: Seq<u8>,
    from: int,
    code: Option<u16>,
    lines: Seq<Seq<u8>>,
)
    requires
        shorter.is_prefix_of(longer),
        0 <= from <= shorter.len(),
    ensures
        frame_from(shorter, from, code, lines) is Complete ==> frame_from(
            longer,
            from,
            code,
            lines,
        ) == frame_from(shorter, from, code, lines),
        frame_from(shorter, from, code, lines) is Malformed ==> frame_from(
            longer,
            from,
            code,
            lines,
        ) is Malformed,
    decreases shorter.len() - from,
{
    let end = line_break(shorter, from);
    lemma_line_break(shorter, from);
    lemma_line_break(longer, from);
    lemma_line_break_extends(shorter, longer, from);
    if end - from + 1 <= MAX_LINE_LEN && end < shorter.len() {
        assert(line_body(shorter, from, end) =~= line_body(longer, from, end));
        if let Some(line) = line_spec(line_body(shorter, from, end)) {
            if !(code is Some && code->0 != line.code) && !line.last {
                lemma_frame_extends(
                    shorter,
                    longer,
                    end + 1,
                    Some(line.code),
                    lines.push(line.text),
                );
            }
        }
    }
}

/// Reading on never changes a framing that is settled: once the bytes
/// received begin with a whole reply, whatever follows leaves that reply and
/// its length as they are, and once they are malformed they stay so.
pub proof fn law_settled_framing_stays(received: Seq<u8>, more: Seq<u8>)
    ensures
        frame(received) is Complete ==> frame(received + more) == frame(received),
        frame(received) is Malformed ==> frame(received + more) is Malformed,
{
    assert(received.is_prefix_of(received + more)) by {
        assert((received + more).subrange(0, received.len() as int) =~= received);
    }
    lemma_frame_extends(received, received + more, 0, None, Seq::empty());
}

impl SmtpReply {
    /// A reply of one line.
    pub fn single(code: u16, text: &[u8]) -> (reply: SmtpReply)
        ensures
            reply@ == (ReplyView { code, lines: seq![text@], is_final: true }),
    {
        let mut lines: Vec<Vec<u8>> = Vec::new();
        lines.push(slice_to_vec(text));
        let reply = SmtpReply { code, lines, is_final: true };
        assert(reply@.lines =~= seq![text@]);
        reply
    }

    /// The reply on one line: the code, then each line of text behind a
    /// space.
    pub fn summary(&self) -> (line: Vec<u8>)
        ensures
            line@ == self@.summary(),
    {
        let mut line: Vec<u8> = Vec::new();
        line.push(48 + ((self.code / 100) % 10) as u8);
        line.push(48 + ((self.code / 10) % 10) as u8);
        line.push(48 + (self.code % 10) as u8);
        assert(line@ =~= code_digits(self.code));
        let mut i: usize = 0;
        while i < self.lines.len()
            invariant
                i <= self.lines.len(),
                line@ == code_digits(self.code) + joined(self@.lines, i as int),
            decreases self.lines.len() - i,
        {
            let ghost before = line@;
            line.push(SP);
            append_bytes(&mut line, self.lines[i].as_slice());
            i += 1;
            assert(line@ =~= code_digits(self.code) + joined(self@.lines, i as int)) by {
                assert(line@ == before.push(SP) + self.lines@[i - 1]@);
                assert(before.push(SP) =~= before + seq![SP]);
                assert(self@.lines[i - 1] == self.lines@[i - 1]@);
            }
        }
        line
    }

    /// Whether the reply can be classified.
    pub fn is_well_formed(&self) -> (ok: bool)
        ensures
            ok == self@.well_formed(),
    {
        200 <= self.code && self.code <= 599 && self.lines.len() >= 1 && self.is_final
    }
}

/// Reads one line, its terminator removed.
pub fn parse_line(line: &[u8]) -> (parsed: Option<ReplyLine>)
    ensures
        match parsed {
            Some(l) => line_spec(line@) == Some(l@),
            None => line_spec(line@) is None,
        },
{
    if line.len() < 3 {
        return None;
    }
    let hundreds: u8 = line[0];
    let tens: u8 = line[1];
    let units: u8 = line[2];
    if hundreds < 50 || hundreds > 53 || tens < 48 || tens > 57 || units < 48 || units > 57 {
        return None;
    }
    let code: u16 = (hundreds - 48) as u16 * 100 + (tens - 48) as u16 * 10 + (units - 48) as u16;
    if line.len() == 3 {
        return Some(ReplyLine { code, last: true, text: Vec::new() });
    }
    let separator: u8 = line[3];
    if separator != SP && separator != HYPHEN {
        return None;
    }
    let text = slice_to_vec(slice_subrange(line, 4, line.len()));
    Some(ReplyLine { code, last: separator == SP, text })
}

/// The position of the first line feed at or behind `from`.
fn find_line_break(buf: &[u8], from: usize) -> (end: usize)
    requires
        from <= buf.len(),
    ensures
        end == line_break(buf@, from as int),
        from <= end <= buf.len(),
{
    let mut at: usize = from;
    while at < buf.len() && buf[at] != LF
        invariant
            from <= at <= buf.len(),
            line_break(buf@, from as int) == line_break(buf@, at as int),
        decreases buf.len() - at,
    {
        at += 1;
    }
    proof {
        lemma_line_break(buf@, at as int);
    }
    at
}

/// Frames the reply at the start of the bytes received so far.
///
/// The caller reads until the result is no longer `Incomplete`, or its
/// timeout elapses. Of a complete reply `consumed` says how many bytes it took
/// up; what follows them belongs to the next reply.
pub fn frame_reply(buf: &[u8]) -> (framing: ReplyFraming)
    ensures
        framing@ == frame(buf@),
        framing matches ReplyFraming::Complete { reply, consumed } ==> reply@.well_formed() && 4
            <= consumed <= buf.len(),
{
    let mut pos: usize = 0;
    let mut code: Option<u16> = None;
    let mut lines: Vec<Vec<u8>> = Vec::new();
    assert(lines_view(lines@) =~= Seq::empty());
    loop
        invariant
            pos <= buf.len(),
            frame(buf@) == frame_from(buf@, pos as int, code, lines_view(lines@)),
            code matches Some(c) ==> 200 <= c <= 599,
        decreases buf.len() - pos,
    {
        let end = find_line_break(buf, pos);
        if end - pos >= MAX_LINE_LEN {
            return ReplyFraming::Malformed;
        }
        if end >= buf.len() {
            return ReplyFraming::Incomplete;
        }
        let body_end = if end > pos && buf[end - 1] == CR {
            end - 1
        } else {
            end
        };
        let body = slice_subrange(buf, pos, body_end);
        assert(body@ == line_body(buf@, pos as int, end as int));
        match parse_line(body) {
            None => {
                return ReplyFraming::Malformed;
            },
            Some(line) => {
                proof {
                    lemma_line_code_range(body@);
                }
                if let Some(c) = code {
                    if c != line.code {
                        return ReplyFraming::Malformed;
                    }
                }
                let last = line.last;
                let line_code = line.code;
                let ghost before = lines_view(lines@);
                lines.push(line.text);
                assert(lines_view(lines@) =~= before.push(line.text@));
                if last {
                    return ReplyFraming::Complete {
                        reply: SmtpReply { code: line_code, lines, is_final: true },
                        consumed: end + 1,
                    };
                }
                code = Some(line_code);
                pos = end + 1;
            },
        }
    }
}

} // verus!
