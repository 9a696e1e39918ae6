//! The commands of a probe and their form on the wire.
//!
//! There are five, and `DATA` is not among them: whatever a session sends is
//! one of `EHLO`, `HELO`, `MAIL FROM`, `RCPT TO` and `QUIT`, on one line that
//! ends in CR LF.

use vstd::prelude::*;
use vstd::string::StringExecFns;

use crate::text::is_control;
use crate::text::line_safe;

verus! {

/// A command of the probe.
#[derive(Debug, Clone, PartialEq, Eq)]
pub enum Command {
    /// The extended greeting, with the identity of the prober.
    Ehlo(String),
    /// The plain greeting, for servers that do not know `EHLO`.
    Helo(String),
    /// Names the sender of the probe.
    MailFrom(String),
    /// Names the address under test.
    RcptTo(String),
    /// Ends the session.
    Quit,
}

/// A command as a mathematical value.
pub enum CommandView {
    Ehlo(Seq<char>),
    Helo(Seq<char>),
    MailFrom(Seq<char>),
    RcptTo(Seq<char>),
    Quit,
}

impl View for Command {
    type V = CommandView;

    open spec fn view(&self) -> CommandView {
        match self {
            Command::Ehlo(identity) => CommandView::Ehlo(identity@),
            Command::Helo(identity) => CommandView::Helo(identity@),
            Command::MailFrom(sender) => CommandView::MailFrom(sender@),
            Command::RcptTo(recipient) => CommandView::RcptTo(recipient@),
            Command::Quit => CommandView::Quit,
        }
    }
}

/// Carriage return and line feed.
pub open spec fn crlf() -> Seq<char> {
    seq!['\r', '\n']
}

impl CommandView {
    /// The word the command begins with, and what stands between it and the
    /// argument.
    pub open spec fn head(self) -> Seq<char> {
        match self {
            CommandView::Ehlo(_) => seq!['E', 'H', 'L', 'O', ' '],
            CommandView::Helo(_) => seq!['H', 'E', 'L', 'O', ' '],
            CommandView::MailFrom(_) => seq!['M', 'A', 'I', 'L', ' ', 'F', 'R', 'O', 'M', ':', '<'],
            CommandView::RcptTo(_) => seq!['R', 'C', 'P', 'T', ' ', 'T', 'O', ':', '<'],
            CommandView::Quit => seq!['Q', 'U', 'I', 'T'],
        }
    }

    /// The argument of the command.
    pub open spec fn argument(self) -> Seq<char> {
        match self {
            CommandView::Ehlo(identity) => identity,
            CommandView::Helo(identity) => identity,
            CommandView::MailFrom(sender) => sender,
            CommandView::RcptTo(recipient) => recipient,
            CommandView::Quit => Seq::empty(),
        }
    }

    /// What closes the argument.
    pub open spec fn tail(self) -> Seq<char> {
        match self {
            CommandView::MailFrom(_) => seq!['>'],
            CommandView::RcptTo(_) => seq!['>'],
            _ => Seq::empty(),
        }
    }

    /// The command as it is written to the connection.
    pub open spec fn wire(self) -> Seq<char> {
        self.head() + self.argument() + self.tail() + crlf()
    }
}

/// Whether `c` is the capital letter `letter` or its small form.
pub open spec fn same_letter(c: char, letter: char) -> bool {
    c == letter || c as u32 == letter as u32 + 32
}

/// Whether a line begins with the word `DATA`, in either case.
pub open spec fn begins_with_data(line: Seq<char>) -> bool {
    &&& line.len() >= 4
    &&& same_letter(line[0], 'D')
    &&& same_letter(line[1], 'A')
    &&& same_letter(line[2], 'T')
    &&& same_letter(line[3], 'A')
}

/// Whether `wire` is exactly one line: it ends in CR LF, and neither of the
/// two occurs before that.
pub open spec fn is_one_line(wire: Seq<char>) -> bool {
    &&& wire.len() >= 2
    &&& wire[wire.len() - 2] == '\r'
    &&& wire[wire.len() - 1] == '\n'
    &&& forall|i: int| 0 <= i < wire.len() - 2 ==> #[trigger] wire[i] != '\r' && wire[i] != '\n'
}

/// No command begins with `DATA`.
pub proof fn lemma_command_is_not_data(command: CommandView)
    ensures
        !begins_with_data(command.wire()),
{
    let wire = command.wire();
    let head = command.head();
    assert(head.len() >= 4);
    assert(wire[0] == head[0]);
}

/// A command whose argument holds no control character takes up exactly one
/// line.
pub proof fn lemma_command_is_one_line(command: CommandView)
    requires
        line_safe(command.argument()),
    ensures
        is_one_line(command.wire()),
{
    let wire = command.wire();
    let head = command.head();
    let argument = command.argument();
    let tail = command.tail();
    let body = head + argument + tail;
    assert(wire == body + crlf());
    assert(wire[wire.len() - 2] == crlf()[0]);
    assert(wire[wire.len() - 1] == crlf()[1]);
    assert forall|i: int| 0 <= i < wire.len() - 2 implies #[trigger] wire[i] != '\r' && wire[i]
        != '\n' by {
        if i < head.len() {
            assert(wire[i] == head[i]);
        } else if i < head.len() + argument.len() {
            assert(wire[i] == argument[i - head.len()]);
            assert(!is_control(argument[i - head.len()]));
        } else {
            assert(wire[i] == tail[i - head.len() - argument.len()]);
        }
    }
}

impl Command {
    /// The bytes to write for this command, as text.
    pub fn wire(&self) -> (text: String)
        ensures
            text@ == self@.wire(),
            !begins_with_data(text@),
    {
        proof {
            reveal_strlit("EHLO ");
            reveal_strlit("HELO ");
            reveal_strlit("MAIL FROM:<");
            reveal_strlit("RCPT TO:<");
            reveal_strlit("QUIT\r\n");
            reveal_strlit(">\r\n");
            reveal_strlit("\r\n");
            lemma_command_is_not_data(self@);
        }
        let text = match self {
            Command::Ehlo(identity) => {
                let mut text = String::from_str("EHLO ");
                text.append(identity.as_str());
                text.append("\r\n");
                text
            },
            Command::Helo(identity) => {
                let mut text = String::from_str("HELO ");
                text.append(identity.as_str());
                text.append("\r\n");
                text
            },
            Command::MailFrom(sender) => {
                let mut text = String::from_str("MAIL FROM:<");
                text.append(sender.as_str());
                text.append(">\r\n");
                text
            },
            Command::RcptTo(recipient) => {
                let mut text = String::from_str("RCPT TO:<");
                text.append(recipient.as_str());
                text.append(">\r\n");
                text
            },
            Command::Quit => String::from_str("QUIT\r\n"),
        };
        assert(text@ =~= self@.wire());
        text
    }
}

} // verus!
