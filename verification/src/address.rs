//! The syntax pre-check of an address and its split into local part and
//! domain.
//!
//! An address is accepted when the `email_address` crate accepts it and, on
//! top of that grammar, the rules of this crate hold: the text has exactly
//! one unescaped `@`, at which it splits; both parts are non-empty; the
//! domain has a dot and no whitespace; and no control character occurs.
//!
//! An `@` is escaped when an unescaped backslash stands directly before it,
//! or when it lies between double quotes.

use std::str::FromStr;
use vstd::prelude::*;
use vstd::string::StrSliceExecFns;
use vstd::string::StringExecFns;

use crate::text::char_is_control;
use crate::text::char_is_whitespace;
use crate::text::is_control;
use crate::text::is_whitespace;
use crate::text::line_safe;
use crate::text::no_whitespace;

verus! {

/// The error of the address parser: the text is no address.
#[derive(Debug, Clone, Copy, PartialEq, Eq, Structural)]
pub struct InvalidFormat;

/// Where a left-to-right reading of a text stands: inside double quotes or
/// not, and directly behind an unescaped backslash or not.
pub struct Lex {
    pub quoted: bool,
    pub escaped: bool,
}

/// The reading state before the first character.
pub open spec fn lex_start() -> Lex {
    Lex { quoted: false, escaped: false }
}

/// The reading state behind `c`.
pub open spec fn lex_step(state: Lex, c: char) -> Lex {
    if state.escaped {
        Lex { quoted: state.quoted, escaped: false }
    } else if c == '\\' {
        Lex { quoted: state.quoted, escaped: true }
    } else if c == '"' {
        Lex { quoted: !state.quoted, escaped: false }
    } else {
        state
    }
}

/// The reading state behind the first `n` characters of `s`.
pub open spec fn lex_after(s: Seq<char>, n: int) -> Lex
    decreases n,
{
    if n <= 0 {
        lex_start()
    } else {
        lex_step(lex_after(s, n - 1), s[n - 1])
    }
}

/// Whether an unescaped `@` stands at position `i` of `s`.
pub open spec fn is_separator(s: Seq<char>, i: int) -> bool {
    0 <= i < s.len() && s[i] == '@' && lex_after(s, i) == lex_start()
}

/// The number of unescaped `@` among the first `n` characters of `s`.
pub open spec fn separators(s: Seq<char>, n: int) -> nat
    decreases n,
{
    if n <= 0 {
        0
    } else if is_separator(s, n - 1) {
        separators(s, n - 1) + 1
    } else {
        separators(s, n - 1)
    }
}

/// The number of unescaped `@` in `s`.
pub open spec fn separator_count(s: Seq<char>) -> nat {
    separators(s, s.len() as int)
}

/// Whether `s` holds a dot.
pub open spec fn has_dot(s: Seq<char>) -> bool {
    exists|i: int| 0 <= i < s.len() && #[trigger] s[i] == '.'
}

/// An address as a mathematical value.
pub struct AddressView {
    pub local: Seq<char>,
    pub domain: Seq<char>,
}

impl AddressView {
    /// What holds of every address: the local part is non-empty and has no
    /// unescaped `@`; the domain is non-empty, has a dot and no whitespace;
    /// neither holds a control character.
    pub open spec fn well_formed(self) -> bool {
        &&& self.local.len() > 0
        &&& separator_count(self.local) == 0
        &&& line_safe(self.local)
        &&& self.domain.len() > 0
        &&& has_dot(self.domain)
        &&& no_whitespace(self.domain)
        &&& line_safe(self.domain)
    }

    /// The address in one piece.
    pub open spec fn text(self) -> Seq<char> {
        self.local + seq!['@'] + self.domain
    }
}

/// The rules of this crate on a text and the two parts it was split into.
pub open spec fn parts_well_formed(raw: Seq<char>, local: Seq<char>, domain: Seq<char>) -> bool {
    &&& raw == local + seq!['@'] + domain
    &&& separator_count(raw) == 1
    &&& line_safe(raw)
    &&& local.len() > 0
    &&& separator_count(local) == 0
    &&& domain.len() > 0
    &&& has_dot(domain)
    &&& no_whitespace(domain)
}

/// The local part and the domain that the `email_address` crate finds in a
/// text, where it accepts the text as an address.
pub uninterp spec fn grammar_split(raw: Seq<char>) -> Option<(Seq<char>, Seq<char>)>;

/// Whether `raw` is an address: the grammar accepts it, and the parts it
/// names meet the rules of this crate.
pub open spec fn accepted(raw: Seq<char>) -> bool {
    match grammar_split(raw) {
        Some((local, domain)) => parts_well_formed(raw, local, domain),
        None => false,
    }
}

/// What a parse of `raw` yields.
pub open spec fn parse_spec(raw: Seq<char>) -> Result<AddressView, InvalidFormat> {
    match grammar_split(raw) {
        Some((local, domain)) => if parts_well_formed(raw, local, domain) {
            Ok(AddressView { local, domain })
        } else {
            Err(InvalidFormat)
        },
        None => Err(InvalidFormat),
    }
}

/// Parts that meet the rules make a well-formed address.
pub proof fn lemma_parts_make_address(raw: Seq<char>, local: Seq<char>, domain: Seq<char>)
    requires
        parts_well_formed(raw, local, domain),
    ensures
        (AddressView { local, domain }).well_formed(),
        (AddressView { local, domain }).text() == raw,
{
    assert forall|i: int| 0 <= i < local.len() implies !is_control(#[trigger] local[i]) by {
        assert(raw[i] == local[i]);
    }
    assert forall|i: int| 0 <= i < domain.len() implies !is_control(#[trigger] domain[i]) by {
        assert(raw[local.len() + 1 + i] == domain[i]);
    }
}

/// A syntactically valid address, split at its `@`.
#[derive(Debug, PartialEq, Eq)]
pub struct EmailAddress {
    local_part: String,
    domain: String,
}

impl View for EmailAddress {
    type V = AddressView;

    closed spec fn view(&self) -> AddressView {
        AddressView { local: self.local_part@, domain: self.domain@ }
    }
}

impl Clone for EmailAddress {
    fn clone(&self) -> (copy: Self)
        ensures
            copy@ == self@,
    {
        proof {
            use_type_invariant(self);
        }
        EmailAddress { local_part: self.local_part.clone(), domain: self.domain.clone() }
    }
}

/// What one pass over a text finds.
struct Scan {
    length: usize,
    separators: usize,
    control: bool,
    whitespace: bool,
    dot: bool,
}

/// Reads `s` once and counts its characters and unescaped `@`, and notes
/// whether a control character, whitespace or a dot occurs.
fn scan(s: &str) -> (found: Scan)
    ensures
        found.length == s@.len(),
        found.separators == separator_count(s@),
        found.control == !line_safe(s@),
        found.whitespace == !no_whitespace(s@),
        found.dot == has_dot(s@),
{
    let length: usize = s.unicode_len();
    let mut count: usize = 0;
    let mut control = false;
    let mut whitespace = false;
    let mut dot = false;
    let mut quoted = false;
    let mut escaped = false;
    for c in it: s.chars()
        invariant
            it.seq() == s@,
            length == s@.len(),
            count == separators(s@, it.index() as int),
            count <= it.index(),
            (Lex { quoted, escaped }) == lex_after(s@, it.index() as int),
            control == exists|k: int| 0 <= k < it.index() && is_control(#[trigger] s@[k]),
            whitespace == exists|k: int| 0 <= k < it.index() && is_whitespace(#[trigger] s@[k]),
            dot == exists|k: int| 0 <= k < it.index() && #[trigger] s@[k] == '.',
    {
        let ghost at = it.index() as int;
        assert(c == s@[at]);
        if c == '@' && !quoted && !escaped {
            count += 1;
        }
        if char_is_control(c) {
            control = true;
        }
        if char_is_whitespace(c) {
            whitespace = true;
        }
        if c == '.' {
            dot = true;
        }
        if escaped {
            escaped = false;
        } else if c == '\\' {
            escaped = true;
        } else if c == '"' {
            quoted = !quoted;
        }
    }
    Scan { length, separators: count, control, whitespace, dot }
}

impl EmailAddress {
    /// Builds the address from a text and the two parts that a grammar found
    /// in it, if they meet the rules of this crate.
    pub fn from_parts(raw: &str, local: String, domain: String) -> (r: Result<
        EmailAddress,
        InvalidFormat,
    >)
        ensures
            r is Ok <==> parts_well_formed(raw@, local@, domain@),
            r matches Ok(address) ==> address@ == (AddressView { local: local@, domain: domain@ })
                && address@.well_formed() && address@.text() == raw@,
    {
        let whole = scan(raw);
        if whole.separators != 1 || whole.control {
            return Err(InvalidFormat);
        }
        let left = scan(local.as_str());
        if left.length == 0 || left.separators != 0 {
            return Err(InvalidFormat);
        }
        let right = scan(domain.as_str());
        if right.length == 0 || !right.dot || right.whitespace {
            return Err(InvalidFormat);
        }
        let mut joined = local.clone();
        joined.append("@");
        joined.append(domain.as_str());
        proof {
            reveal_strlit("@");
            assert("@"@ =~= seq!['@']);
        }
        if joined != raw.to_owned() {
            return Err(InvalidFormat);
        }
        proof {
            lemma_parts_make_address(raw@, local@, domain@);
        }
        Ok(EmailAddress { local_part: local, domain })
    }

    /// Checks `raw` and splits it into local part and domain.
    ///
    /// The text is an address exactly when `accepted` holds of it. In
    /// particular a text that does not have exactly one unescaped `@` is
    /// never one.
    pub fn parse(raw: &str) -> (r: Result<EmailAddress, InvalidFormat>)
        ensures
            match r {
                Ok(address) => parse_spec(raw@) == Ok::<AddressView, InvalidFormat>(address@),
                Err(error) => parse_spec(raw@) == Err::<AddressView, InvalidFormat>(error),
            },
            r matches Ok(address) ==> address@.well_formed() && address@.text() == raw@,
            separator_count(raw@) != 1 ==> r is Err,
    {
        match split_by_grammar(raw) {
            Some((local, domain)) => EmailAddress::from_parts(raw, local, domain),
            None => Err(InvalidFormat),
        }
    }

    /// The part before the `@`.
    pub fn local_part(&self) -> (part: &str)
        ensures
            part@ == self@.local,
    {
        self.local_part.as_str()
    }

    /// The part behind the `@`.
    pub fn domain(&self) -> (part: &str)
        ensures
            part@ == self@.domain,
    {
        self.domain.as_str()
    }

    /// The address in one piece, as it goes into `RCPT TO`.
    pub fn to_text(&self) -> (text: String)
        ensures
            text@ == self@.text(),
            self@.well_formed(),
            line_safe(text@),
    {
        proof {
            use_type_invariant(self);
            reveal_strlit("@");
            assert("@"@ =~= seq!['@']);
        }
        let mut text = self.local_part.clone();
        text.append("@");
        text.append(self.domain.as_str());
        proof {
            lemma_text_line_safe(self@);
        }
        text
    }

    #[verifier::type_invariant]
    spec fn valid(&self) -> bool {
        self@.well_formed()
    }
}

/// The number of unescaped `@` in `raw`.
pub fn count_separators(raw: &str) -> (count: usize)
    ensures
        count == separator_count(raw@),
{
    scan(raw).separators
}

/// The text of a well-formed address holds no control character.
pub proof fn lemma_text_line_safe(address: AddressView)
    requires
        address.well_formed(),
    ensures
        line_safe(address.text()),
{
    let text = address.text();
    assert forall|i: int| 0 <= i < text.len() implies !is_control(#[trigger] text[i]) by {
        if i < address.local.len() {
            assert(text[i] == address.local[i]);
        } else if i == address.local.len() {
            assert(text[i] == '@');
        } else {
            assert(text[i] == address.domain[i - address.local.len() - 1]);
        }
    }
}

/// Asks the `email_address` crate for the parts of an address.
///
/// Trusted: the body calls `EmailAddress::from_str` of that crate and, where
/// it succeeds, `local_part` and `domain` on the value. The three are
/// functions of the text alone and none of them panics on a text that
/// `from_str` accepted; the contract gives their joint result the name
/// `grammar_split` and states nothing else of it.
#[verifier::external_body]
fn split_by_grammar(raw: &str) -> (parts: Option<(String, String)>)
    ensures
        match parts {
            Some((local, domain)) => grammar_split(raw@) == Some((local@, domain@)),
            None => grammar_split(raw@) is None,
        },
{
    match email_address::EmailAddress::from_str(raw) {
        Ok(parsed) => Some((parsed.local_part().to_owned(), parsed.domain().to_owned())),
        Err(_) => None,
    }
}

} // verus!
