//! Text: the decoding of what a server sent, and the character classes by
//! which the crate judges what may stand in an address or on a command line.

use vstd::prelude::*;

verus! {

/// The characters that a lossy UTF-8 decoding of `bytes` yields.
pub uninterp spec fn lossy_text(bytes: Seq<u8>) -> Seq<char>;

/// Whether every byte is below 128.
pub open spec fn all_ascii(bytes: Seq<u8>) -> bool {
    forall|i: int| 0 <= i < bytes.len() ==> bytes[i] < 128
}

/// Each byte as the character with its number.
pub open spec fn ascii_text(bytes: Seq<u8>) -> Seq<char> {
    Seq::new(bytes.len(), |i: int| bytes[i] as char)
}

/// Text that a server sent, as characters: ASCII as it stands, anything
/// else as its lossy UTF-8 decoding.
pub open spec fn decoded(bytes: Seq<u8>) -> Seq<char> {
    if all_ascii(bytes) {
        ascii_text(bytes)
    } else {
        lossy_text(bytes)
    }
}

/// Decodes text that a server sent.
///
/// Trusted: this is `String::from_utf8_lossy` of the standard library, whose
/// result depends on the bytes alone. Of that result the contract states
/// only that bytes which are all ASCII decode to the characters with the same
/// numbers, as valid UTF-8 is returned unchanged; what other bytes decode to
/// stays unnamed.
#[verifier::external_body]
pub(crate) fn decode_lossy(bytes: &[u8]) -> (text: String)
    ensures
        text@ == lossy_text(bytes@),
        all_ascii(bytes@) ==> text@ == ascii_text(bytes@),
{
    String::from_utf8_lossy(bytes).into_owned()
}

/// Appends `bytes` to `out`.
pub(crate) fn append_bytes(out: &mut Vec<u8>, bytes: &[u8])
    ensures
        final(out)@ == old(out)@ + bytes@,
{
    let mut i: usize = 0;
    while i < bytes.len()
        invariant
            i <= bytes.len(),
            out@ == old(out)@ + bytes@.subrange(0, i as int),
        decreases bytes.len() - i,
    {
        out.push(bytes[i]);
        i += 1;
        assert(out@ =~= old(out)@ + bytes@.subrange(0, i as int));
    }
    assert(bytes@.subrange(0, bytes.len() as int) =~= bytes@);
}

/// A control character: below 32, or from 127 to 159.
pub open spec fn is_control(c: char) -> bool {
    (c as u32) < 32 || 127 <= (c as u32) <= 159
}

/// A character with the Unicode property `White_Space`.
pub open spec fn is_whitespace(c: char) -> bool {
    let n = c as u32;
    ||| 9 <= n <= 13
    ||| n == 0x20
    ||| n == 0x85
    ||| n == 0xA0
    ||| n == 0x1680
    ||| 0x2000 <= n <= 0x200A
    ||| n == 0x2028
    ||| n == 0x2029
    ||| n == 0x202F
    ||| n == 0x205F
    ||| n == 0x3000
}

/// Text without control characters: written on a line of its own, it
/// neither ends the line nor starts another.
pub open spec fn line_safe(s: Seq<char>) -> bool {
    forall|i: int| 0 <= i < s.len() ==> !is_control(#[trigger] s[i])
}

/// Text without whitespace.
pub open spec fn no_whitespace(s: Seq<char>) -> bool {
    forall|i: int| 0 <= i < s.len() ==> !is_whitespace(#[trigger] s[i])
}

/// Whether `c` is a control character.
pub fn char_is_control(c: char) -> (control: bool)
    ensures
        control == is_control(c),
{
    let n: u32 = c as u32;
    n < 32 || (127 <= n && n <= 159)
}

/// Whether `c` is whitespace.
pub fn char_is_whitespace(c: char) -> (space: bool)
    ensures
        space == is_whitespace(c),
{
    let n: u32 = c as u32;
    (9 <= n && n <= 13) || n == 0x20 || n == 0x85 || n == 0xA0 || n == 0x1680 || (0x2000 <= n && n
        <= 0x200A) || n == 0x2028 || n == 0x2029 || n == 0x202F || n == 0x205F || n == 0x3000
}

/// Whether `s` holds no control character.
pub fn is_line_safe(s: &str) -> (safe: bool)
    ensures
        safe == line_safe(s@),
{
    let mut safe = true;
    for c in it: s.chars()
        invariant
            it.seq() == s@,
            safe == forall|k: int| 0 <= k < it.index() ==> !is_control(#[trigger] s@[k]),
    {
        if char_is_control(c) {
            safe = false;
        }
    }
    safe
}

/// Text that can stand as one argument of a command: no control character
/// and no whitespace.
pub open spec fn is_token(s: Seq<char>) -> bool {
    line_safe(s) && no_whitespace(s)
}

/// Whether `s` holds neither a control character nor whitespace.
pub fn check_token(s: &str) -> (token: bool)
    ensures
        token == is_token(s@),
{
    let mut safe = true;
    let mut solid = true;
    for c in it: s.chars()
        invariant
            it.seq() == s@,
            safe == forall|k: int| 0 <= k < it.index() ==> !is_control(#[trigger] s@[k]),
            solid == forall|k: int| 0 <= k < it.index() ==> !is_whitespace(#[trigger] s@[k]),
    {
        if char_is_control(c) {
            safe = false;
        }
        if char_is_whitespace(c) {
            solid = false;
        }
    }
    safe && solid
}

/// Whether `s` holds the character `wanted`.
pub fn contains_char(s: &str, wanted: char) -> (found: bool)
    ensures
        found == s@.contains(wanted),
{
    let mut found = false;
    for c in it: s.chars()
        invariant
            it.seq() == s@,
            found == exists|k: int| 0 <= k < it.index() && #[trigger] s@[k] == wanted,
    {
        if c == wanted {
            found = true;
        }
    }
    found
}

} // verus!
