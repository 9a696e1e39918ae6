//! The delay that a server names in the text of a deferral, such as
//! `451 4.7.1 Greylisted, try again in 5 minutes`.
//!
//! A hint is a run of decimal digits followed, after at most one space, by a
//! unit that begins with `sec`, `min` or `hour` in either case. The first
//! hint of the first line that has one counts, in seconds, and is capped at
//! the largest `u64`.

use vstd::prelude::*;

use crate::reply::is_digit;
use crate::reply::SP;

verus! {

/// An ASCII letter in lower case; every other byte is left as it is.
pub open spec fn lower(b: u8) -> u8 {
    if 65 <= b <= 90 {
        (b + 32) as u8
    } else {
        b
    }
}

/// Whether `word` stands in `text` at `at`, letters compared without case.
pub open spec fn has_word(text: Seq<u8>, at: int, word: Seq<u8>) -> bool {
    &&& 0 <= at
    &&& at + word.len() <= text.len()
    &&& forall|k: int| 0 <= k < word.len() ==> lower(#[trigger] text[at + k]) == word[k]
}

/// `sec`
pub open spec fn word_sec() -> Seq<u8> {
    seq![115u8, 101u8, 99u8]
}

/// `min`
pub open spec fn word_min() -> Seq<u8> {
    seq![109u8, 105u8, 110u8]
}

/// `hour`
pub open spec fn word_hour() -> Seq<u8> {
    seq![104u8, 111u8, 117u8, 114u8]
}

/// The number of seconds in the unit that begins at `at`, if one does.
pub open spec fn unit_at(text: Seq<u8>, at: int) -> Option<u64> {
    if has_word(text, at, word_sec()) {
        Some(1u64)
    } else if has_word(text, at, word_min()) {
        Some(60u64)
    } else if has_word(text, at, word_hour()) {
        Some(3600u64)
    } else {
        None
    }
}

/// The first position at or behind `from` that holds no digit.
pub open spec fn digits_end(text: Seq<u8>, from: int) -> int
    decreases text.len() - from,
{
    if from < 0 || from >= text.len() || !is_digit(text[from]) {
        from
    } else {
        digits_end(text, from + 1)
    }
}

/// The number that the digits from `from` up to `to` spell.
pub open spec fn decimal(text: Seq<u8>, from: int, to: int) -> nat
    decreases to - from,
{
    if to <= from {
        0
    } else {
        decimal(text, from, to - 1) * 10 + (text[to - 1] - 48) as nat
    }
}

/// `n`, capped at the largest `u64`.
pub open spec fn saturate(n: int) -> u64 {
    if n > u64::MAX {
        u64::MAX
    } else {
        n as u64
    }
}

/// The hint whose digits begin exactly at `at`.
pub open spec fn hint_at(text: Seq<u8>, at: int) -> Option<u64> {
    if 0 <= at < text.len() && is_digit(text[at]) && (at == 0 || !is_digit(text[at - 1])) {
        let end = digits_end(text, at);
        let unit_pos = if end < text.len() && text[end] == SP {
            end + 1
        } else {
            end
        };
        match unit_at(text, unit_pos) {
            Some(unit) => Some(saturate(decimal(text, at, end) * unit)),
            None => None,
        }
    } else {
        None
    }
}

/// The first hint that begins at or behind `from`.
pub open spec fn first_hint(text: Seq<u8>, from: int) -> Option<u64>
    decreases text.len() - from,
{
    if from < 0 || from >= text.len() {
        None
    } else {
        match hint_at(text, from) {
            Some(seconds) => Some(seconds),
            None => first_hint(text, from + 1),
        }
    }
}

/// The hint of the first line, from line `from` on, that has one.
pub open spec fn retry_hint_from(lines: Seq<Seq<u8>>, from: int) -> Option<u64>
    decreases lines.len() - from,
{
    if from < 0 || from >= lines.len() {
        None
    } else {
        match first_hint(lines[from], 0) {
            Some(seconds) => Some(seconds),
            None => retry_hint_from(lines, from + 1),
        }
    }
}

/// The delay in seconds that the text of a reply names, if it names one.
pub open spec fn retry_hint(lines: Seq<Seq<u8>>) -> Option<u64> {
    retry_hint_from(lines, 0)
}

/// The run of digits ends within the text, holds only digits, and no digit
/// follows it.
pub proof fn lemma_digits_end(text: Seq<u8>, from: int)
    requires
        0 <= from <= text.len(),
    ensures
        from <= digits_end(text, from) <= text.len(),
        forall|k: int| from <= k < digits_end(text, from) ==> is_digit(text[k]),
        digits_end(text, from) < text.len() ==> !is_digit(text[digits_end(text, from)]),
    decreases text.len() - from,
{
    if from < text.len() && is_digit(text[from]) {
        lemma_digits_end(text, from + 1);
    }
}

/// No hint begins inside a run of digits, so a search may skip the run.
proof fn lemma_skip_run(text: Seq<u8>, at: int, end: int)
    requires
        0 <= at < end <= text.len(),
        forall|k: int| at <= k < end ==> is_digit(text[k]),
        hint_at(text, at) is None,
    ensures
        first_hint(text, at) == first_hint(text, end),
    decreases end - at,
{
    if at + 1 < end {
        assert(is_digit(text[at]));
        assert(hint_at(text, at + 1) is None);
        lemma_skip_run(text, at + 1, end);
    } else {
        reveal_with_fuel(first_hint, 2);
    }
}

fn to_lower(b: u8) -> (l: u8)
    ensures
        l == lower(b),
{
    if 65 <= b && b <= 90 {
        b + 32
    } else {
        b
    }
}

fn starts_with_word(text: &[u8], at: usize, a: u8, b: u8, c: u8) -> (found: bool)
    requires
        at <= text.len(),
    ensures
        found == has_word(text@, at as int, seq![a, b, c]),
{
    if text.len() - at < 3 {
        return false;
    }
    let found = to_lower(text[at]) == a && to_lower(text[at + 1]) == b && to_lower(text[at + 2])
        == c;
    proof {
        let word = seq![a, b, c];
        if found {
            assert forall|k: int| 0 <= k < word.len() implies lower(#[trigger] text@[at + k])
                == word[k] by {
                if k == 0 {
                } else if k == 1 {
                } else {
                }
            }
        } else {
            if has_word(text@, at as int, word) {
                assert(lower(text@[at + 0]) == word[0]);
                assert(lower(text@[at + 1]) == word[1]);
                assert(lower(text@[at + 2]) == word[2]);
            }
        }
    }
    found
}

fn read_unit(text: &[u8], at: usize) -> (unit: Option<u64>)
    requires
        at <= text.len(),
    ensures
        unit == unit_at(text@, at as int),
{
    if starts_with_word(text, at, 115, 101, 99) {
        Some(1)
    } else if starts_with_word(text, at, 109, 105, 110) {
        Some(60)
    } else if starts_with_word(text, at, 104, 111, 117) {
        let found = text.len() - at >= 4 && to_lower(text[at + 3]) == 114;
        proof {
            let short = seq![104u8, 111u8, 117u8];
            let word = word_hour();
            if found {
                assert forall|k: int| 0 <= k < word.len() implies lower(#[trigger] text@[at + k])
                    == word[k] by {
                    if k < 3 {
                        assert(lower(text@[at + k]) == short[k]);
                    }
                }
            } else {
                if has_word(text@, at as int, word) {
                    assert(lower(text@[at + 3]) == word[3]);
                }
            }
        }
        if found {
            Some(3600)
        } else {
            None
        }
    } else {
        proof {
            let short = seq![104u8, 111u8, 117u8];
            let word = word_hour();
            if has_word(text@, at as int, word) {
                assert forall|k: int| 0 <= k < short.len() implies lower(#[trigger] text@[at + k])
                    == short[k] by {
                    assert(lower(text@[at + k]) == word[k]);
                }
            }
        }
        None
    }
}

/// Reads the digits from `at` on and returns where they end and the number
/// they spell, capped at the largest `u64`.
fn read_number(text: &[u8], at: usize) -> (r: (usize, u64))
    requires
        at <= text.len(),
    ensures
        r.0 == digits_end(text@, at as int),
        r.1 == saturate(decimal(text@, at as int, r.0 as int) as int),
        at <= r.0 <= text.len(),
{
    let mut end: usize = at;
    let mut value: u64 = 0;
    while end < text.len() && 48 <= text[end] && text[end] <= 57
        invariant
            at <= end <= text.len(),
            digits_end(text@, at as int) == digits_end(text@, end as int),
            value == saturate(decimal(text@, at as int, end as int) as int),
        decreases text.len() - end,
    {
        let digit: u64 = (text[end] - 48) as u64;
        let ghost before = decimal(text@, at as int, end as int);
        assert(decimal(text@, at as int, end + 1) == before * 10 + digit);
        value =
        match value.checked_mul(10) {
            Some(tenfold) => match tenfold.checked_add(digit) {
                Some(sum) => sum,
                None => u64::MAX,
            },
            None => u64::MAX,
        };
        end += 1;
    }
    (end, value)
}

/// The hint whose digits begin at `at`, and where those digits end.
fn read_hint(text: &[u8], at: usize) -> (r: (usize, Option<u64>))
    requires
        at < text.len(),
        is_digit(text@[at as int]),
        at == 0 || !is_digit(text@[at - 1]),
    ensures
        r.0 == digits_end(text@, at as int),
        at < r.0 <= text.len(),
        r.1 == hint_at(text@, at as int),
{
    let (end, value) = read_number(text, at);
    proof {
        lemma_digits_end(text@, at + 1);
    }
    let unit_pos = if end < text.len() && text[end] == SP {
        end + 1
    } else {
        end
    };
    let hint = match read_unit(text, unit_pos) {
        Some(unit) => {
            let ghost exact = decimal(text@, at as int, end as int);
            assert(exact > u64::MAX ==> exact * unit > u64::MAX) by (nonlinear_arith)
                requires
                    unit >= 1,
            ;
            match value.checked_mul(unit) {
                Some(seconds) => Some(seconds),
                None => Some(u64::MAX),
            }
        },
        None => None,
    };
    (end, hint)
}

/// The first hint in one line of text.
pub fn line_retry_hint(text: &[u8]) -> (hint: Option<u64>)
    ensures
        hint == first_hint(text@, 0),
{
    let mut at: usize = 0;
    while at < text.len()
        invariant
            at <= text.len(),
            first_hint(text@, 0) == first_hint(text@, at as int),
            at < text.len() && is_digit(text@[at as int]) ==> at == 0 || !is_digit(text@[at - 1]),
        decreases text.len() - at,
    {
        if 48 <= text[at] && text[at] <= 57 {
            let (end, hint) = read_hint(text, at);
            proof {
                lemma_digits_end(text@, at as int);
            }
            if hint.is_some() {
                return hint;
            }
            proof {
                lemma_skip_run(text@, at as int, end as int);
            }
            at = end;
        } else {
            at += 1;
        }
    }
    None
}

/// The delay in seconds that the text of a reply names, if it names one.
pub fn find_retry_hint(lines: &Vec<Vec<u8>>) -> (hint: Option<u64>)
    ensures
        hint == retry_hint(crate::reply::lines_view(lines@)),
{
    let mut i: usize = 0;
    while i < lines.len()
        invariant
            i <= lines.len(),
            retry_hint(crate::reply::lines_view(lines@)) == retry_hint_from(
                crate::reply::lines_view(lines@),
                i as int,
            ),
        decreases lines.len() - i,
    {
        let hint = line_retry_hint(lines[i].as_slice());
        if hint.is_some() {
            return hint;
        }
        i += 1;
    }
    None
}

} // verus!
