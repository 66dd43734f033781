//! What the header grammars share: the values of a header as text, white
//! space, and comparison without regard to case.

use vstd::prelude::*;
use vstd::string::StringSliceAdditionalSpecFns;
use crate::text::{char_is_whitespace, is_whitespace};

verus! {

/// The values of a header do not make a header of the expected kind.
#[derive(Clone, Copy, Debug, PartialEq, Eq)]
pub struct InvalidHeader;

/// Whether a byte may stand in a header value that is read as text: a
/// visible ASCII character, a space or a tab.
pub open spec fn is_visible_ascii(b: u8) -> bool {
    32 <= b < 127 || b == 9
}

/// Whether a header value can be read as text.
pub open spec fn is_header_text(bytes: Seq<u8>) -> bool {
    forall|i: int| 0 <= i < bytes.len() ==> is_visible_ascii(#[trigger] bytes[i])
}

/// The text of a header value: each byte is one character.
pub open spec fn header_text(bytes: Seq<u8>) -> Seq<char> {
    Seq::new(bytes.len(), |i: int| bytes[i] as char)
}

/// The single value of a header that must have exactly one.
pub fn take_one(values: &[Vec<u8>]) -> (r: Result<&Vec<u8>, InvalidHeader>)
    ensures
        match r {
            Ok(value) => values@.len() == 1 && *value == values@[0],
            Err(_) => values@.len() != 1,
        },
{
    if values.len() == 1 {
        Ok(&values[0])
    } else {
        Err(InvalidHeader)
    }
}

/// The text of the single value of a header. A header with no value or
/// with several, and a value that is no text, are invalid.
pub fn extract_chars(values: &[Vec<u8>]) -> (r: Result<Vec<char>, InvalidHeader>)
    ensures
        match r {
            Ok(chars) => values@.len() == 1 && is_header_text(values@[0]@) && chars@ == header_text(
                values@[0]@,
            ),
            Err(_) => values@.len() != 1 || !is_header_text(values@[0]@),
        },
{
    let value = take_one(values)?;
    let mut chars: Vec<char> = Vec::new();
    let mut i: usize = 0;
    while i < value.len()
        invariant
            0 <= i <= value@.len(),
            values@.len() == 1,
            *value == values@[0],
            chars@.len() == i,
            forall|j: int| 0 <= j < i ==> is_visible_ascii(#[trigger] value@[j]),
            forall|j: int| 0 <= j < i ==> (#[trigger] chars@[j]) == value@[j] as char,
        decreases value@.len() - i,
    {
        let b = value[i];
        if !(b >= 32 && b < 127 || b == 9) {
            return Err(InvalidHeader);
        }
        chars.push(b as char);
        i += 1;
    }
    assert(chars@ =~= header_text(value@));
    Ok(chars)
}

/// The position of the first character from `at` on that is no white
/// space, or the length of the text where only white space follows.
pub open spec fn blank_end(s: Seq<char>, at: int) -> int
    decreases s.len() - at,
{
    if at < 0 || at >= s.len() {
        s.len() as int
    } else if is_whitespace(s[at]) {
        blank_end(s, at + 1)
    } else {
        at
    }
}

/// White space ends at or behind the position where it was looked for.
pub proof fn lemma_blank_end(s: Seq<char>, at: int)
    requires
        0 <= at <= s.len(),
    ensures
        at <= blank_end(s, at) <= s.len(),
    decreases s.len() - at,
{
    if at < s.len() && is_whitespace(s[at]) {
        lemma_blank_end(s, at + 1);
    }
}

/// Skips white space; see [`blank_end`].
pub fn skip_blank(chars: &[char], at: usize) -> (r: usize)
    requires
        at <= chars@.len(),
    ensures
        r == blank_end(chars@, at as int),
        at <= r <= chars@.len(),
{
    let mut i = at;
    while i < chars.len() && char_is_whitespace(chars[i])
        invariant
            at <= i <= chars@.len(),
            blank_end(chars@, at as int) == blank_end(chars@, i as int),
        decreases chars@.len() - i,
    {
        i += 1;
    }
    i
}

/// The position behind the last character that is no white space, or 0
/// where there is none.
pub open spec fn solid_end(s: Seq<char>) -> int
    decreases s.len(),
{
    if s.len() == 0 {
        0
    } else if is_whitespace(s.last()) {
        solid_end(s.drop_last())
    } else {
        s.len() as int
    }
}

/// A text without the white space at its start and at its end.
pub open spec fn trimmed(s: Seq<char>) -> Seq<char> {
    if blank_end(s, 0) >= solid_end(s) {
        Seq::empty()
    } else {
        s.subrange(blank_end(s, 0), solid_end(s))
    }
}

/// Removes the white space at both ends; see [`trimmed`].
pub fn trim(chars: &[char]) -> (r: Vec<char>)
    ensures
        r@ == trimmed(chars@),
{
    let start = skip_blank(chars, 0);
    let mut end = chars.len();
    assert(chars@.take(chars@.len() as int) =~= chars@);
    while end > 0 && char_is_whitespace(chars[end - 1])
        invariant
            0 <= end <= chars@.len(),
            solid_end(chars@) == solid_end(chars@.take(end as int)),
        decreases end,
    {
        assert(chars@.take(end as int).drop_last() =~= chars@.take(end - 1));
        end -= 1;
    }
    let mut r: Vec<char> = Vec::new();
    if start < end {
        let mut i = start;
        while i < end
            invariant
                start <= i <= end <= chars@.len(),
                r@ == chars@.subrange(start as int, i as int),
            decreases end - i,
        {
            r.push(chars[i]);
            assert(chars@.subrange(start as int, i + 1) =~= chars@.subrange(
                start as int,
                i as int,
            ).push(chars@[i as int]));
            i += 1;
        }
    }
    r
}

/// An ASCII letter in lower case; any other character as it is.
pub open spec fn ascii_lower(c: char) -> char {
    if 0x41 <= c as u32 <= 0x5A {
        ((c as u32 + 0x20) as u8) as char
    } else {
        c
    }
}

/// Whether the text has `word` at `at`, without regard to the case of
/// ASCII letters.
pub open spec fn has_word_at(s: Seq<char>, at: int, word: Seq<char>) -> bool {
    &&& 0 <= at
    &&& at + word.len() <= s.len()
    &&& forall|i: int|
        0 <= i < word.len() ==> ascii_lower(#[trigger] s[at + i]) == ascii_lower(word[i])
}

/// An ASCII letter in lower case; see [`ascii_lower`].
pub fn to_ascii_lower(c: char) -> (r: char)
    ensures
        r == ascii_lower(c),
{
    let code = c as u32;
    if 0x41 <= code && code <= 0x5A {
        ((code + 0x20) as u8) as char
    } else {
        c
    }
}

/// Whether the text has `word` at `at`; see [`has_word_at`].
pub fn starts_with_ignore_ascii_case(chars: &[char], at: usize, word: &str) -> (r: bool)
    requires
        at <= chars@.len(),
    ensures
        r == has_word_at(chars@, at as int, word@),
{
    let letters = crate::text::to_chars(word);
    if letters.len() > chars.len() - at {
        return false;
    }
    let mut i: usize = 0;
    while i < letters.len()
        invariant
            0 <= i <= letters@.len(),
            letters@ == word@,
            at + letters@.len() <= chars@.len() <= usize::MAX,
            forall|j: int|
                0 <= j < i ==> ascii_lower(#[trigger] chars@[at + j]) == ascii_lower(letters@[j]),
        decreases letters@.len() - i,
    {
        if to_ascii_lower(chars[at + i]) != to_ascii_lower(letters[i]) {
            assert(ascii_lower(chars@[at + i]) != ascii_lower(word@[i as int]));
            return false;
        }
        i += 1;
    }
    true
}

/// Whether a header value is exactly the bytes of `word`.
pub fn value_is(value: &Vec<u8>, word: &str) -> (r: bool)
    ensures
        r == (value@ == word.spec_bytes()),
{
    let expected = word.as_bytes();
    if value.len() != expected.len() {
        return false;
    }
    let mut i: usize = 0;
    while i < value.len()
        invariant
            0 <= i <= value@.len(),
            value@.len() == expected@.len(),
            expected@ == word.spec_bytes(),
            forall|j: int| 0 <= j < i ==> value@[j] == expected@[j],
        decreases value@.len() - i,
    {
        if value[i] != expected[i] {
            return false;
        }
        i += 1;
    }
    assert(value@ =~= expected@);
    true
}

/// Whether the whole text is `word`, without regard to the case of ASCII
/// letters.
pub open spec fn is_word(s: Seq<char>, word: Seq<char>) -> bool {
    s.len() == word.len() && has_word_at(s, 0, word)
}

} // verus!
