//! The `Timeout` header.

use vstd::prelude::*;
use vstd::string::StringExecFns;
use crate::headers::utils::{
    extract_chars, has_word_at, header_text, is_header_text, is_word,
    starts_with_ignore_ascii_case, InvalidHeader,
};
use crate::text::{
    decimal, format_decimal, from_chars, lemma_decimal, lemma_decimal_round_trip, parse_decimal,
    parsed_decimal,
};

verus! {

/// The `Timeout` header as defined in
/// [RFC 4918](http://webdav.org/specs/rfc4918.html#HEADER_Timeout).
#[derive(Clone, Copy, Debug, PartialEq)]
pub enum Timeout {
    Seconds(u32),
    Infinite,
}

/// The timeout that a text stands for: `Infinite`, or `Second-` and a
/// decimal number that fits in 32 bits; the words in any case.
pub open spec fn timeout_of(s: Seq<char>) -> Option<Timeout> {
    if is_word(s, "Infinite"@) {
        Some(Timeout::Infinite)
    } else if has_word_at(s, 0, "Second-"@) {
        match parsed_decimal(s.subrange(7, s.len() as int), u32::MAX as nat) {
            Some(n) => Some(Timeout::Seconds(n as u32)),
            None => None,
        }
    } else {
        None
    }
}

/// The text of a timeout.
pub open spec fn timeout_text(timeout: Timeout) -> Seq<char> {
    match timeout {
        Timeout::Seconds(n) => "Second-"@ + decimal(n as nat),
        Timeout::Infinite => "Infinite"@,
    }
}

impl Timeout {
    /// The name of the header field.
    pub fn name() -> (r: &'static str)
        ensures
            r == crate::headers::TIMEOUT,
    {
        crate::headers::TIMEOUT
    }

    /// Reads a timeout from its text.
    pub fn peek(chars: &[char]) -> (r: Option<Timeout>)
        ensures
            r == timeout_of(chars@),
    {
        proof {
            reveal_strlit("Infinite");
            reveal_strlit("Second-");
        }
        if chars.len() == 8 && starts_with_ignore_ascii_case(chars, 0, "Infinite") {
            return Some(Timeout::Infinite);
        }
        if starts_with_ignore_ascii_case(chars, 0, "Second-") {
            let digits = from_chars(chars, 7, chars.len());
            match parse_decimal(digits.as_str(), 0xFFFF_FFFF) {
                Some(n) => Some(Timeout::Seconds(n as u32)),
                None => None,
            }
        } else {
            None
        }
    }

    /// Decodes the header from the values of its header field: there must
    /// be one value, it must be text, and the text must stand for a
    /// timeout.
    pub fn decode(values: &[Vec<u8>]) -> (r: Result<Timeout, InvalidHeader>)
        ensures
            r == if values@.len() == 1 && is_header_text(values@[0]@) {
                match timeout_of(header_text(values@[0]@)) {
                    Some(timeout) => Ok::<Timeout, InvalidHeader>(timeout),
                    None => Err::<Timeout, InvalidHeader>(InvalidHeader),
                }
            } else {
                Err::<Timeout, InvalidHeader>(InvalidHeader)
            },
    {
        let chars = extract_chars(values)?;
        match Timeout::peek(chars.as_slice()) {
            Some(timeout) => Ok(timeout),
            None => Err(InvalidHeader),
        }
    }

    /// Encodes the header as the text of one value.
    pub fn encode(&self) -> (text: String)
        ensures
            text@ == timeout_text(*self),
    {
        match self {
            Timeout::Seconds(n) => {
                let mut text = "Second-".to_owned();
                text.append(format_decimal(*n as u64).as_str());
                text
            },
            Timeout::Infinite => "Infinite".to_owned(),
        }
    }
}

/// Round trip: the text of a timeout stands for that timeout.
pub proof fn lemma_round_trip(timeout: Timeout)
    ensures
        timeout_of(timeout_text(timeout)) == Some(timeout),
{
    reveal_strlit("Infinite");
    reveal_strlit("Second-");
    match timeout {
        Timeout::Infinite => {
            assert(is_word("Infinite"@, "Infinite"@));
        },
        Timeout::Seconds(n) => {
            let text = timeout_text(timeout);
            lemma_decimal(n as nat);
            lemma_decimal_round_trip(n as nat, u32::MAX as nat);
            assert(text[0] == 'S');
            assert(!is_word(text, "Infinite"@)) by {
                if is_word(text, "Infinite"@) {
                    assert(crate::headers::utils::ascii_lower(text[0int + 0int])
                        == crate::headers::utils::ascii_lower("Infinite"@[0int]));
                }
            }
            assert(has_word_at(text, 0, "Second-"@)) by {
                assert forall|i: int| 0 <= i < 7 implies crate::headers::utils::ascii_lower(
                    #[trigger] text[0int + i],
                ) == crate::headers::utils::ascii_lower("Second-"@[i]) by {
                    assert(text[i] == "Second-"@[i]);
                }
            }
            assert(text.subrange(7, text.len() as int) =~= decimal(n as nat));
        },
    }
}

} // verus!
