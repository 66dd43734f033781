//! The Coded-URL of the `DAV`, `If` and `Lock-Token` headers: an absolute
//! URI between angle brackets.

use vstd::prelude::*;
use vstd::string::StringExecFns;
use uniresid::AbsoluteUri;
use uniresid::Error as UriError;
use crate::text::{find_char, find_from, from_chars, to_chars};

verus! {

/// `uniresid::AbsoluteUri`: a URI with a scheme and without a fragment.
#[verifier::external_type_specification]
#[verifier::external_body]
pub struct ExAbsoluteUri(AbsoluteUri);

/// `uniresid::Error`: why a text is no absolute URI.
#[verifier::external_type_specification]
#[verifier::external_body]
pub struct ExUriError(UriError);

/// A copy of an absolute URI is the same URI.
pub assume_specification[ <AbsoluteUri as Clone>::clone ](source: &AbsoluteUri) -> (copy:
    AbsoluteUri)
    ensures
        copy == *source,
;

/// What parsing a text as an absolute URI gives.
pub uninterp spec fn absolute_uri_parsed(text: Seq<char>) -> Result<AbsoluteUri, UriError>;

/// The text that an absolute URI is printed as.
pub uninterp spec fn absolute_uri_text(uri: AbsoluteUri) -> Seq<char>;

/// Parses an absolute URI.
///
/// Trusted: calls `AbsoluteUri::parse`, whose outcome depends on the text
/// alone.
#[verifier::external_body]
fn parse_absolute_uri(text: &str) -> (r: Result<AbsoluteUri, UriError>)
    ensures
        r == absolute_uri_parsed(text@),
{
    AbsoluteUri::parse(text)
}

/// Prints an absolute URI.
///
/// Trusted: calls `AbsoluteUri::to_string`, whose outcome depends on the
/// URI alone.
#[verifier::external_body]
fn print_absolute_uri(uri: &AbsoluteUri) -> (r: String)
    ensures
        r@ == absolute_uri_text(*uri),
{
    uri.to_string()
}

/// Coded-URL used in the `DAV` and `If` headers.
#[derive(Clone, Debug, PartialEq)]
pub struct CodedUrl(pub AbsoluteUri);

/// Error returned when parsing a [`CodedUrl`] from a string fails.
#[derive(Debug)]
pub enum InvalidCodedUrl {
    /// The character that should stand here does not.
    ExpectedChar(char),
    /// What stands between the brackets is no absolute URI.
    Uri(UriError),
}

/// The Coded-URL at position `at` of a text, and the position behind it:
/// a `<`, an absolute URI up to the next `>`, and that `>`.
pub open spec fn coded_url_at(s: Seq<char>, at: int) -> Result<(CodedUrl, int), InvalidCodedUrl> {
    if 0 <= at < s.len() && s[at] == '<' {
        let end = find_from(s, at + 1, '>');
        if end >= s.len() {
            Err(InvalidCodedUrl::ExpectedChar('>'))
        } else {
            match absolute_uri_parsed(s.subrange(at + 1, end)) {
                Ok(uri) => Ok((CodedUrl(uri), end + 1)),
                Err(e) => Err(InvalidCodedUrl::Uri(e)),
            }
        }
    } else {
        Err(InvalidCodedUrl::ExpectedChar('<'))
    }
}

/// Reading a Coded-URL moves on.
pub proof fn lemma_coded_url_at(s: Seq<char>, at: int)
    ensures
        coded_url_at(s, at) matches Ok((_, next)) ==> 0 <= at < next <= s.len(),
{
}

/// The text of a Coded-URL: the URI between angle brackets.
pub open spec fn coded_url_text(url: CodedUrl) -> Seq<char> {
    seq!['<'] + absolute_uri_text(url.0) + seq!['>']
}

impl CodedUrl {
    /// Reads the Coded-URL at position `at`, and gives it with the
    /// position behind it.
    pub fn peek(chars: &[char], at: usize) -> (r: Result<(CodedUrl, usize), InvalidCodedUrl>)
        requires
            at <= chars@.len(),
        ensures
            match coded_url_at(chars@, at as int) {
                Ok((url, next)) => r == Ok::<(CodedUrl, usize), InvalidCodedUrl>(
                    (url, next as usize),
                ) && at < next <= chars@.len(),
                Err(e) => r == Err::<(CodedUrl, usize), InvalidCodedUrl>(e),
            },
    {
        if at >= chars.len() || chars[at] != '<' {
            return Err(InvalidCodedUrl::ExpectedChar('<'));
        }
        let end = find_char(chars, at + 1, '>');
        if end >= chars.len() {
            return Err(InvalidCodedUrl::ExpectedChar('>'));
        }
        let text = from_chars(chars, at + 1, end);
        match parse_absolute_uri(text.as_str()) {
            Ok(uri) => Ok((CodedUrl(uri), end + 1)),
            Err(e) => Err(InvalidCodedUrl::Uri(e)),
        }
    }

    /// Parses the Coded-URL at the start of a text. What follows it is
    /// not read.
    pub fn parse(text: &str) -> (r: Result<CodedUrl, InvalidCodedUrl>)
        ensures
            match coded_url_at(text@, 0) {
                Ok((url, _)) => r == Ok::<CodedUrl, InvalidCodedUrl>(url),
                Err(e) => r == Err::<CodedUrl, InvalidCodedUrl>(e),
            },
    {
        let chars = to_chars(text);
        match CodedUrl::peek(chars.as_slice(), 0) {
            Ok((url, _)) => Ok(url),
            Err(e) => Err(e),
        }
    }

    /// The text of this Coded-URL.
    pub fn to_text(&self) -> (text: String)
        ensures
            text@ == coded_url_text(*self),
    {
        proof {
            reveal_strlit("<");
            reveal_strlit(">");
        }
        let mut text = "<".to_owned();
        text.append(print_absolute_uri(&self.0).as_str());
        text.append(">");
        assert(text@ =~= coded_url_text(*self));
        text
    }
}

impl std::str::FromStr for CodedUrl {
    type Err = InvalidCodedUrl;

    /// Parses the Coded-URL at the start of a text, as [`CodedUrl::parse`]
    /// does.
    fn from_str(text: &str) -> (r: Result<Self, Self::Err>)
        ensures
            match coded_url_at(text@, 0) {
                Ok((url, _)) => r == Ok::<CodedUrl, InvalidCodedUrl>(url),
                Err(e) => r == Err::<CodedUrl, InvalidCodedUrl>(e),
            },
    {
        CodedUrl::parse(text)
    }
}

impl InvalidCodedUrl {
    /// The message of this error.
    pub fn message(&self) -> (text: String)
        ensures
            match *self {
                InvalidCodedUrl::ExpectedChar(c) => text@ == "expected '"@ + seq![c] + "'"@,
                InvalidCodedUrl::Uri(_) => text@ == "invalid Absolute-URI"@,
            },
    {
        match self {
            InvalidCodedUrl::ExpectedChar(c) => {
                let mut text = "expected '".to_owned();
                crate::text::push_char(&mut text, *c);
                text.append("'");
                assert(text@ =~= "expected '"@ + seq![*c] + "'"@);
                text
            },
            InvalidCodedUrl::Uri(_) => "invalid Absolute-URI".to_owned(),
        }
    }
}

} // verus!
