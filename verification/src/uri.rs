//! URIs as the `http` crate parses and prints them.

use vstd::prelude::*;
use http::uri::InvalidUri;
use http::Uri as HttpUri;

verus! {

/// `http::Uri`: a parsed URI.
#[verifier::external_type_specification]
#[verifier::external_body]
pub struct ExUri(HttpUri);

/// A copy of a URI is the same URI.
pub assume_specification[ <HttpUri as Clone>::clone ](source: &HttpUri) -> (copy: HttpUri)
    ensures
        copy == *source,
;

/// What parsing a text as a URI gives.
pub uninterp spec fn uri_parsed(text: Seq<char>) -> Result<HttpUri, InvalidUri>;

/// The text that a URI is printed as.
pub uninterp spec fn uri_text(uri: HttpUri) -> Seq<char>;

/// Parses a URI.
///
/// Trusted: calls `Uri::from_str`, whose outcome depends on the text
/// alone.
#[verifier::external_body]
pub(crate) fn parse_uri(text: &str) -> (r: Result<HttpUri, InvalidUri>)
    ensures
        r == uri_parsed(text@),
{
    text.parse()
}

/// Prints a URI.
///
/// Trusted: calls `Uri::to_string`, whose outcome depends on the URI
/// alone.
#[verifier::external_body]
pub(crate) fn print_uri(uri: &HttpUri) -> (r: String)
    ensures
        r@ == uri_text(*uri),
{
    uri.to_string()
}

} // verus!
