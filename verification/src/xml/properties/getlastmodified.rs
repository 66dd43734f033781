//! The `getlastmodified` property.

use vstd::prelude::*;
use httpdate::Error as HttpDateError;
use httpdate::HttpDate as Timestamp;
use crate::xml::convert::{fails_with, wrong_shape, FromValue, IntoValue};
use crate::xml::element::Element;
use crate::xml::error::{ConversionError, ExtractElementError, ExtractElementErrorKind};
use crate::xml::value::{Value, ValueView};
use crate::xml::{DAV_NAMESPACE, DAV_PREFIX};

verus! {

/// `httpdate::HttpDate`: a point in time with a precision of seconds.
#[verifier::external_type_specification]
#[verifier::external_body]
pub struct ExTimestamp(Timestamp);

/// A copy of an HTTP date is the same date.
pub assume_specification[ <Timestamp as Clone>::clone ](source: &Timestamp) -> (copy: Timestamp)
    ensures
        copy == *source,
;

/// What parsing a text as an HTTP date gives.
pub uninterp spec fn http_date_parsed(text: Seq<char>) -> Result<Timestamp, HttpDateError>;

/// The text that an HTTP date is printed as.
pub uninterp spec fn http_date_text(date: Timestamp) -> Seq<char>;

/// Parses an HTTP date.
///
/// Trusted: calls `HttpDate::from_str`, whose outcome depends on the text
/// alone.
#[verifier::external_body]
fn parse_http_date(text: &str) -> (r: Result<Timestamp, HttpDateError>)
    ensures
        r == http_date_parsed(text@),
{
    text.parse()
}

/// Prints an HTTP date.
///
/// Trusted: calls `HttpDate::to_string`, whose outcome depends on the date
/// alone.
#[verifier::external_body]
fn print_http_date(date: &Timestamp) -> (r: String)
    ensures
        r@ == http_date_text(*date),
{
    date.to_string()
}

/// The `getlastmodified` property as defined in
/// [RFC 4918](http://webdav.org/specs/rfc4918.html#PROPERTY_getlastmodified).
#[derive(Clone, Debug, PartialEq)]
pub struct LastModified(pub Timestamp);

impl Element for LastModified {
    const NAMESPACE: &'static str = DAV_NAMESPACE;

    const PREFIX: &'static str = DAV_PREFIX;

    const LOCAL_NAME: &'static str = "getlastmodified";
}

impl FromValue for LastModified {
    /// The element is the date that the text of a text node parses as.
    open spec fn extracts(value: ValueView, out: Result<Self, ExtractElementError>) -> bool {
        match value {
            ValueView::Text(text) => match http_date_parsed(text) {
                Ok(found) => out == Ok::<Self, ExtractElementError>(LastModified(found)),
                Err(e) => fails_with(
                    out,
                    ExtractElementErrorKind::Other(ConversionError::HttpDate(e)),
                ),
            },
            _ => fails_with(out, wrong_shape("text", value)),
        }
    }

    fn from_value(value: &Value) -> (out: Result<Self, ExtractElementError>) {
        match parse_http_date(value.to_str()?) {
            Ok(found) => Ok(LastModified(found)),
            Err(e) => Err(ExtractElementError::other(ConversionError::HttpDate(e))),
        }
    }
}

impl IntoValue for LastModified {
    open spec fn encodable(&self) -> bool {
        true
    }

    fn is_encodable(&self) -> (r: bool) {
        true
    }

    open spec fn as_value(&self) -> ValueView {
        ValueView::Text(http_date_text(self.0))
    }

    fn into_value(self) -> (value: Value) {
        Value::Text(print_http_date(&self.0))
    }
}

/// The name under which the element is stored and written.
pub proof fn lemma_name()
    ensures
        LastModified::NAMESPACE@ == "DAV:"@,
        LastModified::PREFIX@ == "d"@,
        LastModified::LOCAL_NAME@ == "getlastmodified"@,
{
}

} // verus!
