//! The `getcontenttype` property.

use vstd::prelude::*;
use mime::FromStrError as MimeError;
use mime::Mime as MediaType;
use crate::xml::convert::{fails_with, wrong_shape, FromValue, IntoValue};
use crate::xml::element::Element;
use crate::xml::error::{ConversionError, ExtractElementError, ExtractElementErrorKind};
use crate::xml::value::{Value, ValueView};
use crate::xml::{DAV_NAMESPACE, DAV_PREFIX};

verus! {

/// `mime::Mime`: a media type.
#[verifier::external_type_specification]
#[verifier::external_body]
pub struct ExMediaType(MediaType);

/// A copy of a media type is the same media type.
pub assume_specification[ <MediaType as Clone>::clone ](source: &MediaType) -> (copy: MediaType)
    ensures
        copy == *source,
;

/// What parsing a text as a media type gives.
pub uninterp spec fn media_type_parsed(text: Seq<char>) -> Result<MediaType, MimeError>;

/// The text that a media type is printed as.
pub uninterp spec fn media_type_text(media_type: MediaType) -> Seq<char>;

/// Parses a media type.
///
/// Trusted: calls `Mime::from_str`, whose outcome depends on the text
/// alone.
#[verifier::external_body]
fn parse_media_type(text: &str) -> (r: Result<MediaType, MimeError>)
    ensures
        r == media_type_parsed(text@),
{
    text.parse()
}

/// Prints a media type.
///
/// Trusted: calls `Mime::to_string`, whose outcome depends on the media
/// type alone.
#[verifier::external_body]
fn print_media_type(media_type: &MediaType) -> (r: String)
    ensures
        r@ == media_type_text(*media_type),
{
    media_type.to_string()
}

/// The `getcontenttype` property as defined in
/// [RFC 4918](http://webdav.org/specs/rfc4918.html#PROPERTY_getcontenttype).
#[derive(Clone, Debug, PartialEq)]
pub struct ContentType(pub MediaType);

impl Element for ContentType {
    const NAMESPACE: &'static str = DAV_NAMESPACE;

    const PREFIX: &'static str = DAV_PREFIX;

    const LOCAL_NAME: &'static str = "getcontenttype";
}

impl FromValue for ContentType {
    /// The element is the media type that the text of a text node parses as.
    open spec fn extracts(value: ValueView, out: Result<Self, ExtractElementError>) -> bool {
        match value {
            ValueView::Text(text) => match media_type_parsed(text) {
                Ok(found) => out == Ok::<Self, ExtractElementError>(ContentType(found)),
                Err(e) => fails_with(
                    out,
                    ExtractElementErrorKind::Other(ConversionError::Mime(e)),
                ),
            },
            _ => fails_with(out, wrong_shape("text", value)),
        }
    }

    fn from_value(value: &Value) -> (out: Result<Self, ExtractElementError>) {
        match parse_media_type(value.to_str()?) {
            Ok(found) => Ok(ContentType(found)),
            Err(e) => Err(ExtractElementError::other(ConversionError::Mime(e))),
        }
    }
}

impl IntoValue for ContentType {
    open spec fn encodable(&self) -> bool {
        true
    }

    fn is_encodable(&self) -> (r: bool) {
        true
    }

    open spec fn as_value(&self) -> ValueView {
        ValueView::Text(media_type_text(self.0))
    }

    fn into_value(self) -> (value: Value) {
        Value::Text(print_media_type(&self.0))
    }
}

/// The name under which the element is stored and written.
pub proof fn lemma_name()
    ensures
        ContentType::NAMESPACE@ == "DAV:"@,
        ContentType::PREFIX@ == "d"@,
        ContentType::LOCAL_NAME@ == "getcontenttype"@,
{
}

} // verus!
