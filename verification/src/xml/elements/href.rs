//! The `href` element.

use vstd::prelude::*;
use vstd::std_specs::convert::FromSpecImpl;
use http::Uri;
use crate::uri::{parse_uri, print_uri, uri_parsed, uri_text};
use crate::xml::convert::{fails_with, wrong_shape, FromValue, IntoValue};
use crate::xml::element::Element;
use crate::xml::error::{ConversionError, ExtractElementError, ExtractElementErrorKind};
use crate::xml::value::{Value, ValueView};
use crate::xml::{DAV_NAMESPACE, DAV_PREFIX};

verus! {

/// The `href` XML element as defined in
/// [RFC 4918](http://webdav.org/specs/rfc4918.html#ELEMENT_href).
#[derive(Clone, Debug, PartialEq)]
pub struct Href(pub Uri);

impl Element for Href {
    const NAMESPACE: &'static str = DAV_NAMESPACE;

    const PREFIX: &'static str = DAV_PREFIX;

    const LOCAL_NAME: &'static str = "href";
}

impl FromValue for Href {
    /// The element is the URI that the text of a text node parses as.
    open spec fn extracts(value: ValueView, out: Result<Self, ExtractElementError>) -> bool {
        match value {
            ValueView::Text(text) => match uri_parsed(text) {
                Ok(uri) => out == Ok::<Self, ExtractElementError>(Href(uri)),
                Err(e) => fails_with(out, ExtractElementErrorKind::Other(ConversionError::Uri(e))),
            },
            _ => fails_with(out, wrong_shape("text", value)),
        }
    }

    fn from_value(value: &Value) -> (out: Result<Self, ExtractElementError>) {
        match parse_uri(value.to_str()?) {
            Ok(uri) => Ok(Href(uri)),
            Err(e) => Err(ExtractElementError::other(ConversionError::Uri(e))),
        }
    }
}

impl IntoValue for Href {
    open spec fn encodable(&self) -> bool {
        true
    }

    fn is_encodable(&self) -> (r: bool) {
        true
    }

    open spec fn as_value(&self) -> ValueView {
        ValueView::Text(uri_text(self.0))
    }

    fn into_value(self) -> (value: Value) {
        Value::Text(print_uri(&self.0))
    }
}

impl From<Uri> for Href {
    fn from(uri: Uri) -> (href: Self) {
        Href(uri)
    }
}

impl FromSpecImpl<Uri> for Href {
    open spec fn obeys_from_spec() -> bool {
        true
    }

    open spec fn from_spec(uri: Uri) -> Self {
        Href(uri)
    }
}

impl std::str::FromStr for Href {
    type Err = http::uri::InvalidUri;

    /// Parses a reference from a text, as [`Href::parse`] does.
    fn from_str(text: &str) -> (r: Result<Self, Self::Err>)
        ensures
            match uri_parsed(text@) {
                Ok(uri) => r == Ok::<Href, http::uri::InvalidUri>(Href(uri)),
                Err(e) => r == Err::<Href, http::uri::InvalidUri>(e),
            },
    {
        Href::parse(text)
    }
}

impl Href {
    /// Parses a reference from a text.
    pub fn parse(text: &str) -> (r: Result<Href, http::uri::InvalidUri>)
        ensures
            match uri_parsed(text@) {
                Ok(uri) => r == Ok::<Href, http::uri::InvalidUri>(Href(uri)),
                Err(e) => r == Err::<Href, http::uri::InvalidUri>(e),
            },
    {
        match parse_uri(text) {
            Ok(uri) => Ok(Href(uri)),
            Err(e) => Err(e),
        }
    }
}

/// The name under which the element is stored and written.
pub proof fn lemma_name()
    ensures
        Href::NAMESPACE@ == "DAV:"@,
        Href::PREFIX@ == "d"@,
        Href::LOCAL_NAME@ == "href"@,
{
}

} // verus!
