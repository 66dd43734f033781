//! The `getcontentlength` property.

use vstd::prelude::*;
use crate::text::{decimal, format_decimal, lemma_decimal_round_trip, parse_decimal, parsed_decimal};
use crate::xml::convert::{fails_with, wrong_shape, FromValue, IntoValue};
use crate::xml::element::Element;
use crate::xml::error::{ConversionError, ExtractElementError, ExtractElementErrorKind};
use crate::xml::value::{Value, ValueView};
use crate::xml::{DAV_NAMESPACE, DAV_PREFIX};

verus! {

/// The `getcontentlength` property as defined in
/// [RFC 4918](http://webdav.org/specs/rfc4918.html#PROPERTY_getcontentlength).
#[derive(Clone, Copy, Debug, PartialEq)]
pub struct ContentLength(pub u64);

impl Element for ContentLength {
    const NAMESPACE: &'static str = DAV_NAMESPACE;

    const PREFIX: &'static str = DAV_PREFIX;

    const LOCAL_NAME: &'static str = "getcontentlength";
}

impl FromValue for ContentLength {
    /// The element is the number that the text of a text node stands for:
    /// decimal digits, with an optional plus sign in front, that fit in 64
    /// bits.
    open spec fn extracts(value: ValueView, out: Result<Self, ExtractElementError>) -> bool {
        match value {
            ValueView::Text(text) => match parsed_decimal(text, u64::MAX as nat) {
                Some(n) => out == Ok::<Self, ExtractElementError>(ContentLength(n as u64)),
                None => out matches Err(e) && e.kind matches ExtractElementErrorKind::Other(
                    ConversionError::Number(kept),
                ) && kept@ == text,
            },
            _ => fails_with(out, wrong_shape("text", value)),
        }
    }

    fn from_value(value: &Value) -> (out: Result<Self, ExtractElementError>) {
        let text = value.to_str()?;
        match parse_decimal(text, u64::MAX) {
            Some(n) => Ok(ContentLength(n)),
            None => Err(ExtractElementError::other(ConversionError::Number(text.to_owned()))),
        }
    }
}

impl IntoValue for ContentLength {
    open spec fn encodable(&self) -> bool {
        true
    }

    fn is_encodable(&self) -> (r: bool) {
        true
    }

    open spec fn as_value(&self) -> ValueView {
        ValueView::Text(decimal(self.0 as nat))
    }

    fn into_value(self) -> (value: Value) {
        Value::Text(format_decimal(self.0))
    }
}

/// Round trip: a content length that is turned into a node and extracted
/// again is the same number.
pub proof fn lemma_round_trip(element: ContentLength, out: Result<ContentLength, ExtractElementError>)
    requires
        ContentLength::extracts(element.as_value(), out),
    ensures
        out == Ok::<ContentLength, ExtractElementError>(element),
{
    lemma_decimal_round_trip(element.0 as nat, u64::MAX as nat);
}

/// The name under which the element is stored and written.
pub proof fn lemma_name()
    ensures
        ContentLength::NAMESPACE@ == "DAV:"@,
        ContentLength::PREFIX@ == "d"@,
        ContentLength::LOCAL_NAME@ == "getcontentlength"@,
{
}

} // verus!
