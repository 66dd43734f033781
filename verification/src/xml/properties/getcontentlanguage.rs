//! The `getcontentlanguage` property.

use vstd::prelude::*;
use crate::xml::convert::{fails_with, wrong_shape, FromValue, IntoValue};
use crate::xml::element::Element;
use crate::xml::error::ExtractElementError;
use crate::xml::value::{Value, ValueView};
use crate::xml::{DAV_NAMESPACE, DAV_PREFIX};

verus! {

/// The `getcontentlanguage` property as defined in
/// [RFC 4918](http://webdav.org/specs/rfc4918.html#PROPERTY_getcontentlanguage).
#[derive(Clone, Debug, PartialEq)]
pub struct ContentLanguage(pub String);

impl Element for ContentLanguage {
    const NAMESPACE: &'static str = DAV_NAMESPACE;

    const PREFIX: &'static str = DAV_PREFIX;

    const LOCAL_NAME: &'static str = "getcontentlanguage";
}

impl FromValue for ContentLanguage {
    /// The element is the text of a text node; no other node will do.
    open spec fn extracts(value: ValueView, out: Result<Self, ExtractElementError>) -> bool {
        match value {
            ValueView::Text(text) => out matches Ok(found) && found.0@ == text,
            _ => fails_with(out, wrong_shape("text", value)),
        }
    }

    fn from_value(value: &Value) -> (out: Result<Self, ExtractElementError>) {
        Ok(Self(value.to_str()?.to_owned()))
    }
}

impl IntoValue for ContentLanguage {
    open spec fn encodable(&self) -> bool {
        true
    }

    fn is_encodable(&self) -> (r: bool) {
        true
    }

    open spec fn as_value(&self) -> ValueView {
        ValueView::Text(self.0@)
    }

    fn into_value(self) -> (value: Value) {
        Value::Text(self.0)
    }
}

/// Round trip: a content language that is turned into a node and extracted
/// again is the same text.
pub proof fn lemma_round_trip(element: ContentLanguage, out: Result<ContentLanguage, ExtractElementError>)
    requires
        ContentLanguage::extracts(element.as_value(), out),
    ensures
        out matches Ok(found) && found.0@ == element.0@,
{
}

/// The name under which the element is stored and written.
pub proof fn lemma_name()
    ensures
        ContentLanguage::NAMESPACE@ == "DAV:"@,
        ContentLanguage::PREFIX@ == "d"@,
        ContentLanguage::LOCAL_NAME@ == "getcontentlanguage"@,
{
}

} // verus!
