//! The `responsedescription` element.

use vstd::prelude::*;
use vstd::std_specs::convert::FromSpecImpl;
use crate::xml::convert::{fails_with, wrong_shape, FromValue, IntoValue};
use crate::xml::element::Element;
use crate::xml::error::ExtractElementError;
use crate::xml::value::{Value, ValueView};
use crate::xml::{DAV_NAMESPACE, DAV_PREFIX};

verus! {

/// The `responsedescription` XML element as defined in
/// [RFC 4918](http://webdav.org/specs/rfc4918.html#ELEMENT_responsedescription).
#[derive(Clone, Debug, PartialEq)]
pub struct ResponseDescription(pub String);

impl Element for ResponseDescription {
    const NAMESPACE: &'static str = DAV_NAMESPACE;

    const PREFIX: &'static str = DAV_PREFIX;

    const LOCAL_NAME: &'static str = "responsedescription";
}

impl FromValue for ResponseDescription {
    /// The element is the text of a text node; no other node will do.
    open spec fn extracts(value: ValueView, out: Result<Self, ExtractElementError>) -> bool {
        match value {
            ValueView::Text(text) => out matches Ok(found) && found.0@ == text,
            _ => fails_with(out, wrong_shape("text", value)),
        }
    }

    fn from_value(value: &Value) -> (out: Result<Self, ExtractElementError>) {
        Ok(Self(value.to_str()?.to_owned()))
    }
}

impl IntoValue for ResponseDescription {
    open spec fn encodable(&self) -> bool {
        true
    }

    fn is_encodable(&self) -> (r: bool) {
        true
    }

    open spec fn as_value(&self) -> ValueView {
        ValueView::Text(self.0@)
    }

    fn into_value(self) -> (value: Value) {
        Value::Text(self.0)
    }
}

impl From<String> for ResponseDescription {
    fn from(text: String) -> (description: Self) {
        ResponseDescription(text)
    }
}

impl FromSpecImpl<String> for ResponseDescription {
    open spec fn obeys_from_spec() -> bool {
        true
    }

    open spec fn from_spec(text: String) -> Self {
        ResponseDescription(text)
    }
}

/// Round trip: a response description that is turned into a node and extracted
/// again is the same text.
pub proof fn lemma_round_trip(element: ResponseDescription, out: Result<ResponseDescription, ExtractElementError>)
    requires
        ResponseDescription::extracts(element.as_value(), out),
    ensures
        out matches Ok(found) && found.0@ == element.0@,
{
}

/// The name under which the element is stored and written.
pub proof fn lemma_name()
    ensures
        ResponseDescription::NAMESPACE@ == "DAV:"@,
        ResponseDescription::PREFIX@ == "d"@,
        ResponseDescription::LOCAL_NAME@ == "responsedescription"@,
{
}

} // verus!
