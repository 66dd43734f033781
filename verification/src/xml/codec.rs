//! Whole documents: every element that has a name and a conversion to or
//! from one node of the value tree can be read from and written to XML.

use vstd::prelude::*;
use crate::xml::convert::{fails_with, wrong_shape, FromValue, IntoValue};
use crate::xml::element::{Element, NameView};
use crate::xml::error::{Error, ExtractElementError, ExtractElementErrorKind, XmlErrorView};
use crate::xml::read::{document_tokens, document_value, read_xml};
use crate::xml::value::{lookup, Value, ValueView};
use crate::xml::write::{document_bytes, document_events, write_xml};

verus! {

/// Whether `out` is what looking for the element `E` in the root value
/// `root` gives. The root must be a map, and must hold the element, once.
pub open spec fn finds<E: Element + FromValue>(
    root: ValueView,
    out: Result<E, ExtractElementError>,
) -> bool {
    match root {
        ValueView::Elements(entries) => match lookup(entries, NameView::of::<E>()) {
            Some(child) => E::extracts(child, out),
            None => fails_with(out, ExtractElementErrorKind::MissingElement(E::LOCAL_NAME)),
        },
        _ => fails_with(out, wrong_shape("map", root)),
    }
}

/// Looks for the element `E` in the root value of a document.
pub fn from_root<E: Element + FromValue>(root: &Value) -> (out: Result<E, ExtractElementError>)
    ensures
        finds::<E>(root@, out),
{
    let map = root.to_map()?;
    match map.get::<E>() {
        Some(found) => found,
        None => Err(
            ExtractElementError::new(ExtractElementErrorKind::MissingElement(E::LOCAL_NAME)),
        ),
    }
}

/// Whether `out` is what decoding a document with the root value `root`
/// gives.
pub open spec fn decodes_root<E: Element + FromValue>(
    root: Result<ValueView, XmlErrorView>,
    out: Result<E, Error>,
) -> bool {
    match root {
        Ok(value) => match out {
            Ok(element) => finds::<E>(value, Ok(element)),
            Err(Error::ExtractElement(e)) => finds::<E>(value, Err(e)),
            Err(_) => false,
        },
        Err(e) => out matches Err(Error::Xml(x)) && x@ == e,
    }
}

/// Performs deserialization from XML.
///
/// Implemented for [`Value`] and for every type that is an [`Element`] and
/// has [`FromValue`]: implement these two, not this trait.
pub trait FromXml: Sized {
    /// Whether `out` is what decoding the document `xml` gives.
    spec fn decodes(xml: Seq<u8>, out: Result<Self, Error>) -> bool;

    fn from_xml(xml: &[u8]) -> (out: Result<Self, Error>)
        ensures
            Self::decodes(xml@, out),
    ;
}

impl FromXml for Value {
    open spec fn decodes(xml: Seq<u8>, out: Result<Self, Error>) -> bool {
        match document_value(document_tokens(xml)) {
            Ok(value) => out matches Ok(v) && v@ == value,
            Err(e) => out matches Err(Error::Xml(x)) && x@ == e,
        }
    }

    fn from_xml(xml: &[u8]) -> (out: Result<Self, Error>) {
        match read_xml(xml) {
            Ok(value) => Ok(value),
            Err(e) => Err(Error::Xml(e)),
        }
    }
}

impl<E: Element + FromValue> FromXml for E {
    open spec fn decodes(xml: Seq<u8>, out: Result<Self, Error>) -> bool {
        decodes_root::<E>(document_value(document_tokens(xml)), out)
    }

    fn from_xml(xml: &[u8]) -> (out: Result<Self, Error>) {
        let root = match read_xml(xml) {
            Ok(value) => value,
            Err(e) => {
                return Err(Error::Xml(e));
            },
        };
        match from_root::<E>(&root) {
            Ok(element) => Ok(element),
            Err(e) => Err(Error::ExtractElement(e)),
        }
    }
}

/// Performs serialization to XML.
///
/// Implemented for every type that is an [`Element`] and has
/// [`IntoValue`]: implement these two, not this trait.
pub trait IntoXml: Sized {
    /// Whether `out` is what encoding this element can give.
    spec fn encodes(&self, out: Result<Vec<u8>, Error>) -> bool;

    /// Whether this element can be encoded.
    spec fn writable(&self) -> bool;

    /// Tests whether this element can be encoded.
    fn is_writable(&self) -> (r: bool)
        ensures
            r == self.writable(),
    ;

    fn into_xml(self) -> (out: Result<Vec<u8>, Error>)
        requires
            self.writable(),
        ensures
            self.encodes(out),
    ;
}

impl<E: Element + IntoValue> IntoXml for E {
    open spec fn writable(&self) -> bool {
        self.encodable()
    }

    fn is_writable(&self) -> (r: bool) {
        self.is_encodable()
    }

    open spec fn encodes(&self, out: Result<Vec<u8>, Error>) -> bool {
        match document_events(NameView::of::<E>(), self.as_value()) {
            Ok(events) => out matches Ok(bytes) && bytes@ == document_bytes(events),
            Err(e) => out matches Err(Error::Xml(x)) && x@ == e,
        }
    }

    fn into_xml(self) -> (out: Result<Vec<u8>, Error>) {
        let value = self.into_value();
        match write_xml::<E>(&value) {
            Ok(bytes) => Ok(bytes),
            Err(e) => Err(Error::Xml(e)),
        }
    }
}

} // verus!
