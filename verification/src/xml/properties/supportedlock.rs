//! The `supportedlock` property.

use vstd::prelude::*;
use crate::xml::convert::{fails_with, FromValue};
use crate::xml::element::Element;
use crate::xml::error::{ExtractElementError, ExtractElementErrorKind};
use crate::xml::value::{Value, ValueView};
use crate::xml::{DAV_NAMESPACE, DAV_PREFIX};

verus! {

/// Not yet implemented: a value of this type cannot be made.
///
/// The `supportedlock` property as defined in
/// [RFC 4918](http://webdav.org/specs/rfc4918.html#PROPERTY_supportedlock).
#[derive(Clone, Debug, PartialEq)]
pub struct SupportedLock {
    /// Private, so that no value can be made outside this module; nothing
    /// in this module makes one.
    sealed: bool,
}

impl Element for SupportedLock {
    const NAMESPACE: &'static str = DAV_NAMESPACE;

    const PREFIX: &'static str = DAV_PREFIX;

    const LOCAL_NAME: &'static str = "supportedlock";
}

impl FromValue for SupportedLock {
    /// Nothing can be extracted yet: every node is refused.
    open spec fn extracts(value: ValueView, out: Result<Self, ExtractElementError>) -> bool {
        fails_with(out, ExtractElementErrorKind::Unsupported("supportedlock"))
    }

    fn from_value(value: &Value) -> (out: Result<Self, ExtractElementError>) {
        Err(ExtractElementError::new(ExtractElementErrorKind::Unsupported("supportedlock")))
    }
}

/// The name under which the element is stored and written.
pub proof fn lemma_name()
    ensures
        SupportedLock::NAMESPACE@ == "DAV:"@,
        SupportedLock::PREFIX@ == "d"@,
        SupportedLock::LOCAL_NAME@ == "supportedlock"@,
{
}

} // verus!
