//! The `lockdiscovery` property.

use vstd::prelude::*;
use crate::xml::convert::{fails_with, FromValue};
use crate::xml::element::Element;
use crate::xml::error::{ExtractElementError, ExtractElementErrorKind};
use crate::xml::value::{Value, ValueView};
use crate::xml::{DAV_NAMESPACE, DAV_PREFIX};

verus! {

/// Not yet implemented: a value of this type cannot be made.
///
/// The `lockdiscovery` property as defined in
/// [RFC 4918](http://webdav.org/specs/rfc4918.html#PROPERTY_lockdiscovery).
#[derive(Clone, Debug, PartialEq)]
pub struct LockDiscovery {
    /// Private, so that no value can be made outside this module; nothing
    /// in this module makes one.
    sealed: bool,
}

impl Element for LockDiscovery {
    const NAMESPACE: &'static str = DAV_NAMESPACE;

    const PREFIX: &'static str = DAV_PREFIX;

    const LOCAL_NAME: &'static str = "lockdiscovery";
}

impl FromValue for LockDiscovery {
    /// Nothing can be extracted yet: every node is refused.
    open spec fn extracts(value: ValueView, out: Result<Self, ExtractElementError>) -> bool {
        fails_with(out, ExtractElementErrorKind::Unsupported("lockdiscovery"))
    }

    fn from_value(value: &Value) -> (out: Result<Self, ExtractElementError>) {
        Err(ExtractElementError::new(ExtractElementErrorKind::Unsupported("lockdiscovery")))
    }
}

/// The name under which the element is stored and written.
pub proof fn lemma_name()
    ensures
        LockDiscovery::NAMESPACE@ == "DAV:"@,
        LockDiscovery::PREFIX@ == "d"@,
        LockDiscovery::LOCAL_NAME@ == "lockdiscovery"@,
{
}

} // verus!
