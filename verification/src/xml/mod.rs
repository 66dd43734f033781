//! The XML value tree, its reader and writer, and the typed elements of
//! RFC 4918 that are built on it.

use vstd::prelude::*;

pub mod codec;
pub mod convert;
pub mod element;
pub mod elements;
pub mod error;
pub mod properties;
pub mod read;
pub mod value;
pub mod write;

pub use self::codec::{FromXml, IntoXml};
pub use self::convert::{FromValue, IntoValue};
pub use self::element::{Element, ElementName, NameView};
pub use self::error::{Error, ExtractElementError, ExtractElementErrorKind, XmlError};
pub use self::value::{Value, ValueMap, ValueView};

verus! {

/// The default WebDAV namespace.
pub const DAV_NAMESPACE: &'static str = "DAV:";

/// The default WebDAV namespace prefix.
pub const DAV_PREFIX: &'static str = "d";

} // verus!
