//! Types for WebDAV clients and servers: an XML value tree with a
//! namespace-aware reader and writer, typed elements layered on top of it,
//! and the textual header fields of the protocol.

pub mod headers;
pub mod methods;
pub mod text;
pub mod uri;
pub mod xml;
