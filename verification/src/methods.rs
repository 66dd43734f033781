//! HTTP methods for WebDAV as defined in
//! [RFC 4918](http://webdav.org/specs/rfc4918.html#http.methods.for.distributed.authoring),
//! by name.

use vstd::prelude::*;

verus! {

/// The `PROPFIND` method.
pub const PROPFIND: &'static str = "PROPFIND";

/// The `PROPPATCH` method.
pub const PROPPATCH: &'static str = "PROPPATCH";

/// The `MKCOL` method.
pub const MKCOL: &'static str = "MKCOL";

/// The `COPY` method.
pub const COPY: &'static str = "COPY";

/// The `MOVE` method.
pub const MOVE: &'static str = "MOVE";

/// The `LOCK` method.
pub const LOCK: &'static str = "LOCK";

/// The `UNLOCK` method.
pub const UNLOCK: &'static str = "UNLOCK";

} // verus!
