//! HTTP headers for WebDAV as defined in
//! [RFC 4918](http://webdav.org/specs/rfc4918.html#http.headers.for.distributed.authoring).
//!
//! Each header is decoded from the raw values of its header field and
//! encoded to the text of one value.

use vstd::prelude::*;

pub mod coded_url;
pub mod dav;
pub mod depth;
pub mod destination;
pub mod if_;
pub mod lock_token;
pub mod overwrite;
pub mod timeout;
pub mod utils;

pub use self::coded_url::{CodedUrl, InvalidCodedUrl};
pub use self::dav::{ComplianceClass, Dav, InvalidComplianceClass, Tokens};
pub use self::depth::Depth;
pub use self::destination::Destination;
pub use self::if_::{Condition, If, InvalidIf, ResourceTag};
pub use self::lock_token::LockToken;
pub use self::overwrite::Overwrite;
pub use self::timeout::Timeout;
pub use self::utils::InvalidHeader;

verus! {

/// Header name of the `DAV` header.
pub const DAV: &'static str = "dav";

/// Header name of the `Depth` header.
pub const DEPTH: &'static str = "depth";

/// Header name of the `Destination` header.
pub const DESTINATION: &'static str = "destination";

/// Header name of the `If` header.
pub const IF: &'static str = "if";

/// Header name of the `Lock-Token` header.
pub const LOCK_TOKEN: &'static str = "lock-token";

/// Header name of the `Overwrite` header.
pub const OVERWRITE: &'static str = "overwrite";

/// Header name of the `Timeout` header.
pub const TIMEOUT: &'static str = "timeout";

} // verus!
