//! XML property definitions based on
//! [RFC 4918](http://webdav.org/specs/rfc4918.html#dav.properties).

pub mod creationdate;
pub mod displayname;
pub mod getcontentlength;
pub mod getcontentlanguage;
pub mod getcontenttype;
pub mod getetag;
pub mod getlastmodified;
pub mod lockdiscovery;
pub mod resourcetype;
pub mod supportedlock;

pub use self::creationdate::CreationDate;
pub use self::displayname::DisplayName;
pub use self::getcontentlanguage::ContentLanguage;
pub use self::getcontentlength::ContentLength;
pub use self::getcontenttype::ContentType;
pub use self::getetag::ETag;
pub use self::getlastmodified::LastModified;
pub use self::lockdiscovery::LockDiscovery;
pub use self::resourcetype::{Collection, ResourceType};
pub use self::supportedlock::SupportedLock;
