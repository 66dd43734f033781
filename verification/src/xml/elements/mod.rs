//! XML element definitions based on
//! [RFC 4918](http://webdav.org/specs/rfc4918.html#xml.element.definitions).

pub mod href;
pub mod multistatus;
pub mod prop;
pub mod propfind;
pub mod propstat;
pub mod response;
pub mod responsedescription;
pub mod status;

pub use self::href::Href;
pub use self::multistatus::Multistatus;
pub use self::prop::Properties;
pub use self::propfind::{Allprop, Include, Propfind, Propname};
pub use self::propstat::Propstat;
pub use self::response::Response;
pub use self::responsedescription::ResponseDescription;
pub use self::status::{InvalidStatus, Status};
