//! The `Lock-Token` header.

use vstd::prelude::*;
use crate::headers::coded_url::{coded_url_at, coded_url_text, CodedUrl};
use crate::headers::utils::{extract_chars, header_text, is_header_text, InvalidHeader};

verus! {

/// The `Lock-Token` header as defined in
/// [RFC 4918](http://webdav.org/specs/rfc4918.html#HEADER_Lock-Token).
#[derive(Clone, Debug, PartialEq)]
pub struct LockToken(pub CodedUrl);

impl LockToken {
    /// The name of the header field.
    pub fn name() -> (r: &'static str)
        ensures
            r == crate::headers::LOCK_TOKEN,
    {
        crate::headers::LOCK_TOKEN
    }

    /// Decodes the header from the values of its header field: there must
    /// be one value, it must be text, and the text must start with a
    /// Coded-URL. What follows the Coded-URL is not read.
    pub fn decode(values: &[Vec<u8>]) -> (r: Result<LockToken, InvalidHeader>)
        ensures
            r == if values@.len() == 1 && is_header_text(values@[0]@) {
                match coded_url_at(header_text(values@[0]@), 0) {
                    Ok((url, _)) => Ok::<LockToken, InvalidHeader>(LockToken(url)),
                    Err(_) => Err::<LockToken, InvalidHeader>(InvalidHeader),
                }
            } else {
                Err::<LockToken, InvalidHeader>(InvalidHeader)
            },
    {
        let chars = extract_chars(values)?;
        match CodedUrl::peek(chars.as_slice(), 0) {
            Ok((url, _)) => Ok(LockToken(url)),
            Err(_) => Err(InvalidHeader),
        }
    }

    /// Encodes the header as the text of one value.
    pub fn encode(&self) -> (text: String)
        ensures
            text@ == coded_url_text(self.0),
    {
        self.0.to_text()
    }
}

} // verus!
