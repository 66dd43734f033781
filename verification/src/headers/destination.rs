//! The `Destination` header.

use vstd::prelude::*;
use http::Uri;
use crate::headers::utils::{extract_chars, header_text, is_header_text, InvalidHeader};
use crate::text::from_chars;
use crate::uri::{parse_uri, print_uri, uri_parsed, uri_text};

verus! {

/// The `Destination` header as defined in
/// [RFC 4918](http://webdav.org/specs/rfc4918.html#HEADER_Destination).
#[derive(Clone, Debug, PartialEq)]
pub struct Destination(pub Uri);

impl Destination {
    /// The name of the header field.
    pub fn name() -> (r: &'static str)
        ensures
            r == crate::headers::DESTINATION,
    {
        crate::headers::DESTINATION
    }

    /// Decodes the header from the values of its header field: there must
    /// be one value, it must be text, and the text must be a URI.
    pub fn decode(values: &[Vec<u8>]) -> (r: Result<Destination, InvalidHeader>)
        ensures
            r == if values@.len() == 1 && is_header_text(values@[0]@) {
                match uri_parsed(header_text(values@[0]@)) {
                    Ok(uri) => Ok::<Destination, InvalidHeader>(Destination(uri)),
                    Err(_) => Err::<Destination, InvalidHeader>(InvalidHeader),
                }
            } else {
                Err::<Destination, InvalidHeader>(InvalidHeader)
            },
    {
        let chars = extract_chars(values)?;
        let text = from_chars(chars.as_slice(), 0, chars.len());
        assert(text@ =~= chars@);
        match parse_uri(text.as_str()) {
            Ok(uri) => Ok(Destination(uri)),
            Err(_) => Err(InvalidHeader),
        }
    }

    /// Encodes the header as the text of one value.
    pub fn encode(&self) -> (text: String)
        ensures
            text@ == uri_text(self.0),
    {
        print_uri(&self.0)
    }
}

} // verus!
