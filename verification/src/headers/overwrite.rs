//! The `Overwrite` header.

use vstd::prelude::*;
use vstd::string::StringSliceAdditionalSpecFns;
use crate::headers::utils::{value_is, InvalidHeader};

verus! {

/// The `Overwrite` header as defined in
/// [RFC 4918](http://webdav.org/specs/rfc4918.html#HEADER_Overwrite).
#[derive(Copy, Clone, Debug, PartialEq)]
pub enum Overwrite {
    F,
    T,
}

impl Default for Overwrite {
    fn default() -> (r: Self)
        ensures
            r == Overwrite::T,
    {
        Overwrite::T
    }
}

/// What a header value stands for: `F` or `T`, in either case.
pub open spec fn overwrite_of(value: Seq<u8>) -> Option<Overwrite> {
    if value == "F".spec_bytes() || value == "f".spec_bytes() {
        Some(Overwrite::F)
    } else if value == "T".spec_bytes() || value == "t".spec_bytes() {
        Some(Overwrite::T)
    } else {
        None
    }
}

impl Overwrite {
    /// The name of the header field.
    pub fn name() -> (r: &'static str)
        ensures
            r == crate::headers::OVERWRITE,
    {
        crate::headers::OVERWRITE
    }

    /// Decodes the header from the values of its header field. Only the
    /// first value is read.
    pub fn decode(values: &[Vec<u8>]) -> (r: Result<Overwrite, InvalidHeader>)
        ensures
            r == if values@.len() >= 1 {
                match overwrite_of(values@[0]@) {
                    Some(overwrite) => Ok::<Overwrite, InvalidHeader>(overwrite),
                    None => Err::<Overwrite, InvalidHeader>(InvalidHeader),
                }
            } else {
                Err::<Overwrite, InvalidHeader>(InvalidHeader)
            },
    {
        if values.len() == 0 {
            return Err(InvalidHeader);
        }
        let value = &values[0];
        if value_is(value, "F") || value_is(value, "f") {
            Ok(Overwrite::F)
        } else if value_is(value, "T") || value_is(value, "t") {
            Ok(Overwrite::T)
        } else {
            Err(InvalidHeader)
        }
    }

    /// Encodes the header as the text of one value.
    pub fn encode(&self) -> (text: &'static str)
        ensures
            text@ == match *self {
                Overwrite::F => "F"@,
                Overwrite::T => "T"@,
            },
    {
        match self {
            Overwrite::F => "F",
            Overwrite::T => "T",
        }
    }
}

/// Round trip: the value that a header is encoded as is decoded as that
/// header.
pub proof fn lemma_round_trip(overwrite: Overwrite)
    ensures
        overwrite_of(
            match overwrite {
                Overwrite::F => "F".spec_bytes(),
                Overwrite::T => "T".spec_bytes(),
            },
        ) == Some(overwrite),
{
    reveal_strlit("F");
    reveal_strlit("f");
    reveal_strlit("T");
    vstd::utf8::encode_utf8_decode_utf8("F"@);
    vstd::utf8::encode_utf8_decode_utf8("f"@);
    vstd::utf8::encode_utf8_decode_utf8("T"@);
}

} // verus!
