//! The `Depth` header.

use vstd::prelude::*;
use vstd::string::StringSliceAdditionalSpecFns;
use crate::headers::utils::{take_one, value_is, InvalidHeader};

verus! {

/// The `Depth` header as defined in
/// [RFC 4918](http://webdav.org/specs/rfc4918.html#HEADER_Depth).
#[derive(Clone, Debug, PartialEq)]
pub enum Depth {
    Zero,
    One,
    Infinity,
}

/// The depth that a header value stands for: `0`, `1` or `infinity`,
/// written exactly so.
pub open spec fn depth_of(value: Seq<u8>) -> Option<Depth> {
    if value == "0".spec_bytes() {
        Some(Depth::Zero)
    } else if value == "1".spec_bytes() {
        Some(Depth::One)
    } else if value == "infinity".spec_bytes() {
        Some(Depth::Infinity)
    } else {
        None
    }
}

impl Depth {
    /// The name of the header field.
    pub fn name() -> (r: &'static str)
        ensures
            r == crate::headers::DEPTH,
    {
        crate::headers::DEPTH
    }

    /// Decodes the header from the values of its header field: there must
    /// be one value, and it must stand for a depth.
    pub fn decode(values: &[Vec<u8>]) -> (r: Result<Depth, InvalidHeader>)
        ensures
            r == if values@.len() == 1 {
                match depth_of(values@[0]@) {
                    Some(depth) => Ok::<Depth, InvalidHeader>(depth),
                    None => Err::<Depth, InvalidHeader>(InvalidHeader),
                }
            } else {
                Err::<Depth, InvalidHeader>(InvalidHeader)
            },
    {
        let value = take_one(values)?;
        if value_is(value, "0") {
            Ok(Depth::Zero)
        } else if value_is(value, "1") {
            Ok(Depth::One)
        } else if value_is(value, "infinity") {
            Ok(Depth::Infinity)
        } else {
            Err(InvalidHeader)
        }
    }

    /// Encodes the header as the text of one value.
    pub fn encode(&self) -> (text: &'static str)
        ensures
            text@ == match *self {
                Depth::Zero => "0"@,
                Depth::One => "1"@,
                Depth::Infinity => "infinity"@,
            },
    {
        match self {
            Depth::Zero => "0",
            Depth::One => "1",
            Depth::Infinity => "infinity",
        }
    }
}

/// Round trip: the value that a depth is encoded as is decoded as that
/// depth.
pub proof fn lemma_round_trip(depth: Depth)
    ensures
        depth_of(
            match depth {
                Depth::Zero => "0".spec_bytes(),
                Depth::One => "1".spec_bytes(),
                Depth::Infinity => "infinity".spec_bytes(),
            },
        ) == Some(depth),
{
    reveal_strlit("0");
    reveal_strlit("1");
    reveal_strlit("infinity");
    vstd::utf8::encode_utf8_decode_utf8("0"@);
    vstd::utf8::encode_utf8_decode_utf8("1"@);
    vstd::utf8::encode_utf8_decode_utf8("infinity"@);
}

} // verus!
