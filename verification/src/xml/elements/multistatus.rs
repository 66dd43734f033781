//! The `multistatus` element.

use vstd::prelude::*;
use crate::xml::convert::{
    can_collect, collects, fails_with, item_values, optional_child, values_of, wrong_shape,
    FromValue, IntoValue,
};
use crate::xml::element::{Element, NameView};
use crate::xml::elements::propstat::with_optional;
use crate::xml::elements::response::Response;
use crate::xml::elements::responsedescription::ResponseDescription;
use crate::xml::error::ExtractElementError;
use crate::xml::value::{inserted, occurrences, Value, ValueMap, ValueView};
use crate::xml::{DAV_NAMESPACE, DAV_PREFIX};

verus! {

/// The `multistatus` XML element as defined in
/// [RFC 4918](http://webdav.org/specs/rfc4918.html#ELEMENT_multistatus).
#[derive(Clone, Debug, Default, PartialEq)]
pub struct Multistatus {
    pub response: Vec<Response>,
    pub responsedescription: Option<ResponseDescription>,
}

impl Element for Multistatus {
    const NAMESPACE: &'static str = DAV_NAMESPACE;

    const PREFIX: &'static str = DAV_PREFIX;

    const LOCAL_NAME: &'static str = "multistatus";
}

impl FromValue for Multistatus {
    /// A `multistatus` is a map with any number of `response` elements
    /// and maybe a `responsedescription`. The responses are extracted
    /// first, and the first child that fails gives the error.
    open spec fn extracts(value: ValueView, out: Result<Self, ExtractElementError>) -> bool {
        match value {
            ValueView::Elements(entries) => {
                let responses = occurrences(entries, NameView::of::<Response>());
                match out {
                    Ok(found) => {
                        &&& collects::<Response>(responses, Ok(found.response))
                        &&& optional_child::<ResponseDescription>(
                            entries,
                            Ok(found.responsedescription),
                        )
                    },
                    Err(e) => {
                        ||| collects::<Response>(responses, Err(e))
                        ||| can_collect::<Response>(responses) && optional_child::<
                            ResponseDescription,
                        >(entries, Err(e))
                    },
                }
            },
            _ => fails_with(out, wrong_shape("map", value)),
        }
    }

    fn from_value(value: &Value) -> (out: Result<Self, ExtractElementError>) {
        let map = value.to_map()?;
        let response = map.get_all::<Response>()?;
        assert(collects::<Response>(occurrences(map@, NameView::of::<Response>()), Ok(response)));
        let responsedescription = map.get_if_present::<ResponseDescription>()?;
        Ok(Multistatus { response, responsedescription })
    }
}

impl IntoValue for Multistatus {
    /// A `multistatus` can be turned into a node where each of its
    /// responses can.
    open spec fn encodable(&self) -> bool {
        forall|i: int| 0 <= i < self.response@.len() ==> (#[trigger] self.response@[i]).wf()
    }

    fn is_encodable(&self) -> (r: bool) {
        let mut i: usize = 0;
        while i < self.response.len()
            invariant
                0 <= i <= self.response@.len(),
                forall|j: int| 0 <= j < i ==> (#[trigger] self.response@[j]).wf(),
            decreases self.response@.len() - i,
        {
            if !self.response[i].is_encodable() {
                return false;
            }
            i += 1;
        }
        true
    }

    /// The node has a `response` child, which holds the list of the
    /// responses, or is empty where there is none, and then the
    /// `responsedescription` where there is one.
    open spec fn as_value(&self) -> ValueView {
        ValueView::Elements(
            with_optional(
                inserted(
                    Seq::empty(),
                    NameView::of::<Response>(),
                    if self.response@.len() == 0 {
                        ValueView::Empty
                    } else {
                        ValueView::List(item_values(self.response@))
                    },
                ),
                self.responsedescription,
            ),
        )
    }

    fn into_value(self) -> (value: Value) {
        let mut map = ValueMap::new();
        let responses = if self.response.len() == 0 {
            Value::Empty
        } else {
            Value::List(values_of(self.response))
        };
        map.insert::<Response>(responses);
        if let Some(responsedescription) = self.responsedescription {
            map.insert::<ResponseDescription>(responsedescription.into_value());
        }
        Value::Elements(map)
    }
}

/// The name under which the element is stored and written.
pub proof fn lemma_name()
    ensures
        Multistatus::NAMESPACE@ == "DAV:"@,
        Multistatus::PREFIX@ == "d"@,
        Multistatus::LOCAL_NAME@ == "multistatus"@,
{
}

} // verus!
