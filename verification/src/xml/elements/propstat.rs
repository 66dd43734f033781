//! The `propstat` element.

use vstd::prelude::*;
use crate::xml::convert::{
    fails_with, has_child, optional_child, required_child, wrong_shape, FromValue, IntoValue,
};
use crate::xml::element::{Element, NameView};
use crate::xml::elements::prop::Properties;
use crate::xml::elements::responsedescription::ResponseDescription;
use crate::xml::elements::status::{status_line, status_number, Status};
use crate::xml::error::{
    ConversionError, ExtractElementError, ExtractElementErrorKind,
};
use crate::xml::value::{
    first_at, inserted, lemma_position, lemma_position_none, lookup, position, Value, ValueMap,
    ValueView,
};
use crate::xml::{DAV_NAMESPACE, DAV_PREFIX};

verus! {

/// The `propstat` XML element as defined in
/// [RFC 4918](http://webdav.org/specs/rfc4918.html#ELEMENT_propstat).
#[derive(Clone, Debug, PartialEq)]
pub struct Propstat {
    pub prop: Properties,
    pub status: Status,
    pub responsedescription: Option<ResponseDescription>,
}

impl Element for Propstat {
    const NAMESPACE: &'static str = DAV_NAMESPACE;

    const PREFIX: &'static str = DAV_PREFIX;

    const LOCAL_NAME: &'static str = "propstat";
}

/// The children of a node with one more child, which may be missing.
pub open spec fn with_optional<E: Element + IntoValue>(
    entries: Seq<(NameView, ValueView)>,
    child: Option<E>,
) -> Seq<(NameView, ValueView)> {
    match child {
        Some(e) => inserted(entries, NameView::of::<E>(), e.as_value()),
        None => entries,
    }
}

impl FromValue for Propstat {
    /// A `propstat` is a map with a `prop`, a `status` and maybe a
    /// `responsedescription`. They are extracted in this order, and the
    /// first that fails gives the error.
    open spec fn extracts(value: ValueView, out: Result<Self, ExtractElementError>) -> bool {
        match value {
            ValueView::Elements(entries) => match out {
                Ok(found) => {
                    &&& required_child::<Properties>(entries, Ok(found.prop))
                    &&& required_child::<Status>(entries, Ok(found.status))
                    &&& optional_child::<ResponseDescription>(
                        entries,
                        Ok(found.responsedescription),
                    )
                },
                Err(e) => {
                    ||| required_child::<Properties>(entries, Err(e))
                    ||| has_child::<Properties>(entries) && required_child::<Status>(
                        entries,
                        Err(e),
                    )
                    ||| has_child::<Properties>(entries) && has_child::<Status>(entries)
                        && optional_child::<ResponseDescription>(entries, Err(e))
                },
            },
            _ => fails_with(out, wrong_shape("map", value)),
        }
    }

    fn from_value(value: &Value) -> (out: Result<Self, ExtractElementError>) {
        let map = value.to_map()?;
        let prop = map.get_required::<Properties>()?;
        assert(required_child::<Properties>(map@, Ok(prop)));
        let status = map.get_required::<Status>()?;
        assert(required_child::<Status>(map@, Ok(status)));
        let responsedescription = map.get_if_present::<ResponseDescription>()?;
        Ok(Propstat { prop, status, responsedescription })
    }
}

impl IntoValue for Propstat {
    open spec fn encodable(&self) -> bool {
        true
    }

    fn is_encodable(&self) -> (r: bool) {
        true
    }

    /// The node has the children `prop`, `status` and, where there is one,
    /// `responsedescription`, inserted in this order.
    open spec fn as_value(&self) -> ValueView {
        ValueView::Elements(
            with_optional(
                inserted(
                    inserted(Seq::empty(), NameView::of::<Properties>(), self.prop.as_value()),
                    NameView::of::<Status>(),
                    self.status.as_value(),
                ),
                self.responsedescription,
            ),
        )
    }

    fn into_value(self) -> (value: Value) {
        let mut map = ValueMap::new();
        map.insert::<Properties>(self.prop.into_value());
        map.insert::<Status>(self.status.into_value());
        if let Some(responsedescription) = self.responsedescription {
            map.insert::<ResponseDescription>(responsedescription.into_value());
        }
        Value::Elements(map)
    }
}

/// The names of the children of a `propstat` differ from each other.
proof fn lemma_names_differ()
    ensures
        !NameView::of::<Properties>().same(NameView::of::<Status>()),
        !NameView::of::<Properties>().same(NameView::of::<ResponseDescription>()),
        !NameView::of::<Status>().same(NameView::of::<ResponseDescription>()),
{
    reveal_strlit("prop");
    reveal_strlit("status");
    reveal_strlit("responsedescription");
    crate::xml::elements::prop::lemma_name();
    crate::xml::elements::status::lemma_name();
    crate::xml::elements::responsedescription::lemma_name();
    assert("prop"@.len() == 4);
    assert("status"@.len() == 6);
    assert("responsedescription"@.len() == 19);
}

/// The children of the node of a `propstat`, and where each is found.
proof fn lemma_children(element: Propstat)
    ensures
        element.as_value() matches ValueView::Elements(entries) && {
            &&& lookup(entries, NameView::of::<Properties>()) == Some(element.prop.as_value())
            &&& lookup(entries, NameView::of::<Status>()) == Some(element.status.as_value())
            &&& lookup(entries, NameView::of::<ResponseDescription>())
                == match element.responsedescription {
                Some(description) => Some(description.as_value()),
                None => None,
            }
        },
{
    lemma_names_differ();
    let prop = NameView::of::<Properties>();
    let status = NameView::of::<Status>();
    let description = NameView::of::<ResponseDescription>();
    let none = Seq::<(NameView, ValueView)>::empty();
    lemma_position_none(none, prop);
    let one = inserted(none, prop, element.prop.as_value());
    assert(one =~= seq![(prop, element.prop.as_value())]);
    lemma_position_none(one, status);
    let two = inserted(one, status, element.status.as_value());
    assert(two =~= seq![(prop, element.prop.as_value()), (status, element.status.as_value())]);
    match element.responsedescription {
        Some(text) => {
            lemma_position_none(two, description);
            let three = inserted(two, description, text.as_value());
            assert(three =~= seq![
                (prop, element.prop.as_value()),
                (status, element.status.as_value()),
                (description, text.as_value()),
            ]);
            assert(first_at(three, prop, 0));
            lemma_position(three, prop, 0);
            assert(first_at(three, status, 1));
            lemma_position(three, status, 1);
            assert(first_at(three, description, 2));
            lemma_position(three, description, 2);
        },
        None => {
            assert(first_at(two, prop, 0));
            lemma_position(two, prop, 0);
            assert(first_at(two, status, 1));
            lemma_position(two, status, 1);
            lemma_position_none(two, description);
        },
    }
}

/// Round trip: a `propstat` that is turned into a node and extracted
/// again has the same properties, a status of the same number, and the
/// same description.
pub proof fn lemma_round_trip(element: Propstat, out: Result<Propstat, ExtractElementError>)
    requires
        100 <= status_number(element.status.0) <= 999,
        Propstat::extracts(element.as_value(), out),
    ensures
        out matches Ok(found) && {
            &&& found.prop@ == element.prop@
            &&& status_number(found.status.0) == status_number(element.status.0)
            &&& match (found.responsedescription, element.responsedescription) {
                (Some(a), Some(b)) => a.0@ == b.0@,
                (None, None) => true,
                _ => false,
            }
        },
{
    lemma_children(element);
    let entries = element.as_value()->Elements_0;
    let line = status_line(element.status.0);
    assert forall|status: Result<Status, ExtractElementError>| #[trigger]
        Status::extracts(ValueView::Text(line), status) implies status matches Ok(found)
        && status_number(found.0) == status_number(element.status.0) by {
        match status {
            Ok(found) => {
                crate::xml::elements::status::lemma_round_trip(element.status, Ok(found));
            },
            Err(e) => {
                match e.kind {
                    ExtractElementErrorKind::Other(ConversionError::Status(cause)) => {
                        crate::xml::elements::status::lemma_round_trip(
                            element.status,
                            Err(cause),
                        );
                    },
                    _ => {},
                }
            },
        }
    }
    match out {
        Ok(found) => {
            assert(Status::extracts(ValueView::Text(line), Ok(found.status)));
        },
        Err(e) => {
            if has_child::<Properties>(entries) && required_child::<Status>(entries, Err(e)) {
                assert(Status::extracts(ValueView::Text(line), Err(e)));
            }
        },
    }
}

/// The name under which the element is stored and written.
pub proof fn lemma_name()
    ensures
        Propstat::NAMESPACE@ == "DAV:"@,
        Propstat::PREFIX@ == "d"@,
        Propstat::LOCAL_NAME@ == "propstat"@,
{
}

} // verus!
