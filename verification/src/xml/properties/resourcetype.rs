//! The `resourcetype` property.

use vstd::prelude::*;
use crate::xml::convert::{fails_with, wrong_shape, FromValue, IntoValue};
use crate::xml::element::{Element, NameView};
use crate::xml::error::ExtractElementError;
use crate::xml::value::{lookup, Value, ValueMap, ValueView};
use crate::xml::{DAV_NAMESPACE, DAV_PREFIX};

verus! {

/// The `resourcetype` property as defined in
/// [RFC 4918](http://webdav.org/specs/rfc4918.html#PROPERTY_resourcetype).
#[derive(Clone, Debug, PartialEq)]
pub struct ResourceType(pub ValueMap);

impl View for ResourceType {
    type V = Seq<(NameView, ValueView)>;

    open spec fn view(&self) -> Seq<(NameView, ValueView)> {
        self.0@
    }
}

impl Element for ResourceType {
    const NAMESPACE: &'static str = DAV_NAMESPACE;

    const PREFIX: &'static str = DAV_PREFIX;

    const LOCAL_NAME: &'static str = "resourcetype";
}

impl ResourceType {
    /// The type of a resource that is nothing special.
    pub fn empty() -> (r: Self)
        ensures
            r@ == Seq::<(NameView, ValueView)>::empty(),
    {
        ResourceType(ValueMap::new())
    }

    /// The type of a collection.
    pub fn collection() -> (r: Self)
        ensures
            r@ == seq![(NameView::of::<Collection>(), ValueView::Empty)],
    {
        let mut map = ValueMap::new();
        proof {
            crate::xml::value::lemma_position_none(map@, NameView::of::<Collection>());
        }
        map.insert::<Collection>(Value::Empty);
        assert(map@ =~= seq![(NameView::of::<Collection>(), ValueView::Empty)]);
        ResourceType(map)
    }

    /// Whether the resource is a collection.
    pub fn is_collection(&self) -> (r: bool)
        ensures
            r == lookup(self@, NameView::of::<Collection>()).is_some(),
    {
        self.0.contains::<Collection>()
    }

    /// Extract one of the elements that describe the type.
    pub fn get<T: Element + FromValue>(&self) -> (r: Option<Result<T, ExtractElementError>>)
        ensures
            match lookup(self@, NameView::of::<T>()) {
                Some(v) => r matches Some(out) && T::extracts(v, out),
                None => r.is_none(),
            },
    {
        self.0.get::<T>()
    }
}

impl FromValue for ResourceType {
    /// The element is the map of a node with child elements, as it is.
    open spec fn extracts(value: ValueView, out: Result<Self, ExtractElementError>) -> bool {
        match value {
            ValueView::Elements(entries) => out matches Ok(found) && found@ == entries,
            _ => fails_with(out, wrong_shape("map", value)),
        }
    }

    fn from_value(value: &Value) -> (out: Result<Self, ExtractElementError>) {
        Ok(ResourceType(value.to_map()?.clone()))
    }
}

impl IntoValue for ResourceType {
    open spec fn encodable(&self) -> bool {
        true
    }

    fn is_encodable(&self) -> (r: bool) {
        true
    }

    open spec fn as_value(&self) -> ValueView {
        ValueView::Elements(self@)
    }

    fn into_value(self) -> (value: Value) {
        Value::Elements(self.0)
    }
}

/// The `collection` XML element as defined in
/// [RFC 4918](http://webdav.org/specs/rfc4918.html#ELEMENT_collection).
pub struct Collection;

impl Element for Collection {
    const NAMESPACE: &'static str = DAV_NAMESPACE;

    const PREFIX: &'static str = DAV_PREFIX;

    const LOCAL_NAME: &'static str = "collection";
}

/// The names under which the elements of this file are stored and
/// written.
pub proof fn lemma_name()
    ensures
        ResourceType::NAMESPACE@ == "DAV:"@,
        ResourceType::PREFIX@ == "d"@,
        ResourceType::LOCAL_NAME@ == "resourcetype"@,
        Collection::NAMESPACE@ == "DAV:"@,
        Collection::PREFIX@ == "d"@,
        Collection::LOCAL_NAME@ == "collection"@,
{
}

} // verus!
