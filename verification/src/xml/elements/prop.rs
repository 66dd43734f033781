//! The `prop` element.

use vstd::prelude::*;
use crate::xml::convert::{fails_with, wrong_shape, FromValue, IntoValue};
use crate::xml::element::{Element, ElementName, NameView};
use crate::xml::error::ExtractElementError;
use crate::xml::properties::{
    ContentLanguage, ContentLength, ContentType, CreationDate, DisplayName, ETag, LastModified,
    LockDiscovery, ResourceType, SupportedLock,
};
use crate::xml::value::{inserted, lookup, Value, ValueMap, ValueView};
use crate::xml::{DAV_NAMESPACE, DAV_PREFIX};

verus! {

/// The `prop` XML element as defined in
/// [RFC 4918](http://webdav.org/specs/rfc4918.html#ELEMENT_prop).
///
/// This element can contain arbitrary child elements and supports
/// extracting them using [`Properties::get()`].
#[derive(Clone, Debug, Default, PartialEq)]
pub struct Properties(pub ValueMap);

impl View for Properties {
    type V = Seq<(NameView, ValueView)>;

    open spec fn view(&self) -> Seq<(NameView, ValueView)> {
        self.0@
    }
}

/// Whether `out` is what reading the property `P` from the children
/// `entries` gives: `None` where the property is missing, `Some(None)`
/// where it is there and empty, and otherwise what extracting it gives.
pub open spec fn reads<P: Element + FromValue>(
    entries: Seq<(NameView, ValueView)>,
    out: Option<Option<Result<P, ExtractElementError>>>,
) -> bool {
    match lookup(entries, NameView::of::<P>()) {
        Some(ValueView::Empty) => out == Some(None::<Result<P, ExtractElementError>>),
        Some(v) => out matches Some(Some(found)) && P::extracts(v, found),
        None => out.is_none(),
    }
}

impl Properties {
    /// A `prop` element without children.
    pub fn new() -> (r: Self)
        ensures
            r@ == Seq::<(NameView, ValueView)>::empty(),
    {
        Properties(ValueMap::new())
    }

    /// Adds a property with its value.
    pub fn with<E: Element + IntoValue>(self, e: E) -> (r: Self)
        requires
            e.encodable(),
        ensures
            r@ == inserted(self@, NameView::of::<E>(), e.as_value()),
    {
        let mut map = self.0;
        map.insert::<E>(e.into_value());
        Properties(map)
    }

    /// Adds the name of a property, without a value.
    pub fn with_name<E: Element>(self) -> (r: Self)
        ensures
            r@ == inserted(self@, NameView::of::<E>(), ValueView::Empty),
    {
        let mut map = self.0;
        map.insert::<E>(Value::Empty);
        Properties(map)
    }

    /// Read a specific property from this `prop` element.
    ///
    /// Gives `None` where the property does not exist, `Some(None)` where
    /// it exists and is empty, and otherwise what extracting it gives.
    pub fn get<P: Element + FromValue>(&self) -> (r: Option<Option<Result<P, ExtractElementError>>>)
        ensures
            reads::<P>(self@, r),
    {
        self.0.get_optional::<P>()
    }

    /// List the names of the properties in this `prop` element, in order.
    pub fn names(&self) -> (r: Vec<&ElementName>)
        ensures
            r@.len() == self@.len(),
            forall|i: int| 0 <= i < r@.len() ==> (#[trigger] r@[i])@ == self@[i].0,
    {
        let mut names: Vec<&ElementName> = Vec::new();
        let mut i: usize = 0;
        while i < self.0.entries.len()
            invariant
                0 <= i <= self.0.entries@.len(),
                self@.len() == self.0.entries@.len(),
                names@.len() == i,
                forall|j: int| 0 <= j < i ==> (#[trigger] names@[j])@ == self@[j].0,
            decreases self.0.entries@.len() - i,
        {
            names.push(&self.0.entries[i].0);
            i += 1;
        }
        names
    }

    /// Read the `creationdate` property; see [`Properties::get()`].
    pub fn creationdate(&self) -> (r: Option<Option<Result<CreationDate, ExtractElementError>>>)
        ensures
            reads::<CreationDate>(self@, r),
    {
        self.get()
    }

    /// Read the `displayname` property; see [`Properties::get()`].
    pub fn displayname(&self) -> (r: Option<Option<Result<DisplayName, ExtractElementError>>>)
        ensures
            reads::<DisplayName>(self@, r),
    {
        self.get()
    }

    /// Read the `getcontentlanguage` property; see [`Properties::get()`].
    pub fn getcontentlanguage(&self) -> (r: Option<
        Option<Result<ContentLanguage, ExtractElementError>>,
    >)
        ensures
            reads::<ContentLanguage>(self@, r),
    {
        self.get()
    }

    /// Read the `getcontentlength` property; see [`Properties::get()`].
    pub fn getcontentlength(&self) -> (r: Option<Option<Result<ContentLength, ExtractElementError>>>)
        ensures
            reads::<ContentLength>(self@, r),
    {
        self.get()
    }

    /// Read the `getcontenttype` property; see [`Properties::get()`].
    pub fn getcontenttype(&self) -> (r: Option<Option<Result<ContentType, ExtractElementError>>>)
        ensures
            reads::<ContentType>(self@, r),
    {
        self.get()
    }

    /// Read the `getetag` property; see [`Properties::get()`].
    pub fn getetag(&self) -> (r: Option<Option<Result<ETag, ExtractElementError>>>)
        ensures
            reads::<ETag>(self@, r),
    {
        self.get()
    }

    /// Read the `getlastmodified` property; see [`Properties::get()`].
    pub fn getlastmodified(&self) -> (r: Option<Option<Result<LastModified, ExtractElementError>>>)
        ensures
            reads::<LastModified>(self@, r),
    {
        self.get()
    }

    /// Read the `lockdiscovery` property; see [`Properties::get()`].
    pub fn lockdiscovery(&self) -> (r: Option<Option<Result<LockDiscovery, ExtractElementError>>>)
        ensures
            reads::<LockDiscovery>(self@, r),
    {
        self.get()
    }

    /// Read the `resourcetype` property; see [`Properties::get()`].
    pub fn resourcetype(&self) -> (r: Option<Option<Result<ResourceType, ExtractElementError>>>)
        ensures
            reads::<ResourceType>(self@, r),
    {
        self.get()
    }

    /// Read the `supportedlock` property; see [`Properties::get()`].
    pub fn supportedlock(&self) -> (r: Option<Option<Result<SupportedLock, ExtractElementError>>>)
        ensures
            reads::<SupportedLock>(self@, r),
    {
        self.get()
    }
}

impl Element for Properties {
    const NAMESPACE: &'static str = DAV_NAMESPACE;

    const PREFIX: &'static str = DAV_PREFIX;

    const LOCAL_NAME: &'static str = "prop";
}

impl FromValue for Properties {
    /// The element is the map of a node with child elements, as it is.
    open spec fn extracts(value: ValueView, out: Result<Self, ExtractElementError>) -> bool {
        match value {
            ValueView::Elements(entries) => out matches Ok(found) && found@ == entries,
            _ => fails_with(out, wrong_shape("map", value)),
        }
    }

    fn from_value(value: &Value) -> (out: Result<Self, ExtractElementError>) {
        Ok(Properties(value.to_map()?.clone()))
    }
}

impl IntoValue for Properties {
    open spec fn encodable(&self) -> bool {
        true
    }

    fn is_encodable(&self) -> (r: bool) {
        true
    }

    open spec fn as_value(&self) -> ValueView {
        ValueView::Elements(self@)
    }

    fn into_value(self) -> (value: Value) {
        Value::Elements(self.0)
    }
}

/// Round trip: a `prop` element that is turned into a node and extracted
/// again has the same children.
pub proof fn lemma_round_trip(element: Properties, out: Result<Properties, ExtractElementError>)
    requires
        Properties::extracts(element.as_value(), out),
    ensures
        out matches Ok(found) && found@ == element@,
{
}

/// The name under which the element is stored and written.
pub proof fn lemma_name()
    ensures
        Properties::NAMESPACE@ == "DAV:"@,
        Properties::PREFIX@ == "d"@,
        Properties::LOCAL_NAME@ == "prop"@,
{
}

} // verus!
