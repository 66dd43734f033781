//! The conversions between typed elements and single nodes of the value
//! tree.

use vstd::prelude::*;
use crate::xml::element::{Element, NameView};
use crate::xml::error::{ExtractElementError, ExtractElementErrorKind};
use crate::xml::value::{list_view, lookup, shape_name, Value, ValueView};

verus! {

/// A type that can be extracted from one node of the value tree.
pub trait FromValue: Sized {
    /// Whether `out` is what extracting from `value` gives: the extracted
    /// element, or the error that says why there is none.
    spec fn extracts(value: ValueView, out: Result<Self, ExtractElementError>) -> bool;

    /// Extracts the element from `value`.
    fn from_value(value: &Value) -> (out: Result<Self, ExtractElementError>)
        ensures
            Self::extracts(value@, out),
    ;
}

/// Whether `out` is the error of the given kind.
pub open spec fn fails_with<T>(out: Result<T, ExtractElementError>, kind: ExtractElementErrorKind) -> bool {
    out matches Err(e) && e.kind == kind
}

/// The error for a value that has another shape than `expected`.
pub open spec fn wrong_shape(expected: &'static str, value: ValueView) -> ExtractElementErrorKind {
    ExtractElementErrorKind::InvalidValueType { expected, got: shape_name(value) }
}

/// Whether `out` is what extracting the child `E`, which must be there,
/// gives.
pub open spec fn required_child<E: Element + FromValue>(
    entries: Seq<(NameView, ValueView)>,
    out: Result<E, ExtractElementError>,
) -> bool {
    match lookup(entries, NameView::of::<E>()) {
        Some(child) => E::extracts(child, out),
        None => fails_with(out, ExtractElementErrorKind::MissingElement(E::LOCAL_NAME)),
    }
}

/// Whether `out` is what extracting the child `E`, which may be missing,
/// gives.
pub open spec fn optional_child<E: Element + FromValue>(
    entries: Seq<(NameView, ValueView)>,
    out: Result<Option<E>, ExtractElementError>,
) -> bool {
    match lookup(entries, NameView::of::<E>()) {
        Some(child) => match out {
            Ok(Some(found)) => E::extracts(child, Ok(found)),
            Ok(None) => false,
            Err(e) => E::extracts(child, Err(e)),
        },
        None => out matches Ok(None),
    }
}

/// Whether the required child `E` is there and can be extracted.
pub open spec fn has_child<E: Element + FromValue>(entries: Seq<(NameView, ValueView)>) -> bool {
    exists|found: E| required_child::<E>(entries, Ok(found))
}

/// Whether the optional child `E` is missing or can be extracted.
pub open spec fn has_optional_child<E: Element + FromValue>(
    entries: Seq<(NameView, ValueView)>,
) -> bool {
    exists|found: Option<E>| optional_child::<E>(entries, Ok(found))
}

/// Whether `out` is what extracting each of `values` in turn gives: all
/// the elements, or the first error.
pub open spec fn collects<E: FromValue>(
    values: Seq<ValueView>,
    out: Result<Vec<E>, ExtractElementError>,
) -> bool {
    match out {
        Ok(found) => {
            &&& found@.len() == values.len()
            &&& forall|i: int|
                0 <= i < values.len() ==> E::extracts(values[i], Ok(#[trigger] found@[i]))
        },
        Err(e) => exists|k: int| fails_first_at::<E>(values, k, e),
    }
}

/// Whether `values[k]` is the first of `values` that cannot be extracted,
/// with the error `e`.
pub open spec fn fails_first_at<E: FromValue>(
    values: Seq<ValueView>,
    k: int,
    e: ExtractElementError,
) -> bool {
    &&& 0 <= k < values.len()
    &&& E::extracts(values[k], Err(e))
    &&& forall|i: int| 0 <= i < k ==> can_extract::<E>(#[trigger] values[i])
}

/// Whether an element can be extracted from `value`.
pub open spec fn can_extract<E: FromValue>(value: ValueView) -> bool {
    exists|found: E| E::extracts(value, Ok(found))
}

/// Whether all of `values` can be extracted.
pub open spec fn can_collect<E: FromValue>(values: Seq<ValueView>) -> bool {
    exists|found: Vec<E>| collects::<E>(values, Ok(found))
}

/// The nodes that stand for a sequence of elements.
pub open spec fn item_values<E: IntoValue>(items: Seq<E>) -> Seq<ValueView> {
    Seq::new(items.len(), |i: int| items[i].as_value())
}

/// Turns each element into its node.
pub fn values_of<E: IntoValue>(items: Vec<E>) -> (values: Vec<Value>)
    requires
        forall|i: int| 0 <= i < items@.len() ==> (#[trigger] items@[i]).encodable(),
    ensures
        list_view(values) == item_values(items@),
{
    let ghost all = items@;
    let mut values: Vec<Value> = Vec::new();
    for item in it: items
        invariant
            it.seq() == all,
            forall|i: int| 0 <= i < all.len() ==> (#[trigger] all[i]).encodable(),
            values@.len() == it.index(),
            forall|i: int| 0 <= i < it.index() ==> (#[trigger] values@[i])@ == all[i].as_value(),
    {
        values.push(item.into_value());
    }
    assert(list_view(values) =~= item_values(all));
    values
}

/// The element that was found, or the error that says that the element
/// `E` is missing.
pub fn required<E: Element, T>(found: Option<T>) -> (r: Result<T, ExtractElementError>)
    ensures
        match found {
            Some(t) => r == Ok::<T, ExtractElementError>(t),
            None => fails_with(r, ExtractElementErrorKind::MissingElement(E::LOCAL_NAME)),
        },
{
    match found {
        Some(t) => Ok(t),
        None => Err(
            ExtractElementError::new(ExtractElementErrorKind::MissingElement(E::LOCAL_NAME)),
        ),
    }
}

/// A type that can be turned into one node of the value tree.
pub trait IntoValue: Sized {
    /// Whether this element can be turned into a node. Most elements
    /// always can.
    spec fn encodable(&self) -> bool;

    /// Tests whether this element can be turned into a node.
    fn is_encodable(&self) -> (r: bool)
        ensures
            r == self.encodable(),
    ;

    /// The node that stands for this element.
    spec fn as_value(&self) -> ValueView;

    /// Turns the element into its node.
    fn into_value(self) -> (value: Value)
        requires
            self.encodable(),
        ensures
            value@ == self.as_value(),
    ;
}

} // verus!
