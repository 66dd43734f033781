//! The untyped value tree and the ordered map of child elements.

use vstd::prelude::*;
use vstd::std_specs::cmp::PartialEqSpecImpl;
use vstd::std_specs::convert::FromSpecImpl;
use crate::text::opt_str_chars;
use crate::xml::element::{Element, ElementName, NameView};
use crate::xml::convert::{can_extract, collects, fails_first_at, optional_child, required_child, FromValue};
use crate::xml::error::{ExtractElementError, ExtractElementErrorKind};

verus! {

/// Represents the content of an XML element.
///
/// Unlike JSON, which has explicit arrays, XML has none: adjacent elements
/// of one name are grouped into a [`Value::List`] under that name.
#[derive(Debug)]
pub enum Value {
    /// The element is empty, e.g. `<foo />`.
    Empty,
    /// The element contains a text node, e.g. `<foo>bar</foo>`.
    Text(String),
    /// The element contains other elements, e.g. `<foo><bar /></foo>`.
    Elements(ValueMap),
    /// The parent element contains several elements of this name, e.g.
    /// `<foo /><foo />`. The name stands in the parent's map, not here.
    List(Vec<Value>),
}

/// A mapping from tag names to [`Value`]s, in insertion order.
#[derive(Debug)]
pub struct ValueMap {
    pub entries: Vec<(ElementName, Value)>,
}

/// The mathematical content of a [`Value`].
pub enum ValueView {
    Empty,
    Text(Seq<char>),
    Elements(Seq<(NameView, ValueView)>),
    List(Seq<ValueView>),
}

/// The view of a value.
pub open spec fn value_view(v: Value) -> ValueView
    decreases v,
{
    match v {
        Value::Empty => ValueView::Empty,
        Value::Text(s) => ValueView::Text(s@),
        Value::Elements(m) => ValueView::Elements(map_view(m)),
        Value::List(items) => ValueView::List(list_view(items)),
    }
}

/// The view of the items of a list.
pub open spec fn list_view(items: Vec<Value>) -> Seq<ValueView>
    decreases items,
{
    Seq::new(
        items@.len(),
        |i: int|
            if 0 <= i < items@.len() {
                value_view(items@[i])
            } else {
                ValueView::Empty
            },
    )
}

/// The view of a map: its entries in order, each key with its value.
pub open spec fn map_view(m: ValueMap) -> Seq<(NameView, ValueView)>
    decreases m,
{
    Seq::new(
        m.entries@.len(),
        |i: int|
            if 0 <= i < m.entries@.len() {
                (m.entries@[i].0@, value_view(m.entries@[i].1))
            } else {
                (m.entries@[0].0@, ValueView::Empty)
            },
    )
}

impl View for Value {
    type V = ValueView;

    open spec fn view(&self) -> ValueView {
        value_view(*self)
    }
}

impl View for ValueMap {
    type V = Seq<(NameView, ValueView)>;

    open spec fn view(&self) -> Seq<(NameView, ValueView)> {
        map_view(*self)
    }
}

/// Whether `i` is the first position in `entries` whose key is `key`.
pub open spec fn first_at(entries: Seq<(NameView, ValueView)>, key: NameView, i: int) -> bool {
    &&& 0 <= i < entries.len()
    &&& entries[i].0.same(key)
    &&& forall|j: int| 0 <= j < i ==> !(#[trigger] entries[j]).0.same(key)
}

/// The first position in `entries` whose key is `key`, if there is one.
pub open spec fn position(entries: Seq<(NameView, ValueView)>, key: NameView) -> Option<int> {
    if exists|i: int| first_at(entries, key, i) {
        Some(choose|i: int| first_at(entries, key, i))
    } else {
        None
    }
}

/// The value stored under `key`, if there is one.
pub open spec fn lookup(entries: Seq<(NameView, ValueView)>, key: NameView) -> Option<ValueView> {
    match position(entries, key) {
        Some(i) => Some(entries[i].1),
        None => None,
    }
}

/// What a key holds after one more value arrives under it: a list that
/// grows by the value, or, where a single value stood, the list of the two.
pub open spec fn promoted(held: ValueView, value: ValueView) -> ValueView {
    match held {
        ValueView::List(items) => ValueView::List(items.push(value)),
        _ => ValueView::List(seq![held, value]),
    }
}

/// The entries after `value` has been inserted under `key`: a new key goes
/// to the end with the bare value; a key that is present keeps its place
/// and its first spelling, and its value is promoted.
pub open spec fn inserted(
    entries: Seq<(NameView, ValueView)>,
    key: NameView,
    value: ValueView,
) -> Seq<(NameView, ValueView)> {
    match position(entries, key) {
        Some(i) => entries.update(i, (entries[i].0, promoted(entries[i].1, value))),
        None => entries.push((key, value)),
    }
}

/// All the values stored under `key`: none where the key is absent, the
/// items of the list where it holds a list, the single value otherwise.
pub open spec fn occurrences(entries: Seq<(NameView, ValueView)>, key: NameView) -> Seq<ValueView> {
    match lookup(entries, key) {
        None => Seq::empty(),
        Some(ValueView::List(items)) => items,
        Some(single) => seq![single],
    }
}

/// No two entries have the same key.
pub open spec fn distinct_keys(entries: Seq<(NameView, ValueView)>) -> bool {
    forall|i: int, j: int|
        0 <= i < j < entries.len() ==> !(#[trigger] entries[i]).0.same((#[trigger] entries[j]).0)
}

/// The name of a value's shape, as error messages give it.
pub open spec fn shape_name(v: ValueView) -> &'static str {
    match v {
        ValueView::Empty => "empty",
        ValueView::Text(_) => "text",
        ValueView::Elements(_) => "map",
        ValueView::List(_) => "list",
    }
}

/// The first position of `key` is unique, so `position` names it.
pub proof fn lemma_position(entries: Seq<(NameView, ValueView)>, key: NameView, i: int)
    requires
        first_at(entries, key, i),
    ensures
        position(entries, key) == Some(i),
{
    let k = choose|k: int| first_at(entries, key, k);
    assert(first_at(entries, key, k));
    if k < i {
        assert(!entries[k].0.same(key));
    }
    if i < k {
        assert(!entries[i].0.same(key));
    }
}

/// Where no entry has the key, `position` finds none.
pub proof fn lemma_position_none(entries: Seq<(NameView, ValueView)>, key: NameView)
    requires
        forall|j: int| 0 <= j < entries.len() ==> !(#[trigger] entries[j]).0.same(key),
    ensures
        position(entries, key).is_none(),
{
    if exists|i: int| first_at(entries, key, i) {
        let k = choose|k: int| first_at(entries, key, k);
        assert(!entries[k].0.same(key));
    }
}

impl Value {
    /// The name of this value's shape.
    pub fn shape(&self) -> (r: &'static str)
        ensures
            r == shape_name(self@),
    {
        match self {
            Value::Empty => "empty",
            Value::Text(_) => "text",
            Value::Elements(_) => "map",
            Value::List(_) => "list",
        }
    }

    /// The text of a text node; any other shape is an error.
    pub fn to_str(&self) -> (r: Result<&str, ExtractElementError>)
        ensures
            match self@ {
                ValueView::Text(t) => r matches Ok(s) && s@ == t,
                _ => r matches Err(e) && e.kind == (ExtractElementErrorKind::InvalidValueType {
                    expected: "text",
                    got: shape_name(self@),
                }),
            },
    {
        match self {
            Value::Text(s) => Ok(s.as_str()),
            _ => Err(
                ExtractElementError::new(
                    ExtractElementErrorKind::InvalidValueType {
                        expected: "text",
                        got: self.shape(),
                    },
                ),
            ),
        }
    }

    /// The map of an element with child elements; any other shape is an
    /// error.
    pub fn to_map(&self) -> (r: Result<&ValueMap, ExtractElementError>)
        ensures
            match self@ {
                ValueView::Elements(entries) => r matches Ok(m) && m@ == entries,
                _ => r matches Err(e) && e.kind == (ExtractElementErrorKind::InvalidValueType {
                    expected: "map",
                    got: shape_name(self@),
                }),
            },
    {
        match self {
            Value::Elements(m) => Ok(m),
            _ => Err(
                ExtractElementError::new(
                    ExtractElementErrorKind::InvalidValueType {
                        expected: "map",
                        got: self.shape(),
                    },
                ),
            ),
        }
    }
}

impl ValueMap {
    /// The empty map.
    pub fn new() -> (m: Self)
        ensures
            m@ == Seq::<(NameView, ValueView)>::empty(),
    {
        let m = ValueMap { entries: Vec::new() };
        assert(m@ =~= Seq::<(NameView, ValueView)>::empty());
        m
    }

    /// The first position whose key is the element `namespace` /
    /// `local_name`, found without building a key.
    pub fn index_of(&self, namespace: Option<&str>, local_name: &str) -> (r: Option<usize>)
        ensures
            match r {
                Some(i) => {
                    &&& i < self.entries@.len()
                    &&& position(self@, bare_key(opt_str_chars(namespace), local_name@)) == Some(
                        i as int,
                    )
                },
                None => position(self@, bare_key(opt_str_chars(namespace), local_name@)).is_none(),
            },
    {
        let ghost key = bare_key(opt_str_chars(namespace), local_name@);
        let mut i: usize = 0;
        while i < self.entries.len()
            invariant
                0 <= i <= self.entries@.len(),
                key == bare_key(opt_str_chars(namespace), local_name@),
                forall|j: int| 0 <= j < i ==> !(#[trigger] self@[j]).0.same(key),
            decreases self.entries@.len() - i,
        {
            if self.entries[i].0.is(namespace, local_name) {
                proof {
                    assert(self@[i as int].0 == self.entries@[i as int].0@);
                    lemma_position(self@, key, i as int);
                }
                return Some(i);
            }
            assert(self@[i as int].0 == self.entries@[i as int].0@);
            i += 1;
        }
        proof {
            lemma_position_none(self@, key);
        }
        None
    }
}

impl ValueMap {
    /// The value stored under the element `namespace` / `local_name`.
    pub fn get_raw(&self, namespace: Option<&str>, local_name: &str) -> (r: Option<&Value>)
        ensures
            match lookup(self@, bare_key(opt_str_chars(namespace), local_name@)) {
                Some(v) => r matches Some(found) && found@ == v,
                None => r.is_none(),
            },
    {
        match self.index_of(namespace, local_name) {
            Some(i) => {
                assert(self@[i as int].1 == self.entries@[i as int].1@);
                Some(&self.entries[i].1)
            },
            None => None,
        }
    }

    /// Extract a child element of a specific type.
    ///
    /// Gives `None` where the element does not exist, and otherwise what
    /// extracting it gives.
    pub fn get<E: Element + FromValue>(&self) -> (r: Option<Result<E, ExtractElementError>>)
        ensures
            match lookup(self@, NameView::of::<E>()) {
                Some(v) => r matches Some(out) && E::extracts(v, out),
                None => r.is_none(),
            },
    {
        proof {
            lemma_position_same_key(
                self@,
                NameView::of::<E>(),
                bare_key(Some(E::NAMESPACE@), E::LOCAL_NAME@),
            );
        }
        match self.get_raw(Some(E::NAMESPACE), E::LOCAL_NAME) {
            Some(value) => Some(E::from_value(value)),
            None => None,
        }
    }

    /// Extract a non-empty child element of a specific type.
    ///
    /// Gives `None` where the element does not exist, `Some(None)` where it
    /// exists and is empty, and otherwise what extracting it gives.
    pub fn get_optional<E: Element + FromValue>(&self) -> (r: Option<
        Option<Result<E, ExtractElementError>>,
    >)
        ensures
            match lookup(self@, NameView::of::<E>()) {
                Some(ValueView::Empty) => r == Some(None::<Result<E, ExtractElementError>>),
                Some(v) => r matches Some(Some(out)) && E::extracts(v, out),
                None => r.is_none(),
            },
    {
        proof {
            lemma_position_same_key(
                self@,
                NameView::of::<E>(),
                bare_key(Some(E::NAMESPACE@), E::LOCAL_NAME@),
            );
        }
        match self.get_raw(Some(E::NAMESPACE), E::LOCAL_NAME) {
            Some(Value::Empty) => Some(None),
            Some(value) => Some(Some(E::from_value(value))),
            None => None,
        }
    }

    /// Extract every occurrence of a child element: none, one or many,
    /// whether the map stores a bare value or a list.
    pub fn iter_all<E: Element + FromValue>(&self) -> (r: Vec<Result<E, ExtractElementError>>)
        ensures
            r@.len() == occurrences(self@, NameView::of::<E>()).len(),
            forall|i: int|
                0 <= i < r@.len() ==> E::extracts(
                    occurrences(self@, NameView::of::<E>())[i],
                    #[trigger] r@[i],
                ),
    {
        proof {
            lemma_position_same_key(
                self@,
                NameView::of::<E>(),
                bare_key(Some(E::NAMESPACE@), E::LOCAL_NAME@),
            );
        }
        let mut out: Vec<Result<E, ExtractElementError>> = Vec::new();
        match self.get_raw(Some(E::NAMESPACE), E::LOCAL_NAME) {
            Some(Value::List(items)) => {
                let ghost all = occurrences(self@, NameView::of::<E>());
                let mut i: usize = 0;
                while i < items.len()
                    invariant
                        0 <= i <= items@.len(),
                        out@.len() == i,
                        all.len() == items@.len(),
                        forall|j: int| 0 <= j < items@.len() ==> all[j] == (#[trigger] items@[j])@,
                        forall|j: int| 0 <= j < i ==> E::extracts(all[j], #[trigger] out@[j]),
                    decreases items@.len() - i,
                {
                    out.push(E::from_value(&items[i]));
                    i += 1;
                }
            },
            Some(value) => {
                out.push(E::from_value(value));
            },
            None => {},
        }
        out
    }

    /// Extract every occurrence of a child element, up to the first that
    /// cannot be extracted.
    pub fn get_all<E: Element + FromValue>(&self) -> (r: Result<Vec<E>, ExtractElementError>)
        ensures
            collects::<E>(occurrences(self@, NameView::of::<E>()), r),
    {
        proof {
            lemma_position_same_key(
                self@,
                NameView::of::<E>(),
                bare_key(Some(E::NAMESPACE@), E::LOCAL_NAME@),
            );
        }
        let ghost all = occurrences(self@, NameView::of::<E>());
        let mut out: Vec<E> = Vec::new();
        match self.get_raw(Some(E::NAMESPACE), E::LOCAL_NAME) {
            Some(Value::List(items)) => {
                let mut i: usize = 0;
                while i < items.len()
                    invariant
                        0 <= i <= items@.len(),
                        out@.len() == i,
                        all == occurrences(self@, NameView::of::<E>()),
                        all.len() == items@.len(),
                        forall|j: int| 0 <= j < items@.len() ==> all[j] == (#[trigger] items@[j])@,
                        forall|j: int| 0 <= j < i ==> E::extracts(all[j], Ok(#[trigger] out@[j])),
                    decreases items@.len() - i,
                {
                    match E::from_value(&items[i]) {
                        Ok(found) => {
                            out.push(found);
                        },
                        Err(e) => {
                            proof {
                                assert forall|j: int| 0 <= j < i implies can_extract::<E>(
                                    #[trigger] all[j],
                                ) by {
                                    assert(E::extracts(all[j], Ok(out@[j])));
                                }
                                assert(fails_first_at::<E>(all, i as int, e));
                            }
                            return Err(e);
                        },
                    }
                    i += 1;
                }
            },
            Some(value) => {
                match E::from_value(value) {
                    Ok(found) => {
                        out.push(found);
                    },
                    Err(e) => {
                        proof {
                            assert(fails_first_at::<E>(all, 0, e));
                        }
                        return Err(e);
                    },
                }
            },
            None => {},
        }
        Ok(out)
    }

    /// Extract a child element that must be there.
    pub fn get_required<E: Element + FromValue>(&self) -> (r: Result<E, ExtractElementError>)
        ensures
            required_child::<E>(self@, r),
    {
        match self.get::<E>() {
            Some(found) => found,
            None => Err(
                ExtractElementError::new(ExtractElementErrorKind::MissingElement(E::LOCAL_NAME)),
            ),
        }
    }

    /// Extract a child element that may be missing.
    pub fn get_if_present<E: Element + FromValue>(&self) -> (r: Result<
        Option<E>,
        ExtractElementError,
    >)
        ensures
            optional_child::<E>(self@, r),
    {
        match self.get::<E>() {
            Some(Ok(found)) => Ok(Some(found)),
            Some(Err(e)) => Err(e),
            None => Ok(None),
        }
    }

    /// Whether a child element of the type `E` is there.
    pub fn contains<E: Element>(&self) -> (r: bool)
        ensures
            r == lookup(self@, NameView::of::<E>()).is_some(),
    {
        proof {
            lemma_position_same_key(
                self@,
                NameView::of::<E>(),
                bare_key(Some(E::NAMESPACE@), E::LOCAL_NAME@),
            );
        }
        self.index_of(Some(E::NAMESPACE), E::LOCAL_NAME).is_some()
    }

    /// Insert a child value under the name of the element type `E`.
    pub fn insert<E: Element>(&mut self, value: Value)
        ensures
            final(self)@ == inserted(old(self)@, NameView::of::<E>(), value@),
    {
        self.insert_raw(ElementName::of::<E>(), value)
    }

    /// Insert a child value under `key`. The first value under a key is
    /// stored bare; the second turns the entry into a list of the two; later
    /// ones are appended to that list.
    pub fn insert_raw(&mut self, key: ElementName, value: Value)
        ensures
            final(self)@ == inserted(old(self)@, key@, value@),
            well_formed(ValueView::Elements(old(self)@)) && well_formed(value@) ==> well_formed(
                ValueView::Elements(final(self)@),
            ),
    {
        proof {
            if well_formed(ValueView::Elements(self@)) && well_formed(value@) {
                lemma_inserted_well_formed(self@, key@, value@);
            }
        }
        let found = match &key.namespace {
            Some(ns) => self.index_of(Some(ns.as_str()), key.local_name.as_str()),
            None => self.index_of(None, key.local_name.as_str()),
        };
        proof {
            lemma_position_same_key(self@, key@, bare_key(key@.namespace, key@.local_name));
        }
        match found {
            Some(i) => {
                let ghost before = self@;
                let ghost added = value@;
                let (name, held) = self.entries.remove(i);
                assert(held@ == before[i as int].1);
                let grown = match held {
                    Value::List(mut items) => {
                        let ghost seen = list_view(items);
                        items.push(value);
                        assert(list_view(items) =~= seen.push(added));
                        Value::List(items)
                    },
                    single => {
                        let ghost first = single@;
                        let mut items: Vec<Value> = Vec::new();
                        items.push(single);
                        items.push(value);
                        assert(list_view(items) =~= seq![first, added]);
                        Value::List(items)
                    },
                };
                assert(grown@ == promoted(before[i as int].1, added));
                self.entries.insert(i, (name, grown));
                assert(self@ =~= before.update(
                    i as int,
                    (before[i as int].0, promoted(before[i as int].1, added)),
                ));
            },
            None => {
                let ghost before = self@;
                self.entries.push((key, value));
                assert(self@ =~= before.push((key@, value@)));
            },
        }
    }
}

/// Keys that are the same find the same position.
pub proof fn lemma_position_same_key(
    entries: Seq<(NameView, ValueView)>,
    a: NameView,
    b: NameView,
)
    requires
        a.same(b),
    ensures
        position(entries, a) == position(entries, b),
        lookup(entries, a) == lookup(entries, b),
        occurrences(entries, a) == occurrences(entries, b),
{
    assert forall|i: int| first_at(entries, a, i) == first_at(entries, b, i) by {
        if first_at(entries, a, i) {
            assert(first_at(entries, b, i));
        }
        if first_at(entries, b, i) {
            assert(first_at(entries, a, i));
        }
    }
    if exists|i: int| first_at(entries, a, i) {
        let k = choose|i: int| first_at(entries, a, i);
        assert(first_at(entries, b, k));
        lemma_position(entries, b, k);
    } else {
        if exists|i: int| first_at(entries, b, i) {
            let k = choose|i: int| first_at(entries, b, i);
            assert(first_at(entries, a, k));
        }
    }
}

/// The key made of a namespace and a local name, without a prefix hint.
pub open spec fn bare_key(namespace: Option<Seq<char>>, local_name: Seq<char>) -> NameView {
    NameView { namespace, prefix: None, local_name }
}

/// Where some entry has the key, some entry is the first to have it.
pub proof fn lemma_first_exists(entries: Seq<(NameView, ValueView)>, key: NameView, j: int)
    requires
        0 <= j < entries.len(),
        entries[j].0.same(key),
    ensures
        exists|k: int| first_at(entries, key, k),
    decreases j,
{
    if forall|i: int| 0 <= i < j ==> !(#[trigger] entries[i]).0.same(key) {
        assert(first_at(entries, key, j));
    } else {
        let i = choose|i: int| 0 <= i < j && (#[trigger] entries[i]).0.same(key);
        lemma_first_exists(entries, key, i);
    }
}

/// Whether a value is well formed: a list has at least one item, no key
/// occurs twice in a map, and the same holds of everything inside.
pub open spec fn well_formed(value: ValueView) -> bool
    decreases value,
{
    match value {
        ValueView::Empty | ValueView::Text(_) => true,
        ValueView::List(items) => items.len() >= 1 && forall|i: int|
            0 <= i < items.len() ==> well_formed(#[trigger] items[i]),
        ValueView::Elements(entries) => distinct_keys(entries) && forall|i: int|
            0 <= i < entries.len() ==> well_formed((#[trigger] entries[i]).1),
    }
}

/// Whether a value is grouped as the reader groups elements: it is well
/// formed, and a key of a map holds a list only of two or more values,
/// none of which is a list itself.
pub open spec fn grouped(value: ValueView) -> bool
    decreases value,
{
    match value {
        ValueView::Empty | ValueView::Text(_) => true,
        ValueView::List(items) => items.len() >= 2 && forall|i: int|
            0 <= i < items.len() ==> grouped(#[trigger] items[i]) && !(items[i] is List),
        ValueView::Elements(entries) => distinct_keys(entries) && forall|i: int|
            0 <= i < entries.len() ==> grouped((#[trigger] entries[i]).1),
    }
}

/// Inserting keeps the keys distinct.
pub proof fn lemma_inserted_distinct(
    entries: Seq<(NameView, ValueView)>,
    key: NameView,
    value: ValueView,
)
    requires
        distinct_keys(entries),
    ensures
        distinct_keys(inserted(entries, key, value)),
{
    let after = inserted(entries, key, value);
    match position(entries, key) {
        Some(i) => {
            assert(first_at(entries, key, i));
            assert forall|a: int, b: int| 0 <= a < b < after.len() implies !(
            #[trigger] after[a]).0.same((#[trigger] after[b]).0) by {
                assert(after[a].0 == entries[a].0);
                assert(after[b].0 == entries[b].0);
            }
        },
        None => {
            assert forall|a: int, b: int| 0 <= a < b < after.len() implies !(
            #[trigger] after[a]).0.same((#[trigger] after[b]).0) by {
                if b == entries.len() {
                    if entries[a].0.same(key) {
                        lemma_first_exists(entries, key, a);
                    }
                } else {
                    assert(after[a].0 == entries[a].0);
                    assert(after[b].0 == entries[b].0);
                }
            }
        },
    }
}

/// Inserting a well-formed value into a well-formed map gives a
/// well-formed map.
pub proof fn lemma_inserted_well_formed(
    entries: Seq<(NameView, ValueView)>,
    key: NameView,
    value: ValueView,
)
    requires
        well_formed(ValueView::Elements(entries)),
        well_formed(value),
    ensures
        well_formed(ValueView::Elements(inserted(entries, key, value))),
{
    lemma_inserted_distinct(entries, key, value);
    let after = inserted(entries, key, value);
    assert forall|i: int| 0 <= i < after.len() implies well_formed((#[trigger] after[i]).1) by {
        match position(entries, key) {
            Some(at) => {
                assert(first_at(entries, key, at));
                if i == at {
                    assert(well_formed(entries[at].1));
                    match entries[at].1 {
                        ValueView::List(items) => {
                            let grown = items.push(value);
                            assert forall|j: int| 0 <= j < grown.len() implies well_formed(
                                #[trigger] grown[j],
                            ) by {
                                if j < items.len() {
                                    assert(well_formed(items[j]));
                                }
                            }
                        },
                        held => {
                            let pair = seq![held, value];
                            assert forall|j: int| 0 <= j < pair.len() implies well_formed(
                                #[trigger] pair[j],
                            ) by {}
                        },
                    }
                } else {
                    assert(well_formed(entries[i].1));
                }
            },
            None => {
                if i < entries.len() {
                    assert(well_formed(entries[i].1));
                }
            },
        }
    }
}

/// Inserting a grouped value that is no list into a grouped map gives a
/// grouped map: the first value under a key is stored bare, and the
/// second makes the list.
pub proof fn lemma_inserted_grouped(
    entries: Seq<(NameView, ValueView)>,
    key: NameView,
    value: ValueView,
)
    requires
        grouped(ValueView::Elements(entries)),
        grouped(value),
        !(value is List),
    ensures
        grouped(ValueView::Elements(inserted(entries, key, value))),
        position(entries, key).is_none() ==> lookup(inserted(entries, key, value), key) == Some(
            value,
        ),
{
    lemma_inserted_distinct(entries, key, value);
    let after = inserted(entries, key, value);
    assert forall|i: int| 0 <= i < after.len() implies grouped((#[trigger] after[i]).1) by {
        match position(entries, key) {
            Some(at) => {
                assert(first_at(entries, key, at));
                if i == at {
                    assert(grouped(entries[at].1));
                    match entries[at].1 {
                        ValueView::List(items) => {
                            let grown = items.push(value);
                            assert forall|j: int| 0 <= j < grown.len() implies grouped(
                                #[trigger] grown[j],
                            ) && !(grown[j] is List) by {
                                if j < items.len() {
                                    assert(grouped(items[j]) && !(items[j] is List));
                                }
                            }
                        },
                        held => {
                            let pair = seq![held, value];
                            assert forall|j: int| 0 <= j < pair.len() implies grouped(
                                #[trigger] pair[j],
                            ) && !(pair[j] is List) by {}
                        },
                    }
                } else {
                    assert(grouped(entries[i].1));
                }
            },
            None => {
                if i < entries.len() {
                    assert(grouped(entries[i].1));
                }
            },
        }
    }
    if position(entries, key).is_none() {
        let last = entries.len() as int;
        assert(first_at(after, key, last)) by {
            assert forall|j: int| 0 <= j < last implies !(#[trigger] after[j]).0.same(key) by {
                if entries[j].0.same(key) {
                    lemma_first_exists(entries, key, j);
                }
            }
        }
        lemma_position(after, key, last);
    }
}

/// Inserting under a key changes what that key holds and nothing else:
/// the key then holds the value itself where it was absent, and otherwise
/// what it held, promoted by the value.
pub proof fn lemma_lookup_inserted(
    entries: Seq<(NameView, ValueView)>,
    key: NameView,
    value: ValueView,
    other: NameView,
)
    ensures
        lookup(inserted(entries, key, value), key) == Some(
            match lookup(entries, key) {
                Some(held) => promoted(held, value),
                None => value,
            },
        ),
        !other.same(key) ==> lookup(inserted(entries, key, value), other) == lookup(entries, other),
{
    let after = inserted(entries, key, value);
    match position(entries, key) {
        Some(at) => {
            assert(first_at(entries, key, at));
            assert(first_at(after, key, at)) by {
                assert forall|j: int| 0 <= j < at implies !(#[trigger] after[j]).0.same(key) by {
                    assert(after[j].0 == entries[j].0);
                }
            }
            lemma_position(after, key, at);
        },
        None => {
            let last = entries.len() as int;
            assert(first_at(after, key, last)) by {
                assert forall|j: int| 0 <= j < last implies !(#[trigger] after[j]).0.same(key) by {
                    if entries[j].0.same(key) {
                        lemma_first_exists(entries, key, j);
                    }
                }
            }
            lemma_position(after, key, last);
        },
    }
    if !other.same(key) {
        assert forall|i: int| first_at(after, other, i) == first_at(entries, other, i) by {
            if first_at(after, other, i) {
                assert(i < entries.len()) by {
                    if i == entries.len() {
                        assert(after[i].0.same(key));
                    }
                }
                assert(entries[i].0 == after[i].0);
                assert forall|j: int| 0 <= j < i implies !(#[trigger] entries[j]).0.same(other) by {
                    assert(after[j].0 == entries[j].0);
                }
            }
            if first_at(entries, other, i) {
                assert(after[i].0 == entries[i].0);
                assert forall|j: int| 0 <= j < i implies !(#[trigger] after[j]).0.same(other) by {
                    assert(after[j].0 == entries[j].0);
                }
            }
        }
        if exists|i: int| first_at(entries, other, i) {
            let i = choose|i: int| first_at(entries, other, i);
            assert(first_at(after, other, i));
            lemma_position(after, other, i);
            assert(after[i].1 == entries[i].1) by {
                if position(entries, key) == Some(i) {
                    assert(first_at(entries, key, i));
                }
            }
        } else {
            if exists|i: int| first_at(after, other, i) {
                let i = choose|i: int| first_at(after, other, i);
                assert(first_at(entries, other, i));
            }
        }
    }
}

/// Every value that is inserted under a key occurs under it, behind the
/// values that were there, whether the key holds a bare value or a list.
pub proof fn lemma_occurrences_inserted(
    entries: Seq<(NameView, ValueView)>,
    key: NameView,
    value: ValueView,
)
    requires
        !(value is List),
    ensures
        occurrences(inserted(entries, key, value), key) == occurrences(entries, key).push(value),
{
    lemma_lookup_inserted(entries, key, value, key);
    match lookup(entries, key) {
        Some(ValueView::List(items)) => {},
        Some(held) => {
            assert(seq![held, value] =~= seq![held].push(value));
        },
        None => {
            assert(seq![value] =~= Seq::<ValueView>::empty().push(value));
        },
    }
}

/// The entries after the first `n` of `items` were inserted, in order.
pub open spec fn inserted_all(
    entries: Seq<(NameView, ValueView)>,
    items: Seq<(NameView, ValueView)>,
    n: nat,
) -> Seq<(NameView, ValueView)>
    decreases n,
{
    if n == 0 || n > items.len() {
        entries
    } else {
        inserted(inserted_all(entries, items, (n - 1) as nat), items[n - 1].0, items[n - 1].1)
    }
}

/// The values of those of the first `n` of `items` whose key is `key`, in
/// order.
pub open spec fn values_under(items: Seq<(NameView, ValueView)>, key: NameView, n: nat) -> Seq<
    ValueView,
>
    decreases n,
{
    if n == 0 || n > items.len() {
        Seq::empty()
    } else if items[n - 1].0.same(key) {
        values_under(items, key, (n - 1) as nat).push(items[n - 1].1)
    } else {
        values_under(items, key, (n - 1) as nat)
    }
}

/// Grouping: after items were inserted, whatever their order, each key
/// holds what it held and then the values of the items of its name, in
/// the order in which they came.
pub proof fn lemma_occurrences_inserted_all(
    entries: Seq<(NameView, ValueView)>,
    items: Seq<(NameView, ValueView)>,
    key: NameView,
    n: nat,
)
    requires
        n <= items.len(),
        forall|i: int| 0 <= i < n ==> !((#[trigger] items[i]).1 is List),
    ensures
        occurrences(inserted_all(entries, items, n), key) == occurrences(entries, key)
            + values_under(items, key, n),
    decreases n,
{
    if n == 0 {
        assert(occurrences(entries, key) + Seq::<ValueView>::empty() =~= occurrences(
            entries,
            key,
        ));
    } else {
        let before = inserted_all(entries, items, (n - 1) as nat);
        let item = items[n - 1];
        lemma_occurrences_inserted_all(entries, items, key, (n - 1) as nat);
        if item.0.same(key) {
            lemma_position_same_key(inserted(before, item.0, item.1), key, item.0);
            lemma_position_same_key(before, key, item.0);
            lemma_occurrences_inserted(before, item.0, item.1);
            assert((occurrences(entries, key) + values_under(items, key, (n - 1) as nat)).push(
                item.1,
            ) =~= occurrences(entries, key) + values_under(items, key, n));
        } else {
            lemma_lookup_inserted(before, item.0, item.1, key);
        }
    }
}

/// Inserting an item and then more items is inserting all of them, the
/// one item first.
pub proof fn lemma_inserted_all_prepend(
    entries: Seq<(NameView, ValueView)>,
    first: (NameView, ValueView),
    items: Seq<(NameView, ValueView)>,
    n: nat,
)
    requires
        n <= items.len(),
    ensures
        inserted_all(entries, seq![first] + items, n + 1) == inserted_all(
            inserted(entries, first.0, first.1),
            items,
            n,
        ),
    decreases n,
{
    let all = seq![first] + items;
    let start = inserted(entries, first.0, first.1);
    assert(all.len() == items.len() + 1);
    if n == 0 {
        assert(all[0] == first);
        assert(inserted_all(entries, all, 0) == entries);
        assert(inserted_all(entries, all, 1) == inserted(
            inserted_all(entries, all, 0),
            all[0].0,
            all[0].1,
        ));
    } else {
        lemma_inserted_all_prepend(entries, first, items, (n - 1) as nat);
        assert(all[n as int] == items[n - 1]);
        assert(inserted_all(entries, all, n + 1) == inserted(
            inserted_all(entries, all, n),
            all[n as int].0,
            all[n as int].1,
        ));
        assert(inserted_all(start, items, n) == inserted(
            inserted_all(start, items, (n - 1) as nat),
            items[n - 1].0,
            items[n - 1].1,
        ));
    }
}

/// Grouping, by the number of values under a key: in a grouped map a key
/// under which nothing occurs is absent, a key under which one value
/// occurs holds that value bare, and a key under which several occur holds
/// the list of them.
pub proof fn lemma_grouped_lookup(entries: Seq<(NameView, ValueView)>, key: NameView)
    requires
        grouped(ValueView::Elements(entries)),
    ensures
        occurrences(entries, key).len() == 0 ==> lookup(entries, key).is_none(),
        occurrences(entries, key).len() == 1 ==> lookup(entries, key) == Some(
            occurrences(entries, key)[0],
        ) && !(occurrences(entries, key)[0] is List),
        occurrences(entries, key).len() >= 2 ==> lookup(entries, key) == Some(
            ValueView::List(occurrences(entries, key)),
        ),
{
    match position(entries, key) {
        Some(at) => {
            assert(first_at(entries, key, at));
            assert(grouped(entries[at].1));
        },
        None => {},
    }
}

/// A deep copy of a value.
pub fn clone_value(value: &Value) -> (copy: Value)
    ensures
        copy@ == value@,
    decreases value,
{
    match value {
        Value::Empty => Value::Empty,
        Value::Text(text) => Value::Text(text.clone()),
        Value::Elements(map) => Value::Elements(clone_map(map)),
        Value::List(items) => Value::List(clone_items(items)),
    }
}

/// A deep copy of the items of a list.
pub fn clone_items(items: &Vec<Value>) -> (copy: Vec<Value>)
    ensures
        list_view(copy) == list_view(*items),
    decreases items,
{
    let mut copy: Vec<Value> = Vec::new();
    let mut i: usize = 0;
    while i < items.len()
        invariant
            0 <= i <= items@.len(),
            copy@.len() == i,
            forall|j: int| 0 <= j < i ==> (#[trigger] copy@[j])@ == items@[j]@,
        decreases items@.len() - i,
    {
        proof {
            vstd::std_specs::vec::axiom_vec_index_decreases(*items, i as int);
        }
        copy.push(clone_value(&items[i]));
        i += 1;
    }
    assert(list_view(copy) =~= list_view(*items));
    copy
}

/// A deep copy of a map.
pub fn clone_map(map: &ValueMap) -> (copy: ValueMap)
    ensures
        copy@ == map@,
    decreases map,
{
    let mut entries: Vec<(ElementName, Value)> = Vec::new();
    let mut i: usize = 0;
    while i < map.entries.len()
        invariant
            0 <= i <= map.entries@.len(),
            entries@.len() == i,
            forall|j: int|
                0 <= j < i ==> (#[trigger] entries@[j]).0@ == map.entries@[j].0@ && entries@[j].1@
                    == map.entries@[j].1@,
        decreases map.entries@.len() - i,
    {
        proof {
            vstd::std_specs::vec::axiom_vec_index_decreases(map.entries, i as int);
        }
        entries.push((map.entries[i].0.clone(), clone_value(&map.entries[i].1)));
        i += 1;
    }
    let copy = ValueMap { entries };
    assert(copy@ =~= map@);
    copy
}

impl Clone for Value {
    fn clone(&self) -> (copy: Self)
        ensures
            copy@ == self@,
    {
        clone_value(self)
    }
}

impl Clone for ValueMap {
    fn clone(&self) -> (copy: Self)
        ensures
            copy@ == self@,
    {
        clone_map(self)
    }
}

impl Default for Value {
    fn default() -> (value: Self)
        ensures
            value@ == ValueView::Empty,
    {
        Value::Empty
    }
}

impl Default for ValueMap {
    fn default() -> (map: Self)
        ensures
            map@ == Seq::<(NameView, ValueView)>::empty(),
    {
        ValueMap::new()
    }
}

impl From<String> for Value {
    fn from(text: String) -> (value: Self) {
        Value::Text(text)
    }
}

impl FromSpecImpl<String> for Value {
    open spec fn obeys_from_spec() -> bool {
        true
    }

    open spec fn from_spec(text: String) -> Self {
        Value::Text(text)
    }
}

/// Whether two values are equal: they have the same shape and equal
/// content. Lists are equal item by item; maps are equal where they have
/// the same number of entries and each key of the one holds an equal value
/// in the other, in whatever order the entries stand.
pub open spec fn same_value(a: ValueView, b: ValueView) -> bool
    decreases a,
{
    match (a, b) {
        (ValueView::Empty, ValueView::Empty) => true,
        (ValueView::Text(x), ValueView::Text(y)) => x == y,
        (ValueView::Elements(x), ValueView::Elements(y)) => same_entries(x, y, x.len()),
        (ValueView::List(x), ValueView::List(y)) => x.len() == y.len() && same_items(
            x,
            y,
            x.len(),
        ),
        _ => false,
    }
}

/// Whether the first `n` items of two lists are equal, each to the item
/// at its position.
pub open spec fn same_items(x: Seq<ValueView>, y: Seq<ValueView>, n: nat) -> bool
    decreases x, n,
{
    if n == 0 || n > x.len() || n > y.len() {
        n == 0
    } else {
        same_items(x, y, (n - 1) as nat) && same_value(x[n - 1], y[n - 1])
    }
}

/// Whether two maps have the same number of entries and each of the first
/// `n` keys of the one holds an equal value in the other.
pub open spec fn same_entries(
    x: Seq<(NameView, ValueView)>,
    y: Seq<(NameView, ValueView)>,
    n: nat,
) -> bool
    decreases x, n,
{
    if x.len() != y.len() {
        false
    } else if n == 0 || n > x.len() {
        n == 0
    } else {
        same_entries(x, y, (n - 1) as nat) && match lookup(y, x[n - 1].0) {
            Some(v) => same_value(x[n - 1].1, v),
            None => false,
        }
    }
}

/// Whether two values are equal; see [`same_value`].
pub fn value_eq(a: &Value, b: &Value) -> (r: bool)
    ensures
        r == same_value(a@, b@),
    decreases a,
{
    match (a, b) {
        (Value::Empty, Value::Empty) => true,
        (Value::Text(x), Value::Text(y)) => crate::text::str_eq(x.as_str(), y.as_str()),
        (Value::Elements(x), Value::Elements(y)) => map_eq(x, y),
        (Value::List(x), Value::List(y)) => items_eq(x, y),
        _ => false,
    }
}

/// Whether two lists are equal, item by item.
pub fn items_eq(a: &Vec<Value>, b: &Vec<Value>) -> (r: bool)
    ensures
        r == (a@.len() == b@.len() && same_items(list_view(*a), list_view(*b), a@.len() as nat)),
    decreases a,
{
    if a.len() != b.len() {
        return false;
    }
    let mut i: usize = 0;
    while i < a.len()
        invariant
            0 <= i <= a@.len(),
            a@.len() == b@.len(),
            same_items(list_view(*a), list_view(*b), i as nat),
        decreases a@.len() - i,
    {
        proof {
            vstd::std_specs::vec::axiom_vec_index_decreases(*a, i as int);
        }
        if !value_eq(&a[i], &b[i]) {
            proof {
                if same_items(list_view(*a), list_view(*b), a@.len() as nat) {
                    lemma_same_items_upto(
                        list_view(*a),
                        list_view(*b),
                        (i + 1) as nat,
                        a@.len() as nat,
                    );
                }
            }
            return false;
        }
        i += 1;
    }
    true
}

/// Items that are equal up to `n` are equal up to any smaller number.
pub proof fn lemma_same_items_upto(x: Seq<ValueView>, y: Seq<ValueView>, m: nat, n: nat)
    requires
        m <= n <= x.len(),
        n <= y.len(),
        same_items(x, y, n),
    ensures
        same_items(x, y, m),
    decreases n,
{
    if m < n {
        lemma_same_items_upto(x, y, m, (n - 1) as nat);
    }
}

/// Entries that are equal up to `n` are equal up to any smaller number.
pub proof fn lemma_same_entries_upto(
    x: Seq<(NameView, ValueView)>,
    y: Seq<(NameView, ValueView)>,
    m: nat,
    n: nat,
)
    requires
        m <= n <= x.len(),
        same_entries(x, y, n),
    ensures
        same_entries(x, y, m),
    decreases n,
{
    if m < n {
        lemma_same_entries_upto(x, y, m, (n - 1) as nat);
    }
}

/// Whether two maps are equal, whatever the order of their entries.
pub fn map_eq(a: &ValueMap, b: &ValueMap) -> (r: bool)
    ensures
        r == same_entries(a@, b@, a@.len()),
    decreases a,
{
    if a.entries.len() != b.entries.len() {
        return false;
    }
    let mut i: usize = 0;
    while i < a.entries.len()
        invariant
            0 <= i <= a.entries@.len(),
            a@.len() == a.entries@.len(),
            a@.len() == b@.len(),
            same_entries(a@, b@, i as nat),
        decreases a.entries@.len() - i,
    {
        proof {
            vstd::std_specs::vec::axiom_vec_index_decreases(a.entries, i as int);
        }
        let key = &a.entries[i].0;
        assert(a@[i as int] == (a.entries@[i as int].0@, a.entries@[i as int].1@));
        let found = match &key.namespace {
            Some(ns) => b.get_raw(Some(ns.as_str()), key.local_name.as_str()),
            None => b.get_raw(None, key.local_name.as_str()),
        };
        proof {
            lemma_position_same_key(b@, key@, bare_key(key@.namespace, key@.local_name));
        }
        let equal = match found {
            Some(value) => value_eq(&a.entries[i].1, value),
            None => false,
        };
        if !equal {
            proof {
                if same_entries(a@, b@, a@.len()) {
                    lemma_same_entries_upto(a@, b@, (i + 1) as nat, a@.len());
                }
            }
            return false;
        }
        i += 1;
    }
    true
}

impl PartialEq for Value {
    fn eq(&self, other: &Self) -> (r: bool) {
        value_eq(self, other)
    }
}

impl PartialEqSpecImpl for Value {
    open spec fn obeys_eq_spec() -> bool {
        true
    }

    open spec fn eq_spec(&self, other: &Self) -> bool {
        same_value(self@, other@)
    }
}

impl PartialEq for ValueMap {
    fn eq(&self, other: &Self) -> (r: bool) {
        map_eq(self, other)
    }
}

impl PartialEqSpecImpl for ValueMap {
    open spec fn obeys_eq_spec() -> bool {
        true
    }

    open spec fn eq_spec(&self, other: &Self) -> bool {
        same_entries(self@, other@, self@.len())
    }
}

} // verus!
