//! The writer: from a root name and a value tree to a document.
//!
//! Writing has two passes over the tree. The first binds every namespace
//! that occurs to a prefix; the second lists the events of the document,
//! with all the bindings declared on the root element. The events are then
//! handed to the writer of `quick_xml`, which renders them with an
//! indentation of two spaces.

use vstd::prelude::*;
use vstd::string::StringExecFns;
use quick_xml::escape::partial_escape;
use quick_xml::events::{BytesDecl, BytesEnd, BytesStart, BytesText, Event};
use quick_xml::Error as QuickXmlError;
use quick_xml::Writer;
use crate::text::{opt_chars, str_eq};
use crate::xml::element::{Element, ElementName, NameView};
use crate::xml::error::{XmlError, XmlErrorView};
use crate::xml::value::{list_view, Value, ValueMap, ValueView};

verus! {

/// Namespace bindings: pairs of a namespace and the prefix it is bound to,
/// in the order in which the namespaces were first met.
pub type Bindings = Seq<(Seq<char>, Seq<char>)>;

/// The view of a list of bindings.
pub open spec fn bindings_view(bound: Seq<(String, String)>) -> Bindings {
    bound.map_values(|b: (String, String)| (b.0@, b.1@))
}

/// Whether `i` is the first position in `bound` that binds `namespace`.
pub open spec fn bound_at(bound: Bindings, namespace: Seq<char>, i: int) -> bool {
    &&& 0 <= i < bound.len()
    &&& bound[i].0 == namespace
    &&& forall|j: int| 0 <= j < i ==> (#[trigger] bound[j]).0 != namespace
}

/// Whether `namespace` is bound.
pub open spec fn is_bound(bound: Bindings, namespace: Seq<char>) -> bool {
    exists|i: int| bound_at(bound, namespace, i)
}

/// The prefix that `namespace` is bound to.
pub open spec fn prefix_of(bound: Bindings, namespace: Seq<char>) -> Seq<char>
    recommends
        is_bound(bound, namespace),
{
    bound[choose|i: int| bound_at(bound, namespace, i)].1
}

/// The prefix that stands in for a missing prefix hint.
pub open spec fn placeholder_prefix() -> Seq<char> {
    "NS"@
}

/// The bindings after `name` was met: a namespace that is not bound yet is
/// bound to the name's prefix hint, or to the placeholder where it has
/// none. A namespace that is bound keeps its prefix.
pub open spec fn with_name(bound: Bindings, name: NameView) -> Bindings {
    match name.namespace {
        Some(namespace) => {
            if is_bound(bound, namespace) {
                bound
            } else {
                bound.push(
                    (
                        namespace,
                        match name.prefix {
                            Some(prefix) => prefix,
                            None => placeholder_prefix(),
                        },
                    ),
                )
            }
        },
        None => bound,
    }
}

/// The bindings after the element `name` with content `value` was walked
/// in document order.
pub open spec fn with_value(bound: Bindings, name: NameView, value: ValueView) -> Bindings
    decreases value, 0nat,
{
    match value {
        ValueView::Empty | ValueView::Text(_) => with_name(bound, name),
        ValueView::List(items) => with_items(bound, name, items, items.len()),
        ValueView::Elements(entries) => with_entries(
            with_name(bound, name),
            entries,
            entries.len(),
        ),
    }
}

/// The bindings after the first `n` of the elements `items`, all of them
/// named `name`, were walked.
pub open spec fn with_items(bound: Bindings, name: NameView, items: Seq<ValueView>, n: nat) -> Bindings
    decreases items, n,
{
    if n == 0 || n > items.len() {
        bound
    } else {
        with_value(with_items(bound, name, items, (n - 1) as nat), name, items[n - 1])
    }
}

/// The bindings after the first `n` of the child elements `entries` were
/// walked.
pub open spec fn with_entries(bound: Bindings, entries: Seq<(NameView, ValueView)>, n: nat) -> Bindings
    decreases entries, n,
{
    if n == 0 || n > entries.len() {
        bound
    } else {
        with_value(
            with_entries(bound, entries, (n - 1) as nat),
            entries[n - 1].0,
            entries[n - 1].1,
        )
    }
}

/// The position of the binding of `namespace`, if it is bound.
fn binding_index(bound: &Vec<(String, String)>, namespace: &str) -> (r: Option<usize>)
    ensures
        match r {
            Some(i) => bound_at(bindings_view(bound@), namespace@, i as int),
            None => !is_bound(bindings_view(bound@), namespace@),
        },
{
    let ghost view = bindings_view(bound@);
    let mut i: usize = 0;
    while i < bound.len()
        invariant
            0 <= i <= bound@.len(),
            view == bindings_view(bound@),
            forall|j: int| 0 <= j < i ==> (#[trigger] view[j]).0 != namespace@,
        decreases bound@.len() - i,
    {
        if str_eq(bound[i].0.as_str(), namespace) {
            return Some(i);
        }
        i += 1;
    }
    assert forall|k: int| !bound_at(view, namespace@, k) by {
        if 0 <= k < view.len() {
            assert(view[k].0 != namespace@);
        }
    }
    None
}

/// Binds the namespace of `name`, if it has one that is not bound yet.
fn add_namespace(bound: &mut Vec<(String, String)>, name: &ElementName)
    ensures
        bindings_view(final(bound)@) == with_name(bindings_view(old(bound)@), name@),
{
    match &name.namespace {
        Some(namespace) => {
            if binding_index(bound, namespace.as_str()).is_none() {
                let prefix = match &name.prefix {
                    Some(prefix) => prefix.clone(),
                    None => "NS".to_owned(),
                };
                let ghost before = bindings_view(bound@);
                bound.push((namespace.clone(), prefix));
                assert(bindings_view(bound@) =~= before.push((namespace@, prefix@)));
            }
        },
        None => {},
    }
}

/// The first pass: walks the element `name` with content `value` in
/// document order and binds every namespace that is not bound yet.
fn resolve_namespaces(bound: &mut Vec<(String, String)>, name: &ElementName, value: &Value)
    ensures
        bindings_view(final(bound)@) == with_value(bindings_view(old(bound)@), name@, value@),
    decreases value,
{
    match value {
        Value::Empty | Value::Text(_) => add_namespace(bound, name),
        Value::List(items) => resolve_items(bound, name, items),
        Value::Elements(map) => {
            add_namespace(bound, name);
            resolve_entries(bound, map);
        },
    }
}

/// The first pass over the items of a list.
fn resolve_items(bound: &mut Vec<(String, String)>, name: &ElementName, items: &Vec<Value>)
    ensures
        bindings_view(final(bound)@) == with_items(
            bindings_view(old(bound)@),
            name@,
            list_view(*items),
            items@.len(),
        ),
    decreases items,
{
    let ghost before = bindings_view(bound@);
    let mut i: usize = 0;
    while i < items.len()
        invariant
            0 <= i <= items@.len(),
            bindings_view(bound@) == with_items(before, name@, list_view(*items), i as nat),
        decreases items@.len() - i,
    {
        proof {
            vstd::std_specs::vec::axiom_vec_index_decreases(*items, i as int);
        }
        resolve_namespaces(bound, name, &items[i]);
        i += 1;
    }
}

/// The first pass over the children of a map.
fn resolve_entries(bound: &mut Vec<(String, String)>, map: &ValueMap)
    ensures
        bindings_view(final(bound)@) == with_entries(
            bindings_view(old(bound)@),
            map@,
            map@.len(),
        ),
    decreases map,
{
    let ghost before = bindings_view(bound@);
    let mut i: usize = 0;
    while i < map.entries.len()
        invariant
            0 <= i <= map.entries@.len(),
            map@.len() == map.entries@.len(),
            bindings_view(bound@) == with_entries(before, map@, i as nat),
        decreases map.entries@.len() - i,
    {
        proof {
            vstd::std_specs::vec::axiom_vec_index_decreases(map.entries, i as int);
        }
        assert(map@[i as int] == (map.entries@[i as int].0@, map.entries@[i as int].1@));
        resolve_namespaces(bound, &map.entries[i].0, &map.entries[i].1);
        i += 1;
    }
}

/// One event of a document to write.
#[derive(Debug)]
pub enum WriteEvent {
    /// The XML declaration.
    Decl { version: String, encoding: Option<String>, standalone: Option<String> },
    /// A start tag with its attributes: pairs of a name and a value.
    Start { name: String, attributes: Vec<(String, String)> },
    /// An end tag.
    End { name: String },
    /// An empty-element tag.
    Empty { name: String },
    /// Character data, escaped already.
    Text { escaped: String },
}

/// What a [`WriteEvent`] holds.
pub enum WriteEventView {
    Decl { version: Seq<char>, encoding: Option<Seq<char>>, standalone: Option<Seq<char>> },
    Start { name: Seq<char>, attributes: Seq<(Seq<char>, Seq<char>)> },
    End { name: Seq<char> },
    Empty { name: Seq<char> },
    Text { escaped: Seq<char> },
}

impl View for WriteEvent {
    type V = WriteEventView;

    open spec fn view(&self) -> WriteEventView {
        match *self {
            WriteEvent::Decl { version, encoding, standalone } => WriteEventView::Decl {
                version: version@,
                encoding: opt_chars(encoding),
                standalone: opt_chars(standalone),
            },
            WriteEvent::Start { name, attributes } => WriteEventView::Start {
                name: name@,
                attributes: bindings_view(attributes@),
            },
            WriteEvent::End { name } => WriteEventView::End { name: name@ },
            WriteEvent::Empty { name } => WriteEventView::Empty { name: name@ },
            WriteEvent::Text { escaped } => WriteEventView::Text { escaped: escaped@ },
        }
    }
}

/// The views of a sequence of events.
pub open spec fn event_views(events: Seq<WriteEvent>) -> Seq<WriteEventView> {
    events.map_values(|e: WriteEvent| e@)
}

/// What stands for one character in character data: `<`, `>` and `&` are
/// replaced by their entities.
pub open spec fn escaped_char(c: char) -> Seq<char> {
    if c == '<' {
        seq!['&', 'l', 't', ';']
    } else if c == '>' {
        seq!['&', 'g', 't', ';']
    } else if c == '&' {
        seq!['&', 'a', 'm', 'p', ';']
    } else {
        seq![c]
    }
}

/// A text as it stands in character data.
pub open spec fn escaped(text: Seq<char>) -> Seq<char>
    decreases text.len(),
{
    if text.len() == 0 {
        Seq::empty()
    } else {
        escaped(text.drop_last()) + escaped_char(text.last())
    }
}

/// Escapes a text for character data.
///
/// Trusted: calls `quick_xml::escape::partial_escape`, which replaces `<`
/// by `&lt;`, `>` by `&gt;` and `&` by `&amp;` and keeps every other
/// character.
#[verifier::external_body]
fn escape_text(text: &str) -> (r: String)
    ensures
        r@ == escaped(text@),
{
    partial_escape(text).into_owned()
}

/// The name of an element as it is written: behind the prefix of its
/// namespace and a colon, or bare where it has no namespace.
pub open spec fn written_name(bound: Bindings, name: NameView) -> Seq<char> {
    match name.namespace {
        Some(namespace) => {
            if is_bound(bound, namespace) {
                prefix_of(bound, namespace) + seq![':'] + name.local_name
            } else {
                name.local_name
            }
        },
        None => name.local_name,
    }
}

/// The events of the element `name` with content `value`, where it is not
/// the root. An empty value gives an empty-element tag; a text gives a
/// start tag, the escaped text and an end tag; a map gives a start tag, the
/// events of its children in order, and an end tag; a list gives the
/// events of each item in order, each under the name of the list.
pub open spec fn value_events(bound: Bindings, name: NameView, value: ValueView) -> Seq<
    WriteEventView,
>
    decreases value, 0nat,
{
    let tag = written_name(bound, name);
    match value {
        ValueView::Empty => seq![WriteEventView::Empty { name: tag }],
        ValueView::Text(text) => seq![
            WriteEventView::Start { name: tag, attributes: Seq::empty() },
            WriteEventView::Text { escaped: escaped(text) },
            WriteEventView::End { name: tag },
        ],
        ValueView::List(items) => items_events(bound, name, items, items.len()),
        ValueView::Elements(entries) => seq![
            WriteEventView::Start { name: tag, attributes: Seq::empty() },
        ] + entries_events(bound, entries, entries.len()) + seq![WriteEventView::End { name: tag }],
    }
}

/// The events of the first `n` of the elements `items`, all named `name`.
pub open spec fn items_events(bound: Bindings, name: NameView, items: Seq<ValueView>, n: nat) -> Seq<
    WriteEventView,
>
    decreases items, n,
{
    if n == 0 || n > items.len() {
        Seq::empty()
    } else {
        items_events(bound, name, items, (n - 1) as nat) + value_events(bound, name, items[n - 1])
    }
}

/// The events of the first `n` of the child elements `entries`.
pub open spec fn entries_events(bound: Bindings, entries: Seq<(NameView, ValueView)>, n: nat) -> Seq<
    WriteEventView,
>
    decreases entries, n,
{
    if n == 0 || n > entries.len() {
        Seq::empty()
    } else {
        entries_events(bound, entries, (n - 1) as nat) + value_events(
            bound,
            entries[n - 1].0,
            entries[n - 1].1,
        )
    }
}

/// The attributes that declare the bindings: `xmlns:` and the prefix as
/// the name, the namespace as the value.
pub open spec fn declarations(bound: Bindings) -> Seq<(Seq<char>, Seq<char>)> {
    bound.map_values(|b: (Seq<char>, Seq<char>)| ("xmlns:"@ + b.1, b.0))
}

/// The XML declaration that opens every document.
pub open spec fn declaration() -> WriteEventView {
    WriteEventView::Decl { version: "1.0"@, encoding: Some("utf-8"@), standalone: None }
}

/// The events of the document with root element `name` and content
/// `value`: the XML declaration, then the root element, whose start tag
/// declares every namespace of the tree. Only a map or a text can be the
/// content of a root.
pub open spec fn document_events(name: NameView, value: ValueView) -> Result<
    Seq<WriteEventView>,
    XmlErrorView,
> {
    let bound = with_value(Seq::empty(), name, value);
    let tag = written_name(bound, name);
    match value {
        ValueView::Elements(entries) => Ok(
            seq![
                declaration(),
                WriteEventView::Start { name: tag, attributes: declarations(bound) },
            ] + entries_events(bound, entries, entries.len()) + seq![
                WriteEventView::End { name: tag },
            ],
        ),
        ValueView::Text(text) => Ok(
            seq![
                declaration(),
                WriteEventView::Start { name: tag, attributes: declarations(bound) },
                WriteEventView::Text { escaped: escaped(text) },
                WriteEventView::End { name: tag },
            ],
        ),
        _ => Err(XmlErrorView::UnsupportedRoot),
    }
}

/// The name of an element as it is written.
fn tag_name(bound: &Vec<(String, String)>, name: &ElementName) -> (tag: String)
    ensures
        tag@ == written_name(bindings_view(bound@), name@),
{
    match &name.namespace {
        Some(namespace) => match binding_index(bound, namespace.as_str()) {
            Some(i) => {
                proof {
                    reveal_strlit(":");
                    lemma_prefix_of(bindings_view(bound@), namespace@, i as int);
                }
                let mut tag = bound[i].1.clone();
                tag.append(":");
                tag.append(name.local_name.as_str());
                assert(tag@ =~= bound@[i as int].1@ + seq![':'] + name.local_name@);
                tag
            },
            None => name.local_name.clone(),
        },
        None => name.local_name.clone(),
    }
}

/// The first binding of a namespace is the one that `prefix_of` names.
pub proof fn lemma_prefix_of(bound: Bindings, namespace: Seq<char>, i: int)
    requires
        bound_at(bound, namespace, i),
    ensures
        is_bound(bound, namespace),
        prefix_of(bound, namespace) == bound[i].1,
{
    let k = choose|k: int| bound_at(bound, namespace, k);
    if k < i {
        assert(bound[k].0 != namespace);
    }
    if i < k {
        assert(bound[i].0 != namespace);
    }
}

/// The second pass, below the root: appends the events of the element
/// `name` with content `value`.
fn push_value_events(
    events: &mut Vec<WriteEvent>,
    bound: &Vec<(String, String)>,
    name: &ElementName,
    value: &Value,
)
    ensures
        event_views(final(events)@) == event_views(old(events)@) + value_events(
            bindings_view(bound@),
            name@,
            value@,
        ),
    decreases value,
{
    let ghost before = event_views(events@);
    let ghost b = bindings_view(bound@);
    match value {
        Value::Empty => {
            events.push(WriteEvent::Empty { name: tag_name(bound, name) });
            assert(event_views(events@) =~= before + value_events(b, name@, value@));
        },
        Value::Text(text) => {
            events.push(WriteEvent::Start { name: tag_name(bound, name), attributes: Vec::new() });
            events.push(WriteEvent::Text { escaped: escape_text(text.as_str()) });
            events.push(WriteEvent::End { name: tag_name(bound, name) });
            assert(bindings_view(Seq::<(String, String)>::empty()) =~= Seq::empty());
            assert(event_views(events@) =~= before + value_events(b, name@, value@));
        },
        Value::List(items) => {
            push_items_events(events, bound, name, items);
        },
        Value::Elements(map) => {
            events.push(WriteEvent::Start { name: tag_name(bound, name), attributes: Vec::new() });
            assert(bindings_view(Seq::<(String, String)>::empty()) =~= Seq::empty());
            let ghost opened = event_views(events@);
            assert(opened =~= before.push(
                WriteEventView::Start {
                    name: written_name(b, name@),
                    attributes: Seq::empty(),
                },
            ));
            push_entries_events(events, bound, map);
            let ghost filled = event_views(events@);
            events.push(WriteEvent::End { name: tag_name(bound, name) });
            assert(event_views(events@) =~= filled.push(
                WriteEventView::End { name: written_name(b, name@) },
            ));
            assert(event_views(events@) =~= before + value_events(b, name@, value@));
        },
    }
}

/// Appends the events of the items of a list, each under the name `name`.
fn push_items_events(
    events: &mut Vec<WriteEvent>,
    bound: &Vec<(String, String)>,
    name: &ElementName,
    items: &Vec<Value>,
)
    ensures
        event_views(final(events)@) == event_views(old(events)@) + items_events(
            bindings_view(bound@),
            name@,
            list_view(*items),
            items@.len(),
        ),
    decreases items,
{
    let ghost before = event_views(events@);
    let ghost b = bindings_view(bound@);
    let mut i: usize = 0;
    while i < items.len()
        invariant
            0 <= i <= items@.len(),
            b == bindings_view(bound@),
            event_views(events@) =~= before + items_events(b, name@, list_view(*items), i as nat),
        decreases items@.len() - i,
    {
        proof {
            vstd::std_specs::vec::axiom_vec_index_decreases(*items, i as int);
        }
        push_value_events(events, bound, name, &items[i]);
        i += 1;
    }
}

/// Appends the events of the children of a map, in order.
fn push_entries_events(events: &mut Vec<WriteEvent>, bound: &Vec<(String, String)>, map: &ValueMap)
    ensures
        event_views(final(events)@) == event_views(old(events)@) + entries_events(
            bindings_view(bound@),
            map@,
            map@.len(),
        ),
    decreases map,
{
    let ghost before = event_views(events@);
    let ghost b = bindings_view(bound@);
    let mut i: usize = 0;
    while i < map.entries.len()
        invariant
            0 <= i <= map.entries@.len(),
            b == bindings_view(bound@),
            map@.len() == map.entries@.len(),
            event_views(events@) =~= before + entries_events(b, map@, i as nat),
        decreases map.entries@.len() - i,
    {
        proof {
            vstd::std_specs::vec::axiom_vec_index_decreases(map.entries, i as int);
        }
        assert(map@[i as int] == (map.entries@[i as int].0@, map.entries@[i as int].1@));
        push_value_events(events, bound, &map.entries[i].0, &map.entries[i].1);
        i += 1;
    }
}

/// The attributes that declare the bindings.
fn declare(bound: &Vec<(String, String)>) -> (attributes: Vec<(String, String)>)
    ensures
        bindings_view(attributes@) == declarations(bindings_view(bound@)),
{
    let mut attributes: Vec<(String, String)> = Vec::new();
    let mut i: usize = 0;
    while i < bound.len()
        invariant
            0 <= i <= bound@.len(),
            attributes@.len() == i,
            forall|j: int|
                0 <= j < i ==> (#[trigger] attributes@[j]).0@ == "xmlns:"@ + bound@[j].1@
                    && attributes@[j].1@ == bound@[j].0@,
        decreases bound@.len() - i,
    {
        let mut name = "xmlns:".to_owned();
        name.append(bound[i].1.as_str());
        attributes.push((name, bound[i].0.clone()));
        i += 1;
    }
    assert(bindings_view(attributes@) =~= declarations(bindings_view(bound@)));
    attributes
}

/// Lists the events of the document with root element `name` and content
/// `value`. Both passes over the tree are made here.
pub fn list_document_events(name: &ElementName, value: &Value) -> (r: Result<
    Vec<WriteEvent>,
    XmlError,
>)
    ensures
        match document_events(name@, value@) {
            Ok(expected) => r matches Ok(events) && event_views(events@) == expected,
            Err(e) => r matches Err(x) && x@ == e,
        },
{
    match value {
        Value::Elements(_) | Value::Text(_) => {},
        _ => {
            return Err(XmlError::UnsupportedRoot);
        },
    }
    let mut bound: Vec<(String, String)> = Vec::new();
    assert(bindings_view(bound@) =~= Seq::empty());
    resolve_namespaces(&mut bound, name, value);
    let ghost b = bindings_view(bound@);
    let mut events: Vec<WriteEvent> = Vec::new();
    events.push(
        WriteEvent::Decl {
            version: "1.0".to_owned(),
            encoding: Some("utf-8".to_owned()),
            standalone: None,
        },
    );
    events.push(WriteEvent::Start { name: tag_name(&bound, name), attributes: declare(&bound) });
    let ghost opened = event_views(events@);
    assert(opened =~= seq![
        declaration(),
        WriteEventView::Start { name: written_name(b, name@), attributes: declarations(b) },
    ]);
    match value {
        Value::Elements(map) => {
            push_entries_events(&mut events, &bound, map);
        },
        Value::Text(text) => {
            events.push(WriteEvent::Text { escaped: escape_text(text.as_str()) });
            assert(event_views(events@) =~= opened.push(
                WriteEventView::Text { escaped: escaped(text@) },
            ));
        },
        _ => {},
    }
    let ghost filled = event_views(events@);
    events.push(WriteEvent::End { name: tag_name(&bound, name) });
    assert(event_views(events@) =~= filled.push(
        WriteEventView::End { name: written_name(b, name@) },
    ));
    assert(event_views(events@) =~= document_events(name@, value@)->Ok_0);
    Ok(events)
}

/// `quick_xml::Writer`: renders events into a byte sink.
#[verifier::external_type_specification]
#[verifier::external_body]
#[verifier::reject_recursive_types(W)]
pub struct ExWriter<W>(Writer<W>);

/// What a writer was made with, and what was written to it so far.
pub struct WriterView {
    pub indent_char: u8,
    pub indent_size: nat,
    pub events: Seq<WriteEventView>,
}

/// The state of a writer into a byte vector.
pub uninterp spec fn writer_view(writer: Writer<Vec<u8>>) -> WriterView;

/// The bytes that a writer in the given state has put out.
pub uninterp spec fn rendered(state: WriterView) -> Seq<u8>;

/// The character of the indentation: a space.
pub const INDENT_CHAR: u8 = 0x20;

/// The width of one level of indentation.
pub const INDENT_SIZE: usize = 2;

/// A writer that has written nothing yet.
///
/// Trusted: calls `Writer::new_with_indent` on an empty vector.
#[verifier::external_body]
fn open_writer(indent_char: u8, indent_size: usize) -> (writer: Writer<Vec<u8>>)
    ensures
        writer_view(writer) == (WriterView {
            indent_char,
            indent_size: indent_size as nat,
            events: Seq::empty(),
        }),
{
    Writer::new_with_indent(Vec::new(), indent_char, indent_size)
}

/// Writes one event.
///
/// Trusted: builds the event of `quick_xml` with the same content
/// (`BytesDecl::new`, `BytesStart::new` with `with_attributes`,
/// `BytesEnd::new`, `BytesText::from_escaped`) and calls
/// `Writer::write_event`. The call succeeds and the event has been
/// written: the writer fails only where its sink does, and the sink is a
/// vector of bytes, which takes whatever is appended to it.
#[verifier::external_body]
fn write_event(writer: &mut Writer<Vec<u8>>, event: &WriteEvent) -> (r: Result<(), QuickXmlError>)
    ensures
        r.is_ok(),
        writer_view(*final(writer)) == (WriterView {
            events: writer_view(*old(writer)).events.push(event@),
            ..writer_view(*old(writer))
        }),
{
    let event = match event {
        WriteEvent::Decl { version, encoding, standalone } => Event::Decl(
            BytesDecl::new(version, encoding.as_deref(), standalone.as_deref()),
        ),
        WriteEvent::Start { name, attributes } => Event::Start(
            BytesStart::new(name).with_attributes(attributes.iter().map(|a| (&*a.0, &*a.1))),
        ),
        WriteEvent::End { name } => Event::End(BytesEnd::new(name)),
        WriteEvent::Empty { name } => Event::Empty(BytesStart::new(name)),
        WriteEvent::Text { escaped } => Event::Text(BytesText::from_escaped(escaped)),
    };
    writer.write_event(event)
}

/// The bytes that were written.
///
/// Trusted: calls `Writer::into_inner`, which hands back the sink.
#[verifier::external_body]
fn close_writer(writer: Writer<Vec<u8>>) -> (bytes: Vec<u8>)
    ensures
        bytes@ == rendered(writer_view(writer)),
{
    writer.into_inner()
}

/// The document that the events make, indented by two spaces.
pub open spec fn document_bytes(events: Seq<WriteEventView>) -> Seq<u8> {
    rendered(WriterView { indent_char: INDENT_CHAR, indent_size: INDENT_SIZE as nat, events })
}

/// Renders events into a document: the bytes that the events make,
/// indented by two spaces. Rendering into memory always succeeds.
pub fn render(events: &Vec<WriteEvent>) -> (r: Result<Vec<u8>, XmlError>)
    ensures
        r matches Ok(bytes) && bytes@ == document_bytes(event_views(events@)),
{
    let mut writer = open_writer(INDENT_CHAR, INDENT_SIZE);
    let mut i: usize = 0;
    assert(event_views(events@).take(0) =~= Seq::<WriteEventView>::empty());
    while i < events.len()
        invariant
            0 <= i <= events@.len(),
            writer_view(writer) == (WriterView {
                indent_char: INDENT_CHAR,
                indent_size: INDENT_SIZE as nat,
                events: event_views(events@).take(i as int),
            }),
        decreases events@.len() - i,
    {
        match write_event(&mut writer, &events[i]) {
            Ok(()) => {},
            Err(e) => {
                return Err(XmlError::Xml(e));
            },
        }
        assert(event_views(events@).take(i as int).push(events@[i as int]@) =~= event_views(
            events@,
        ).take(i + 1));
        i += 1;
    }
    assert(event_views(events@).take(i as int) =~= event_views(events@));
    Ok(close_writer(writer))
}

/// Writes the document with the root element that `E` declares and the
/// content `value`.
///
/// A root that is neither a map nor a text is rejected. Every other root
/// gives the document of [`document_events`].
pub fn write_xml<E: Element>(value: &Value) -> (r: Result<Vec<u8>, XmlError>)
    ensures
        match document_events(NameView::of::<E>(), value@) {
            Ok(events) => r matches Ok(bytes) && bytes@ == document_bytes(events),
            Err(e) => r matches Err(x) && x@ == e,
        },
{
    let name = ElementName::of::<E>();
    let events = list_document_events(&name, value)?;
    render(&events)
}

/// Whether the bindings `later` hold the bindings `earlier`, at the same
/// positions and before anything else.
pub open spec fn extends(earlier: Bindings, later: Bindings) -> bool {
    earlier.len() <= later.len() && later.take(earlier.len() as int) == earlier
}

/// Whether the namespace of `name`, if it has one, is bound.
pub open spec fn name_bound(bound: Bindings, name: NameView) -> bool {
    name.namespace matches Some(namespace) ==> is_bound(bound, namespace)
}

/// Whether every name that is written for the element `name` with content
/// `value` has its namespace bound.
pub open spec fn covers(bound: Bindings, name: NameView, value: ValueView) -> bool
    decreases value,
{
    match value {
        ValueView::Empty | ValueView::Text(_) => name_bound(bound, name),
        ValueView::List(items) => forall|i: int|
            0 <= i < items.len() ==> covers(bound, name, #[trigger] items[i]),
        ValueView::Elements(entries) => name_bound(bound, name) && forall|i: int|
            0 <= i < entries.len() ==> covers(
                bound,
                (#[trigger] entries[i]).0,
                entries[i].1,
            ),
    }
}

/// A namespace that is bound stays bound, to the same prefix, when more
/// bindings follow: the first binding of a namespace wins.
pub proof fn lemma_extends_keeps(earlier: Bindings, later: Bindings, namespace: Seq<char>)
    requires
        extends(earlier, later),
        is_bound(earlier, namespace),
    ensures
        is_bound(later, namespace),
        prefix_of(later, namespace) == prefix_of(earlier, namespace),
{
    let i = choose|i: int| bound_at(earlier, namespace, i);
    assert(later.take(earlier.len() as int)[i] == later[i]);
    assert(bound_at(later, namespace, i)) by {
        assert forall|j: int| 0 <= j < i implies (#[trigger] later[j]).0 != namespace by {
            assert(later.take(earlier.len() as int)[j] == later[j]);
            assert(earlier[j].0 != namespace);
        }
    }
    lemma_prefix_of(later, namespace, i);
    lemma_prefix_of(earlier, namespace, i);
}

/// Extending is transitive.
pub proof fn lemma_extends_trans(a: Bindings, b: Bindings, c: Bindings)
    requires
        extends(a, b),
        extends(b, c),
    ensures
        extends(a, c),
{
    assert(c.take(a.len() as int) =~= a) by {
        assert forall|i: int| 0 <= i < a.len() implies c[i] == a[i] by {
            assert(b.take(a.len() as int)[i] == b[i]);
            assert(c.take(b.len() as int)[i] == c[i]);
        }
    }
}

/// Meeting a name binds its namespace and keeps what was bound.
pub proof fn lemma_with_name(bound: Bindings, name: NameView)
    ensures
        extends(bound, with_name(bound, name)),
        name_bound(with_name(bound, name), name),
{
    let after = with_name(bound, name);
    assert(after.take(bound.len() as int) =~= bound);
    match name.namespace {
        Some(namespace) => {
            if !is_bound(bound, namespace) {
                let last = bound.len() as int;
                assert(bound_at(after, namespace, last)) by {
                    assert forall|j: int| 0 <= j < last implies (#[trigger] after[j]).0
                        != namespace by {
                        if bound[j].0 == namespace {
                            lemma_bound_exists(bound, namespace, j);
                        }
                    }
                }
            }
        },
        None => {},
    }
}

/// Where some binding has the namespace, some binding is the first to
/// have it.
pub proof fn lemma_bound_exists(bound: Bindings, namespace: Seq<char>, j: int)
    requires
        0 <= j < bound.len(),
        bound[j].0 == namespace,
    ensures
        is_bound(bound, namespace),
    decreases j,
{
    if forall|i: int| 0 <= i < j ==> (#[trigger] bound[i]).0 != namespace {
        assert(bound_at(bound, namespace, j));
    } else {
        let i = choose|i: int| 0 <= i < j && (#[trigger] bound[i]).0 == namespace;
        lemma_bound_exists(bound, namespace, i);
    }
}

/// What is covered stays covered when more bindings follow.
pub proof fn lemma_covers_extends(
    earlier: Bindings,
    later: Bindings,
    name: NameView,
    value: ValueView,
)
    requires
        extends(earlier, later),
        covers(earlier, name, value),
    ensures
        covers(later, name, value),
    decreases value,
{
    if name.namespace is Some && is_bound(earlier, name.namespace.unwrap()) {
        lemma_extends_keeps(earlier, later, name.namespace.unwrap());
    }
    match value {
        ValueView::Empty | ValueView::Text(_) => {},
        ValueView::List(items) => {
            assert forall|i: int| 0 <= i < items.len() implies covers(
                later,
                name,
                #[trigger] items[i],
            ) by {
                lemma_covers_extends(earlier, later, name, items[i]);
            }
        },
        ValueView::Elements(entries) => {
            assert forall|i: int| 0 <= i < entries.len() implies covers(
                later,
                (#[trigger] entries[i]).0,
                entries[i].1,
            ) by {
                lemma_covers_extends(earlier, later, entries[i].0, entries[i].1);
            }
        },
    }
}

/// The first pass binds every namespace of the element it walks, and
/// keeps what was bound before.
pub proof fn lemma_with_value(bound: Bindings, name: NameView, value: ValueView)
    ensures
        extends(bound, with_value(bound, name, value)),
        covers(with_value(bound, name, value), name, value),
    decreases value, 0nat,
{
    match value {
        ValueView::Empty | ValueView::Text(_) => {
            lemma_with_name(bound, name);
        },
        ValueView::List(items) => {
            lemma_with_items(bound, name, items, items.len());
        },
        ValueView::Elements(entries) => {
            lemma_with_name(bound, name);
            let first = with_name(bound, name);
            lemma_with_entries(first, entries, entries.len());
            let after = with_entries(first, entries, entries.len());
            lemma_extends_trans(bound, first, after);
            if name.namespace is Some {
                lemma_extends_keeps(first, after, name.namespace.unwrap());
            }
        },
    }
}

/// The first pass over the first `n` items of a list.
pub proof fn lemma_with_items(bound: Bindings, name: NameView, items: Seq<ValueView>, n: nat)
    requires
        n <= items.len(),
    ensures
        extends(bound, with_items(bound, name, items, n)),
        forall|i: int|
            0 <= i < n ==> covers(with_items(bound, name, items, n), name, #[trigger] items[i]),
    decreases items, n,
{
    if n == 0 {
        assert(bound.take(bound.len() as int) =~= bound);
    } else {
        let before = with_items(bound, name, items, (n - 1) as nat);
        lemma_with_items(bound, name, items, (n - 1) as nat);
        lemma_with_value(before, name, items[n - 1]);
        let after = with_value(before, name, items[n - 1]);
        lemma_extends_trans(bound, before, after);
        assert forall|i: int| 0 <= i < n implies covers(after, name, #[trigger] items[i]) by {
            if i < n - 1 {
                lemma_covers_extends(before, after, name, items[i]);
            }
        }
    }
}

/// The first pass over the first `n` children of a map.
pub proof fn lemma_with_entries(bound: Bindings, entries: Seq<(NameView, ValueView)>, n: nat)
    requires
        n <= entries.len(),
    ensures
        extends(bound, with_entries(bound, entries, n)),
        forall|i: int|
            0 <= i < n ==> covers(
                with_entries(bound, entries, n),
                (#[trigger] entries[i]).0,
                entries[i].1,
            ),
    decreases entries, n,
{
    if n == 0 {
        assert(bound.take(bound.len() as int) =~= bound);
    } else {
        let before = with_entries(bound, entries, (n - 1) as nat);
        lemma_with_entries(bound, entries, (n - 1) as nat);
        lemma_with_value(before, entries[n - 1].0, entries[n - 1].1);
        let after = with_value(before, entries[n - 1].0, entries[n - 1].1);
        lemma_extends_trans(bound, before, after);
        assert forall|i: int| 0 <= i < n implies covers(
            after,
            (#[trigger] entries[i]).0,
            entries[i].1,
        ) by {
            if i < n - 1 {
                lemma_covers_extends(before, after, entries[i].0, entries[i].1);
            }
        }
    }
}

/// The two passes fit: every name of a document is written with the
/// prefix of a namespace that the root element declares.
pub proof fn lemma_document_covered(name: NameView, value: ValueView)
    ensures
        covers(with_value(Seq::empty(), name, value), name, value),
{
    lemma_with_value(Seq::empty(), name, value);
}

} // verus!
