//! The reader: from a complete XML document to one root value.
//!
//! Reading has two steps. The tokenizer of `quick_xml` cuts the document
//! into tokens and resolves the namespace of each tag; [`build_value`] then
//! groups the tokens into a tree.

use vstd::prelude::*;
use vstd::slice::slice_to_vec;
use vstd::utf8::{decode_utf8, valid_utf8};
use quick_xml::events::Event;
use quick_xml::name::ResolveResult;
use quick_xml::Error as QuickXmlError;
use quick_xml::NsReader;
use std::borrow::Cow;
use crate::text::{is_blank, str_from_utf8, str_is_blank, utf8_error};
use crate::xml::element::{ElementName, NameView};
use crate::xml::error::{XmlError, XmlErrorView};
use crate::xml::value::{
    first_at, grouped, inserted, inserted_all, lemma_first_exists, lemma_inserted_all_prepend,
    lemma_inserted_grouped, lemma_occurrences_inserted_all, lemma_position, lemma_position_none,
    occurrences, position, promoted, values_under, Value, ValueMap, ValueView,
};

verus! {

/// `quick_xml::NsReader`: a tokenizer that resolves namespace prefixes.
#[verifier::external_type_specification]
#[verifier::external_body]
#[verifier::reject_recursive_types(R)]
pub struct ExNsReader<R>(NsReader<R>);

/// How the prefix of a tag name was resolved.
#[derive(Debug)]
pub enum Namespace {
    /// The prefix, or the default namespace, is bound to this namespace.
    Bound(Vec<u8>),
    /// The name has no prefix and no default namespace is in scope.
    Unbound,
    /// The prefix is not declared.
    Unknown(Vec<u8>),
}

/// What a [`Namespace`] holds.
pub enum NamespaceView {
    Bound(Seq<u8>),
    Unbound,
    Unknown(Seq<u8>),
}

impl View for Namespace {
    type V = NamespaceView;

    open spec fn view(&self) -> NamespaceView {
        match *self {
            Namespace::Bound(ns) => NamespaceView::Bound(ns@),
            Namespace::Unbound => NamespaceView::Unbound,
            Namespace::Unknown(prefix) => NamespaceView::Unknown(prefix@),
        }
    }
}

/// One token of a document, as plain values.
#[derive(Debug)]
pub enum XmlToken {
    /// A start tag: its resolved namespace, its name as written, the part
    /// of the name behind the prefix, and whether the tag declares a
    /// namespace with the empty URI.
    Start { namespace: Namespace, name: Vec<u8>, local_name: Vec<u8>, empty_namespace: bool },
    /// An empty-element tag, with the fields of a start tag.
    Empty { namespace: Namespace, name: Vec<u8>, local_name: Vec<u8>, empty_namespace: bool },
    /// An end tag, with its name as written.
    End { name: Vec<u8> },
    /// Character data: as written, and with its entities resolved.
    Text { raw: Vec<u8>, unescaped: Result<String, QuickXmlError> },
    /// A CDATA section.
    CData,
    /// A comment.
    Comment,
    /// The XML declaration.
    Decl,
    /// A processing instruction.
    PI,
    /// A document type declaration.
    DocType,
    /// The tokenizer failed here.
    Failed(QuickXmlError),
}

/// What an [`XmlToken`] holds.
pub enum TokenView {
    Start { namespace: NamespaceView, name: Seq<u8>, local_name: Seq<u8>, empty_namespace: bool },
    Empty { namespace: NamespaceView, name: Seq<u8>, local_name: Seq<u8>, empty_namespace: bool },
    End { name: Seq<u8> },
    Text { raw: Seq<u8>, unescaped: Result<Seq<char>, QuickXmlError> },
    CData,
    Comment,
    Decl,
    PI,
    DocType,
    Failed(QuickXmlError),
}

/// The view of the outcome of resolving the entities of a text.
pub open spec fn unescaped_view(unescaped: Result<String, QuickXmlError>) -> Result<
    Seq<char>,
    QuickXmlError,
> {
    match unescaped {
        Ok(text) => Ok(text@),
        Err(e) => Err(e),
    }
}

impl View for XmlToken {
    type V = TokenView;

    open spec fn view(&self) -> TokenView {
        match *self {
            XmlToken::Start { namespace, name, local_name, empty_namespace } => TokenView::Start {
                namespace: namespace@,
                name: name@,
                local_name: local_name@,
                empty_namespace,
            },
            XmlToken::Empty { namespace, name, local_name, empty_namespace } => TokenView::Empty {
                namespace: namespace@,
                name: name@,
                local_name: local_name@,
                empty_namespace,
            },
            XmlToken::End { name } => TokenView::End { name: name@ },
            XmlToken::Text { raw, unescaped } => TokenView::Text {
                raw: raw@,
                unescaped: unescaped_view(unescaped),
            },
            XmlToken::CData => TokenView::CData,
            XmlToken::Comment => TokenView::Comment,
            XmlToken::Decl => TokenView::Decl,
            XmlToken::PI => TokenView::PI,
            XmlToken::DocType => TokenView::DocType,
            XmlToken::Failed(e) => TokenView::Failed(e),
        }
    }
}

/// The views of a sequence of tokens.
pub open spec fn token_views(tokens: Seq<XmlToken>) -> Seq<TokenView> {
    tokens.map_values(|t: XmlToken| t@)
}

/// The tokens that the tokenizer cuts the document `input` into, in order,
/// up to the end of the input. Each tag carries the namespace that the
/// declarations in scope at that tag give it.
pub uninterp spec fn document_tokens(input: Seq<u8>) -> Seq<TokenView>;

/// The document that a tokenizer reads.
pub uninterp spec fn reader_source(reader: NsReader<&[u8]>) -> Seq<u8>;

/// The number of tokens that a tokenizer has handed out.
pub uninterp spec fn reader_position(reader: NsReader<&[u8]>) -> nat;

/// `quick_xml::events::Event`: what the tokenizer hands out for one read.
#[verifier::external_type_specification]
#[verifier::external_body]
pub struct ExEvent<'a>(Event<'a>);

/// What an event holds, before names are resolved.
enum RawEvent {
    Start(Vec<u8>),
    Empty(Vec<u8>),
    End(Vec<u8>),
    Text(Vec<u8>, Result<String, QuickXmlError>),
    CData,
    Comment,
    Decl,
    PI,
    DocType,
    Eof,
}

/// What a [`RawEvent`] holds.
pub enum RawView {
    Start(Seq<u8>),
    Empty(Seq<u8>),
    End(Seq<u8>),
    Text(Seq<u8>, Result<Seq<char>, QuickXmlError>),
    CData,
    Comment,
    Decl,
    PI,
    DocType,
    Eof,
}

impl View for RawEvent {
    type V = RawView;

    closed spec fn view(&self) -> RawView {
        match *self {
            RawEvent::Start(name) => RawView::Start(name@),
            RawEvent::Empty(name) => RawView::Empty(name@),
            RawEvent::End(name) => RawView::End(name@),
            RawEvent::Text(raw, unescaped) => RawView::Text(raw@, unescaped_view(unescaped)),
            RawEvent::CData => RawView::CData,
            RawEvent::Comment => RawView::Comment,
            RawEvent::Decl => RawView::Decl,
            RawEvent::PI => RawView::PI,
            RawEvent::DocType => RawView::DocType,
            RawEvent::Eof => RawView::Eof,
        }
    }
}

/// The attributes of a tag, in the order in which they are written: the
/// name and the value of each, or `None` for one that is malformed.
pub type Attributes = Seq<Option<(Seq<u8>, Seq<u8>)>>;

/// The view of the attributes of a tag.
pub open spec fn attribute_views(attributes: Seq<Option<(Vec<u8>, Vec<u8>)>>) -> Attributes {
    attributes.map_values(
        |a: Option<(Vec<u8>, Vec<u8>)>|
            match a {
                Some(pair) => Some((pair.0@, pair.1@)),
                None => None,
            },
    )
}

/// What an event holds: its kind with its name or its text, and, for a
/// start tag or an empty-element tag, the part of its name behind the
/// prefix and its attributes.
pub struct EventView {
    pub parts: RawView,
    pub local_name: Option<Seq<u8>>,
    pub attributes: Attributes,
}

/// What an event of the tokenizer holds, as plain values.
pub uninterp spec fn event_view(event: Event<'_>) -> EventView;

/// Whether an attribute name declares a namespace: `xmlns`, or `xmlns:`
/// and a prefix.
pub open spec fn is_namespace_declaration(name: Seq<u8>) -> bool {
    &&& name.len() >= 5
    &&& name[0] == 0x78
    &&& name[1] == 0x6D
    &&& name[2] == 0x6C
    &&& name[3] == 0x6E
    &&& name[4] == 0x73
    &&& (name.len() == 5 || name[5] == 0x3A)
}

/// Whether the attribute at position `i` declares a namespace with the
/// empty URI.
pub open spec fn empty_declaration_at(attributes: Attributes, i: int) -> bool {
    &&& 0 <= i < attributes.len()
    &&& attributes[i] matches Some(pair)
    &&& is_namespace_declaration(pair.0)
    &&& pair.1.len() == 0
}

/// Whether one of the attributes declares a namespace with the empty URI.
pub open spec fn declares_empty_namespace(attributes: Attributes) -> bool {
    exists|i: int| empty_declaration_at(attributes, i)
}

/// Whether an event, with the namespace that its name was resolved to,
/// stands for `token`.
pub open spec fn stands_for(namespace: NamespaceView, event: EventView, token: TokenView) -> bool {
    match token {
        TokenView::Start { namespace: resolved, name, local_name, empty_namespace } => {
            &&& event.parts == RawView::Start(name)
            &&& event.local_name == Some(local_name)
            &&& namespace == resolved
            &&& empty_namespace == declares_empty_namespace(event.attributes)
        },
        TokenView::Empty { namespace: resolved, name, local_name, empty_namespace } => {
            &&& event.parts == RawView::Empty(name)
            &&& event.local_name == Some(local_name)
            &&& namespace == resolved
            &&& empty_namespace == declares_empty_namespace(event.attributes)
        },
        TokenView::End { name } => event.parts == RawView::End(name),
        TokenView::Text { raw, unescaped } => event.parts == RawView::Text(raw, unescaped),
        TokenView::CData => event.parts == RawView::CData,
        TokenView::Comment => event.parts == RawView::Comment,
        TokenView::Decl => event.parts == RawView::Decl,
        TokenView::PI => event.parts == RawView::PI,
        TokenView::DocType => event.parts == RawView::DocType,
        TokenView::Failed(_) => false,
    }
}

/// A tokenizer at the start of `xml`.
///
/// Trusted: calls `NsReader::from_reader`, which makes a tokenizer with the
/// default configuration that has read nothing yet.
#[verifier::external_body]
fn open_reader<'a>(xml: &'a [u8]) -> (reader: NsReader<&'a [u8]>)
    ensures
        reader_source(reader) == xml@,
        reader_position(reader) == 0,
{
    NsReader::from_reader(xml)
}

/// Reads the next event, with the namespace that its name resolves to.
///
/// Trusted: calls `NsReader::read_resolved_event`, which hands out the
/// event together with the resolution of its name against the namespace
/// declarations in scope at the event, its own included. Successive reads
/// walk through the tokens of the document, a failure being a token too;
/// behind the last token every read gives the end of the document.
#[verifier::external_body]
fn read_resolved<'a>(reader: &mut NsReader<&'a [u8]>) -> (r: Result<
    (Namespace, Event<'a>),
    QuickXmlError,
>)
    ensures
        reader_source(*final(reader)) == reader_source(*old(reader)),
        ({
            let tokens = document_tokens(reader_source(*old(reader)));
            let at = reader_position(*old(reader));
            if at < tokens.len() {
                &&& reader_position(*final(reader)) == at + 1
                &&& match r {
                    Ok(pair) => stands_for(pair.0@, event_view(pair.1), tokens[at as int]),
                    Err(e) => tokens[at as int] == TokenView::Failed(e),
                }
            } else {
                &&& reader_position(*final(reader)) == at
                &&& r matches Ok(pair)
                &&& event_view(pair.1).parts == RawView::Eof
            }
        }),
{
    let (resolved, event) = reader.read_resolved_event()?;
    let namespace = match resolved {
        ResolveResult::Bound(ns) => Namespace::Bound(ns.0.to_vec()),
        ResolveResult::Unbound => Namespace::Unbound,
        ResolveResult::Unknown(prefix) => Namespace::Unknown(prefix),
    };
    Ok((namespace, event))
}

/// The kind of an event, with the name of a tag or the text.
///
/// Trusted: copies what the event holds: the name of a tag as
/// `BytesStart::name` or `BytesEnd::name` gives it, the bytes of a text
/// together with what `BytesText::unescape` makes of them.
#[verifier::external_body]
fn event_parts(event: &Event) -> (parts: RawEvent)
    ensures
        parts@ == event_view(*event).parts,
{
    match event {
        Event::Start(e) => RawEvent::Start(e.name().0.to_vec()),
        Event::Empty(e) => RawEvent::Empty(e.name().0.to_vec()),
        Event::End(e) => RawEvent::End(e.name().0.to_vec()),
        Event::Text(e) => RawEvent::Text(e.to_vec(), e.unescape().map(Cow::into_owned)),
        Event::CData(_) => RawEvent::CData,
        Event::Comment(_) => RawEvent::Comment,
        Event::Decl(_) => RawEvent::Decl,
        Event::PI(_) => RawEvent::PI,
        Event::DocType(_) => RawEvent::DocType,
        Event::Eof => RawEvent::Eof,
    }
}

/// The attributes of a tag; no attributes for any other event.
///
/// Trusted: calls `BytesStart::attributes` and copies the name and the
/// value of each attribute, as they are written, in their order; an
/// attribute that the iterator reports as malformed is handed on as
/// `None`.
#[verifier::external_body]
fn event_attributes(event: &Event) -> (attributes: Vec<Option<(Vec<u8>, Vec<u8>)>>)
    ensures
        attribute_views(attributes@) == event_view(*event).attributes,
{
    match event {
        Event::Start(e) | Event::Empty(e) => e.attributes().with_checks(false).map(
            |a| a.ok().map(|a| (a.key.0.to_vec(), a.value.to_vec())),
        ).collect(),
        _ => Vec::new(),
    }
}

/// The part of the name of a start tag or an empty-element tag that
/// stands behind the prefix; nothing for any other event.
///
/// Trusted: calls `BytesStart::local_name`.
#[verifier::external_body]
fn event_local_name(event: &Event) -> (local_name: Option<Vec<u8>>)
    ensures
        match local_name {
            Some(bytes) => event_view(*event).local_name == Some(bytes@),
            None => event_view(*event).local_name.is_none(),
        },
{
    match event {
        Event::Start(e) | Event::Empty(e) => Some(e.local_name().as_ref().to_vec()),
        _ => None,
    }
}

/// Whether an attribute name declares a namespace.
fn names_namespace(name: &Vec<u8>) -> (r: bool)
    ensures
        r == is_namespace_declaration(name@),
{
    name.len() >= 5 && name[0] == 0x78 && name[1] == 0x6D && name[2] == 0x6C && name[3] == 0x6E
        && name[4] == 0x73 && (name.len() == 5 || name[5] == 0x3A)
}

/// Whether one of the attributes declares a namespace with the empty URI.
fn has_empty_declaration(attributes: &Vec<Option<(Vec<u8>, Vec<u8>)>>) -> (r: bool)
    ensures
        r == declares_empty_namespace(attribute_views(attributes@)),
{
    let ghost views = attribute_views(attributes@);
    let mut i: usize = 0;
    while i < attributes.len()
        invariant
            0 <= i <= attributes@.len(),
            views == attribute_views(attributes@),
            forall|j: int| 0 <= j < i ==> !empty_declaration_at(views, j),
        decreases attributes@.len() - i,
    {
        match &attributes[i] {
            Some(pair) => {
                if names_namespace(&pair.0) && pair.1.len() == 0 {
                    assert(empty_declaration_at(views, i as int));
                    return true;
                }
            },
            None => {},
        }
        assert(!empty_declaration_at(views, i as int));
        i += 1;
    }
    false
}

/// Reads the next token and resolves its name; `None` at the end of the
/// document.
fn next_token(reader: &mut NsReader<&[u8]>) -> (token: Option<XmlToken>)
    ensures
        reader_source(*final(reader)) == reader_source(*old(reader)),
        ({
            let tokens = document_tokens(reader_source(*old(reader)));
            let at = reader_position(*old(reader));
            if at < tokens.len() {
                &&& reader_position(*final(reader)) == at + 1
                &&& token matches Some(t)
                &&& t@ == tokens[at as int]
            } else {
                reader_position(*final(reader)) == at && token.is_none()
            }
        }),
{
    let (namespace, event) = match read_resolved(reader) {
        Ok(pair) => pair,
        Err(e) => {
            return Some(XmlToken::Failed(e));
        },
    };
    match event_parts(&event) {
        RawEvent::Start(name) => {
            let empty_namespace = has_empty_declaration(&event_attributes(&event));
            match event_local_name(&event) {
                Some(local_name) => Some(
                    XmlToken::Start { namespace, name, local_name, empty_namespace },
                ),
                None => None,
            }
        },
        RawEvent::Empty(name) => {
            let empty_namespace = has_empty_declaration(&event_attributes(&event));
            match event_local_name(&event) {
                Some(local_name) => Some(
                    XmlToken::Empty { namespace, name, local_name, empty_namespace },
                ),
                None => None,
            }
        },
        RawEvent::End(name) => Some(XmlToken::End { name }),
        RawEvent::Text(raw, unescaped) => Some(XmlToken::Text { raw, unescaped }),
        RawEvent::CData => Some(XmlToken::CData),
        RawEvent::Comment => Some(XmlToken::Comment),
        RawEvent::Decl => Some(XmlToken::Decl),
        RawEvent::PI => Some(XmlToken::PI),
        RawEvent::DocType => Some(XmlToken::DocType),
        RawEvent::Eof => None,
    }
}

/// Cuts a document into its tokens.
pub fn read_tokens(xml: &[u8]) -> (tokens: Vec<XmlToken>)
    ensures
        token_views(tokens@) == document_tokens(xml@),
{
    let mut reader = open_reader(xml);
    let mut tokens: Vec<XmlToken> = Vec::new();
    let ghost all = document_tokens(xml@);
    loop
        invariant
            reader_source(reader) == xml@,
            all == document_tokens(xml@),
            reader_position(reader) == tokens@.len(),
            tokens@.len() <= all.len(),
            token_views(tokens@) =~= all.take(tokens@.len() as int),
        ensures
            token_views(tokens@) == all,
        decreases all.len() - tokens@.len(),
    {
        match next_token(&mut reader) {
            Some(token) => {
                tokens.push(token);
            },
            None => {
                assert(all.take(all.len() as int) =~= all);
                break ;
            },
        }
    }
    tokens
}

/// The text that a byte string encodes, or the error of decoding it.
pub open spec fn text_of(bytes: Seq<u8>) -> Result<Seq<char>, XmlErrorView> {
    if valid_utf8(bytes) {
        Ok(decode_utf8(bytes))
    } else {
        Err(XmlErrorView::Utf8(utf8_error(bytes)))
    }
}

/// The key under which a tag is stored.
///
/// - A tag that declares a namespace with the empty URI is rejected, and
///   so is one that is bound to the empty namespace.
/// - A tag whose prefix is declared nowhere is rejected, with an error of
///   its own.
/// - A bound namespace gives a key in that namespace with the tag's local
///   name.
/// - A tag without a prefix, where no default namespace is in scope, gives
///   a key without a namespace under the tag's name.
pub open spec fn tag_key(
    empty_namespace: bool,
    namespace: NamespaceView,
    name: Seq<u8>,
    local_name: Seq<u8>,
) -> Result<NameView, XmlErrorView> {
    if empty_namespace {
        Err(XmlErrorView::InvalidNamespace(Seq::empty()))
    } else {
        match namespace {
            NamespaceView::Bound(ns) => {
                if ns.len() == 0 {
                    Err(XmlErrorView::InvalidNamespace(ns))
                } else {
                    match text_of(ns) {
                        Err(e) => Err(e),
                        Ok(ns_text) => match text_of(local_name) {
                            Err(e) => Err(e),
                            Ok(local) => Ok(
                                NameView {
                                    namespace: Some(ns_text),
                                    prefix: None,
                                    local_name: local,
                                },
                            ),
                        },
                    }
                }
            },
            NamespaceView::Unknown(prefix) => Err(XmlErrorView::UnknownPrefix(prefix)),
            NamespaceView::Unbound => match text_of(name) {
                Err(e) => Err(e),
                Ok(local) => Ok(NameView { namespace: None, prefix: None, local_name: local }),
            },
        }
    }
}

/// Whether a text token holds white space only. Such a token separates
/// elements and is skipped.
pub open spec fn is_padding(raw: Seq<u8>) -> bool {
    valid_utf8(raw) && is_blank(decode_utf8(raw))
}

/// What reading one level of a document gives: the content of the element
/// that the level belongs to, the position behind the last token read, and
/// the name of the end tag where the last token read was an end tag.
pub struct Level {
    pub value: Result<ValueView, XmlErrorView>,
    pub next: int,
    pub end: Option<Seq<u8>>,
}

/// A level that failed.
pub open spec fn failed(error: XmlErrorView, next: int) -> Level {
    Level { value: Err(error), next, end: None }
}

/// The level that a text makes. The text is the whole content of its
/// element: the next token must be an end tag, or the tokens must end
/// there. Anything else behind the text is mixed content, which is
/// rejected: nothing is dropped in silence.
pub open spec fn after_text(tokens: Seq<TokenView>, at: int, text: Seq<char>) -> Level {
    if at < 0 || at >= tokens.len() {
        Level { value: Ok(ValueView::Text(text)), next: at, end: None }
    } else {
        match tokens[at] {
            TokenView::Failed(e) => failed(XmlErrorView::Xml(e), at + 1),
            TokenView::End { name } => Level {
                value: Ok(ValueView::Text(text)),
                next: at + 1,
                end: Some(name),
            },
            _ => failed(XmlErrorView::MixedContent, at + 1),
        }
    }
}

/// Reads one level of a document, from the token at `at` on, into the
/// children `seen` so far.
///
/// - An end tag, or the end of the tokens, ends the level with the children
///   seen.
/// - Comments, declarations, processing instructions and white space are
///   skipped.
/// - An empty-element tag adds an empty child.
/// - A start tag adds the child that the level behind it gives, which must
///   end with the end tag of the same name as written.
/// - Any other text must be the whole content of the level: children
///   before it, or anything but the end tag behind it, make mixed content,
///   which is rejected. See [`after_text`].
/// - A CDATA section, a failure of the tokenizer, an invalid name or an
///   invalid text is an error, and ends the whole reading.
///
/// The level behind a start tag always ends behind that tag (see
/// [`lemma_level_end`]); the definition asks for it so that it is seen to
/// end.
pub open spec fn level(tokens: Seq<TokenView>, at: int, seen: Seq<(NameView, ValueView)>) -> Level
    decreases tokens.len() - at,
{
    if at < 0 || at >= tokens.len() {
        Level { value: Ok(ValueView::Elements(seen)), next: at, end: None }
    } else {
        match tokens[at] {
            TokenView::End { name } => Level {
                value: Ok(ValueView::Elements(seen)),
                next: at + 1,
                end: Some(name),
            },
            TokenView::Comment | TokenView::Decl | TokenView::PI | TokenView::DocType => level(
                tokens,
                at + 1,
                seen,
            ),
            TokenView::CData => failed(XmlErrorView::UnsupportedCData, at + 1),
            TokenView::Failed(e) => failed(XmlErrorView::Xml(e), at + 1),
            TokenView::Text { raw, unescaped } => {
                if is_padding(raw) {
                    level(tokens, at + 1, seen)
                } else {
                    match unescaped {
                        Err(e) => failed(XmlErrorView::Xml(e), at + 1),
                        Ok(text) => {
                            if seen.len() > 0 {
                                failed(XmlErrorView::MixedContent, at + 1)
                            } else {
                                after_text(tokens, at + 1, text)
                            }
                        },
                    }
                }
            },
            TokenView::Empty { namespace, name, local_name, empty_namespace } => match tag_key(
                empty_namespace,
                namespace,
                name,
                local_name,
            ) {
                Err(e) => failed(e, at + 1),
                Ok(key) => level(tokens, at + 1, inserted(seen, key, ValueView::Empty)),
            },
            TokenView::Start { namespace, name, local_name, empty_namespace } => match tag_key(
                empty_namespace,
                namespace,
                name,
                local_name,
            ) {
                Err(e) => failed(e, at + 1),
                Ok(key) => {
                    let inner = level(tokens, at + 1, Seq::empty());
                    match inner.value {
                        Err(e) => failed(e, inner.next),
                        Ok(content) => {
                            if inner.end == Some(name) && at < inner.next <= tokens.len() {
                                level(tokens, inner.next, inserted(seen, key, content))
                            } else {
                                failed(XmlErrorView::UnexpectedTag, inner.next)
                            }
                        },
                    }
                },
            },
        }
    }
}

/// The root value of the document with the given tokens: the map of its
/// top-level elements, or the text that stands in their place.
pub open spec fn document_value(tokens: Seq<TokenView>) -> Result<ValueView, XmlErrorView> {
    level(tokens, 0, Seq::empty()).value
}

/// One level as it was built: its value, the position behind the last
/// token read, and the position of the end tag where that token was one.
struct Built {
    value: Value,
    next: usize,
    end: Option<usize>,
}

/// Whether `built` is the level `expected` of `tokens`.
spec fn is_level(built: Result<Built, XmlError>, tokens: Seq<TokenView>, expected: Level) -> bool {
    match expected.value {
        Err(e) => built matches Err(x) && x@ == e,
        Ok(v) => {
            &&& built matches Ok(b)
            &&& b.value@ == v
            &&& b.next == expected.next
            &&& match expected.end {
                Some(name) => b.end matches Some(i) && i < tokens.len() && tokens[i as int]
                    == (TokenView::End { name }),
                None => b.end.is_none(),
            }
        },
    }
}

/// The string that a byte string encodes.
fn decode_text(bytes: &Vec<u8>) -> (r: Result<String, XmlError>)
    ensures
        match text_of(bytes@) {
            Ok(text) => r matches Ok(s) && s@ == text,
            Err(e) => r matches Err(x) && x@ == e,
        },
{
    match str_from_utf8(bytes.as_slice()) {
        Ok(s) => Ok(s.to_owned()),
        Err(e) => Err(XmlError::Utf8(e)),
    }
}

/// The key under which a tag is stored.
fn key_of_tag(
    empty_namespace: bool,
    namespace: &Namespace,
    name: &Vec<u8>,
    local_name: &Vec<u8>,
) -> (r: Result<ElementName, XmlError>)
    ensures
        match tag_key(empty_namespace, namespace@, name@, local_name@) {
            Ok(key) => r matches Ok(k) && k@ == key,
            Err(e) => r matches Err(x) && x@ == e,
        },
{
    if empty_namespace {
        return Err(XmlError::InvalidNamespace(Vec::new()));
    }
    match namespace {
        Namespace::Bound(ns) => {
            if ns.len() == 0 {
                return Err(XmlError::InvalidNamespace(slice_to_vec(ns.as_slice())));
            }
            let ns_text = decode_text(ns)?;
            let local = decode_text(local_name)?;
            Ok(ElementName { namespace: Some(ns_text), prefix: None, local_name: local })
        },
        Namespace::Unknown(prefix) => Err(
            XmlError::UnknownPrefix(slice_to_vec(prefix.as_slice())),
        ),
        Namespace::Unbound => {
            let local = decode_text(name)?;
            Ok(ElementName { namespace: None, prefix: None, local_name: local })
        },
    }
}

/// Whether a text token holds white space only.
fn raw_is_padding(raw: &Vec<u8>) -> (r: bool)
    ensures
        r == is_padding(raw@),
{
    match str_from_utf8(raw.as_slice()) {
        Ok(s) => str_is_blank(s),
        Err(_) => false,
    }
}

/// Whether two byte strings are equal.
fn bytes_eq(a: &Vec<u8>, b: &Vec<u8>) -> (r: bool)
    ensures
        r == (a@ == b@),
{
    if a.len() != b.len() {
        return false;
    }
    let mut i: usize = 0;
    while i < a.len()
        invariant
            a@.len() == b@.len(),
            0 <= i <= a@.len(),
            forall|j: int| 0 <= j < i ==> a@[j] == b@[j],
        decreases a@.len() - i,
    {
        if a[i] != b[i] {
            return false;
        }
        i += 1;
    }
    assert(a@ =~= b@);
    true
}

/// The read that follows a text.
fn build_after_text(tokens: &[XmlToken], at: usize, text: String) -> (built: Result<
    Built,
    XmlError,
>)
    requires
        at <= tokens@.len(),
    ensures
        is_level(built, token_views(tokens@), after_text(token_views(tokens@), at as int, text@)),
{
    if at >= tokens.len() {
        return Ok(Built { value: Value::Text(text), next: at, end: None });
    }
    match &tokens[at] {
        XmlToken::Failed(e) => Err(XmlError::Xml(e.clone())),
        XmlToken::End { .. } => Ok(Built { value: Value::Text(text), next: at + 1, end: Some(at) }),
        _ => Err(XmlError::MixedContent),
    }
}

/// Reads one level, from the token at `start` on.
fn build_level(tokens: &[XmlToken], start: usize) -> (built: Result<Built, XmlError>)
    requires
        start <= tokens@.len(),
    ensures
        is_level(
            built,
            token_views(tokens@),
            level(token_views(tokens@), start as int, Seq::empty()),
        ),
        built matches Ok(b) ==> start <= b.next <= tokens@.len(),
    decreases tokens@.len() - start,
{
    let ghost views = token_views(tokens@);
    let mut map = ValueMap::new();
    let mut at = start;
    loop
        invariant
            views == token_views(tokens@),
            start <= at <= tokens@.len(),
            level(views, start as int, Seq::empty()) == level(views, at as int, map@),
        decreases tokens@.len() - at,
    {
        if at >= tokens.len() {
            return Ok(Built { value: Value::Elements(map), next: at, end: None });
        }
        assert(views[at as int] == tokens@[at as int]@);
        match &tokens[at] {
            XmlToken::End { .. } => {
                return Ok(Built { value: Value::Elements(map), next: at + 1, end: Some(at) });
            },
            XmlToken::Comment | XmlToken::Decl | XmlToken::PI | XmlToken::DocType => {
                at += 1;
            },
            XmlToken::CData => {
                return Err(XmlError::UnsupportedCData);
            },
            XmlToken::Failed(e) => {
                return Err(XmlError::Xml(e.clone()));
            },
            XmlToken::Text { raw, unescaped } => {
                if raw_is_padding(raw) {
                    at += 1;
                } else {
                    match unescaped {
                        Err(e) => {
                            return Err(XmlError::Xml(e.clone()));
                        },
                        Ok(text) => {
                            if map.entries.len() > 0 {
                                return Err(XmlError::MixedContent);
                            }
                            return build_after_text(tokens, at + 1, text.clone());
                        },
                    }
                }
            },
            XmlToken::Empty { namespace, name, local_name, empty_namespace } => {
                let key = key_of_tag(*empty_namespace, namespace, name, local_name)?;
                map.insert_raw(key, Value::Empty);
                at += 1;
            },
            XmlToken::Start { namespace, name, local_name, empty_namespace } => {
                let key = key_of_tag(*empty_namespace, namespace, name, local_name)?;
                let inner = build_level(tokens, at + 1)?;
                let closed = match inner.end {
                    Some(i) => match &tokens[i] {
                        XmlToken::End { name: end_name } => bytes_eq(end_name, name),
                        _ => false,
                    },
                    None => false,
                };
                if !closed {
                    return Err(XmlError::UnexpectedTag);
                }
                map.insert_raw(key, inner.value);
                at = inner.next;
            },
        }
    }
}

/// Groups the tokens of a document into its root value.
///
/// The root value is the map of the top-level elements. See [`level`] for
/// the rules.
pub fn build_value(tokens: &[XmlToken]) -> (r: Result<Value, XmlError>)
    ensures
        match document_value(token_views(tokens@)) {
            Ok(v) => r matches Ok(value) && value@ == v,
            Err(e) => r matches Err(x) && x@ == e,
        },
        r matches Ok(value) ==> grouped(value@),
{
    proof {
        lemma_document_grouped(token_views(tokens@));
    }
    match build_level(tokens, 0) {
        Ok(built) => Ok(built.value),
        Err(e) => Err(e),
    }
}

/// Reads a complete XML document into its root value.
pub fn read_xml(xml: &[u8]) -> (r: Result<Value, XmlError>)
    ensures
        match document_value(document_tokens(xml@)) {
            Ok(v) => r matches Ok(value) && value@ == v,
            Err(e) => r matches Err(x) && x@ == e,
        },
        r matches Ok(value) ==> grouped(value@),
{
    let tokens = read_tokens(xml);
    build_value(tokens.as_slice())
}

/// What `n` empty elements of one name are stored as: the bare empty
/// value for one, the list of all of them for more.
pub open spec fn grouped_empty(n: nat) -> ValueView {
    if n == 1 {
        ValueView::Empty
    } else {
        ValueView::List(Seq::new(n, |i: int| ValueView::Empty))
    }
}

/// Grouping: `n` empty-element tags of one name that follow each other,
/// under a parent that has no child of that name yet, are stored under
/// one key: as a bare empty value where `n` is 1, and as a list of `n`
/// empty values, in the order of the tags, where `n` is larger.
pub proof fn lemma_grouping(
    tokens: Seq<TokenView>,
    at: int,
    n: nat,
    seen: Seq<(NameView, ValueView)>,
    key: NameView,
)
    requires
        0 <= at,
        at + n <= tokens.len(),
        n >= 1,
        tokens[at] matches TokenView::Empty { namespace, name, local_name, empty_namespace }
            && tag_key(empty_namespace, namespace, name, local_name) == Ok::<
            NameView,
            XmlErrorView,
        >(key),
        forall|i: int| at <= i < at + n ==> tokens[i] == tokens[at],
        position(seen, key).is_none(),
    ensures
        level(tokens, at, seen) == level(tokens, at + n, seen.push((key, grouped_empty(n)))),
    decreases n,
{
    if n == 1 {
    } else {
        let m = (n - 1) as nat;
        lemma_grouping(tokens, at, m, seen, key);
        let before = seen.push((key, grouped_empty(m)));
        let here = seen.len() as int;
        assert(first_at(before, key, here)) by {
            assert forall|j: int| 0 <= j < here implies !(#[trigger] before[j]).0.same(key) by {
                if seen[j].0.same(key) {
                    lemma_first_exists(seen, key, j);
                }
            }
        }
        lemma_position(before, key, here);
        assert(tokens[at + m] == tokens[at]);
        assert(promoted(grouped_empty(m), ValueView::Empty) == grouped_empty(n)) by {
            if m == 1 {
                assert(seq![ValueView::Empty, ValueView::Empty] =~= Seq::new(
                    n,
                    |i: int| ValueView::Empty,
                ));
            } else {
                assert(Seq::new(m, |i: int| ValueView::Empty).push(ValueView::Empty) =~= Seq::new(
                    n,
                    |i: int| ValueView::Empty,
                ));
            }
        }
        assert(inserted(before, key, ValueView::Empty) =~= seen.push((key, grouped_empty(n))));
    }
}

/// Grouping: a run of `n` empty-element tags, of whatever names, adds
/// their keys to the children in the order of the tags, each with an
/// empty value. With [`lemma_occurrences_inserted_all`](crate::xml::value::lemma_occurrences_inserted_all)
/// each key then holds the empty children of its name, in order.
pub proof fn lemma_empty_run(
    tokens: Seq<TokenView>,
    at: int,
    n: nat,
    seen: Seq<(NameView, ValueView)>,
    items: Seq<(NameView, ValueView)>,
)
    requires
        0 <= at,
        at + n <= tokens.len(),
        items.len() == n,
        forall|i: int|
            0 <= i < n ==> (#[trigger] tokens[at + i] matches TokenView::Empty {
                namespace,
                name,
                local_name,
                empty_namespace,
            } && tag_key(empty_namespace, namespace, name, local_name) == Ok::<
                NameView,
                XmlErrorView,
            >(items[i].0) && items[i].1 == ValueView::Empty),
    ensures
        level(tokens, at, seen) == level(tokens, at + n, inserted_all(seen, items, n)),
    decreases n,
{
    if n > 0 {
        lemma_empty_run(tokens, at, (n - 1) as nat, seen, items.take(n - 1));
        assert(tokens[at + (n - 1)] is Empty);
        lemma_inserted_all_take(seen, items, (n - 1) as nat);
    }
}

/// Inserting the first items of a sequence does not look at the rest.
pub proof fn lemma_inserted_all_take(
    entries: Seq<(NameView, ValueView)>,
    items: Seq<(NameView, ValueView)>,
    n: nat,
)
    requires
        n <= items.len(),
    ensures
        inserted_all(entries, items.take(n as int), n) == inserted_all(entries, items, n),
    decreases n,
{
    if n > 0 {
        lemma_inserted_all_upto(entries, items.take(n as int), items, n);
    }
}

/// Inserting the first `n` items depends on those items alone.
pub proof fn lemma_inserted_all_upto(
    entries: Seq<(NameView, ValueView)>,
    a: Seq<(NameView, ValueView)>,
    b: Seq<(NameView, ValueView)>,
    n: nat,
)
    requires
        n <= a.len(),
        n <= b.len(),
        forall|i: int| 0 <= i < n ==> a[i] == b[i],
    ensures
        inserted_all(entries, a, n) == inserted_all(entries, b, n),
    decreases n,
{
    if n > 0 {
        lemma_inserted_all_upto(entries, a, b, (n - 1) as nat);
    }
}

/// A level that succeeds ends behind the tokens it read, and where it ends
/// with an end tag, that tag is the last token it read.
pub proof fn lemma_level_end(tokens: Seq<TokenView>, at: int, seen: Seq<(NameView, ValueView)>)
    requires
        0 <= at <= tokens.len(),
    ensures
        level(tokens, at, seen).value.is_ok() ==> at <= level(tokens, at, seen).next <= tokens.len(),
        level(tokens, at, seen).value.is_ok() ==> (level(tokens, at, seen).end matches Some(name)
            ==> at < level(tokens, at, seen).next && tokens[level(tokens, at, seen).next - 1]
            == (TokenView::End { name })),
    decreases tokens.len() - at,
{
    if at < tokens.len() {
        match tokens[at] {
            TokenView::Comment | TokenView::Decl | TokenView::PI | TokenView::DocType => {
                lemma_level_end(tokens, at + 1, seen);
            },
            TokenView::Text { raw, unescaped } => {
                if is_padding(raw) {
                    lemma_level_end(tokens, at + 1, seen);
                }
            },
            TokenView::Empty { namespace, name, local_name, empty_namespace } => {
                match tag_key(empty_namespace, namespace, name, local_name) {
                    Ok(key) => {
                        lemma_level_end(tokens, at + 1, inserted(seen, key, ValueView::Empty));
                    },
                    Err(_) => {},
                }
            },
            TokenView::Start { namespace, name, local_name, empty_namespace } => {
                match tag_key(empty_namespace, namespace, name, local_name) {
                    Ok(key) => {
                        lemma_level_end(tokens, at + 1, Seq::empty());
                        let inner = level(tokens, at + 1, Seq::empty());
                        match inner.value {
                            Ok(content) => {
                                if inner.end == Some(name) && at < inner.next <= tokens.len() {
                                    lemma_level_end(
                                        tokens,
                                        inner.next,
                                        inserted(seen, key, content),
                                    );
                                }
                            },
                            Err(_) => {},
                        }
                    },
                    Err(_) => {},
                }
            },
            _ => {},
        }
    }
}

/// Malformed input: a start tag whose end tag never comes is an error, and
/// no value is given for the level it stands in.
pub proof fn lemma_unclosed_start(tokens: Seq<TokenView>, at: int, seen: Seq<(NameView, ValueView)>)
    requires
        0 <= at < tokens.len(),
        tokens[at] is Start,
        forall|j: int|
            at < j < tokens.len() ==> tokens[j] != (TokenView::End { name: tokens[at]->Start_name }),
    ensures
        level(tokens, at, seen).value.is_err(),
{
    lemma_level_end(tokens, at + 1, Seq::empty());
}

/// Malformed input: a tag that declares a namespace with the empty URI is
/// an error, whatever its own name is bound to, and no value is given for
/// the level it stands in.
pub proof fn lemma_empty_namespace(tokens: Seq<TokenView>, at: int, seen: Seq<(NameView, ValueView)>)
    requires
        0 <= at < tokens.len(),
        match tokens[at] {
            TokenView::Start { empty_namespace, .. } => empty_namespace,
            TokenView::Empty { empty_namespace, .. } => empty_namespace,
            _ => false,
        },
    ensures
        level(tokens, at, seen).value == Err::<ValueView, XmlErrorView>(
            XmlErrorView::InvalidNamespace(Seq::empty()),
        ),
{
}

/// Malformed input: a tag whose prefix is declared nowhere is an error of
/// its own, and no value is given for the level it stands in.
pub proof fn lemma_unknown_prefix(
    tokens: Seq<TokenView>,
    at: int,
    seen: Seq<(NameView, ValueView)>,
    prefix: Seq<u8>,
)
    requires
        0 <= at < tokens.len(),
        match tokens[at] {
            TokenView::Start { namespace, empty_namespace, .. } => !empty_namespace && namespace
                == NamespaceView::Unknown(prefix),
            TokenView::Empty { namespace, empty_namespace, .. } => !empty_namespace && namespace
                == NamespaceView::Unknown(prefix),
            _ => false,
        },
    ensures
        level(tokens, at, seen).value == Err::<ValueView, XmlErrorView>(
            XmlErrorView::UnknownPrefix(prefix),
        ),
{
}

/// Mixed content: a text that stands behind child elements of its parent
/// is an error; no child is dropped for a text.
pub proof fn lemma_text_behind_children(
    tokens: Seq<TokenView>,
    at: int,
    seen: Seq<(NameView, ValueView)>,
)
    requires
        0 <= at < tokens.len(),
        seen.len() > 0,
        tokens[at] matches TokenView::Text { raw, unescaped } && !is_padding(raw),
    ensures
        level(tokens, at, seen).value.is_err(),
{
}

/// What is read is grouped: in the value of a level no key occurs twice,
/// and a key holds a list only where at least two elements of its name
/// were read; a single element is stored bare.
pub proof fn lemma_level_grouped(tokens: Seq<TokenView>, at: int, seen: Seq<(NameView, ValueView)>)
    requires
        0 <= at <= tokens.len(),
        grouped(ValueView::Elements(seen)),
    ensures
        level(tokens, at, seen).value matches Ok(value) ==> grouped(value) && !(value is List),
    decreases tokens.len() - at,
{
    if at < tokens.len() {
        match tokens[at] {
            TokenView::Comment | TokenView::Decl | TokenView::PI | TokenView::DocType => {
                lemma_level_grouped(tokens, at + 1, seen);
            },
            TokenView::Text { raw, unescaped } => {
                if is_padding(raw) {
                    lemma_level_grouped(tokens, at + 1, seen);
                }
            },
            TokenView::Empty { namespace, name, local_name, empty_namespace } => {
                match tag_key(empty_namespace, namespace, name, local_name) {
                    Ok(key) => {
                        lemma_inserted_grouped(seen, key, ValueView::Empty);
                        lemma_level_grouped(
                            tokens,
                            at + 1,
                            inserted(seen, key, ValueView::Empty),
                        );
                    },
                    Err(_) => {},
                }
            },
            TokenView::Start { namespace, name, local_name, empty_namespace } => {
                match tag_key(empty_namespace, namespace, name, local_name) {
                    Ok(key) => {
                        assert(grouped(ValueView::Elements(Seq::empty())));
                        lemma_level_grouped(tokens, at + 1, Seq::empty());
                        let inner = level(tokens, at + 1, Seq::empty());
                        match inner.value {
                            Ok(content) => {
                                if inner.end == Some(name) && at < inner.next <= tokens.len() {
                                    lemma_inserted_grouped(seen, key, content);
                                    lemma_level_grouped(
                                        tokens,
                                        inner.next,
                                        inserted(seen, key, content),
                                    );
                                }
                            },
                            Err(_) => {},
                        }
                    },
                    Err(_) => {},
                }
            },
            _ => {},
        }
    }
}

/// The root value of a document is grouped.
pub proof fn lemma_document_grouped(tokens: Seq<TokenView>)
    ensures
        document_value(tokens) matches Ok(value) ==> grouped(value),
{
    assert(grouped(ValueView::Elements(Seq::empty())));
    lemma_level_grouped(tokens, 0, Seq::empty());
}

/// The child elements of a level, from the token at `at` on: the key and
/// the value of each, in document order. The value of an empty-element
/// tag is empty; the value of a start tag is what the level behind it
/// gives. The children end where the level ends or fails.
pub open spec fn level_children(tokens: Seq<TokenView>, at: int) -> Seq<(NameView, ValueView)>
    decreases tokens.len() - at,
{
    if at < 0 || at >= tokens.len() {
        Seq::empty()
    } else {
        match tokens[at] {
            TokenView::Comment | TokenView::Decl | TokenView::PI | TokenView::DocType => {
                level_children(tokens, at + 1)
            },
            TokenView::Text { raw, unescaped } => {
                if is_padding(raw) {
                    level_children(tokens, at + 1)
                } else {
                    Seq::empty()
                }
            },
            TokenView::Empty { namespace, name, local_name, empty_namespace } => match tag_key(
                empty_namespace,
                namespace,
                name,
                local_name,
            ) {
                Ok(key) => seq![(key, ValueView::Empty)] + level_children(tokens, at + 1),
                Err(_) => Seq::empty(),
            },
            TokenView::Start { namespace, name, local_name, empty_namespace } => match tag_key(
                empty_namespace,
                namespace,
                name,
                local_name,
            ) {
                Ok(key) => {
                    let inner = level(tokens, at + 1, Seq::empty());
                    match inner.value {
                        Ok(content) => {
                            if inner.end == Some(name) && at < inner.next <= tokens.len() {
                                seq![(key, content)] + level_children(tokens, inner.next)
                            } else {
                                Seq::empty()
                            }
                        },
                        Err(_) => Seq::empty(),
                    }
                },
                Err(_) => Seq::empty(),
            },
            _ => Seq::empty(),
        }
    }
}

/// The map of a level is its child elements, inserted in document order:
/// nothing is dropped and nothing is added. No child is a list: a list
/// comes from grouping alone.
pub proof fn lemma_level_children(
    tokens: Seq<TokenView>,
    at: int,
    seen: Seq<(NameView, ValueView)>,
)
    requires
        0 <= at <= tokens.len(),
    ensures
        level(tokens, at, seen).value matches Ok(ValueView::Elements(entries)) ==> entries
            == inserted_all(
            seen,
            level_children(tokens, at),
            level_children(tokens, at).len(),
        ),
        forall|i: int|
            0 <= i < level_children(tokens, at).len() ==> !((#[trigger] level_children(
                tokens,
                at,
            )[i]).1 is List),
    decreases tokens.len() - at,
{
    let children = level_children(tokens, at);
    if at < tokens.len() {
        match tokens[at] {
            TokenView::Comment | TokenView::Decl | TokenView::PI | TokenView::DocType => {
                lemma_level_children(tokens, at + 1, seen);
            },
            TokenView::Text { raw, unescaped } => {
                if is_padding(raw) {
                    lemma_level_children(tokens, at + 1, seen);
                }
            },
            TokenView::Empty { namespace, name, local_name, empty_namespace } => {
                match tag_key(empty_namespace, namespace, name, local_name) {
                    Ok(key) => {
                        let rest = level_children(tokens, at + 1);
                        lemma_level_children(
                            tokens,
                            at + 1,
                            inserted(seen, key, ValueView::Empty),
                        );
                        lemma_inserted_all_prepend(seen, (key, ValueView::Empty), rest, rest.len());
                        assert forall|i: int| 0 <= i < children.len() implies !((
                        #[trigger] children[i]).1 is List) by {
                            if i > 0 {
                                assert(children[i] == rest[i - 1]);
                            }
                        }
                    },
                    Err(_) => {},
                }
            },
            TokenView::Start { namespace, name, local_name, empty_namespace } => {
                match tag_key(empty_namespace, namespace, name, local_name) {
                    Ok(key) => {
                        let inner = level(tokens, at + 1, Seq::empty());
                        match inner.value {
                            Ok(content) => {
                                if inner.end == Some(name) && at < inner.next <= tokens.len() {
                                    assert(grouped(ValueView::Elements(Seq::empty())));
                                    lemma_level_grouped(tokens, at + 1, Seq::empty());
                                    let rest = level_children(tokens, inner.next);
                                    lemma_level_children(
                                        tokens,
                                        inner.next,
                                        inserted(seen, key, content),
                                    );
                                    lemma_inserted_all_prepend(
                                        seen,
                                        (key, content),
                                        rest,
                                        rest.len(),
                                    );
                                    assert forall|i: int| 0 <= i < children.len() implies !((
                                    #[trigger] children[i]).1 is List) by {
                                        if i > 0 {
                                            assert(children[i] == rest[i - 1]);
                                        }
                                    }
                                }
                            },
                            Err(_) => {},
                        }
                    },
                    Err(_) => {},
                }
            },
            _ => {},
        }
    }
}

/// Grouping, in general: where a level gives a map, each key of the map
/// holds exactly the values of the child elements of its name, in document
/// order, whatever stands between them: nothing where there is none, the
/// bare value where there is one, and the list of them, without a list
/// inside it, where there are several.
pub proof fn lemma_children_grouped(tokens: Seq<TokenView>, at: int, key: NameView)
    requires
        0 <= at <= tokens.len(),
    ensures
        level(tokens, at, Seq::empty()).value matches Ok(ValueView::Elements(entries)) ==> {
            let values = values_under(
                level_children(tokens, at),
                key,
                level_children(tokens, at).len(),
            );
            &&& occurrences(entries, key) == values
            &&& values.len() == 0 ==> crate::xml::value::lookup(entries, key).is_none()
            &&& values.len() == 1 ==> crate::xml::value::lookup(entries, key) == Some(values[0])
                && !(values[0] is List)
            &&& values.len() >= 2 ==> crate::xml::value::lookup(entries, key) == Some(
                ValueView::List(values),
            )
        },
{
    let children = level_children(tokens, at);
    let none = Seq::<(NameView, ValueView)>::empty();
    lemma_level_children(tokens, at, none);
    lemma_occurrences_inserted_all(none, children, key, children.len());
    lemma_position_none(none, key);
    assert(grouped(ValueView::Elements(none)));
    lemma_level_grouped(tokens, at, none);
    match level(tokens, at, none).value {
        Ok(ValueView::Elements(entries)) => {
            let values = values_under(children, key, children.len());
            assert(Seq::<ValueView>::empty() + values =~= values);
            crate::xml::value::lemma_grouped_lookup(entries, key);
        },
        _ => {},
    }
}

} // verus!
