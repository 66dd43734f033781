//! The errors of reading, writing and extracting.

use vstd::prelude::*;
use vstd::std_specs::convert::FromSpecImpl;
use vstd::string::{to_string_from_display_ensures, StringExecFns};
use http::uri::InvalidUri;
use httpdate::Error as HttpDateError;
use mime::FromStrError as MimeError;
use quick_xml::Error as QuickXmlError;
use time::error::Parse as DateError;
use crate::xml::elements::status::InvalidStatus;

verus! {

/// `std::str::Utf8Error`: where a byte string stops being UTF-8.
#[verifier::external_type_specification]
#[verifier::external_body]
pub struct ExUtf8Error(std::str::Utf8Error);

/// `quick_xml::Error`: what the XML tokenizer or writer reports.
#[verifier::external_type_specification]
#[verifier::external_body]
pub struct ExQuickXmlError(QuickXmlError);

/// `http::uri::InvalidUri`: why a text is no URI.
#[verifier::external_type_specification]
#[verifier::external_body]
pub struct ExInvalidUri(InvalidUri);

/// `httpdate::Error`: a text is no HTTP date.
#[verifier::external_type_specification]
#[verifier::external_body]
pub struct ExHttpDateError(HttpDateError);

/// `mime::FromStrError`: why a text is no media type.
#[verifier::external_type_specification]
#[verifier::external_body]
pub struct ExMimeError(MimeError);

/// `time::error::Parse`: why a text is no date and time.
#[verifier::external_type_specification]
#[verifier::external_body]
pub struct ExDateError(DateError);

/// Wraps all errors that might occur when (de)serializing.
#[derive(Debug)]
#[non_exhaustive]
pub enum Error {
    Xml(XmlError),
    ExtractElement(ExtractElementError),
}

/// Returned when reading or writing XML failed.
#[derive(Debug)]
pub enum XmlError {
    /// A tag declares a namespace with the empty URI, or is bound to the
    /// empty namespace. The namespace is kept here.
    InvalidNamespace(Vec<u8>),
    /// The prefix of a tag, kept here, is declared nowhere in scope.
    UnknownPrefix(Vec<u8>),
    /// An element holds a text beside child elements or other content.
    MixedContent,
    /// A start tag is not followed, after its content, by its own end tag.
    UnexpectedTag,
    /// A name or a text is not UTF-8.
    Utf8(std::str::Utf8Error),
    /// The tokenizer or the writer failed.
    Xml(QuickXmlError),
    /// The document holds a CDATA section, which is not supported.
    UnsupportedCData,
    /// The value to write is neither a text nor a map and cannot be a
    /// document root.
    UnsupportedRoot,
}

/// What an [`XmlError`] holds, as mathematical values.
pub enum XmlErrorView {
    InvalidNamespace(Seq<u8>),
    UnknownPrefix(Seq<u8>),
    MixedContent,
    UnexpectedTag,
    Utf8(std::str::Utf8Error),
    Xml(QuickXmlError),
    UnsupportedCData,
    UnsupportedRoot,
}

impl View for XmlError {
    type V = XmlErrorView;

    open spec fn view(&self) -> XmlErrorView {
        match *self {
            XmlError::InvalidNamespace(ns) => XmlErrorView::InvalidNamespace(ns@),
            XmlError::UnknownPrefix(prefix) => XmlErrorView::UnknownPrefix(prefix@),
            XmlError::MixedContent => XmlErrorView::MixedContent,
            XmlError::UnexpectedTag => XmlErrorView::UnexpectedTag,
            XmlError::Utf8(e) => XmlErrorView::Utf8(e),
            XmlError::Xml(e) => XmlErrorView::Xml(e),
            XmlError::UnsupportedCData => XmlErrorView::UnsupportedCData,
            XmlError::UnsupportedRoot => XmlErrorView::UnsupportedRoot,
        }
    }
}

/// A copy of a `quick_xml::Error` is the same error: its `Clone` is derived.
pub assume_specification[ <QuickXmlError as Clone>::clone ](e: &QuickXmlError) -> (r: QuickXmlError)
    ensures
        r == *e,
;

/// Returned when extracting an element from a [`Value`](crate::xml::Value)
/// fails.
#[derive(Debug)]
pub struct ExtractElementError {
    pub kind: ExtractElementErrorKind,
}

/// The reason why extracting an element failed.
#[derive(Debug)]
#[non_exhaustive]
pub enum ExtractElementErrorKind {
    /// The value has another shape than the element needs.
    InvalidValueType { expected: &'static str, got: &'static str },
    /// A required child element is missing.
    MissingElement(&'static str),
    /// Elements that exclude each other occur together.
    ConflictingElements(&'static [&'static str]),
    /// The element is declared but not implemented.
    Unsupported(&'static str),
    /// The text of the element does not convert to its type.
    Other(ConversionError),
}

/// Why the text of an element does not convert to its type.
#[derive(Debug)]
pub enum ConversionError {
    /// The text is no URI.
    Uri(InvalidUri),
    /// The text is no status line.
    Status(InvalidStatus),
    /// The text is no number; it is kept here.
    Number(String),
    /// The text is no date and time of RFC 3339.
    Date(DateError),
    /// The text is no HTTP date.
    HttpDate(HttpDateError),
    /// The text is no media type.
    Mime(MimeError),
}

impl ExtractElementError {
    pub fn new(kind: ExtractElementErrorKind) -> (e: Self)
        ensures
            e.kind == kind,
    {
        Self { kind }
    }

    /// The error for a text that does not convert.
    pub fn other(cause: ConversionError) -> (e: Self)
        ensures
            e.kind == ExtractElementErrorKind::Other(cause),
    {
        Self { kind: ExtractElementErrorKind::Other(cause) }
    }
}

impl From<XmlError> for Error {
    fn from(e: XmlError) -> (r: Self) {
        Error::Xml(e)
    }
}

impl FromSpecImpl<XmlError> for Error {
    open spec fn obeys_from_spec() -> bool {
        true
    }

    open spec fn from_spec(e: XmlError) -> Self {
        Error::Xml(e)
    }
}

impl From<ExtractElementError> for Error {
    fn from(e: ExtractElementError) -> (r: Self) {
        Error::ExtractElement(e)
    }
}

impl FromSpecImpl<ExtractElementError> for Error {
    open spec fn obeys_from_spec() -> bool {
        true
    }

    open spec fn from_spec(e: ExtractElementError) -> Self {
        Error::ExtractElement(e)
    }
}

/// The first `n` of the names, each between backquotes, with a comma and
/// a space between them.
pub open spec fn quoted_names(names: Seq<&'static str>, n: nat) -> Seq<char>
    decreases n,
{
    if n == 0 || n > names.len() {
        Seq::empty()
    } else if n == 1 {
        "`"@ + names[0]@ + "`"@
    } else {
        quoted_names(names, (n - 1) as nat) + ", "@ + "`"@ + names[n - 1]@ + "`"@
    }
}

impl ConversionError {
    /// Whether `text` is the message of this error: the message of the
    /// cause, as its crate prints it.
    pub open spec fn has_message(&self, text: String) -> bool {
        match *self {
            ConversionError::Uri(e) => to_string_from_display_ensures::<InvalidUri>(&e, text),
            ConversionError::Status(e) => text@ == "invalid status: "@ + e.0@,
            ConversionError::Number(kept) => text@ == "invalid number: "@ + kept@,
            ConversionError::Date(e) => to_string_from_display_ensures::<DateError>(&e, text),
            ConversionError::HttpDate(e) => to_string_from_display_ensures::<HttpDateError>(
                &e,
                text,
            ),
            ConversionError::Mime(e) => to_string_from_display_ensures::<MimeError>(&e, text),
        }
    }

    /// The message of this error.
    pub fn message(&self) -> (text: String)
        ensures
            self.has_message(text),
    {
        match self {
            ConversionError::Uri(e) => e.to_string(),
            ConversionError::Status(e) => e.message(),
            ConversionError::Number(kept) => {
                let mut text = "invalid number: ".to_owned();
                text.append(kept.as_str());
                text
            },
            ConversionError::Date(e) => e.to_string(),
            ConversionError::HttpDate(e) => e.to_string(),
            ConversionError::Mime(e) => e.to_string(),
        }
    }
}

impl ExtractElementErrorKind {
    /// Whether `text` is the message of this reason.
    pub open spec fn has_message(&self, text: String) -> bool {
        match *self {
            ExtractElementErrorKind::InvalidValueType { expected, got } => text@
                == "expected value of type `"@ + expected@ + "`, got `"@ + got@ + "`"@,
            ExtractElementErrorKind::MissingElement(name) => text@ == "missing `"@ + name@
                + "` element"@,
            ExtractElementErrorKind::ConflictingElements(names) => text@ == quoted_names(
                names@,
                names@.len(),
            ) + " must not be used at the same time"@,
            ExtractElementErrorKind::Unsupported(name) => text@ == "the `"@ + name@
                + "` element is not supported"@,
            ExtractElementErrorKind::Other(cause) => cause.has_message(text),
        }
    }

    /// The message of this reason.
    pub fn message(&self) -> (text: String)
        ensures
            self.has_message(text),
    {
        match self {
            ExtractElementErrorKind::InvalidValueType { expected, got } => {
                let mut text = "expected value of type `".to_owned();
                text.append(expected);
                text.append("`, got `");
                text.append(got);
                text.append("`");
                text
            },
            ExtractElementErrorKind::MissingElement(name) => {
                let mut text = "missing `".to_owned();
                text.append(name);
                text.append("` element");
                text
            },
            ExtractElementErrorKind::ConflictingElements(names) => {
                let mut text = String::new();
                let mut i: usize = 0;
                while i < names.len()
                    invariant
                        0 <= i <= names@.len(),
                        text@ == quoted_names(names@, i as nat),
                    decreases names@.len() - i,
                {
                    if i > 0 {
                        text.append(", ");
                    }
                    text.append("`");
                    text.append(names[i]);
                    text.append("`");
                    assert(text@ =~= quoted_names(names@, (i + 1) as nat));
                    i += 1;
                }
                text.append(" must not be used at the same time");
                text
            },
            ExtractElementErrorKind::Unsupported(name) => {
                let mut text = "the `".to_owned();
                text.append(name);
                text.append("` element is not supported");
                text
            },
            ExtractElementErrorKind::Other(cause) => cause.message(),
        }
    }
}

impl ExtractElementError {
    /// The message of this error: the message of its reason.
    pub fn message(&self) -> (text: String)
        ensures
            self.kind.has_message(text),
    {
        self.kind.message()
    }
}

/// The hexadecimal digit, in lower case, of a number below sixteen.
pub open spec fn hex_digit(n: int) -> char {
    if n < 10 {
        ((n + 0x30) as u8) as char
    } else {
        ((n - 10 + 0x61) as u8) as char
    }
}

/// What one byte is shown as in a message: itself where it is a printable
/// character of ASCII, and otherwise an escape as in a byte string
/// literal.
pub open spec fn byte_shown(b: u8) -> Seq<char> {
    if b == 0x0A {
        seq!['\\', 'n']
    } else if b == 0x0D {
        seq!['\\', 'r']
    } else if b == 0x09 {
        seq!['\\', 't']
    } else if b == 0x5C || b == 0x22 {
        seq!['\\', b as char]
    } else if b == 0 {
        seq!['\\', '0']
    } else if 0x20 <= b < 0x7F {
        seq![b as char]
    } else {
        seq!['\\', 'x', hex_digit(b as int / 16), hex_digit(b as int % 16)]
    }
}

/// What the bytes are shown as, one behind the other.
pub open spec fn each_byte_shown(bytes: Seq<u8>) -> Seq<char>
    decreases bytes.len(),
{
    if bytes.len() == 0 {
        Seq::empty()
    } else {
        each_byte_shown(bytes.drop_last()) + byte_shown(bytes.last())
    }
}

/// The text that a byte string is shown as in a message: as a byte string
/// literal, between `b"` and `"`.
pub open spec fn bytes_shown(bytes: Seq<u8>) -> Seq<char> {
    seq!['b', '"'] + each_byte_shown(bytes) + seq!['"']
}

/// Shows a byte string as text.
///
/// Trusted: calls the `Debug` formatting of `bytes::Bytes` on a copy of
/// the bytes, which prints them as a byte string literal: printable
/// characters of ASCII as they are, the others escaped.
#[verifier::external_body]
fn show_bytes(bytes: &[u8]) -> (r: String)
    ensures
        r@ == bytes_shown(bytes@),
{
    format!("{:?}", bytes::Bytes::copy_from_slice(bytes))
}

impl XmlError {
    /// Whether `text` is the message of this error.
    pub open spec fn has_message(&self, text: String) -> bool {
        match *self {
            XmlError::InvalidNamespace(ns) => text@ == "invalid namespace declaration: "@
                + bytes_shown(ns@),
            XmlError::UnknownPrefix(prefix) => text@ == "unknown namespace prefix: "@
                + bytes_shown(prefix@),
            XmlError::MixedContent => text@ == "text beside other content"@,
            XmlError::UnexpectedTag => text@ == "unexpected tag"@,
            XmlError::Utf8(e) => to_string_from_display_ensures::<std::str::Utf8Error>(&e, text),
            XmlError::Xml(e) => to_string_from_display_ensures::<QuickXmlError>(&e, text),
            XmlError::UnsupportedCData => text@ == "CDATA sections are not supported"@,
            XmlError::UnsupportedRoot => text@ == "the root value must be a map or a text"@,
        }
    }

    /// The message of this error.
    pub fn message(&self) -> (text: String)
        ensures
            self.has_message(text),
    {
        match self {
            XmlError::InvalidNamespace(ns) => {
                let mut text = "invalid namespace declaration: ".to_owned();
                text.append(show_bytes(ns.as_slice()).as_str());
                text
            },
            XmlError::UnknownPrefix(prefix) => {
                let mut text = "unknown namespace prefix: ".to_owned();
                text.append(show_bytes(prefix.as_slice()).as_str());
                text
            },
            XmlError::MixedContent => "text beside other content".to_owned(),
            XmlError::UnexpectedTag => "unexpected tag".to_owned(),
            XmlError::Utf8(e) => e.to_string(),
            XmlError::Xml(e) => e.to_string(),
            XmlError::UnsupportedCData => "CDATA sections are not supported".to_owned(),
            XmlError::UnsupportedRoot => "the root value must be a map or a text".to_owned(),
        }
    }
}

impl Error {
    /// Whether `text` is the message of this error: the message of what
    /// it wraps.
    pub open spec fn has_message(&self, text: String) -> bool {
        match *self {
            Error::Xml(e) => e.has_message(text),
            Error::ExtractElement(e) => e.kind.has_message(text),
        }
    }

    /// The message of this error.
    pub fn message(&self) -> (text: String)
        ensures
            self.has_message(text),
    {
        match self {
            Error::Xml(e) => e.message(),
            Error::ExtractElement(e) => e.message(),
        }
    }
}

} // verus!
