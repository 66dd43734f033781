//! The `creationdate` property.

use vstd::prelude::*;
use vstd::pervasive::unreached;
use time::error::Format as DateFormatError;
use time::error::Parse as DateError;
use time::format_description::well_known::Rfc3339;
use time::OffsetDateTime as DateTime;
use crate::xml::convert::{fails_with, wrong_shape, FromValue, IntoValue};
use crate::xml::element::Element;
use crate::xml::error::{ConversionError, ExtractElementError, ExtractElementErrorKind};
use crate::xml::value::{Value, ValueView};
use crate::xml::{DAV_NAMESPACE, DAV_PREFIX};

verus! {

/// `time::OffsetDateTime`: a date and time with an offset from UTC.
#[verifier::external_type_specification]
#[verifier::external_body]
pub struct ExDateTime(DateTime);

/// A copy of a date and time is the same date and time.
pub assume_specification[ <DateTime as Clone>::clone ](source: &DateTime) -> (copy: DateTime)
    ensures
        copy == *source,
;

/// `time::error::Format`: why a date cannot be printed.
#[verifier::external_type_specification]
#[verifier::external_body]
pub struct ExDateFormatError(DateFormatError);

/// What parsing a text as a date and time of RFC 3339 gives.
pub uninterp spec fn date_parsed(text: Seq<char>) -> Result<DateTime, DateError>;

/// What printing a date and time in the format of RFC 3339 gives. A date
/// that the format cannot express gives an error.
pub uninterp spec fn date_printed(date: DateTime) -> Result<Seq<char>, DateFormatError>;

/// Parses a date and time.
///
/// Trusted: calls `OffsetDateTime::parse` with the format `Rfc3339`; the
/// outcome depends on the text alone.
#[verifier::external_body]
fn parse_date(text: &str) -> (r: Result<DateTime, DateError>)
    ensures
        r == date_parsed(text@),
{
    DateTime::parse(text, &Rfc3339)
}

/// Prints a date and time.
///
/// Trusted: calls `OffsetDateTime::format` with the format `Rfc3339`; the
/// outcome depends on the date alone.
#[verifier::external_body]
fn print_date(date: &DateTime) -> (r: Result<String, DateFormatError>)
    ensures
        match r {
            Ok(text) => date_printed(*date) == Ok::<Seq<char>, DateFormatError>(text@),
            Err(e) => date_printed(*date) == Err::<Seq<char>, DateFormatError>(e),
        },
{
    date.format(&Rfc3339)
}

/// The `creationdate` property as defined in
/// [RFC 4918](http://webdav.org/specs/rfc4918.html#PROPERTY_creationdate).
#[derive(Clone, Debug, PartialEq)]
pub struct CreationDate(pub DateTime);

impl Element for CreationDate {
    const NAMESPACE: &'static str = DAV_NAMESPACE;

    const PREFIX: &'static str = DAV_PREFIX;

    const LOCAL_NAME: &'static str = "creationdate";
}

impl FromValue for CreationDate {
    /// The element is the date that the text of a text node parses as.
    open spec fn extracts(value: ValueView, out: Result<Self, ExtractElementError>) -> bool {
        match value {
            ValueView::Text(text) => match date_parsed(text) {
                Ok(found) => out == Ok::<Self, ExtractElementError>(CreationDate(found)),
                Err(e) => fails_with(
                    out,
                    ExtractElementErrorKind::Other(ConversionError::Date(e)),
                ),
            },
            _ => fails_with(out, wrong_shape("text", value)),
        }
    }

    fn from_value(value: &Value) -> (out: Result<Self, ExtractElementError>) {
        match parse_date(value.to_str()?) {
            Ok(found) => Ok(CreationDate(found)),
            Err(e) => Err(ExtractElementError::other(ConversionError::Date(e))),
        }
    }
}

impl IntoValue for CreationDate {
    /// The date must be one that RFC 3339 can express.
    open spec fn encodable(&self) -> bool {
        date_printed(self.0).is_ok()
    }

    fn is_encodable(&self) -> (r: bool) {
        print_date(&self.0).is_ok()
    }

    open spec fn as_value(&self) -> ValueView {
        match date_printed(self.0) {
            Ok(text) => ValueView::Text(text),
            Err(_) => ValueView::Empty,
        }
    }

    fn into_value(self) -> (value: Value) {
        match print_date(&self.0) {
            Ok(text) => Value::Text(text),
            Err(_) => unreached(),
        }
    }
}

impl CreationDate {
    /// Turns the date into its node, or gives `None` for a date that
    /// RFC 3339 cannot express.
    pub fn try_into_value(self) -> (value: Option<Value>)
        ensures
            match value {
                Some(v) => self.encodable() && v@ == self.as_value(),
                None => !self.encodable(),
            },
    {
        match print_date(&self.0) {
            Ok(_) => Some(self.into_value()),
            Err(_) => None,
        }
    }
}

/// The name under which the element is stored and written.
pub proof fn lemma_name()
    ensures
        CreationDate::NAMESPACE@ == "DAV:"@,
        CreationDate::PREFIX@ == "d"@,
        CreationDate::LOCAL_NAME@ == "creationdate"@,
{
}

} // verus!
