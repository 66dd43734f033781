//! The `status` element.

use vstd::prelude::*;
use vstd::std_specs::convert::FromSpecImpl;
use vstd::string::StringExecFns;
use http::StatusCode;
use crate::text::{
    all_digits, decimal, digit_char, digits_value, find_char, find_from, found_at, from_chars,
    is_digit, lemma_decimal, lemma_found_at, to_chars,
};
use crate::xml::convert::{fails_with, wrong_shape, FromValue, IntoValue};
use crate::xml::element::Element;
use crate::xml::error::{ConversionError, ExtractElementError, ExtractElementErrorKind};
use crate::xml::value::{Value, ValueView};
use crate::xml::{DAV_NAMESPACE, DAV_PREFIX};

verus! {

/// `http::StatusCode`: a status code from 100 to 999.
#[verifier::external_type_specification]
#[verifier::external_body]
pub struct ExStatusCode(StatusCode);

/// The number of a status code.
pub uninterp spec fn status_number(code: StatusCode) -> u16;

/// The reason phrase that is printed behind a status code: its canonical
/// reason, or a placeholder where it has none.
pub uninterp spec fn status_reason(number: u16) -> Seq<char>;

/// Whether a text is the number of a status code: three decimal digits,
/// the first of which is not zero.
pub open spec fn is_status_number(text: Seq<char>) -> bool {
    text.len() == 3 && all_digits(text) && text[0] != '0'
}

/// Parses a status code.
///
/// Trusted: calls `StatusCode::from_str`, which accepts exactly three
/// decimal digits of which the first is not zero, and gives the code with
/// that number.
#[verifier::external_body]
fn parse_status_code(text: &str) -> (r: Option<StatusCode>)
    ensures
        match r {
            Some(code) => is_status_number(text@) && status_number(code) == digits_value(text@),
            None => !is_status_number(text@),
        },
{
    text.parse().ok()
}

/// Prints a status code.
///
/// Trusted: calls `StatusCode::to_string`, which prints the number of the
/// code in decimal digits, a space, and the reason phrase.
#[verifier::external_body]
fn print_status_code(code: &StatusCode) -> (r: String)
    ensures
        r@ == decimal(status_number(*code) as nat) + seq![' '] + status_reason(
            status_number(*code),
        ),
{
    code.to_string()
}

/// The `status` XML element as defined in
/// [RFC 4918](http://webdav.org/specs/rfc4918.html#ELEMENT_status).
#[derive(Clone, Copy, Debug, PartialEq)]
pub struct Status(pub StatusCode);

/// A text that is no status line.
#[derive(Debug)]
pub struct InvalidStatus(pub String);

impl Element for Status {
    const NAMESPACE: &'static str = DAV_NAMESPACE;

    const PREFIX: &'static str = DAV_PREFIX;

    const LOCAL_NAME: &'static str = "status";
}

/// The second of the fields of a status line, which are separated by
/// single spaces. A line without a space has no second field.
pub open spec fn status_field(line: Seq<char>) -> Option<Seq<char>> {
    let first = find_from(line, 0, ' ');
    if first >= line.len() {
        None
    } else {
        Some(line.subrange(first + 1, find_from(line, first + 1, ' ')))
    }
}

/// Whether `out` is what parsing the status line `line` gives: the status
/// with the number in the second field, or the line itself as the error.
pub open spec fn parses_status(line: Seq<char>, out: Result<Status, InvalidStatus>) -> bool {
    match status_field(line) {
        Some(field) => {
            if is_status_number(field) {
                out matches Ok(status) && status_number(status.0) == digits_value(field)
            } else {
                out matches Err(e) && e.0@ == line
            }
        },
        None => out matches Err(e) && e.0@ == line,
    }
}

/// The status line of a status: the protocol version, the number of the
/// code, and its reason phrase.
pub open spec fn status_line(code: StatusCode) -> Seq<char> {
    "HTTP/1.1 "@ + decimal(status_number(code) as nat) + seq![' '] + status_reason(
        status_number(code),
    )
}

impl Status {
    /// Parses a status line such as `HTTP/1.1 200 OK`. Only the second
    /// field is read.
    pub fn parse(line: &str) -> (out: Result<Status, InvalidStatus>)
        ensures
            parses_status(line@, out),
    {
        let chars = to_chars(line);
        let first = find_char(chars.as_slice(), 0, ' ');
        if first >= chars.len() {
            return Err(InvalidStatus(line.to_owned()));
        }
        let end = find_char(chars.as_slice(), first + 1, ' ');
        let field = from_chars(chars.as_slice(), first + 1, end);
        match parse_status_code(field.as_str()) {
            Some(code) => Ok(Status(code)),
            None => Err(InvalidStatus(line.to_owned())),
        }
    }

    /// The status line of this status.
    pub fn to_text(&self) -> (line: String)
        ensures
            line@ == status_line(self.0),
    {
        let mut line = "HTTP/1.1 ".to_owned();
        line.append(print_status_code(&self.0).as_str());
        assert(line@ =~= status_line(self.0));
        line
    }
}

impl From<StatusCode> for Status {
    fn from(code: StatusCode) -> (status: Self) {
        Status(code)
    }
}

impl FromSpecImpl<StatusCode> for Status {
    open spec fn obeys_from_spec() -> bool {
        true
    }

    open spec fn from_spec(code: StatusCode) -> Self {
        Status(code)
    }
}

impl std::str::FromStr for Status {
    type Err = InvalidStatus;

    /// Parses a status line, as [`Status::parse`] does.
    fn from_str(line: &str) -> (out: Result<Self, Self::Err>)
        ensures
            parses_status(line@, out),
    {
        Status::parse(line)
    }
}

impl InvalidStatus {
    /// The message of this error.
    pub fn message(&self) -> (text: String)
        ensures
            text@ == "invalid status: "@ + self.0@,
    {
        let mut text = "invalid status: ".to_owned();
        text.append(self.0.as_str());
        text
    }
}

impl FromValue for Status {
    /// The element is the status that the text of a text node parses as.
    open spec fn extracts(value: ValueView, out: Result<Self, ExtractElementError>) -> bool {
        match value {
            ValueView::Text(text) => match out {
                Ok(status) => parses_status(text, Ok(status)),
                Err(e) => e.kind matches ExtractElementErrorKind::Other(ConversionError::Status(cause))
                    && parses_status(text, Err(cause)),
            },
            _ => fails_with(out, wrong_shape("text", value)),
        }
    }

    fn from_value(value: &Value) -> (out: Result<Self, ExtractElementError>) {
        match Status::parse(value.to_str()?) {
            Ok(status) => Ok(status),
            Err(e) => Err(ExtractElementError::other(ConversionError::Status(e))),
        }
    }
}

impl IntoValue for Status {
    open spec fn encodable(&self) -> bool {
        true
    }

    fn is_encodable(&self) -> (r: bool) {
        true
    }

    open spec fn as_value(&self) -> ValueView {
        ValueView::Text(status_line(self.0))
    }

    fn into_value(self) -> (value: Value) {
        Value::Text(self.to_text())
    }
}

/// The digits of a number from 100 to 999 are the number of a status
/// code.
pub proof fn lemma_status_digits(n: nat)
    requires
        100 <= n <= 999,
    ensures
        is_status_number(decimal(n)),
        digits_value(decimal(n)) == n,
{
    lemma_decimal(n);
    let tens = n / 10;
    let hundreds = tens / 10;
    assert(decimal(hundreds) == seq![digit_char(hundreds)]);
    assert(decimal(tens) == decimal(hundreds).push(digit_char(tens % 10)));
    assert(decimal(n) == decimal(tens).push(digit_char(n % 10)));
    assert(decimal(n).len() == 3);
    assert(decimal(n)[0] == digit_char(hundreds));
    assert(digit_char(hundreds) != '0');
}

/// Round trip: the status line of a status is parsed as a status with the
/// same number.
pub proof fn lemma_round_trip(status: Status, out: Result<Status, InvalidStatus>)
    requires
        100 <= status_number(status.0) <= 999,
        parses_status(status_line(status.0), out),
    ensures
        out matches Ok(found) && status_number(found.0) == status_number(status.0),
{
    let n = status_number(status.0) as nat;
    let line = status_line(status.0);
    lemma_status_digits(n);
    reveal_strlit("HTTP/1.1 ");
    let digits = decimal(n);
    assert(line.len() >= 13);
    assert(line[8] == ' ');
    assert(found_at(line, 0, ' ', 8)) by {
        assert forall|j: int| 0 <= j < 8 implies line[j] != ' ' by {
            assert(line[j] == "HTTP/1.1 "@[j]);
        }
    }
    lemma_found_at(line, 0, ' ', 8);
    assert(line[12] == ' ');
    assert(found_at(line, 9, ' ', 12)) by {
        assert forall|j: int| 9 <= j < 12 implies line[j] != ' ' by {
            assert(line[j] == digits[j - 9]);
            assert(is_digit(digits[j - 9]));
        }
    }
    lemma_found_at(line, 9, ' ', 12);
    assert(line.subrange(9, 12) =~= digits);
}

/// The name under which the element is stored and written.
pub proof fn lemma_name()
    ensures
        Status::NAMESPACE@ == "DAV:"@,
        Status::PREFIX@ == "d"@,
        Status::LOCAL_NAME@ == "status"@,
{
}

} // verus!
