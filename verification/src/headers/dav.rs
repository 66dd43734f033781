//! The `DAV` header.

use vstd::prelude::*;
use vstd::std_specs::convert::FromSpecImpl;
use vstd::string::StringExecFns;
use crate::headers::coded_url::{coded_url_at, coded_url_text, CodedUrl};
use crate::headers::utils::{
    extract_chars, header_text, is_header_text, trim, trimmed, InvalidHeader,
};
use crate::text::{find_char, find_from, from_chars, push_char, to_chars};

verus! {

/// The `DAV` header as defined in
/// [RFC 4918](http://webdav.org/specs/rfc4918.html#HEADER_DAV).
#[derive(Clone, Debug, PartialEq)]
pub struct Dav(pub Vec<ComplianceClass>);

/// Compliance class identifiers used in the `DAV` header.
#[derive(Clone, Debug, PartialEq)]
pub enum ComplianceClass {
    One,
    Two,
    Three,
    CodedUrl(Box<CodedUrl>),
    Tokens(Tokens),
}

/// A freeform compliance class identifier: letters and digits of ASCII.
#[derive(Clone, Debug, PartialEq, Eq, Hash, PartialOrd, Ord)]
pub struct Tokens(String);

/// Error returned when parsing [`ComplianceClass`] from a string fails.
#[derive(Debug)]
pub enum InvalidComplianceClass {
    Empty,
    InvalidChar(char),
}

impl View for Tokens {
    type V = Seq<char>;

    closed spec fn view(&self) -> Seq<char> {
        self.0@
    }
}

/// What a [`ComplianceClass`] holds.
pub enum ComplianceClassView {
    One,
    Two,
    Three,
    CodedUrl(CodedUrl),
    Tokens(Seq<char>),
}

impl View for ComplianceClass {
    type V = ComplianceClassView;

    open spec fn view(&self) -> ComplianceClassView {
        match *self {
            ComplianceClass::One => ComplianceClassView::One,
            ComplianceClass::Two => ComplianceClassView::Two,
            ComplianceClass::Three => ComplianceClassView::Three,
            ComplianceClass::CodedUrl(url) => ComplianceClassView::CodedUrl(*url),
            ComplianceClass::Tokens(tokens) => ComplianceClassView::Tokens(tokens@),
        }
    }
}

/// The views of a sequence of compliance classes.
pub open spec fn classes_view(classes: Seq<ComplianceClass>) -> Seq<ComplianceClassView> {
    classes.map_values(|c: ComplianceClass| c@)
}

impl View for Dav {
    type V = Seq<ComplianceClassView>;

    open spec fn view(&self) -> Seq<ComplianceClassView> {
        classes_view(self.0@)
    }
}

/// Whether a character may stand in a freeform identifier: a letter or a
/// digit of ASCII. Every other character is a control character, white
/// space, punctuation, or outside ASCII.
pub open spec fn is_token_char(c: char) -> bool {
    let n = c as u32;
    ||| 0x30 <= n <= 0x39
    ||| 0x41 <= n <= 0x5A
    ||| 0x61 <= n <= 0x7A
}

/// Whether `i` is the first position of a character that may not stand in
/// a freeform identifier.
pub open spec fn bad_token_char_at(s: Seq<char>, i: int) -> bool {
    &&& 0 <= i < s.len()
    &&& !is_token_char(s[i])
    &&& forall|j: int| 0 <= j < i ==> is_token_char(#[trigger] s[j])
}

/// The freeform identifier that a text stands for: the text itself, or
/// the error that names its first invalid character.
pub open spec fn tokens_parsed(s: Seq<char>) -> Result<Seq<char>, InvalidComplianceClass> {
    if exists|i: int| bad_token_char_at(s, i) {
        Err(InvalidComplianceClass::InvalidChar(s[choose|i: int| bad_token_char_at(s, i)]))
    } else {
        Ok(s)
    }
}

/// The compliance class that a text stands for: `1`, `2` or `3`, or what
/// starts with a Coded-URL, or else a freeform identifier. The empty text
/// stands for none.
pub open spec fn class_parsed(s: Seq<char>) -> Result<ComplianceClassView, InvalidComplianceClass> {
    if s.len() == 0 {
        Err(InvalidComplianceClass::Empty)
    } else if s == seq!['1'] {
        Ok(ComplianceClassView::One)
    } else if s == seq!['2'] {
        Ok(ComplianceClassView::Two)
    } else if s == seq!['3'] {
        Ok(ComplianceClassView::Three)
    } else {
        match coded_url_at(s, 0) {
            Ok((url, _)) => Ok(ComplianceClassView::CodedUrl(url)),
            Err(_) => match tokens_parsed(s) {
                Ok(tokens) => Ok(ComplianceClassView::Tokens(tokens)),
                Err(e) => Err(e),
            },
        }
    }
}

/// The compliance classes of a header text from position `at` on, behind
/// the classes `seen`: the fields between commas, each without the white
/// space around it. A field that stands for no class is an error.
pub open spec fn classes_from(s: Seq<char>, at: int, seen: Seq<ComplianceClassView>) -> Result<
    Seq<ComplianceClassView>,
    InvalidComplianceClass,
>
    decreases s.len() - at,
{
    if at < 0 || at > s.len() {
        Ok(seen)
    } else {
        let end = find_from(s, at, ',');
        match class_parsed(trimmed(s.subrange(at, end))) {
            Err(e) => Err(e),
            Ok(class) => {
                if end >= s.len() {
                    Ok(seen.push(class))
                } else {
                    proof {
                        lemma_find_from(s, at, ',');
                    }
                    classes_from(s, end + 1, seen.push(class))
                }
            },
        }
    }
}

/// A character is found at or behind the position where it was looked
/// for.
pub proof fn lemma_find_from(s: Seq<char>, from: int, c: char)
    requires
        0 <= from <= s.len(),
    ensures
        from <= find_from(s, from, c) <= s.len(),
{
}

/// The text of a compliance class.
pub open spec fn class_text(class: ComplianceClassView) -> Seq<char> {
    match class {
        ComplianceClassView::One => seq!['1'],
        ComplianceClassView::Two => seq!['2'],
        ComplianceClassView::Three => seq!['3'],
        ComplianceClassView::CodedUrl(url) => coded_url_text(url),
        ComplianceClassView::Tokens(tokens) => tokens,
    }
}

/// The texts of the first `n` classes, with commas between them.
pub open spec fn classes_text(classes: Seq<ComplianceClassView>, n: nat) -> Seq<char>
    decreases n,
{
    if n == 0 || n > classes.len() {
        Seq::empty()
    } else if n == 1 {
        class_text(classes[0])
    } else {
        classes_text(classes, (n - 1) as nat) + seq![','] + class_text(classes[n - 1])
    }
}

impl Tokens {
    /// The identifier as text.
    pub fn as_str(&self) -> (r: &str)
        ensures
            r@ == self@,
    {
        self.0.as_str()
    }

    /// The identifier as an owned string.
    pub fn into_string(self) -> (r: String)
        ensures
            r@ == self@,
    {
        self.0
    }

    /// Reads a freeform identifier from its text.
    pub fn peek(chars: &[char]) -> (r: Result<Tokens, InvalidComplianceClass>)
        ensures
            match tokens_parsed(chars@) {
                Ok(tokens) => r matches Ok(found) && found@ == tokens,
                Err(e) => r matches Err(x) && x == e,
            },
    {
        let mut i: usize = 0;
        while i < chars.len()
            invariant
                0 <= i <= chars@.len(),
                forall|j: int| 0 <= j < i ==> is_token_char(#[trigger] chars@[j]),
            decreases chars@.len() - i,
        {
            let n = chars[i] as u32;
            if !((0x30 <= n && n <= 0x39) || (0x41 <= n && n <= 0x5A) || (0x61 <= n && n <= 0x7A)) {
                proof {
                    assert(bad_token_char_at(chars@, i as int));
                    let k = choose|k: int| bad_token_char_at(chars@, k);
                    if k < i {
                        assert(is_token_char(chars@[k]));
                    }
                    if i < k {
                        assert(is_token_char(chars@[i as int]));
                    }
                }
                return Err(InvalidComplianceClass::InvalidChar(chars[i]));
            }
            i += 1;
        }
        assert forall|k: int| !bad_token_char_at(chars@, k) by {
            if 0 <= k < chars@.len() {
                assert(is_token_char(chars@[k]));
            }
        }
        let text = from_chars(chars, 0, chars.len());
        assert(text@ =~= chars@);
        Ok(Tokens(text))
    }

    /// Parses a freeform identifier.
    pub fn parse(text: &str) -> (r: Result<Tokens, InvalidComplianceClass>)
        ensures
            match tokens_parsed(text@) {
                Ok(tokens) => r matches Ok(found) && found@ == tokens,
                Err(e) => r matches Err(x) && x == e,
            },
    {
        let chars = to_chars(text);
        Tokens::peek(chars.as_slice())
    }
}

impl AsRef<str> for Tokens {
    /// The identifier as text, as [`Tokens::as_str`] gives it.
    fn as_ref(&self) -> (r: &str)
        ensures
            r@ == self@,
    {
        self.0.as_str()
    }
}

impl From<Tokens> for String {
    fn from(tokens: Tokens) -> (r: String) {
        tokens.0
    }
}

impl FromSpecImpl<Tokens> for String {
    open spec fn obeys_from_spec() -> bool {
        true
    }

    closed spec fn from_spec(tokens: Tokens) -> String {
        tokens.0
    }
}

impl std::str::FromStr for Tokens {
    type Err = InvalidComplianceClass;

    /// Parses a freeform identifier, as [`Tokens::parse`] does.
    fn from_str(text: &str) -> (r: Result<Self, Self::Err>)
        ensures
            match tokens_parsed(text@) {
                Ok(tokens) => r matches Ok(found) && found@ == tokens,
                Err(e) => r matches Err(x) && x == e,
            },
    {
        Tokens::parse(text)
    }
}

impl ComplianceClass {
    /// Reads a compliance class from its text.
    pub fn peek(chars: &[char]) -> (r: Result<ComplianceClass, InvalidComplianceClass>)
        ensures
            match class_parsed(chars@) {
                Ok(class) => r matches Ok(found) && found@ == class,
                Err(e) => r matches Err(x) && x == e,
            },
    {
        if chars.len() == 0 {
            return Err(InvalidComplianceClass::Empty);
        }
        if chars.len() == 1 {
            if chars[0] == '1' {
                assert(chars@ =~= seq!['1']);
                return Ok(ComplianceClass::One);
            }
            if chars[0] == '2' {
                assert(chars@ =~= seq!['2']);
                return Ok(ComplianceClass::Two);
            }
            if chars[0] == '3' {
                assert(chars@ =~= seq!['3']);
                return Ok(ComplianceClass::Three);
            }
        }
        assert(chars@ != seq!['1'] && chars@ != seq!['2'] && chars@ != seq!['3']) by {
            if chars@.len() == 1 {
                assert(seq!['1'][0] == '1');
                assert(seq!['2'][0] == '2');
                assert(seq!['3'][0] == '3');
            }
        }
        match CodedUrl::peek(chars, 0) {
            Ok((url, _)) => Ok(ComplianceClass::CodedUrl(Box::new(url))),
            Err(_) => match Tokens::peek(chars) {
                Ok(tokens) => Ok(ComplianceClass::Tokens(tokens)),
                Err(e) => Err(e),
            },
        }
    }

    /// Parses a compliance class.
    pub fn parse(text: &str) -> (r: Result<ComplianceClass, InvalidComplianceClass>)
        ensures
            match class_parsed(text@) {
                Ok(class) => r matches Ok(found) && found@ == class,
                Err(e) => r matches Err(x) && x == e,
            },
    {
        let chars = to_chars(text);
        ComplianceClass::peek(chars.as_slice())
    }

    /// The text of this compliance class.
    pub fn to_text(&self) -> (text: String)
        ensures
            text@ == class_text(self@),
    {
        proof {
            reveal_strlit("1");
            reveal_strlit("2");
            reveal_strlit("3");
        }
        let text = match self {
            ComplianceClass::One => "1".to_owned(),
            ComplianceClass::Two => "2".to_owned(),
            ComplianceClass::Three => "3".to_owned(),
            ComplianceClass::CodedUrl(url) => url.to_text(),
            ComplianceClass::Tokens(tokens) => tokens.as_str().to_owned(),
        };
        assert(text@ =~= class_text(self@));
        text
    }
}

impl std::str::FromStr for ComplianceClass {
    type Err = InvalidComplianceClass;

    /// Parses a compliance class, as [`ComplianceClass::parse`] does.
    fn from_str(text: &str) -> (r: Result<Self, Self::Err>)
        ensures
            match class_parsed(text@) {
                Ok(class) => r matches Ok(found) && found@ == class,
                Err(e) => r matches Err(x) && x == e,
            },
    {
        ComplianceClass::parse(text)
    }
}

impl InvalidComplianceClass {
    /// The message of this error.
    pub fn message(&self) -> (text: String)
        ensures
            match *self {
                InvalidComplianceClass::Empty => text@ == "empty compliance class"@,
                InvalidComplianceClass::InvalidChar(c) => text@
                    == "invalid character in compliance class '"@ + seq![c] + "'"@,
            },
    {
        match self {
            InvalidComplianceClass::Empty => "empty compliance class".to_owned(),
            InvalidComplianceClass::InvalidChar(c) => {
                let mut text = "invalid character in compliance class '".to_owned();
                push_char(&mut text, *c);
                text.append("'");
                assert(text@ =~= "invalid character in compliance class '"@ + seq![*c] + "'"@);
                text
            },
        }
    }
}

impl Dav {
    /// The name of the header field.
    pub fn name() -> (r: &'static str)
        ensures
            r == crate::headers::DAV,
    {
        crate::headers::DAV
    }

    /// Reads the compliance classes of a header from its text.
    pub fn peek(chars: &[char]) -> (r: Result<Dav, InvalidComplianceClass>)
        ensures
            match classes_from(chars@, 0, Seq::empty()) {
                Ok(classes) => r matches Ok(found) && found@ == classes,
                Err(e) => r matches Err(x) && x == e,
            },
    {
        let mut classes: Vec<ComplianceClass> = Vec::new();
        let mut at: usize = 0;
        assert(classes_view(classes@) =~= Seq::empty());
        loop
            invariant
                0 <= at <= chars@.len(),
                classes_from(chars@, 0, Seq::empty()) == classes_from(
                    chars@,
                    at as int,
                    classes_view(classes@),
                ),
            decreases chars@.len() - at,
        {
            let end = find_char(chars, at, ',');
            let mut field: Vec<char> = Vec::new();
            let mut i = at;
            while i < end
                invariant
                    at <= i <= end <= chars@.len(),
                    field@ == chars@.subrange(at as int, i as int),
                decreases end - i,
            {
                field.push(chars[i]);
                assert(chars@.subrange(at as int, i + 1) =~= chars@.subrange(at as int, i as int).push(
                    chars@[i as int],
                ));
                i += 1;
            }
            let inner = trim(field.as_slice());
            let class = ComplianceClass::peek(inner.as_slice())?;
            let ghost before = classes_view(classes@);
            classes.push(class);
            assert(classes_view(classes@) =~= before.push(class@));
            if end >= chars.len() {
                return Ok(Dav(classes));
            }
            at = end + 1;
        }
    }

    /// Decodes the header from the values of its header field: there must
    /// be one value, it must be text, and each of its fields must stand
    /// for a compliance class.
    pub fn decode(values: &[Vec<u8>]) -> (r: Result<Dav, InvalidHeader>)
        ensures
            match r {
                Ok(found) => values@.len() == 1 && is_header_text(values@[0]@) && classes_from(
                    header_text(values@[0]@),
                    0,
                    Seq::empty(),
                ) == Ok::<Seq<ComplianceClassView>, InvalidComplianceClass>(found@),
                Err(_) => values@.len() != 1 || !is_header_text(values@[0]@) || classes_from(
                    header_text(values@[0]@),
                    0,
                    Seq::empty(),
                ).is_err(),
            },
    {
        let chars = extract_chars(values)?;
        match Dav::peek(chars.as_slice()) {
            Ok(found) => Ok(found),
            Err(_) => Err(InvalidHeader),
        }
    }

    /// Encodes the header as the text of one value: the classes with
    /// commas between them.
    pub fn encode(&self) -> (text: String)
        ensures
            text@ == classes_text(self@, self@.len()),
    {
        let mut text = String::new();
        let mut i: usize = 0;
        while i < self.0.len()
            invariant
                0 <= i <= self.0@.len(),
                self@.len() == self.0@.len(),
                text@ =~= classes_text(self@, i as nat),
            decreases self.0@.len() - i,
        {
            proof {
                reveal_strlit(",");
            }
            if i > 0 {
                text.append(",");
            }
            text.append(self.0[i].to_text().as_str());
            assert(self@[i as int] == self.0@[i as int]@);
            assert(classes_text(self@, (i + 1) as nat) =~= classes_text(self@, i as nat) + (if i
                > 0 {
                seq![',']
            } else {
                Seq::empty()
            }) + class_text(self@[i as int]));
            i += 1;
        }
        text
    }
}

} // verus!
