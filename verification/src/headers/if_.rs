//! The `If` header.

use vstd::prelude::*;
use vstd::string::StringExecFns;
use http::uri::InvalidUri;
use http::Uri;
use crate::headers::coded_url::{
    coded_url_at, coded_url_text, lemma_coded_url_at, CodedUrl, InvalidCodedUrl,
};
use crate::headers::utils::{
    blank_end, extract_chars, has_word_at, header_text, is_header_text, lemma_blank_end, skip_blank,
    starts_with_ignore_ascii_case, trim, trimmed, InvalidHeader,
};
use crate::text::{find_char, find_from, from_chars, push_char, to_chars};
use crate::uri::{parse_uri, print_uri, uri_parsed, uri_text};

verus! {

/// The `If` header as defined in
/// [RFC 4918](http://webdav.org/specs/rfc4918.html#HEADER_If).
///
/// A header holds lists of conditions, either on their own or each group
/// of them behind the resource that they are about. There is at least one
/// list, and no list is empty.
#[derive(Clone, Debug, PartialEq)]
pub enum If {
    NoTagList(Vec<Vec<Condition>>),
    TaggedList(Vec<(ResourceTag, Vec<Vec<Condition>>)>),
}

/// Condition used in the `If` header.
#[derive(Clone, Debug, PartialEq)]
pub enum Condition {
    StateToken { not: bool, coded_url: CodedUrl },
    ETag { not: bool, etag: String },
}

/// Resource tag used in the `If` header.
#[derive(Clone, Debug, PartialEq)]
pub struct ResourceTag(pub Uri);

/// Error returned when parsing [`If`] from a string fails.
#[derive(Debug)]
pub enum InvalidIf {
    /// The character that should stand here does not.
    ExpectedChar(char),
    /// A list without conditions, or a resource without lists.
    EmptyConditionList,
    /// A header without resources.
    EmptyResourceList,
    /// A state token is no Coded-URL.
    CodedUrl(InvalidCodedUrl),
    /// A resource tag is no URI.
    Uri(InvalidUri),
}

/// What a [`Condition`] holds.
pub enum ConditionView {
    StateToken { not: bool, coded_url: CodedUrl },
    ETag { not: bool, etag: Seq<char> },
}

impl View for Condition {
    type V = ConditionView;

    open spec fn view(&self) -> ConditionView {
        match *self {
            Condition::StateToken { not, coded_url } => ConditionView::StateToken {
                not,
                coded_url,
            },
            Condition::ETag { not, etag } => ConditionView::ETag { not, etag: etag@ },
        }
    }
}

/// The view of a list of conditions.
pub open spec fn conditions_view(list: Seq<Condition>) -> Seq<ConditionView> {
    list.map_values(|c: Condition| c@)
}

/// The view of a sequence of lists of conditions.
pub open spec fn lists_view(lists: Seq<Vec<Condition>>) -> Seq<Seq<ConditionView>> {
    lists.map_values(|list: Vec<Condition>| conditions_view(list@))
}

/// The view of the resources of a tagged header.
pub open spec fn resources_view(resources: Seq<(ResourceTag, Vec<Vec<Condition>>)>) -> Seq<
    (ResourceTag, Seq<Seq<ConditionView>>),
> {
    resources.map_values(|r: (ResourceTag, Vec<Vec<Condition>>)| (r.0, lists_view(r.1@)))
}

/// What an [`If`] header holds.
pub enum IfView {
    NoTagList(Seq<Seq<ConditionView>>),
    TaggedList(Seq<(ResourceTag, Seq<Seq<ConditionView>>)>),
}

/// Whether there is at least one list, and no list is empty.
pub open spec fn lists_wf(lists: Seq<Seq<ConditionView>>) -> bool {
    lists.len() >= 1 && forall|i: int| 0 <= i < lists.len() ==> (#[trigger] lists[i]).len() >= 1
}

/// Whether no list is empty.
pub open spec fn lists_nonempty(lists: Seq<Seq<ConditionView>>) -> bool {
    forall|i: int| 0 <= i < lists.len() ==> (#[trigger] lists[i]).len() >= 1
}

/// Whether every resource has at least one list, and no list is empty.
pub open spec fn resources_wf(resources: Seq<(ResourceTag, Seq<Seq<ConditionView>>)>) -> bool {
    forall|i: int| 0 <= i < resources.len() ==> lists_wf((#[trigger] resources[i]).1)
}

impl IfView {
    /// Whether the header is well formed: it has at least one list of
    /// conditions, or at least one resource with at least one list, and no
    /// list is empty.
    pub open spec fn wf(self) -> bool {
        match self {
            IfView::NoTagList(lists) => lists_wf(lists),
            IfView::TaggedList(resources) => resources.len() >= 1 && resources_wf(resources),
        }
    }
}

impl View for If {
    type V = IfView;

    open spec fn view(&self) -> IfView {
        match *self {
            If::NoTagList(lists) => IfView::NoTagList(lists_view(lists@)),
            If::TaggedList(resources) => IfView::TaggedList(resources_view(resources@)),
        }
    }
}

/// The resource tag at position `at`, and the position behind it: a `<`,
/// a URI up to the next `>`, and that `>`.
pub open spec fn resource_tag_at(s: Seq<char>, at: int) -> Result<(ResourceTag, int), InvalidIf> {
    if 0 <= at < s.len() && s[at] == '<' {
        let end = find_from(s, at + 1, '>');
        if end >= s.len() {
            Err(InvalidIf::ExpectedChar('>'))
        } else {
            match uri_parsed(s.subrange(at + 1, end)) {
                Ok(uri) => Ok((ResourceTag(uri), end + 1)),
                Err(e) => Err(InvalidIf::Uri(e)),
            }
        }
    } else {
        Err(InvalidIf::ExpectedChar('<'))
    }
}

/// The condition at position `at`, and the position behind it: an
/// optional `Not`, in any case, with the white space behind it, and then
/// either an entity tag between square brackets or a Coded-URL.
pub open spec fn condition_at(s: Seq<char>, at: int) -> Result<(ConditionView, int), InvalidIf> {
    let not = has_word_at(s, at, "NOT"@);
    let start = if not {
        blank_end(s, at + 3)
    } else {
        at
    };
    if 0 <= start < s.len() && s[start] == '[' {
        let end = find_from(s, start + 1, ']');
        if end >= s.len() {
            Err(InvalidIf::ExpectedChar(']'))
        } else {
            Ok((ConditionView::ETag { not, etag: s.subrange(start + 1, end) }, end + 1))
        }
    } else {
        match coded_url_at(s, start) {
            Ok((coded_url, next)) => Ok((ConditionView::StateToken { not, coded_url }, next)),
            Err(e) => Err(InvalidIf::CodedUrl(e)),
        }
    }
}

/// Reading a condition moves on.
pub proof fn lemma_condition_at(s: Seq<char>, at: int)
    ensures
        condition_at(s, at) matches Ok((_, next)) ==> 0 <= at < next <= s.len(),
{
    let not = has_word_at(s, at, "NOT"@);
    if not {
        reveal_strlit("NOT");
        lemma_blank_end(s, at + 3);
    }
    lemma_coded_url_at(s, if not {
        blank_end(s, at + 3)
    } else {
        at
    });
}

/// Reading a resource tag moves on.
pub proof fn lemma_resource_tag_at(s: Seq<char>, at: int)
    ensures
        resource_tag_at(s, at) matches Ok((_, next)) ==> 0 <= at < next <= s.len(),
{
}

/// Reading a list of conditions moves on.
pub proof fn lemma_condition_list_at(s: Seq<char>, at: int)
    ensures
        condition_list_at(s, at) matches Ok((_, next)) ==> 0 <= at < next <= s.len(),
{
    if 0 <= at < s.len() && s[at] == '(' {
        lemma_blank_end(s, at + 1);
        lemma_conditions_from(s, blank_end(s, at + 1), Seq::empty());
    }
}

/// Reading the rest of a list of conditions moves on.
pub proof fn lemma_conditions_from(s: Seq<char>, at: int, seen: Seq<ConditionView>)
    requires
        0 <= at <= s.len(),
    ensures
        conditions_from(s, at, seen) matches Ok((_, next)) ==> at < next <= s.len(),
    decreases s.len() - at,
{
    if 0 <= at < s.len() && s[at] == ')' {
        lemma_blank_end(s, at + 1);
    } else {
        lemma_condition_at(s, at);
        match condition_at(s, at) {
            Ok((condition, next)) => {
                lemma_blank_end(s, next);
                lemma_conditions_from(s, blank_end(s, next), seen.push(condition));
            },
            Err(_) => {},
        }
    }
}

/// Reading lists of conditions does not move back.
pub proof fn lemma_lists_from(s: Seq<char>, at: int, seen: Seq<Seq<ConditionView>>, tagged: bool)
    requires
        0 <= at <= s.len(),
    ensures
        lists_from(s, at, seen, tagged) matches Ok((_, next)) ==> at <= next <= s.len(),
    decreases s.len() - at,
{
    if at >= s.len() || (tagged && s[at] == '<') {
    } else {
        lemma_condition_list_at(s, at);
        match condition_list_at(s, at) {
            Ok((list, next)) => {
                lemma_blank_end(s, next);
                lemma_lists_from(s, blank_end(s, next), seen.push(list), tagged);
            },
            Err(_) => {},
        }
    }
}

/// A list of conditions that was read is not empty.
pub proof fn lemma_conditions_nonempty(s: Seq<char>, at: int, seen: Seq<ConditionView>)
    requires
        0 <= at <= s.len(),
    ensures
        conditions_from(s, at, seen) matches Ok((list, _)) ==> list.len() >= 1,
    decreases s.len() - at,
{
    if 0 <= at < s.len() && s[at] == ')' {
    } else {
        lemma_condition_at(s, at);
        match condition_at(s, at) {
            Ok((condition, next)) => {
                lemma_blank_end(s, next);
                lemma_conditions_nonempty(s, blank_end(s, next), seen.push(condition));
            },
            Err(_) => {},
        }
    }
}

/// Lists of conditions that were read are well formed.
pub proof fn lemma_lists_wf(s: Seq<char>, at: int, seen: Seq<Seq<ConditionView>>, tagged: bool)
    requires
        0 <= at <= s.len(),
        lists_nonempty(seen),
    ensures
        lists_from(s, at, seen, tagged) matches Ok((lists, _)) ==> lists_wf(lists),
    decreases s.len() - at,
{
    if at >= s.len() || (tagged && s[at] == '<') {
    } else {
        lemma_condition_list_at(s, at);
        match condition_list_at(s, at) {
            Ok((list, next)) => {
                lemma_blank_end(s, at + 1);
                lemma_conditions_nonempty(s, blank_end(s, at + 1), Seq::empty());
                lemma_blank_end(s, next);
                let grown = seen.push(list);
                assert(lists_nonempty(grown)) by {
                    assert forall|i: int| 0 <= i < grown.len() implies (#[trigger] grown[i]).len()
                        >= 1 by {
                        if i < seen.len() {
                            assert(seen[i].len() >= 1);
                        }
                    }
                }
                lemma_lists_wf(s, blank_end(s, next), grown, tagged);
            },
            Err(_) => {},
        }
    }
}

/// Resources that were read are well formed, and there is at least one
/// unless none was seen and the text has ended.
pub proof fn lemma_resources_wf(
    s: Seq<char>,
    at: int,
    seen: Seq<(ResourceTag, Seq<Seq<ConditionView>>)>,
)
    requires
        0 <= at <= s.len(),
        resources_wf(seen),
    ensures
        resources_from(s, at, seen) matches Ok(resources) ==> resources.len() >= 1 && resources_wf(
            resources,
        ),
        seen.len() >= 1 || at < s.len() ==> resources_from(s, at, seen) != Err::<
            Seq<(ResourceTag, Seq<Seq<ConditionView>>)>,
            InvalidIf,
        >(InvalidIf::EmptyResourceList),
    decreases s.len() - at,
{
    if at >= s.len() {
    } else {
        lemma_resource_tag_at(s, at);
        match resource_tag_at(s, at) {
            Ok((tag, next)) => {
                lemma_blank_end(s, next);
                lemma_lists_from(s, blank_end(s, next), Seq::empty(), true);
                assert(lists_nonempty(Seq::<Seq<ConditionView>>::empty()));
                lemma_lists_wf(s, blank_end(s, next), Seq::empty(), true);
                lemma_lists_never_lack_resources(s, blank_end(s, next), Seq::empty(), true);
                match lists_from(s, blank_end(s, next), Seq::empty(), true) {
                    Ok((lists, behind)) => {
                        let grown = seen.push((tag, lists));
                        assert(resources_wf(grown)) by {
                            assert forall|i: int| 0 <= i < grown.len() implies lists_wf(
                                (#[trigger] grown[i]).1,
                            ) by {
                                if i < seen.len() {
                                    assert(lists_wf(seen[i].1));
                                }
                            }
                        }
                        lemma_resources_wf(s, behind, grown);
                    },
                    Err(_) => {},
                }
            },
            Err(_) => {},
        }
    }
}

/// A header that was parsed is well formed, and the error that a header
/// has no resources never arises: a tagged header starts with a resource.
pub proof fn lemma_parsed_wf(text: Seq<char>)
    ensures
        if_parsed(text) matches Ok(header) ==> header.wf(),
        if_parsed(text) != Err::<IfView, InvalidIf>(InvalidIf::EmptyResourceList),
{
    let s = trimmed(text);
    assert(resources_wf(Seq::<(ResourceTag, Seq<Seq<ConditionView>>)>::empty()));
    assert(lists_nonempty(Seq::<Seq<ConditionView>>::empty()));
    lemma_resources_wf(s, 0, Seq::empty());
    lemma_lists_wf(s, 0, Seq::empty(), false);
    lemma_lists_never_lack_resources(s, 0, Seq::empty(), false);
}

/// Reading lists of conditions never gives the error of a header without
/// resources.
pub proof fn lemma_lists_never_lack_resources(
    s: Seq<char>,
    at: int,
    seen: Seq<Seq<ConditionView>>,
    tagged: bool,
)
    requires
        0 <= at <= s.len(),
    ensures
        lists_from(s, at, seen, tagged) != Err::<(Seq<Seq<ConditionView>>, int), InvalidIf>(
            InvalidIf::EmptyResourceList,
        ),
    decreases s.len() - at,
{
    if at >= s.len() || (tagged && s[at] == '<') {
    } else {
        lemma_condition_list_at(s, at);
        match condition_list_at(s, at) {
            Ok((list, next)) => {
                lemma_blank_end(s, next);
                lemma_lists_never_lack_resources(s, blank_end(s, next), seen.push(list), tagged);
            },
            Err(e) => {
                lemma_blank_end(s, at + 1);
                if 0 <= at < s.len() && s[at] == '(' {
                    lemma_conditions_never_lack_resources(s, blank_end(s, at + 1), Seq::empty());
                }
            },
        }
    }
}

/// Reading conditions never gives the error of a header without
/// resources.
pub proof fn lemma_conditions_never_lack_resources(
    s: Seq<char>,
    at: int,
    seen: Seq<ConditionView>,
)
    requires
        0 <= at <= s.len(),
    ensures
        conditions_from(s, at, seen) != Err::<(Seq<ConditionView>, int), InvalidIf>(
            InvalidIf::EmptyResourceList,
        ),
    decreases s.len() - at,
{
    if 0 <= at < s.len() && s[at] == ')' {
    } else {
        lemma_condition_at(s, at);
        match condition_at(s, at) {
            Ok((condition, next)) => {
                lemma_blank_end(s, next);
                lemma_conditions_never_lack_resources(
                    s,
                    blank_end(s, next),
                    seen.push(condition),
                );
            },
            Err(_) => {},
        }
    }
}

/// The rest of a list of conditions from position `at` on, behind the
/// conditions `seen`: conditions, with white space between them, up to a
/// `)`. The white space behind the `)` belongs to the list. A list has at
/// least one condition.
pub open spec fn conditions_from(s: Seq<char>, at: int, seen: Seq<ConditionView>) -> Result<
    (Seq<ConditionView>, int),
    InvalidIf,
>
    decreases s.len() - at,
{
    if 0 <= at < s.len() && s[at] == ')' {
        if seen.len() == 0 {
            Err(InvalidIf::EmptyConditionList)
        } else {
            Ok((seen, blank_end(s, at + 1)))
        }
    } else {
        match condition_at(s, at) {
            Err(e) => Err(e),
            Ok((condition, next)) => {
                proof {
                    lemma_condition_at(s, at);
                    lemma_blank_end(s, next);
                }
                conditions_from(s, blank_end(s, next), seen.push(condition))
            },
        }
    }
}

/// The list of conditions at position `at`, and the position behind it:
/// a `(`, white space, and the conditions up to the `)`.
pub open spec fn condition_list_at(s: Seq<char>, at: int) -> Result<
    (Seq<ConditionView>, int),
    InvalidIf,
> {
    if 0 <= at < s.len() && s[at] == '(' {
        conditions_from(s, blank_end(s, at + 1), Seq::empty())
    } else {
        Err(InvalidIf::ExpectedChar('('))
    }
}

/// The lists of conditions from position `at` on, behind the lists
/// `seen`: up to the end of the text, or, in a tagged header, up to the
/// `<` of the next resource tag. There is at least one list.
pub open spec fn lists_from(
    s: Seq<char>,
    at: int,
    seen: Seq<Seq<ConditionView>>,
    tagged: bool,
) -> Result<(Seq<Seq<ConditionView>>, int), InvalidIf>
    decreases s.len() - at,
{
    if at < 0 || at >= s.len() || (tagged && s[at] == '<') {
        if seen.len() == 0 {
            Err(InvalidIf::EmptyConditionList)
        } else {
            Ok((seen, at))
        }
    } else {
        match condition_list_at(s, at) {
            Err(e) => Err(e),
            Ok((list, next)) => {
                proof {
                    lemma_condition_list_at(s, at);
                    lemma_blank_end(s, next);
                }
                lists_from(s, blank_end(s, next), seen.push(list), tagged)
            },
        }
    }
}

/// The resources of a tagged header from position `at` on, behind the
/// resources `seen`: each a resource tag, white space, and its lists of
/// conditions, up to the end of the text. There is at least one resource.
pub open spec fn resources_from(
    s: Seq<char>,
    at: int,
    seen: Seq<(ResourceTag, Seq<Seq<ConditionView>>)>,
) -> Result<Seq<(ResourceTag, Seq<Seq<ConditionView>>)>, InvalidIf>
    decreases s.len() - at,
{
    if at < 0 || at >= s.len() {
        if seen.len() == 0 {
            Err(InvalidIf::EmptyResourceList)
        } else {
            Ok(seen)
        }
    } else {
        match resource_tag_at(s, at) {
            Err(e) => Err(e),
            Ok((tag, next)) => match lists_from(s, blank_end(s, next), Seq::empty(), true) {
                Err(e) => Err(e),
                Ok((lists, behind)) => {
                    proof {
                        lemma_resource_tag_at(s, at);
                        lemma_blank_end(s, next);
                        lemma_lists_from(s, blank_end(s, next), Seq::empty(), true);
                    }
                    resources_from(s, behind, seen.push((tag, lists)))
                },
            },
        }
    }
}

/// The header that a text stands for. White space at both ends does not
/// count. A text that starts with a resource tag is a tagged header; any
/// other text is a header of lists without tags.
pub open spec fn if_parsed(text: Seq<char>) -> Result<IfView, InvalidIf> {
    let s = trimmed(text);
    match resource_tag_at(s, 0) {
        Ok(_) => match resources_from(s, 0, Seq::empty()) {
            Ok(resources) => Ok(IfView::TaggedList(resources)),
            Err(e) => Err(e),
        },
        Err(_) => match lists_from(s, 0, Seq::empty(), false) {
            Ok((lists, _)) => Ok(IfView::NoTagList(lists)),
            Err(e) => Err(e),
        },
    }
}

impl ResourceTag {
    /// Reads the resource tag at position `at`, and gives it with the
    /// position behind it.
    pub fn peek(chars: &[char], at: usize) -> (r: Result<(ResourceTag, usize), InvalidIf>)
        requires
            at <= chars@.len(),
        ensures
            match resource_tag_at(chars@, at as int) {
                Ok((tag, next)) => r == Ok::<(ResourceTag, usize), InvalidIf>((tag, next as usize))
                    && at < next <= chars@.len(),
                Err(e) => r == Err::<(ResourceTag, usize), InvalidIf>(e),
            },
    {
        if at >= chars.len() || chars[at] != '<' {
            return Err(InvalidIf::ExpectedChar('<'));
        }
        let end = find_char(chars, at + 1, '>');
        if end >= chars.len() {
            return Err(InvalidIf::ExpectedChar('>'));
        }
        let text = from_chars(chars, at + 1, end);
        match parse_uri(text.as_str()) {
            Ok(uri) => Ok((ResourceTag(uri), end + 1)),
            Err(e) => Err(InvalidIf::Uri(e)),
        }
    }

    /// Parses the resource tag at the start of a text. What follows it is
    /// not read.
    pub fn parse(text: &str) -> (r: Result<ResourceTag, InvalidIf>)
        ensures
            match resource_tag_at(text@, 0) {
                Ok((tag, _)) => r == Ok::<ResourceTag, InvalidIf>(tag),
                Err(e) => r == Err::<ResourceTag, InvalidIf>(e),
            },
    {
        let chars = to_chars(text);
        match ResourceTag::peek(chars.as_slice(), 0) {
            Ok((tag, _)) => Ok(tag),
            Err(e) => Err(e),
        }
    }

    /// The text of this resource tag: the URI between angle brackets.
    pub fn to_text(&self) -> (text: String)
        ensures
            text@ == resource_tag_text(*self),
    {
        proof {
            reveal_strlit("<");
            reveal_strlit(">");
        }
        let mut text = "<".to_owned();
        text.append(print_uri(&self.0).as_str());
        text.append(">");
        assert(text@ =~= resource_tag_text(*self));
        text
    }
}

impl std::str::FromStr for ResourceTag {
    type Err = InvalidIf;

    /// Parses the resource tag at the start of a text, as
    /// [`ResourceTag::parse`] does.
    fn from_str(text: &str) -> (r: Result<Self, Self::Err>)
        ensures
            match resource_tag_at(text@, 0) {
                Ok((tag, _)) => r == Ok::<ResourceTag, InvalidIf>(tag),
                Err(e) => r == Err::<ResourceTag, InvalidIf>(e),
            },
    {
        ResourceTag::parse(text)
    }
}

/// Whether `r` is the outcome `expected` of reading a condition.
pub open spec fn is_condition(
    r: Result<(Condition, usize), InvalidIf>,
    expected: Result<(ConditionView, int), InvalidIf>,
) -> bool {
    match expected {
        Ok((condition, next)) => r matches Ok((found, behind)) && found@ == condition && behind
            == next,
        Err(e) => r matches Err(x) && x == e,
    }
}

/// Whether `r` is the outcome `expected` of reading a list of conditions.
pub open spec fn is_condition_list(
    r: Result<(Vec<Condition>, usize), InvalidIf>,
    expected: Result<(Seq<ConditionView>, int), InvalidIf>,
) -> bool {
    match expected {
        Ok((list, next)) => r matches Ok((found, behind)) && conditions_view(found@) == list
            && behind == next,
        Err(e) => r matches Err(x) && x == e,
    }
}

/// Whether `r` is the outcome `expected` of reading lists of conditions.
pub open spec fn is_lists(
    r: Result<(Vec<Vec<Condition>>, usize), InvalidIf>,
    expected: Result<(Seq<Seq<ConditionView>>, int), InvalidIf>,
) -> bool {
    match expected {
        Ok((lists, next)) => r matches Ok((found, behind)) && lists_view(found@) == lists && behind
            == next,
        Err(e) => r matches Err(x) && x == e,
    }
}

impl Condition {
    /// Reads the condition at position `at`, and gives it with the
    /// position behind it.
    pub fn peek(chars: &[char], at: usize) -> (r: Result<(Condition, usize), InvalidIf>)
        requires
            at <= chars@.len(),
        ensures
            is_condition(r, condition_at(chars@, at as int)),
            r matches Ok((_, next)) ==> at < next <= chars@.len(),
    {
        proof {
            reveal_strlit("NOT");
        }
        let length = chars.len();
        let not = starts_with_ignore_ascii_case(chars, at, "NOT");
        assert(not ==> at + 3 <= length);
        let start = if not {
            skip_blank(chars, at + 3)
        } else {
            at
        };
        if start < chars.len() && chars[start] == '[' {
            let end = find_char(chars, start + 1, ']');
            if end >= chars.len() {
                return Err(InvalidIf::ExpectedChar(']'));
            }
            Ok((Condition::ETag { not, etag: from_chars(chars, start + 1, end) }, end + 1))
        } else {
            match CodedUrl::peek(chars, start) {
                Ok((coded_url, next)) => Ok((Condition::StateToken { not, coded_url }, next)),
                Err(e) => Err(InvalidIf::CodedUrl(e)),
            }
        }
    }

    /// The text of this condition.
    pub fn to_text(&self) -> (text: String)
        ensures
            text@ == condition_text(self@),
    {
        proof {
            reveal_strlit("Not ");
            reveal_strlit("[");
            reveal_strlit("]");
        }
        let mut text = String::new();
        match self {
            Condition::StateToken { not, coded_url } => {
                if *not {
                    text.append("Not ");
                }
                text.append(coded_url.to_text().as_str());
            },
            Condition::ETag { not, etag } => {
                if *not {
                    text.append("Not ");
                }
                text.append("[");
                text.append(etag.as_str());
                text.append("]");
            },
        }
        assert(text@ =~= condition_text(self@));
        text
    }
}

/// Reads the list of conditions at position `at`, and gives it with the
/// position behind it.
pub fn peek_condition_list(chars: &[char], at: usize) -> (r: Result<
    (Vec<Condition>, usize),
    InvalidIf,
>)
    requires
        at <= chars@.len(),
    ensures
        is_condition_list(r, condition_list_at(chars@, at as int)),
        r matches Ok((_, next)) ==> at < next <= chars@.len(),
{
    if at >= chars.len() || chars[at] != '(' {
        return Err(InvalidIf::ExpectedChar('('));
    }
    let mut list: Vec<Condition> = Vec::new();
    let mut pos = skip_blank(chars, at + 1);
    assert(conditions_view(list@) =~= Seq::empty());
    loop
        invariant
            at < pos <= chars@.len(),
            condition_list_at(chars@, at as int) == conditions_from(
                chars@,
                pos as int,
                conditions_view(list@),
            ),
        decreases chars@.len() - pos,
    {
        if pos < chars.len() && chars[pos] == ')' {
            if list.len() == 0 {
                return Err(InvalidIf::EmptyConditionList);
            }
            return Ok((list, skip_blank(chars, pos + 1)));
        }
        let (condition, next) = Condition::peek(chars, pos)?;
        let ghost before = conditions_view(list@);
        list.push(condition);
        assert(conditions_view(list@) =~= before.push(condition@));
        pos = skip_blank(chars, next);
    }
}

/// Reads lists of conditions from position `at` on: up to the end of the
/// text, or, where `tagged` is set, up to the next resource tag.
pub fn peek_lists(chars: &[char], at: usize, tagged: bool) -> (r: Result<
    (Vec<Vec<Condition>>, usize),
    InvalidIf,
>)
    requires
        at <= chars@.len(),
    ensures
        is_lists(r, lists_from(chars@, at as int, Seq::empty(), tagged)),
        r matches Ok((_, next)) ==> at <= next <= chars@.len(),
{
    let mut lists: Vec<Vec<Condition>> = Vec::new();
    let mut pos = at;
    assert(lists_view(lists@) =~= Seq::empty());
    loop
        invariant
            at <= pos <= chars@.len(),
            lists_from(chars@, at as int, Seq::empty(), tagged) == lists_from(
                chars@,
                pos as int,
                lists_view(lists@),
                tagged,
            ),
        decreases chars@.len() - pos,
    {
        if pos >= chars.len() || (tagged && chars[pos] == '<') {
            if lists.len() == 0 {
                return Err(InvalidIf::EmptyConditionList);
            }
            return Ok((lists, pos));
        }
        let (list, next) = peek_condition_list(chars, pos)?;
        let ghost before = lists_view(lists@);
        let ghost added = conditions_view(list@);
        lists.push(list);
        assert(lists_view(lists@) =~= before.push(added));
        pos = skip_blank(chars, next);
    }
}

impl If {
    /// Reads a header from its text.
    pub fn peek(chars: &[char]) -> (r: Result<If, InvalidIf>)
        ensures
            match if_parsed(chars@) {
                Ok(header) => r matches Ok(found) && found@ == header,
                Err(e) => r matches Err(x) && x == e,
            },
            r matches Ok(found) ==> found@.wf(),
    {
        proof {
            lemma_parsed_wf(chars@);
        }
        let text = trim(chars);
        let s = text.as_slice();
        match ResourceTag::peek(s, 0) {
            Ok(_) => {
                let mut resources: Vec<(ResourceTag, Vec<Vec<Condition>>)> = Vec::new();
                let mut pos: usize = 0;
                assert(resources_view(resources@) =~= Seq::empty());
                loop
                    invariant
                        0 <= pos <= s@.len(),
                        s@ == trimmed(chars@),
                        resource_tag_at(s@, 0).is_ok(),
                        resources_from(s@, 0, Seq::empty()) == resources_from(
                            s@,
                            pos as int,
                            resources_view(resources@),
                        ),
                    decreases s@.len() - pos,
                {
                    if pos >= s.len() {
                        if resources.len() == 0 {
                            return Err(InvalidIf::EmptyResourceList);
                        }
                        proof {
                            lemma_parsed_wf(chars@);
                        }
                        return Ok(If::TaggedList(resources));
                    }
                    let (tag, next) = ResourceTag::peek(s, pos)?;
                    let (lists, behind) = peek_lists(s, skip_blank(s, next), true)?;
                    let ghost before = resources_view(resources@);
                    let ghost added = (tag, lists_view(lists@));
                    resources.push((tag, lists));
                    assert(resources_view(resources@) =~= before.push(added));
                    pos = behind;
                }
            },
            Err(_) => {
                let (lists, _) = peek_lists(s, 0, false)?;
                Ok(If::NoTagList(lists))
            },
        }
    }

    /// Parses a header from its text.
    pub fn parse(text: &str) -> (r: Result<If, InvalidIf>)
        ensures
            match if_parsed(text@) {
                Ok(header) => r matches Ok(found) && found@ == header,
                Err(e) => r matches Err(x) && x == e,
            },
            r matches Ok(found) ==> found@.wf(),
    {
        let chars = to_chars(text);
        If::peek(chars.as_slice())
    }

    /// Decodes the header from the values of its header field: there must
    /// be one value, it must be text, and the text must be a header.
    pub fn decode(values: &[Vec<u8>]) -> (r: Result<If, InvalidHeader>)
        ensures
            match r {
                Ok(found) => values@.len() == 1 && is_header_text(values@[0]@) && if_parsed(
                    header_text(values@[0]@),
                ) == Ok::<IfView, InvalidIf>(found@),
                Err(_) => values@.len() != 1 || !is_header_text(values@[0]@) || if_parsed(
                    header_text(values@[0]@),
                ).is_err(),
            },
            r matches Ok(found) ==> found@.wf(),
    {
        let chars = extract_chars(values)?;
        match If::peek(chars.as_slice()) {
            Ok(found) => Ok(found),
            Err(_) => Err(InvalidHeader),
        }
    }

    /// Encodes the header as the text of one value.
    pub fn encode(&self) -> (text: String)
        ensures
            text@ == if_text(self@),
    {
        self.to_text()
    }

    /// The text of this header.
    pub fn to_text(&self) -> (text: String)
        ensures
            text@ == if_text(self@),
    {
        let mut text = String::new();
        match self {
            If::NoTagList(lists) => {
                push_lists_text(&mut text, lists);
            },
            If::TaggedList(resources) => {
                let mut i: usize = 0;
                while i < resources.len()
                    invariant
                        0 <= i <= resources@.len(),
                        text@ =~= resources_text(resources_view(resources@), i as nat),
                    decreases resources@.len() - i,
                {
                    proof {
                        reveal_strlit(" ");
                    }
                    let ghost before = text@;
                    let ghost here = resources_view(resources@)[i as int];
                    assert(here == (resources@[i as int].0, lists_view(resources@[i as int].1@)));
                    text.append(resources[i].0.to_text().as_str());
                    text.append(" ");
                    push_lists_text(&mut text, &resources[i].1);
                    assert(text@ =~= before + resource_tag_text(here.0) + seq![' '] + lists_text(
                        here.1,
                        here.1.len(),
                    ));
                    i += 1;
                }
            },
        }
        text
    }
}

/// Appends the texts of the conditions of a list, with spaces between
/// them.
fn push_conditions_text(text: &mut String, list: &Vec<Condition>)
    ensures
        final(text)@ == old(text)@ + joined_conditions(conditions_view(list@), list@.len()),
{
    let ghost before = text@;
    let ghost views = conditions_view(list@);
    let mut j: usize = 0;
    while j < list.len()
        invariant
            0 <= j <= list@.len(),
            views == conditions_view(list@),
            text@ =~= before + joined_conditions(views, j as nat),
        decreases list@.len() - j,
    {
        proof {
            reveal_strlit(" ");
        }
        if j > 0 {
            text.append(" ");
        }
        text.append(list[j].to_text().as_str());
        assert(views[j as int] == list@[j as int]@);
        assert(joined_conditions(views, (j + 1) as nat) =~= joined_conditions(views, j as nat) + (
        if j > 0 {
            seq![' ']
        } else {
            Seq::empty()
        }) + condition_text(views[j as int]));
        j += 1;
    }
}

/// Appends the text of lists of conditions.
fn push_lists_text(text: &mut String, lists: &Vec<Vec<Condition>>)
    ensures
        final(text)@ == old(text)@ + lists_text(lists_view(lists@), lists@.len()),
{
    let ghost before = text@;
    let ghost views = lists_view(lists@);
    let mut i: usize = 0;
    while i < lists.len()
        invariant
            0 <= i <= lists@.len(),
            views == lists_view(lists@),
            text@ =~= before + lists_text(views, i as nat),
        decreases lists@.len() - i,
    {
        proof {
            reveal_strlit(" ");
            reveal_strlit("(");
            reveal_strlit(")");
        }
        assert(views[i as int] == conditions_view(lists@[i as int]@));
        if i > 0 {
            text.append(" ");
        }
        text.append("(");
        push_conditions_text(text, &lists[i]);
        text.append(")");
        assert(lists_text(views, (i + 1) as nat) =~= lists_text(views, i as nat) + (if i > 0 {
            seq![' ']
        } else {
            Seq::empty()
        }) + seq!['('] + joined_conditions(views[i as int], views[i as int].len()) + seq![')']);
        i += 1;
    }
}

/// The text of a resource tag: the URI between angle brackets.
pub open spec fn resource_tag_text(tag: ResourceTag) -> Seq<char> {
    seq!['<'] + uri_text(tag.0) + seq!['>']
}

/// The text of a condition: `Not` and a space where it is negated, and
/// then the Coded-URL, or the entity tag between square brackets.
pub open spec fn condition_text(condition: ConditionView) -> Seq<char> {
    match condition {
        ConditionView::StateToken { not, coded_url } => (if not {
            seq!['N', 'o', 't', ' ']
        } else {
            Seq::empty()
        }) + coded_url_text(coded_url),
        ConditionView::ETag { not, etag } => (if not {
            seq!['N', 'o', 't', ' ']
        } else {
            Seq::empty()
        }) + seq!['['] + etag + seq![']'],
    }
}

/// The texts of the first `n` conditions, with a space between them.
pub open spec fn joined_conditions(list: Seq<ConditionView>, n: nat) -> Seq<char>
    decreases n,
{
    if n == 0 || n > list.len() {
        Seq::empty()
    } else if n == 1 {
        condition_text(list[0])
    } else {
        joined_conditions(list, (n - 1) as nat) + seq![' '] + condition_text(list[n - 1])
    }
}

/// The text of the first `n` lists: each between round brackets, with a
/// space between them.
pub open spec fn lists_text(lists: Seq<Seq<ConditionView>>, n: nat) -> Seq<char>
    decreases n,
{
    if n == 0 || n > lists.len() {
        Seq::empty()
    } else if n == 1 {
        seq!['('] + joined_conditions(lists[0], lists[0].len()) + seq![')']
    } else {
        lists_text(lists, (n - 1) as nat) + seq![' '] + seq!['('] + joined_conditions(
            lists[n - 1],
            lists[n - 1].len(),
        ) + seq![')']
    }
}

/// The text of the first `n` resources: each its tag, a space, and its
/// lists, one resource directly behind the other.
pub open spec fn resources_text(
    resources: Seq<(ResourceTag, Seq<Seq<ConditionView>>)>,
    n: nat,
) -> Seq<char>
    decreases n,
{
    if n == 0 || n > resources.len() {
        Seq::empty()
    } else {
        resources_text(resources, (n - 1) as nat) + resource_tag_text(resources[n - 1].0) + seq![
            ' ',
        ] + lists_text(resources[n - 1].1, resources[n - 1].1.len())
    }
}

/// The text of a header.
pub open spec fn if_text(header: IfView) -> Seq<char> {
    match header {
        IfView::NoTagList(lists) => lists_text(lists, lists.len()),
        IfView::TaggedList(resources) => resources_text(resources, resources.len()),
    }
}

impl std::str::FromStr for If {
    type Err = InvalidIf;

    /// Parses a header from its text, as [`If::parse`] does.
    fn from_str(text: &str) -> (r: Result<Self, Self::Err>)
        ensures
            match if_parsed(text@) {
                Ok(header) => r matches Ok(found) && found@ == header,
                Err(e) => r matches Err(x) && x == e,
            },
            r matches Ok(found) ==> found@.wf(),
    {
        If::parse(text)
    }
}

impl InvalidIf {
    /// The message of this error.
    pub fn message(&self) -> (text: String)
        ensures
            match *self {
                InvalidIf::ExpectedChar(c) => text@ == "expected '"@ + seq![c] + "'"@,
                InvalidIf::EmptyConditionList => text@ == "empty condition list"@,
                InvalidIf::EmptyResourceList => text@ == "empty resource list"@,
                InvalidIf::CodedUrl(_) => text@ == "invalid Coded-URL"@,
                InvalidIf::Uri(_) => text@ == "invalid URI"@,
            },
    {
        match self {
            InvalidIf::ExpectedChar(c) => {
                let mut text = "expected '".to_owned();
                push_char(&mut text, *c);
                text.append("'");
                assert(text@ =~= "expected '"@ + seq![*c] + "'"@);
                text
            },
            InvalidIf::EmptyConditionList => "empty condition list".to_owned(),
            InvalidIf::EmptyResourceList => "empty resource list".to_owned(),
            InvalidIf::CodedUrl(_) => "invalid Coded-URL".to_owned(),
            InvalidIf::Uri(_) => "invalid URI".to_owned(),
        }
    }
}

} // verus!
