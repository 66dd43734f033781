//! The `propfind` element.

use vstd::prelude::*;
use crate::xml::convert::{fails_with, optional_child, wrong_shape, FromValue};
use crate::xml::element::{Element, NameView};
use crate::xml::elements::prop::Properties;
use crate::xml::error::{ExtractElementError, ExtractElementErrorKind};
use crate::xml::value::{lookup, Value, ValueView};
use crate::xml::{DAV_NAMESPACE, DAV_PREFIX};

verus! {

/// The `propfind` XML element as defined in
/// [RFC 4918](http://webdav.org/specs/rfc4918.html#ELEMENT_propfind).
#[derive(Clone, Debug, PartialEq)]
pub enum Propfind {
    Propname,
    Allprop { included: Option<Include> },
    Prop(Properties),
}

impl Element for Propfind {
    const NAMESPACE: &'static str = DAV_NAMESPACE;

    const PREFIX: &'static str = DAV_PREFIX;

    const LOCAL_NAME: &'static str = "propfind";
}

/// The texts of a list of names.
pub open spec fn name_texts(names: &[&'static str]) -> Seq<Seq<char>> {
    names@.map_values(|name: &'static str| name@)
}

/// The names that the error of a conflict lists.
pub open spec fn conflicting_names() -> Seq<Seq<char>> {
    seq!["propname"@, "allprop"@, "include"@]
}

/// Whether `out` is the error of a conflict.
pub open spec fn is_conflict(out: Result<Propfind, ExtractElementError>) -> bool {
    out matches Err(e) && e.kind matches ExtractElementErrorKind::ConflictingElements(names)
        && name_texts(names) == conflicting_names()
}

/// The names that the error of a conflict lists.
fn propfind_choices() -> (names: &'static [&'static str])
    ensures
        name_texts(names) == conflicting_names(),
{
    let names: &'static [&'static str] = &["propname", "allprop", "include"];
    assert(name_texts(names) =~= conflicting_names());
    names
}

impl FromValue for Propfind {
    /// A `propfind` holds exactly one of `propname`, `allprop` and `prop`;
    /// none or several of them are in conflict. Beside `allprop` an
    /// `include` may stand.
    open spec fn extracts(value: ValueView, out: Result<Self, ExtractElementError>) -> bool {
        match value {
            ValueView::Elements(entries) => {
                let propname = lookup(entries, NameView::of::<Propname>()).is_some();
                let allprop = lookup(entries, NameView::of::<Allprop>()).is_some();
                let prop = lookup(entries, NameView::of::<Properties>());
                if propname && !allprop && prop.is_none() {
                    out matches Ok(Propfind::Propname)
                } else if !propname && allprop && prop.is_none() {
                    match out {
                        Ok(Propfind::Allprop { included }) => optional_child::<Include>(
                            entries,
                            Ok(included),
                        ),
                        Ok(_) => false,
                        Err(e) => optional_child::<Include>(entries, Err(e)),
                    }
                } else if !propname && !allprop && prop.is_some() {
                    match out {
                        Ok(Propfind::Prop(found)) => Properties::extracts(prop.unwrap(), Ok(found)),
                        Ok(_) => false,
                        Err(e) => Properties::extracts(prop.unwrap(), Err(e)),
                    }
                } else {
                    is_conflict(out)
                }
            },
            _ => fails_with(out, wrong_shape("map", value)),
        }
    }

    fn from_value(value: &Value) -> (out: Result<Self, ExtractElementError>) {
        let map = value.to_map()?;
        let propname = map.contains::<Propname>();
        let allprop = map.contains::<Allprop>();
        let prop = map.get::<Properties>();
        if propname && !allprop && prop.is_none() {
            Ok(Propfind::Propname)
        } else if !propname && allprop && prop.is_none() {
            Ok(Propfind::Allprop { included: map.get_if_present::<Include>()? })
        } else if !propname && !allprop && prop.is_some() {
            match prop.unwrap() {
                Ok(found) => Ok(Propfind::Prop(found)),
                Err(e) => Err(e),
            }
        } else {
            Err(
                ExtractElementError::new(
                    ExtractElementErrorKind::ConflictingElements(propfind_choices()),
                ),
            )
        }
    }
}

/// The `propname` XML element as defined in
/// [RFC 4918](http://webdav.org/specs/rfc4918.html#ELEMENT_propname).
#[derive(Clone, Debug, PartialEq)]
pub struct Propname;

impl Element for Propname {
    const NAMESPACE: &'static str = DAV_NAMESPACE;

    const PREFIX: &'static str = DAV_PREFIX;

    const LOCAL_NAME: &'static str = "propname";
}

impl FromValue for Propname {
    /// Every node will do: the element has no content.
    open spec fn extracts(value: ValueView, out: Result<Self, ExtractElementError>) -> bool {
        out.is_ok()
    }

    fn from_value(value: &Value) -> (out: Result<Self, ExtractElementError>) {
        Ok(Propname)
    }
}

/// The `allprop` XML element as defined in
/// [RFC 4918](http://webdav.org/specs/rfc4918.html#ELEMENT_allprop).
#[derive(Clone, Debug, PartialEq)]
pub struct Allprop;

impl Element for Allprop {
    const NAMESPACE: &'static str = DAV_NAMESPACE;

    const PREFIX: &'static str = DAV_PREFIX;

    const LOCAL_NAME: &'static str = "allprop";
}

impl FromValue for Allprop {
    /// Every node will do: the element has no content.
    open spec fn extracts(value: ValueView, out: Result<Self, ExtractElementError>) -> bool {
        out.is_ok()
    }

    fn from_value(value: &Value) -> (out: Result<Self, ExtractElementError>) {
        Ok(Allprop)
    }
}

/// The `include` XML element as defined in
/// [RFC 4918](http://webdav.org/specs/rfc4918.html#ELEMENT_include).
///
/// Not yet implemented: nothing can be extracted.
#[derive(Clone, Debug, PartialEq)]
pub struct Include(Vec<String>);

impl Element for Include {
    const NAMESPACE: &'static str = DAV_NAMESPACE;

    const PREFIX: &'static str = DAV_PREFIX;

    const LOCAL_NAME: &'static str = "include";
}

impl FromValue for Include {
    /// Nothing can be extracted yet: every node is refused.
    open spec fn extracts(value: ValueView, out: Result<Self, ExtractElementError>) -> bool {
        fails_with(out, ExtractElementErrorKind::Unsupported("include"))
    }

    fn from_value(value: &Value) -> (out: Result<Self, ExtractElementError>) {
        Err(ExtractElementError::new(ExtractElementErrorKind::Unsupported("include")))
    }
}

/// The names under which the elements of this file are stored and
/// written.
pub proof fn lemma_name()
    ensures
        Propfind::NAMESPACE@ == "DAV:"@,
        Propfind::PREFIX@ == "d"@,
        Propfind::LOCAL_NAME@ == "propfind"@,
        Propname::NAMESPACE@ == "DAV:"@,
        Propname::PREFIX@ == "d"@,
        Propname::LOCAL_NAME@ == "propname"@,
        Allprop::NAMESPACE@ == "DAV:"@,
        Allprop::PREFIX@ == "d"@,
        Allprop::LOCAL_NAME@ == "allprop"@,
        Include::NAMESPACE@ == "DAV:"@,
        Include::PREFIX@ == "d"@,
        Include::LOCAL_NAME@ == "include"@,
{
}

} // verus!
