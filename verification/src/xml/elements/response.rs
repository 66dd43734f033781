//! The `response` element.

use vstd::prelude::*;
use crate::xml::convert::{
    can_collect, collects, fails_with, has_child, item_values, optional_child, required_child,
    values_of, wrong_shape, FromValue, IntoValue,
};
use crate::xml::element::{Element, NameView};
use crate::xml::elements::href::Href;
use crate::xml::elements::propstat::{with_optional, Propstat};
use crate::xml::elements::responsedescription::ResponseDescription;
use crate::xml::elements::status::Status;
use crate::xml::error::{ExtractElementError, ExtractElementErrorKind};
use crate::xml::value::{inserted, occurrences, Value, ValueMap, ValueView};
use crate::xml::{DAV_NAMESPACE, DAV_PREFIX};

verus! {

/// The `response` XML element as defined in
/// [RFC 4918](http://webdav.org/specs/rfc4918.html#ELEMENT_response).
///
/// A response reports on one resource, property group by property group,
/// or on several resources with one status.
#[derive(Clone, Debug, PartialEq)]
pub enum Response {
    /// One resource and at least one `propstat`.
    Propstat {
        href: Href,
        propstat: Vec<Propstat>,
        responsedescription: Option<ResponseDescription>,
    },
    /// At least one resource and one status.
    Status { href: Vec<Href>, status: Status, responsedescription: Option<ResponseDescription> },
}

impl Response {
    /// A response has at least one `propstat`, or else at least one
    /// `href`.
    pub open spec fn wf(&self) -> bool {
        match *self {
            Response::Propstat { propstat, .. } => propstat@.len() >= 1,
            Response::Status { href, .. } => href@.len() >= 1,
        }
    }
}

impl Element for Response {
    const NAMESPACE: &'static str = DAV_NAMESPACE;

    const PREFIX: &'static str = DAV_PREFIX;

    const LOCAL_NAME: &'static str = "response";
}

/// Whether `e` is the error of extracting what stands beside the
/// `propstat` elements: the `href`, then the `responsedescription`.
pub open spec fn fails_beside_propstat(
    entries: Seq<(NameView, ValueView)>,
    e: ExtractElementError,
) -> bool {
    ||| required_child::<Href>(entries, Err(e))
    ||| has_child::<Href>(entries) && optional_child::<ResponseDescription>(entries, Err(e))
}

/// Whether `e` is the error of extracting a response without `propstat`
/// elements: its `href` elements, of which there must be one, then the
/// `status`, then the `responsedescription`.
pub open spec fn fails_without_propstat(
    entries: Seq<(NameView, ValueView)>,
    e: ExtractElementError,
) -> bool {
    let hrefs = occurrences(entries, NameView::of::<Href>());
    ||| collects::<Href>(hrefs, Err(e))
    ||| hrefs.len() == 0 && e.kind == ExtractElementErrorKind::MissingElement(Href::LOCAL_NAME)
    ||| hrefs.len() >= 1 && can_collect::<Href>(hrefs) && required_child::<Status>(entries, Err(e))
    ||| hrefs.len() >= 1 && can_collect::<Href>(hrefs) && has_child::<Status>(entries)
        && optional_child::<ResponseDescription>(entries, Err(e))
}

impl FromValue for Response {
    /// A response is a map. Where it has `propstat` elements, it is of
    /// the first kind, with one `href`; where it has none, it is of the
    /// second kind, with all its `href` elements and a `status`. The
    /// children are extracted in the order of the fields, the `propstat`
    /// elements first, and the first that fails gives the error.
    open spec fn extracts(value: ValueView, out: Result<Self, ExtractElementError>) -> bool {
        match value {
            ValueView::Elements(entries) => {
                let propstats = occurrences(entries, NameView::of::<Propstat>());
                match out {
                    Ok(Response::Propstat { href, propstat, responsedescription }) => {
                        &&& propstat@.len() >= 1
                        &&& collects::<Propstat>(propstats, Ok(propstat))
                        &&& required_child::<Href>(entries, Ok(href))
                        &&& optional_child::<ResponseDescription>(entries, Ok(responsedescription))
                    },
                    Ok(Response::Status { href, status, responsedescription }) => {
                        &&& propstats.len() == 0
                        &&& href@.len() >= 1
                        &&& collects::<Href>(occurrences(entries, NameView::of::<Href>()), Ok(href))
                        &&& required_child::<Status>(entries, Ok(status))
                        &&& optional_child::<ResponseDescription>(entries, Ok(responsedescription))
                    },
                    Err(e) => {
                        ||| collects::<Propstat>(propstats, Err(e))
                        ||| propstats.len() >= 1 && can_collect::<Propstat>(propstats)
                            && fails_beside_propstat(entries, e)
                        ||| propstats.len() == 0 && fails_without_propstat(entries, e)
                    },
                }
            },
            _ => fails_with(out, wrong_shape("map", value)),
        }
    }

    fn from_value(value: &Value) -> (out: Result<Self, ExtractElementError>) {
        let map = value.to_map()?;
        let propstat = map.get_all::<Propstat>()?;
        let ghost propstats = occurrences(map@, NameView::of::<Propstat>());
        assert(collects::<Propstat>(propstats, Ok(propstat)));
        if propstat.len() > 0 {
            let href = map.get_required::<Href>()?;
            assert(required_child::<Href>(map@, Ok(href)));
            let responsedescription = map.get_if_present::<ResponseDescription>()?;
            Ok(Response::Propstat { href, propstat, responsedescription })
        } else {
            let href = map.get_all::<Href>()?;
            let ghost hrefs = occurrences(map@, NameView::of::<Href>());
            assert(collects::<Href>(hrefs, Ok(href)));
            if href.len() == 0 {
                return Err(
                    ExtractElementError::new(
                        ExtractElementErrorKind::MissingElement(Href::LOCAL_NAME),
                    ),
                );
            }
            let status = map.get_required::<Status>()?;
            assert(required_child::<Status>(map@, Ok(status)));
            let responsedescription = map.get_if_present::<ResponseDescription>()?;
            Ok(Response::Status { href, status, responsedescription })
        }
    }
}

impl IntoValue for Response {
    /// A response can be turned into a node where it is well formed: the
    /// list that it is stored as has an item.
    open spec fn encodable(&self) -> bool {
        self.wf()
    }

    fn is_encodable(&self) -> (r: bool) {
        match self {
            Response::Propstat { propstat, .. } => propstat.len() >= 1,
            Response::Status { href, .. } => href.len() >= 1,
        }
    }

    /// The node has the children of the response in the order of its
    /// fields. The `propstat` elements of the first kind and the `href`
    /// elements of the second kind are stored as a list, even where there
    /// is only one.
    open spec fn as_value(&self) -> ValueView {
        match *self {
            Response::Propstat { href, propstat, responsedescription } => ValueView::Elements(
                with_optional(
                    inserted(
                        inserted(Seq::empty(), NameView::of::<Href>(), href.as_value()),
                        NameView::of::<Propstat>(),
                        ValueView::List(item_values(propstat@)),
                    ),
                    responsedescription,
                ),
            ),
            Response::Status { href, status, responsedescription } => ValueView::Elements(
                with_optional(
                    inserted(
                        inserted(
                            Seq::empty(),
                            NameView::of::<Href>(),
                            ValueView::List(item_values(href@)),
                        ),
                        NameView::of::<Status>(),
                        status.as_value(),
                    ),
                    responsedescription,
                ),
            ),
        }
    }

    fn into_value(self) -> (value: Value) {
        let mut map = ValueMap::new();
        match self {
            Response::Propstat { href, propstat, responsedescription } => {
                map.insert::<Href>(href.into_value());
                map.insert::<Propstat>(Value::List(values_of(propstat)));
                if let Some(responsedescription) = responsedescription {
                    map.insert::<ResponseDescription>(responsedescription.into_value());
                }
            },
            Response::Status { href, status, responsedescription } => {
                map.insert::<Href>(Value::List(values_of(href)));
                map.insert::<Status>(status.into_value());
                if let Some(responsedescription) = responsedescription {
                    map.insert::<ResponseDescription>(responsedescription.into_value());
                }
            },
        }
        Value::Elements(map)
    }
}

/// The name under which the element is stored and written.
pub proof fn lemma_name()
    ensures
        Response::NAMESPACE@ == "DAV:"@,
        Response::PREFIX@ == "d"@,
        Response::LOCAL_NAME@ == "response"@,
{
}

} // verus!
