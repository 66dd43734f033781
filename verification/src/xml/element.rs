//! Element identity: the qualified name under which an element is stored
//! and found again.

use vstd::prelude::*;
use vstd::std_specs::cmp::PartialEqSpecImpl;
use crate::text::{opt_chars, opt_string_clone, opt_string_eq, str_eq};

verus! {

/// Declares an element's namespace and tag.
pub trait Element {
    /// XML namespace of the element, e.g. `DAV:`.
    const NAMESPACE: &'static str;

    /// The prefix used to abbreviate the namespace, e.g. `d`.
    const PREFIX: &'static str;

    /// The local name of the element (the name inside the namespace), e.g.
    /// `multistatus`.
    const LOCAL_NAME: &'static str;
}

/// What an [`ElementName`] holds, as mathematical text.
pub struct NameView {
    pub namespace: Option<Seq<char>>,
    pub prefix: Option<Seq<char>>,
    pub local_name: Seq<char>,
}

impl NameView {
    /// Two names identify the same element when their namespaces and local
    /// names agree. The prefix is only a hint for serialization.
    pub open spec fn same(self, other: NameView) -> bool {
        self.namespace == other.namespace && self.local_name == other.local_name
    }

    /// The name that the element type `E` declares.
    pub open spec fn of<E: Element>() -> NameView {
        NameView {
            namespace: Some(E::NAMESPACE@),
            prefix: Some(E::PREFIX@),
            local_name: E::LOCAL_NAME@,
        }
    }
}

/// A qualified element name with an optional prefix hint.
#[derive(Debug)]
pub struct ElementName {
    pub namespace: Option<String>,
    pub prefix: Option<String>,
    pub local_name: String,
}

impl View for ElementName {
    type V = NameView;

    open spec fn view(&self) -> NameView {
        NameView {
            namespace: opt_chars(self.namespace),
            prefix: opt_chars(self.prefix),
            local_name: self.local_name@,
        }
    }
}

impl ElementName {
    /// The name that the element type `E` declares, prefix hint included.
    pub fn of<E: Element>() -> (name: ElementName)
        ensures
            name@ == NameView::of::<E>(),
    {
        ElementName {
            namespace: Some(E::NAMESPACE.to_owned()),
            prefix: Some(E::PREFIX.to_owned()),
            local_name: E::LOCAL_NAME.to_owned(),
        }
    }

    /// A name without a namespace.
    pub fn local(local_name: &str) -> (name: ElementName)
        ensures
            name@ == (NameView { namespace: None, prefix: None, local_name: local_name@ }),
    {
        ElementName { namespace: None, prefix: None, local_name: local_name.to_owned() }
    }

    /// Whether this name identifies the element `namespace` / `local_name`,
    /// both given as borrowed text.
    pub fn is(&self, namespace: Option<&str>, local_name: &str) -> (r: bool)
        ensures
            r == (self@.local_name == local_name@ && match namespace {
                Some(ns) => self@.namespace == Some(ns@),
                None => self@.namespace.is_none(),
            }),
    {
        let same_namespace = match (&self.namespace, namespace) {
            (Some(a), Some(b)) => str_eq(a.as_str(), b),
            (None, None) => true,
            _ => false,
        };
        same_namespace && str_eq(self.local_name.as_str(), local_name)
    }

    /// Whether this name identifies the element that `E` declares.
    pub fn is_element<E: Element>(&self) -> (r: bool)
        ensures
            r == self@.same(NameView::of::<E>()),
    {
        self.is(Some(E::NAMESPACE), E::LOCAL_NAME)
    }
}

impl Clone for ElementName {
    fn clone(&self) -> (r: Self)
        ensures
            r@ == self@,
    {
        ElementName {
            namespace: opt_string_clone(&self.namespace),
            prefix: opt_string_clone(&self.prefix),
            local_name: self.local_name.clone(),
        }
    }
}

impl PartialEq for ElementName {
    fn eq(&self, other: &Self) -> (r: bool) {
        opt_string_eq(&self.namespace, &other.namespace) && str_eq(
            self.local_name.as_str(),
            other.local_name.as_str(),
        )
    }
}

impl PartialEqSpecImpl for ElementName {
    open spec fn obeys_eq_spec() -> bool {
        true
    }

    open spec fn eq_spec(&self, other: &Self) -> bool {
        self@.same(other@)
    }
}

impl Eq for ElementName {

}

} // verus!
