//! Object identity: an optional namespace and a name.
use vstd::prelude::*;

verus! {

/// Identifies one object of a fixed kind. An absent namespace is distinct
/// from an empty one.
#[derive(Clone, Debug)]
pub struct ObjectKey {
    pub namespace: Option<String>,
    pub name: String,
}

/// The mathematical value of a key.
pub type KeyView = (Option<Seq<char>>, Seq<char>);

pub open spec fn namespace_view(ns: Option<String>) -> Option<Seq<char>> {
    match ns {
        Some(s) => Some(s@),
        None => None,
    }
}

impl View for ObjectKey {
    type V = KeyView;

    open spec fn view(&self) -> KeyView {
        (namespace_view(self.namespace), self.name@)
    }
}

pub(crate) fn same_namespace(a: &Option<String>, b: &Option<String>) -> (r: bool)
    ensures
        r == (namespace_view(*a) == namespace_view(*b)),
{
    match a {
        Some(x) => match b {
            Some(y) => x.eq(y),
            None => false,
        },
        None => b.is_none(),
    }
}

/// A copy of an optional string.
pub(crate) fn copy_optional(s: &Option<String>) -> (r: Option<String>)
    ensures
        namespace_view(r) == namespace_view(*s),
{
    match s {
        Some(t) => Some(t.clone()),
        None => None,
    }
}

impl ObjectKey {
    pub fn new(namespace: Option<String>, name: String) -> (r: ObjectKey)
        ensures
            r@ == (namespace_view(namespace), name@),
    {
        ObjectKey { namespace, name }
    }

    pub fn name(&self) -> (r: &String)
        ensures
            r@ == self@.1,
    {
        &self.name
    }

    pub fn namespace(&self) -> (r: &Option<String>)
        ensures
            namespace_view(*r) == self@.0,
    {
        &self.namespace
    }

    /// Key equality: namespaces and names both match.
    pub fn same_as(&self, other: &ObjectKey) -> (r: bool)
        ensures
            r == (self@ == other@),
    {
        same_namespace(&self.namespace, &other.namespace) && self.name.eq(&other.name)
    }

    /// A copy of this key.
    pub fn duplicate(&self) -> (r: ObjectKey)
        ensures
            r@ == self@,
    {
        ObjectKey { namespace: copy_optional(&self.namespace), name: self.name.clone() }
    }
}

} // verus!
