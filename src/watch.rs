//! Watch descriptors: which kind to watch, where, and with which list filter.
use vstd::prelude::*;
use crate::key::{copy_optional, namespace_view, same_namespace};

verus! {

/// A kind of object that can be watched, known by its API group, version
/// and kind.
pub trait Watchable {
    fn group() -> String;

    fn version() -> String;

    fn kind() -> String;
}

/// Restricts a watch to the objects that match label and field selectors;
/// the default restricts nothing.
#[derive(Debug)]
pub struct WatchFilter {
    pub label_selector: Option<String>,
    pub field_selector: Option<String>,
}

impl View for WatchFilter {
    type V = (Option<Seq<char>>, Option<Seq<char>>);

    open spec fn view(&self) -> (Option<Seq<char>>, Option<Seq<char>>) {
        (namespace_view(self.label_selector), namespace_view(self.field_selector))
    }
}

impl WatchFilter {
    /// The filter that lets every object through.
    pub fn everything() -> (r: WatchFilter)
        ensures
            r@ == (None::<Seq<char>>, None::<Seq<char>>),
    {
        WatchFilter { label_selector: None, field_selector: None }
    }

    pub fn duplicate(&self) -> (r: WatchFilter)
        ensures
            r@ == self@,
    {
        WatchFilter {
            label_selector: copy_optional(&self.label_selector),
            field_selector: copy_optional(&self.field_selector),
        }
    }

    pub fn same_as(&self, other: &WatchFilter) -> (r: bool)
        ensures
            r == (self@ == other@),
    {
        same_namespace(&self.label_selector, &other.label_selector) && same_namespace(
            &self.field_selector,
            &other.field_selector,
        )
    }
}

/// The five fields that identify a watch.
pub struct WatchView {
    pub group: Seq<char>,
    pub version: Seq<char>,
    pub kind: Seq<char>,
    pub namespace: Option<Seq<char>>,
    pub filter: (Option<Seq<char>>, Option<Seq<char>>),
}

/// What a watcher needs: the (group, version, kind) of the resource, an
/// optional namespace, and the list filter.
#[derive(Debug)]
pub struct Watch {
    pub group: String,
    pub version: String,
    pub kind: String,
    pub namespace: Option<String>,
    pub filter: WatchFilter,
}

impl View for Watch {
    type V = WatchView;

    open spec fn view(&self) -> WatchView {
        WatchView {
            group: self.group@,
            version: self.version@,
            kind: self.kind@,
            namespace: namespace_view(self.namespace),
            filter: self.filter@,
        }
    }
}

impl Watch {
    /// A watch on kind `R`, in `namespace` if one is given.
    pub fn new<R: Watchable>(namespace: Option<String>, filter: WatchFilter) -> (r: Watch)
        ensures
            r@.namespace == namespace_view(namespace),
            r@.filter == filter@,
    {
        Watch { group: R::group(), version: R::version(), kind: R::kind(), namespace, filter }
    }

    pub fn duplicate(&self) -> (r: Watch)
        ensures
            r@ == self@,
    {
        Watch {
            group: self.group.clone(),
            version: self.version.clone(),
            kind: self.kind.clone(),
            namespace: copy_optional(&self.namespace),
            filter: self.filter.duplicate(),
        }
    }

    /// Two watches are equivalent when all five fields match.
    pub fn equivalent(&self, other: &Watch) -> (r: bool)
        ensures
            r == (self@ == other@),
    {
        self.group.eq(&other.group) && self.version.eq(&other.version) && self.kind.eq(&other.kind)
            && same_namespace(&self.namespace, &other.namespace) && self.filter.same_as(
            &other.filter,
        )
    }
}

} // verus!
