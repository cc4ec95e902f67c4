//! Controller registration: the managed kind and the auxiliary watches.
use vstd::prelude::*;
use crate::key::{copy_optional, namespace_view};
use crate::watch::{Watch, WatchFilter, WatchView, Watchable};

verus! {

/// An operator, known here by the kind of object it manages.
pub trait Operator {
    type Manifest: Watchable;
}

/// The buffer length of the channels between watchers and runtimes when
/// none is set.
pub const DEFAULT_BUFFER: usize = 32;

pub open spec fn views_of(ws: Seq<Watch>) -> Seq<WatchView> {
    ws.map_values(|w: Watch| w@)
}

/// Collects what a controller needs before it is registered.
pub struct ControllerBuilder<O> {
    controller: O,
    watches: Vec<Watch>,
    owns: Vec<Watch>,
    namespace: Option<String>,
    filter: WatchFilter,
    buffer: usize,
}

impl<O: Operator> ControllerBuilder<O> {
    /// Watches whose objects are only cached locally.
    pub closed spec fn watches_view(self) -> Seq<WatchView> {
        views_of(self.watches@)
    }

    /// Watches whose objects notify their owners.
    pub closed spec fn owns_view(self) -> Seq<WatchView> {
        views_of(self.owns@)
    }

    /// The namespace the managed kind is restricted to, if any.
    pub closed spec fn namespace_spec(self) -> Option<Seq<char>> {
        namespace_view(self.namespace)
    }

    pub closed spec fn filter_spec(self) -> (Option<Seq<char>>, Option<Seq<char>>) {
        self.filter@
    }

    pub closed spec fn buffer_spec(self) -> usize {
        self.buffer
    }

    pub closed spec fn controller_spec(self) -> O {
        self.controller
    }

    /// Everything but the auxiliary watches is as in `other`.
    pub open spec fn same_settings(self, other: Self) -> bool {
        &&& self.namespace_spec() == other.namespace_spec()
        &&& self.filter_spec() == other.filter_spec()
        &&& self.buffer_spec() == other.buffer_spec()
        &&& self.controller_spec() == other.controller_spec()
    }

    /// A builder for `operator`: cluster scoped, unfiltered, with the default
    /// buffer and no auxiliary watch.
    pub fn new(operator: O) -> (r: Self)
        ensures
            r.watches_view() == Seq::<WatchView>::empty(),
            r.owns_view() == Seq::<WatchView>::empty(),
            r.namespace_spec() == None::<Seq<char>>,
            r.filter_spec() == (None::<Seq<char>>, None::<Seq<char>>),
            r.buffer_spec() == DEFAULT_BUFFER,
            r.controller_spec() == operator,
    {
        let r = ControllerBuilder {
            controller: operator,
            watches: Vec::new(),
            owns: Vec::new(),
            namespace: None,
            filter: WatchFilter::everything(),
            buffer: DEFAULT_BUFFER,
        };
        proof {
            assert(r.watches_view() =~= Seq::<WatchView>::empty());
            assert(r.owns_view() =~= Seq::<WatchView>::empty());
        }
        r
    }

    /// Sets the buffer length of the internal channels.
    pub fn with_buffer(self, buffer: usize) -> (r: Self)
        ensures
            r.buffer_spec() == buffer,
            r.namespace_spec() == self.namespace_spec(),
            r.filter_spec() == self.filter_spec(),
            r.controller_spec() == self.controller_spec(),
            r.watches_view() == self.watches_view(),
            r.owns_view() == self.owns_view(),
    {
        let mut s = self;
        s.buffer = buffer;
        s
    }

    pub fn buffer(&self) -> (r: usize)
        ensures
            r == self.buffer_spec(),
    {
        self.buffer
    }

    /// The watch on the managed kind.
    pub fn manages(&self) -> (r: Watch)
        ensures
            r@.namespace == self.namespace_spec(),
            r@.filter == self.filter_spec(),
    {
        Watch::new::<O::Manifest>(copy_optional(&self.namespace), self.filter.duplicate())
    }

    /// Restricts the managed kind to one namespace.
    pub fn namespaced(self, namespace: &str) -> (r: Self)
        ensures
            r.namespace_spec() == Some(namespace@),
            r.filter_spec() == self.filter_spec(),
            r.buffer_spec() == self.buffer_spec(),
            r.controller_spec() == self.controller_spec(),
            r.watches_view() == self.watches_view(),
            r.owns_view() == self.owns_view(),
    {
        let mut s = self;
        s.namespace = Some(namespace.to_owned());
        s
    }

    /// Restricts the managed kind to the objects that match `config`.
    pub fn with_config(self, config: WatchFilter) -> (r: Self)
        ensures
            r.filter_spec() == config@,
            r.namespace_spec() == self.namespace_spec(),
            r.buffer_spec() == self.buffer_spec(),
            r.controller_spec() == self.controller_spec(),
            r.watches_view() == self.watches_view(),
            r.owns_view() == self.owns_view(),
    {
        let mut s = self;
        s.filter = config;
        s
    }

    fn add_watch(self, w: Watch) -> (r: Self)
        ensures
            r.watches_view() == self.watches_view().push(w@),
            r.owns_view() == self.owns_view(),
            r.same_settings(self),
    {
        let mut s = self;
        s.watches.push(w);
        proof {
            assert(views_of(s.watches@) =~= views_of(self.watches@).push(w@));
        }
        s
    }

    fn add_owned(self, w: Watch) -> (r: Self)
        ensures
            r.owns_view() == self.owns_view().push(w@),
            r.watches_view() == self.watches_view(),
            r.same_settings(self),
    {
        let mut s = self;
        s.owns.push(w);
        proof {
            assert(views_of(s.owns@) =~= views_of(self.owns@).push(w@));
        }
        s
    }

    /// Caches all objects of kind `R`, cluster wide.
    pub fn watches<R: Watchable>(self) -> (r: Self)
        ensures
            r.watches_view().len() == self.watches_view().len() + 1,
            r.watches_view().drop_last() == self.watches_view(),
            r.watches_view().last().namespace == None::<Seq<char>>,
            r.watches_view().last().filter == (None::<Seq<char>>, None::<Seq<char>>),
            r.owns_view() == self.owns_view(),
            r.same_settings(self),
    {
        let w = Watch::new::<R>(None, WatchFilter::everything());
        self.add_watch(w)
    }

    /// Caches the objects of kind `R` that match `config`, cluster wide.
    pub fn watches_with_params<R: Watchable>(self, config: WatchFilter) -> (r: Self)
        ensures
            r.watches_view().len() == self.watches_view().len() + 1,
            r.watches_view().drop_last() == self.watches_view(),
            r.watches_view().last().namespace == None::<Seq<char>>,
            r.watches_view().last().filter == config@,
            r.owns_view() == self.owns_view(),
            r.same_settings(self),
    {
        let w = Watch::new::<R>(None, config);
        self.add_watch(w)
    }

    /// Caches all objects of kind `R` in `namespace`.
    pub fn watches_namespaced<R: Watchable>(self, namespace: &str) -> (r: Self)
        ensures
            r.watches_view().len() == self.watches_view().len() + 1,
            r.watches_view().drop_last() == self.watches_view(),
            r.watches_view().last().namespace == Some(namespace@),
            r.watches_view().last().filter == (None::<Seq<char>>, None::<Seq<char>>),
            r.owns_view() == self.owns_view(),
            r.same_settings(self),
    {
        let w = Watch::new::<R>(Some(namespace.to_owned()), WatchFilter::everything());
        self.add_watch(w)
    }

    /// Caches the objects of kind `R` in `namespace` that match `config`.
    pub fn watches_namespaced_with_params<R: Watchable>(
        self,
        namespace: &str,
        config: WatchFilter,
    ) -> (r: Self)
        ensures
            r.watches_view().len() == self.watches_view().len() + 1,
            r.watches_view().drop_last() == self.watches_view(),
            r.watches_view().last().namespace == Some(namespace@),
            r.watches_view().last().filter == config@,
            r.owns_view() == self.owns_view(),
            r.same_settings(self),
    {
        let w = Watch::new::<R>(Some(namespace.to_owned()), config);
        self.add_watch(w)
    }

    /// Watches all objects of kind `R`, cluster wide, and notifies their
    /// owners.
    pub fn owns<R: Watchable>(self) -> (r: Self)
        ensures
            r.owns_view().len() == self.owns_view().len() + 1,
            r.owns_view().drop_last() == self.owns_view(),
            r.owns_view().last().namespace == None::<Seq<char>>,
            r.owns_view().last().filter == (None::<Seq<char>>, None::<Seq<char>>),
            r.watches_view() == self.watches_view(),
            r.same_settings(self),
    {
        let w = Watch::new::<R>(None, WatchFilter::everything());
        self.add_owned(w)
    }

    /// Watches the objects of kind `R` that match `config`, cluster wide,
    /// and notifies their owners.
    pub fn owns_with_params<R: Watchable>(self, config: WatchFilter) -> (r: Self)
        ensures
            r.owns_view().len() == self.owns_view().len() + 1,
            r.owns_view().drop_last() == self.owns_view(),
            r.owns_view().last().namespace == None::<Seq<char>>,
            r.owns_view().last().filter == config@,
            r.watches_view() == self.watches_view(),
            r.same_settings(self),
    {
        let w = Watch::new::<R>(None, config);
        self.add_owned(w)
    }

    /// Watches all objects of kind `R` in `namespace` and notifies their
    /// owners.
    pub fn owns_namespaced<R: Watchable>(self, namespace: &str) -> (r: Self)
        ensures
            r.owns_view().len() == self.owns_view().len() + 1,
            r.owns_view().drop_last() == self.owns_view(),
            r.owns_view().last().namespace == Some(namespace@),
            r.owns_view().last().filter == (None::<Seq<char>>, None::<Seq<char>>),
            r.watches_view() == self.watches_view(),
            r.same_settings(self),
    {
        let w = Watch::new::<R>(Some(namespace.to_owned()), WatchFilter::everything());
        self.add_owned(w)
    }

    /// Watches the objects of kind `R` in `namespace` that match `config`
    /// and notifies their owners.
    pub fn owns_namespaced_with_params<R: Watchable>(
        self,
        namespace: &str,
        config: WatchFilter,
    ) -> (r: Self)
        ensures
            r.owns_view().len() == self.owns_view().len() + 1,
            r.owns_view().drop_last() == self.owns_view(),
            r.owns_view().last().namespace == Some(namespace@),
            r.owns_view().last().filter == config@,
            r.watches_view() == self.watches_view(),
            r.same_settings(self),
    {
        let w = Watch::new::<R>(Some(namespace.to_owned()), config);
        self.add_owned(w)
    }

    /// The watches of the finished builder, and the operator.
    pub fn build(self) -> (r: (Controller, O))
        ensures
            r.0.manages@.namespace == self.namespace_spec(),
            r.0.manages@.filter == self.filter_spec(),
            views_of(r.0.owns@) == self.owns_view(),
            views_of(r.0.watches@) == self.watches_view(),
            r.0.buffer == self.buffer_spec(),
            r.1 == self.controller_spec(),
    {
        let manages = self.manages();
        let ControllerBuilder { controller, watches, owns, namespace: _, filter: _, buffer } = self;
        (Controller { manages, owns, watches, buffer }, controller)
    }
}

/// The watches of a registered controller.
pub struct Controller {
    pub manages: Watch,
    pub owns: Vec<Watch>,
    pub watches: Vec<Watch>,
    pub buffer: usize,
}

} // verus!
