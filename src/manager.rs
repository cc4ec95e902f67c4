//! The manager: several controllers, and one watcher per distinct watch.
use vstd::prelude::*;
use crate::controller::{views_of, Controller, ControllerBuilder, Operator};
use crate::watch::{Watch, WatchView};

verus! {

/// Every watch a controller needs: its managed kind, what it owns and what
/// it caches.
pub open spec fn controller_watches(c: Controller) -> Set<WatchView> {
    set![c.manages@] + views_of(c.owns@).to_set() + views_of(c.watches@).to_set()
}

pub open spec fn all_watches(cs: Seq<Controller>) -> Set<WatchView>
    decreases cs.len(),
{
    if cs.len() == 0 {
        Set::empty()
    } else {
        all_watches(cs.drop_last()) + controller_watches(cs.last())
    }
}

/// Adds `w` to `out` unless an equivalent watch is there.
fn add_distinct(out: &mut Vec<Watch>, w: &Watch)
    requires
        views_of(old(out)@).no_duplicates(),
    ensures
        views_of(final(out)@).no_duplicates(),
        views_of(final(out)@).to_set() == views_of(old(out)@).to_set().insert(w@),
{
    let ghost before = views_of(out@);
    let mut i: usize = 0;
    while i < out.len()
        invariant
            i <= out.len(),
            before == views_of(out@),
            before.no_duplicates(),
            forall|j: int| 0 <= j < i ==> before[j] != w@,
        decreases out.len() - i,
    {
        if out[i].equivalent(w) {
            proof {
                assert(before[i as int] == w@);
                assert(before.to_set().insert(w@) =~= before.to_set());
            }
            return;
        }
        i = i + 1;
    }
    out.push(w.duplicate());
    proof {
        let after = views_of(out@);
        assert(after =~= before.push(w@));
        assert(!before.contains(w@));
        assert(after.to_set() =~= before.to_set().insert(w@)) by {
            assert forall|x: WatchView| after.contains(x) == (before.contains(x) || x == w@) by {
                if after.contains(x) {
                    let j = choose|j: int| 0 <= j < after.len() && after[j] == x;
                    if j < before.len() {
                        assert(before[j] == x);
                    }
                }
                if before.contains(x) {
                    let j = choose|j: int| 0 <= j < before.len() && before[j] == x;
                    assert(after[j] == x);
                }
                assert(after[before.len() as int] == w@);
            }
        }
    }
}

/// Adds each of `ws` to `out` unless an equivalent watch is there.
fn add_all_distinct(out: &mut Vec<Watch>, ws: &Vec<Watch>)
    requires
        views_of(old(out)@).no_duplicates(),
    ensures
        views_of(final(out)@).no_duplicates(),
        views_of(final(out)@).to_set() == views_of(old(out)@).to_set() + views_of(ws@).to_set(),
{
    let ghost start = views_of(out@).to_set();
    let ghost wv = views_of(ws@);
    let mut i: usize = 0;
    while i < ws.len()
        invariant
            i <= ws.len(),
            wv == views_of(ws@),
            views_of(out@).no_duplicates(),
            views_of(out@).to_set() == start + wv.subrange(0, i as int).to_set(),
        decreases ws.len() - i,
    {
        add_distinct(out, &ws[i]);
        proof {
            assert(wv.subrange(0, i + 1).to_set() =~= wv.subrange(0, i as int).to_set().insert(
                wv[i as int],
            )) by {
                let a = wv.subrange(0, i + 1);
                let b = wv.subrange(0, i as int);
                assert forall|x: WatchView| a.contains(x) == (b.contains(x) || x == wv[i as int]) by {
                    if a.contains(x) {
                        let j = choose|j: int| 0 <= j < a.len() && a[j] == x;
                        if j < i {
                            assert(b[j] == x);
                        }
                    }
                    if b.contains(x) {
                        let j = choose|j: int| 0 <= j < b.len() && b[j] == x;
                        assert(a[j] == x);
                    }
                    assert(a[i as int] == wv[i as int]);
                }
            }
            assert(views_of(out@).to_set() =~= start + wv.subrange(0, i + 1).to_set());
        }
        i = i + 1;
    }
    proof {
        assert(wv.subrange(0, ws.len() as int) =~= wv);
    }
}

/// Coordinates controllers that share one API client and one object store.
pub struct Manager {
    controllers: Vec<Controller>,
}

impl Manager {
    pub closed spec fn controllers(self) -> Seq<Controller> {
        self.controllers@
    }

    pub fn new() -> (r: Manager)
        ensures
            r.controllers() == Seq::<Controller>::empty(),
    {
        Manager { controllers: Vec::new() }
    }

    /// Registers a controller and hands its operator back, to be run by
    /// the controller's runtime.
    pub fn register_controller<O: Operator>(&mut self, builder: ControllerBuilder<O>) -> (r: O)
        ensures
            final(self).controllers().len() == old(self).controllers().len() + 1,
            final(self).controllers().drop_last() == old(self).controllers(),
            final(self).controllers().last().manages@.namespace == builder.namespace_spec(),
            final(self).controllers().last().manages@.filter == builder.filter_spec(),
            views_of(final(self).controllers().last().owns@) == builder.owns_view(),
            views_of(final(self).controllers().last().watches@) == builder.watches_view(),
            final(self).controllers().last().buffer == builder.buffer_spec(),
            r == builder.controller_spec(),
    {
        let (controller, operator) = builder.build();
        self.controllers.push(controller);
        proof {
            assert(self.controllers@.drop_last() =~= old(self).controllers@);
        }
        operator
    }

    /// The watches to launch a watcher for: every watch of every registered
    /// controller, and equivalent watches only once.
    pub fn watchers(&self) -> (r: Vec<Watch>)
        ensures
            views_of(r@).no_duplicates(),
            views_of(r@).to_set() == all_watches(self.controllers()),
    {
        let mut out: Vec<Watch> = Vec::new();
        let mut i: usize = 0;
        proof {
            assert(views_of(out@) =~= Seq::<WatchView>::empty());
            assert(views_of(out@).to_set() =~= Set::<WatchView>::empty());
            assert(self.controllers@.subrange(0, 0) =~= Seq::<Controller>::empty());
        }
        while i < self.controllers.len()
            invariant
                i <= self.controllers.len(),
                views_of(out@).no_duplicates(),
                views_of(out@).to_set() == all_watches(self.controllers@.subrange(0, i as int)),
            decreases self.controllers.len() - i,
        {
            let c = &self.controllers[i];
            let ghost before = views_of(out@).to_set();
            add_distinct(&mut out, &c.manages);
            add_all_distinct(&mut out, &c.owns);
            add_all_distinct(&mut out, &c.watches);
            proof {
                let next = self.controllers@.subrange(0, i + 1);
                assert(next.drop_last() =~= self.controllers@.subrange(0, i as int));
                assert(next.last() == *c);
                assert(views_of(out@).to_set() =~= before + controller_watches(*c));
            }
            i = i + 1;
        }
        proof {
            assert(self.controllers@.subrange(0, self.controllers@.len() as int)
                =~= self.controllers@);
        }
        out
    }
}

} // verus!
