//! A single-slot, latest-value mailbox between an object's fan-in and its
//! state machine.
//!
//! Writes overwrite what is pending; a read takes the pending value or finds
//! none. Reading before any new write reports `Pending` (the reader then waits
//! for the next write); after the writer has gone it reports `Closed`.
use vstd::prelude::*;

verus! {

pub enum Received<T> {
    Manifest(T),
    Pending,
    Closed,
}

pub struct ManifestCell<T> {
    slot: Option<T>,
    closed: bool,
    history: Ghost<Seq<T>>,
    seen: Ghost<Seq<int>>,
}

impl<T> ManifestCell<T> {
    /// Every value written, the first one given at creation.
    pub closed spec fn history(self) -> Seq<T> {
        self.history@
    }

    /// The positions in `history` of the values the reader has taken, in
    /// the order taken.
    pub closed spec fn seen(self) -> Seq<int> {
        self.seen@
    }

    /// Whether a written value waits to be read.
    pub closed spec fn pending(self) -> bool {
        self.slot is Some
    }

    pub closed spec fn is_closed(self) -> bool {
        self.closed
    }

    /// The values the reader has taken.
    pub open spec fn observed(self) -> Seq<T> {
        self.seen().map_values(|i: int| self.history()[i])
    }

    pub closed spec fn wf(self) -> bool {
        let h = self.history@;
        let s = self.seen@;
        &&& h.len() >= 1
        &&& forall|i: int, j: int| 0 <= i < j < s.len() ==> s[i] < s[j]
        &&& forall|i: int| 0 <= i < s.len() ==> 0 <= #[trigger] s[i] < h.len()
        &&& match self.slot {
            Some(v) => v == h.last() && (s.len() == 0 || s.last() < h.len() - 1),
            None => s.len() > 0 && s.last() == h.len() - 1,
        }
    }

    /// A cell holding the first manifest, not yet read.
    pub fn new(initial: T) -> (r: ManifestCell<T>)
        ensures
            r.wf(),
            r.history() == seq![initial],
            r.seen() == Seq::<int>::empty(),
            r.pending(),
            !r.is_closed(),
    {
        let ghost h = seq![initial];
        ManifestCell { slot: Some(initial), closed: false, history: Ghost(h), seen: Ghost(Seq::empty()) }
    }

    /// Publishes a manifest, replacing any that was not read yet.
    pub fn write(&mut self, v: T)
        requires
            old(self).wf(),
        ensures
            final(self).wf(),
            final(self).history() == old(self).history().push(v),
            final(self).seen() == old(self).seen(),
            final(self).pending(),
            final(self).is_closed() == old(self).is_closed(),
    {
        let ghost h = self.history@;
        self.slot = Some(v);
        self.history = Ghost(h.push(v));
    }

    /// The writer has gone.
    pub fn close(&mut self)
        requires
            old(self).wf(),
        ensures
            final(self).wf(),
            final(self).history() == old(self).history(),
            final(self).seen() == old(self).seen(),
            final(self).pending() == old(self).pending(),
            final(self).is_closed(),
    {
        self.closed = true;
    }

    /// Takes the latest manifest if one is pending.
    pub fn take(&mut self) -> (r: Received<T>)
        requires
            old(self).wf(),
        ensures
            final(self).wf(),
            final(self).history() == old(self).history(),
            !final(self).pending(),
            final(self).is_closed() == old(self).is_closed(),
            match r {
                Received::Manifest(v) => {
                    &&& old(self).pending()
                    &&& v == old(self).history().last()
                    &&& final(self).seen() == old(self).seen().push(
                        old(self).history().len() - 1,
                    )
                },
                Received::Pending => {
                    &&& !old(self).pending()
                    &&& !old(self).is_closed()
                    &&& final(self).seen() == old(self).seen()
                },
                Received::Closed => {
                    &&& !old(self).pending()
                    &&& old(self).is_closed()
                    &&& final(self).seen() == old(self).seen()
                },
            },
    {
        match self.slot.take() {
            Some(v) => {
                let ghost s = self.seen@;
                let ghost last: int = self.history@.len() - 1;
                self.seen = Ghost(s.push(last));
                Received::Manifest(v)
            },
            None => {
                if self.closed {
                    Received::Closed
                } else {
                    Received::Pending
                }
            },
        }
    }
}

/// The manifests a reader takes are a subsequence of those written, in
/// write order, and once nothing is pending the last one taken is the last
/// one written.
pub proof fn lemma_reads_keep_order_and_last<T>(c: ManifestCell<T>)
    requires
        c.wf(),
    ensures
        forall|i: int, j: int| 0 <= i < j < c.seen().len() ==> c.seen()[i] < c.seen()[j],
        forall|i: int| 0 <= i < c.seen().len() ==> 0 <= #[trigger] c.seen()[i] < c.history().len(),
        forall|i: int| 0 <= i < c.seen().len() ==> #[trigger] c.observed()[i] == c.history()[c.seen()[i]],
        !c.pending() ==> c.seen().len() > 0 && c.observed().last() == c.history().last(),
{
}

} // verus!
