//! The per-object deletion flags, set by the fan-in task that reads the
//! object's event channel and read by its supervisor.
use vstd::prelude::*;

verus! {

/// What the fan-in does after an event.
#[derive(Clone, Copy, PartialEq, Eq, Structural, Debug)]
pub enum FanIn {
    /// Publish the applied manifest into the manifest cell and read on.
    Publish,
    /// The object is gone: stop reading.
    Stop,
}

/// `deleted`: the object is going away. `confirmed`: the watcher has reported
/// its deletion. Neither clears once set, and `confirmed` implies `deleted`.
pub struct DeletionFlags {
    deleted: bool,
    confirmed: bool,
}

impl View for DeletionFlags {
    type V = (bool, bool);

    closed spec fn view(&self) -> (bool, bool) {
        (self.deleted, self.confirmed)
    }
}

impl DeletionFlags {
    pub open spec fn wf(self) -> bool {
        self@.1 ==> self@.0
    }

    pub fn new() -> (r: DeletionFlags)
        ensures
            r@ == (false, false),
            r.wf(),
    {
        DeletionFlags { deleted: false, confirmed: false }
    }

    pub fn deleted(&self) -> (r: bool)
        ensures
            r == self@.0,
    {
        self.deleted
    }

    pub fn confirmed(&self) -> (r: bool)
        ensures
            r == self@.1,
    {
        self.confirmed
    }

    /// An applied manifest: one that bears a deletion timestamp marks the
    /// object deleted. The manifest is published either way.
    pub fn on_applied(&mut self, has_deletion_timestamp: bool) -> (r: FanIn)
        requires
            old(self).wf(),
        ensures
            final(self).wf(),
            final(self)@ == (old(self)@.0 || has_deletion_timestamp, old(self)@.1),
            r == FanIn::Publish,
    {
        if has_deletion_timestamp {
            self.deleted = true;
        }
        FanIn::Publish
    }

    /// The watcher reported the deletion: both flags are set and the fan-in
    /// stops.
    pub fn on_deleted(&mut self) -> (r: FanIn)
        requires
            old(self).wf(),
        ensures
            final(self).wf(),
            final(self)@ == (true, true),
            r == FanIn::Stop,
    {
        self.deleted = true;
        self.confirmed = true;
        FanIn::Stop
    }
}

} // verus!
