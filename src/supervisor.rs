//! The per-object supervisor, as a state machine from events to actions.
//!
//! A supervisor registers its object, runs the object's state machine raced
//! against deletion, waits for the object to go, drops the object state once,
//! deregisters it, deletes it through the API and waits for the deletion to be
//! confirmed. The caller performs each action and reports what came of it.
use vstd::prelude::*;

verus! {

#[derive(Clone, Copy, PartialEq, Eq, Structural, Debug)]
pub enum Phase {
    /// The registration hook runs.
    Registering,
    /// The state machine runs from the initial state, raced against deletion.
    Running,
    /// The state machine runs from the deleted state, to completion.
    RunningDeleted,
    /// The state machine is done; the object has not been deleted yet.
    Quiescing,
    /// The object state's asynchronous drop runs.
    Dropping,
    /// The deregistration hook runs.
    Deregistering,
    /// The delete request runs.
    Deleting,
    /// Waiting for the watcher to confirm the deletion.
    Confirming,
    /// The supervisor has exited after the deletion was confirmed.
    Done,
    /// The registration hook failed; the object was not picked up.
    Aborted,
}

/// How the delete request ended. A missing object counts as deleted; other
/// failures are logged and the supervisor goes on.
#[derive(Clone, Copy, PartialEq, Eq, Structural, Debug)]
pub enum DeleteOutcome {
    Deleted,
    NotFound,
    Failed,
}

#[derive(Clone, Copy, PartialEq, Eq, Structural, Debug)]
pub enum SupervisorEvent {
    /// The registration hook returned; `true` when it succeeded.
    Registered(bool),
    /// The state machine ran to completion, with success or failure.
    MachineFinished,
    /// The deleted flag was seen set.
    DeletedSignal,
    /// The asynchronous drop returned.
    Dropped,
    /// The deregistration hook returned; a failure is only logged.
    Deregistered(bool),
    /// The delete request returned.
    ApiDeleted(DeleteOutcome),
    /// The deleted-confirmed flag was seen set.
    Confirmed,
}

#[derive(Clone, Copy, PartialEq, Eq, Structural, Debug)]
pub enum Action {
    RunRegistrationHook,
    /// Run the state machine from the initial state, raced against deletion.
    RunInitialState,
    /// Cancel the state machine if it runs and run it from the deleted state
    /// to completion.
    RunDeletedState,
    AwaitDeleted,
    /// Drop the object state, holding the shared state exclusively.
    AsyncDrop,
    RunDeregistrationHook,
    DeleteObject { grace_period_seconds: u64 },
    AwaitConfirmed,
    Exit,
    /// Nothing new: keep waiting on what runs.
    Continue,
}

/// The supervisor's state, with its history: how many drops it asked for,
/// whether it ran the deleted state, and whether deletion cut the initial run.
pub struct SupervisorState {
    pub phase: Phase,
    pub deleted_seen: bool,
    pub drops: nat,
    pub ran_deleted: bool,
    pub interrupted: bool,
}

pub open spec fn initial_state() -> SupervisorState {
    SupervisorState {
        phase: Phase::Registering,
        deleted_seen: false,
        drops: 0,
        ran_deleted: false,
        interrupted: false,
    }
}

/// The phases after the drop was asked for.
pub open spec fn past_drop(p: Phase) -> bool {
    p == Phase::Dropping || p == Phase::Deregistering || p == Phase::Deleting || p
        == Phase::Confirming || p == Phase::Done
}

pub open spec fn with_phase(s: SupervisorState, p: Phase) -> SupervisorState {
    SupervisorState { phase: p, ..s }
}

pub open spec fn start_drop(s: SupervisorState) -> SupervisorState {
    SupervisorState { phase: Phase::Dropping, drops: s.drops + 1, ..s }
}

pub open spec fn enter_deleted(s: SupervisorState, interrupted: bool) -> SupervisorState {
    SupervisorState {
        phase: Phase::RunningDeleted,
        deleted_seen: true,
        ran_deleted: true,
        interrupted: s.interrupted || interrupted,
        ..s
    }
}

/// One decision of the supervisor.
pub open spec fn step(s: SupervisorState, e: SupervisorEvent) -> (SupervisorState, Action) {
    match s.phase {
        Phase::Registering => match e {
            SupervisorEvent::Registered(true) => if s.deleted_seen {
                (enter_deleted(s, false), Action::RunDeletedState)
            } else {
                (with_phase(s, Phase::Running), Action::RunInitialState)
            },
            SupervisorEvent::Registered(false) => (with_phase(s, Phase::Aborted), Action::Exit),
            SupervisorEvent::DeletedSignal => (
                SupervisorState { deleted_seen: true, ..s },
                Action::Continue,
            ),
            _ => (s, Action::Continue),
        },
        Phase::Running => match e {
            SupervisorEvent::MachineFinished => if s.deleted_seen {
                (start_drop(s), Action::AsyncDrop)
            } else {
                (with_phase(s, Phase::Quiescing), Action::AwaitDeleted)
            },
            SupervisorEvent::DeletedSignal => (enter_deleted(s, true), Action::RunDeletedState),
            _ => (s, Action::Continue),
        },
        Phase::RunningDeleted => match e {
            SupervisorEvent::MachineFinished => (start_drop(s), Action::AsyncDrop),
            _ => (s, Action::Continue),
        },
        Phase::Quiescing => match e {
            SupervisorEvent::DeletedSignal => (
                start_drop(SupervisorState { deleted_seen: true, ..s }),
                Action::AsyncDrop,
            ),
            _ => (s, Action::Continue),
        },
        Phase::Dropping => match e {
            SupervisorEvent::Dropped => (
                with_phase(s, Phase::Deregistering),
                Action::RunDeregistrationHook,
            ),
            _ => (s, Action::Continue),
        },
        Phase::Deregistering => match e {
            SupervisorEvent::Deregistered(_) => (
                with_phase(s, Phase::Deleting),
                Action::DeleteObject { grace_period_seconds: 0 },
            ),
            _ => (s, Action::Continue),
        },
        Phase::Deleting => match e {
            SupervisorEvent::ApiDeleted(_) => (
                with_phase(s, Phase::Confirming),
                Action::AwaitConfirmed,
            ),
            _ => (s, Action::Continue),
        },
        Phase::Confirming => match e {
            SupervisorEvent::Confirmed => (with_phase(s, Phase::Done), Action::Exit),
            _ => (s, Action::Continue),
        },
        Phase::Done => (s, Action::Continue),
        Phase::Aborted => (s, Action::Continue),
    }
}

/// What holds of every state that a supervisor reaches.
pub open spec fn inv(s: SupervisorState) -> bool {
    &&& s.drops <= 1
    &&& (s.drops == 1) == past_drop(s.phase)
    &&& s.ran_deleted ==> s.deleted_seen
    &&& s.interrupted ==> s.ran_deleted
    &&& (s.phase == Phase::RunningDeleted || past_drop(s.phase)) ==> s.deleted_seen
}

pub struct Supervisor {
    phase: Phase,
    deleted_seen: bool,
    drops: Ghost<nat>,
    ran_deleted: Ghost<bool>,
    interrupted: Ghost<bool>,
}

impl View for Supervisor {
    type V = SupervisorState;

    closed spec fn view(&self) -> SupervisorState {
        SupervisorState {
            phase: self.phase,
            deleted_seen: self.deleted_seen,
            drops: self.drops@,
            ran_deleted: self.ran_deleted@,
            interrupted: self.interrupted@,
        }
    }
}

impl Supervisor {
    /// A new supervisor; its first action is the registration hook.
    pub fn new() -> (r: (Supervisor, Action))
        ensures
            r.0@ == initial_state(),
            r.1 == Action::RunRegistrationHook,
    {
        let s = Supervisor {
            phase: Phase::Registering,
            deleted_seen: false,
            drops: Ghost(0),
            ran_deleted: Ghost(false),
            interrupted: Ghost(false),
        };
        (s, Action::RunRegistrationHook)
    }

    pub fn phase(&self) -> (r: Phase)
        ensures
            r == self@.phase,
    {
        self.phase
    }

    fn enter_deleted(&mut self, interrupted: bool)
        ensures
            final(self)@ == enter_deleted(old(self)@, interrupted),
    {
        self.phase = Phase::RunningDeleted;
        self.deleted_seen = true;
        self.ran_deleted = Ghost(true);
        let ghost now: bool = self.interrupted@ || interrupted;
        self.interrupted = Ghost(now);
    }

    fn start_drop(&mut self)
        ensures
            final(self)@ == start_drop(old(self)@),
    {
        self.phase = Phase::Dropping;
        self.drops = Ghost(self.drops@ + 1);
    }

    /// Takes the outcome of the last action, or a flag seen set, and
    /// returns what to do next.
    pub fn on_event(&mut self, e: SupervisorEvent) -> (r: Action)
        ensures
            (final(self)@, r) == step(old(self)@, e),
    {
        match self.phase {
            Phase::Registering => match e {
                SupervisorEvent::Registered(ok) => {
                    if !ok {
                        self.phase = Phase::Aborted;
                        Action::Exit
                    } else if self.deleted_seen {
                        self.enter_deleted(false);
                        Action::RunDeletedState
                    } else {
                        self.phase = Phase::Running;
                        Action::RunInitialState
                    }
                },
                SupervisorEvent::DeletedSignal => {
                    self.deleted_seen = true;
                    Action::Continue
                },
                _ => Action::Continue,
            },
            Phase::Running => match e {
                SupervisorEvent::MachineFinished => {
                    if self.deleted_seen {
                        self.start_drop();
                        Action::AsyncDrop
                    } else {
                        self.phase = Phase::Quiescing;
                        Action::AwaitDeleted
                    }
                },
                SupervisorEvent::DeletedSignal => {
                    self.enter_deleted(true);
                    Action::RunDeletedState
                },
                _ => Action::Continue,
            },
            Phase::RunningDeleted => match e {
                SupervisorEvent::MachineFinished => {
                    self.start_drop();
                    Action::AsyncDrop
                },
                _ => Action::Continue,
            },
            Phase::Quiescing => match e {
                SupervisorEvent::DeletedSignal => {
                    self.deleted_seen = true;
                    self.start_drop();
                    Action::AsyncDrop
                },
                _ => Action::Continue,
            },
            Phase::Dropping => match e {
                SupervisorEvent::Dropped => {
                    self.phase = Phase::Deregistering;
                    Action::RunDeregistrationHook
                },
                _ => Action::Continue,
            },
            Phase::Deregistering => match e {
                SupervisorEvent::Deregistered(_) => {
                    self.phase = Phase::Deleting;
                    Action::DeleteObject { grace_period_seconds: 0 }
                },
                _ => Action::Continue,
            },
            Phase::Deleting => match e {
                SupervisorEvent::ApiDeleted(_) => {
                    self.phase = Phase::Confirming;
                    Action::AwaitConfirmed
                },
                _ => Action::Continue,
            },
            Phase::Confirming => match e {
                SupervisorEvent::Confirmed => {
                    self.phase = Phase::Done;
                    Action::Exit
                },
                _ => Action::Continue,
            },
            Phase::Done => Action::Continue,
            Phase::Aborted => Action::Continue,
        }
    }
}

/// The state reached and the actions asked for when a supervisor in state
/// `s` takes the events `evs` in order.
pub open spec fn run(s: SupervisorState, evs: Seq<SupervisorEvent>) -> (
    SupervisorState,
    Seq<Action>,
)
    decreases evs.len(),
{
    if evs.len() == 0 {
        (s, Seq::empty())
    } else {
        let prev = run(s, evs.drop_last());
        let next = step(prev.0, evs.last());
        (next.0, prev.1.push(next.1))
    }
}

/// How many times `a` occurs in `acts`.
pub open spec fn count_action(acts: Seq<Action>, a: Action) -> nat
    decreases acts.len(),
{
    if acts.len() == 0 {
        0
    } else {
        count_action(acts.drop_last(), a) + if acts.last() == a {
            1nat
        } else {
            0nat
        }
    }
}

proof fn lemma_count_push(acts: Seq<Action>, x: Action, a: Action)
    ensures
        count_action(acts.push(x), a) == count_action(acts, a) + if x == a {
            1nat
        } else {
            0nat
        },
{
    assert(acts.push(x).drop_last() =~= acts);
}

/// What a supervisor's history says of its actions, over any events.
pub proof fn lemma_run_from_start(evs: Seq<SupervisorEvent>)
    ensures
        inv(run(initial_state(), evs).0),
        count_action(run(initial_state(), evs).1, Action::AsyncDrop) == run(
            initial_state(),
            evs,
        ).0.drops,
        run(initial_state(), evs).0.ran_deleted ==> count_action(
            run(initial_state(), evs).1,
            Action::RunDeletedState,
        ) >= 1,
        (forall|i: int| 0 <= i < evs.len() ==> evs[i] != SupervisorEvent::DeletedSignal) ==> {
            &&& !run(initial_state(), evs).0.deleted_seen
            &&& count_action(run(initial_state(), evs).1, Action::RunDeletedState) == 0
        },
    decreases evs.len(),
{
    if evs.len() > 0 {
        let prefix = evs.drop_last();
        lemma_run_from_start(prefix);
        let prev = run(initial_state(), prefix);
        let next = step(prev.0, evs.last());
        lemma_count_push(prev.1, next.1, Action::AsyncDrop);
        lemma_count_push(prev.1, next.1, Action::RunDeletedState);
        if forall|i: int| 0 <= i < evs.len() ==> evs[i] != SupervisorEvent::DeletedSignal {
            assert forall|i: int| 0 <= i < prefix.len() implies prefix[i]
                != SupervisorEvent::DeletedSignal by {
                assert(prefix[i] == evs[i]);
            }
            assert(evs.last() == evs[evs.len() - 1]);
        }
    }
}

/// The object state is dropped exactly once by every supervisor that gets as
/// far as the drop, and never twice.
pub proof fn lemma_async_drop_once(evs: Seq<SupervisorEvent>)
    ensures
        count_action(run(initial_state(), evs).1, Action::AsyncDrop) <= 1,
        past_drop(run(initial_state(), evs).0.phase) ==> count_action(
            run(initial_state(), evs).1,
            Action::AsyncDrop,
        ) == 1,
        !past_drop(run(initial_state(), evs).0.phase) ==> count_action(
            run(initial_state(), evs).1,
            Action::AsyncDrop,
        ) == 0,
{
    lemma_run_from_start(evs);
}

/// Without a deletion signal the deleted state never runs, however the
/// state machine ends.
pub proof fn lemma_no_deletion_no_deleted_state(evs: Seq<SupervisorEvent>)
    requires
        forall|i: int| 0 <= i < evs.len() ==> evs[i] != SupervisorEvent::DeletedSignal,
    ensures
        count_action(run(initial_state(), evs).1, Action::RunDeletedState) == 0,
        !run(initial_state(), evs).0.ran_deleted,
{
    lemma_run_from_start(evs);
}

/// A deletion signal while the state machine runs cuts it at once: the next
/// action is to run the deleted state. Whenever a run was cut, the deleted
/// state has been asked for.
pub proof fn lemma_deletion_cuts_run(s: SupervisorState, evs: Seq<SupervisorEvent>)
    requires
        s.phase == Phase::Running,
    ensures
        step(s, SupervisorEvent::DeletedSignal).1 == Action::RunDeletedState,
        step(s, SupervisorEvent::DeletedSignal).0.phase == Phase::RunningDeleted,
        run(initial_state(), evs).0.interrupted ==> count_action(
            run(initial_state(), evs).1,
            Action::RunDeletedState,
        ) >= 1,
{
    lemma_run_from_start(evs);
}

} // verus!
