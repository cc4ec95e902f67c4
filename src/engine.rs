//! The state machine engine: a graph of declared transitions between an
//! operator's states, and the driver that walks one object through it.
//!
//! States are numbered by the operator. A transition to a next state can be
//! built only along a declared edge: `Transition::next` demands the edge of
//! its caller, so verified code that builds an undeclared one does not
//! verify, and `Transition::checked_next` refuses it at run time. The deleted
//! state is reachable from every state.
use vstd::prelude::*;

verus! {

/// A transition was asked for along an edge that was never declared.
#[derive(Clone, Copy, PartialEq, Eq, Structural, Debug)]
pub struct TransitionRejected {
    pub from: u64,
    pub to: u64,
}

pub struct StateGraph {
    edges: Vec<(u64, u64)>,
    initial: u64,
    deleted: u64,
}

impl StateGraph {
    pub closed spec fn edges(self) -> Set<(u64, u64)> {
        self.edges@.to_set()
    }

    pub closed spec fn initial(self) -> u64 {
        self.initial
    }

    pub closed spec fn deleted(self) -> u64 {
        self.deleted
    }

    /// A declared edge, or the implicit edge into the deleted state.
    pub open spec fn allows(self, from: u64, to: u64) -> bool {
        self.edges().contains((from, to)) || to == self.deleted()
    }

    /// A graph with entry state `initial`, deletion state `deleted` and no
    /// declared edge.
    pub fn new(initial: u64, deleted: u64) -> (r: StateGraph)
        ensures
            r.edges() == Set::<(u64, u64)>::empty(),
            r.initial() == initial,
            r.deleted() == deleted,
    {
        let r = StateGraph { edges: Vec::new(), initial, deleted };
        proof {
            assert(r.edges() =~= Set::<(u64, u64)>::empty());
        }
        r
    }

    /// Declares that `from` may go to `to`.
    pub fn declare(&mut self, from: u64, to: u64)
        ensures
            final(self).edges() == old(self).edges().insert((from, to)),
            final(self).initial() == old(self).initial(),
            final(self).deleted() == old(self).deleted(),
    {
        let ghost e = self.edges@;
        self.edges.push((from, to));
        proof {
            assert(self.edges@ == e.push((from, to)));
            assert(self.edges@.to_set() =~= e.to_set().insert((from, to))) by {
                assert forall|x: (u64, u64)| #[trigger] self.edges@.contains(x) == (e.contains(x)
                    || x == (from, to)) by {
                    if self.edges@.contains(x) {
                        let i = choose|i: int| 0 <= i < self.edges@.len() && self.edges@[i] == x;
                        if i < e.len() {
                            assert(e[i] == x);
                        }
                    }
                    if e.contains(x) {
                        let i = choose|i: int| 0 <= i < e.len() && e[i] == x;
                        assert(self.edges@[i] == x);
                    }
                    assert(self.edges@[e.len() as int] == (from, to));
                }
            }
        }
    }

    pub fn initial_state(&self) -> (r: u64)
        ensures
            r == self.initial(),
    {
        self.initial
    }

    pub fn deleted_state(&self) -> (r: u64)
        ensures
            r == self.deleted(),
    {
        self.deleted
    }

    /// Whether `from` may go to `to`.
    pub fn permits(&self, from: u64, to: u64) -> (r: bool)
        ensures
            r == self.allows(from, to),
    {
        if to == self.deleted {
            return true;
        }
        let mut i: usize = 0;
        while i < self.edges.len()
            invariant
                i <= self.edges.len(),
                forall|j: int| 0 <= j < i ==> self.edges@[j] != (from, to),
            decreases self.edges.len() - i,
        {
            let (a, b) = self.edges[i];
            if a == from && b == to {
                proof {
                    assert(self.edges@.contains((from, to)));
                }
                return true;
            }
            i = i + 1;
        }
        false
    }
}

#[derive(Debug)]
pub enum TransitionKind {
    Next(u64),
    Complete(Result<(), String>),
}

/// What a state's advance step returns: go to a next state along a
/// declared edge from `from`, or complete with success or an error message.
pub struct Transition {
    from: u64,
    kind: TransitionKind,
}

impl Transition {
    pub closed spec fn from(self) -> u64 {
        self.from
    }

    pub closed spec fn kind(self) -> TransitionKind {
        self.kind
    }

    /// Go from `from` to `to`. The edge must be declared.
    pub fn next(graph: &StateGraph, from: u64, to: u64) -> (r: Transition)
        requires
            graph.allows(from, to),
        ensures
            r.from() == from,
            r.kind() == TransitionKind::Next(to),
    {
        Transition { from, kind: TransitionKind::Next(to) }
    }

    /// Go from `from` to `to` if the edge is declared.
    pub fn checked_next(graph: &StateGraph, from: u64, to: u64) -> (r: Result<
        Transition,
        TransitionRejected,
    >)
        ensures
            graph.allows(from, to) ==> (r matches Ok(t) && t.from() == from && t.kind()
                == TransitionKind::Next(to)),
            !graph.allows(from, to) ==> r == Err::<Transition, TransitionRejected>(
                TransitionRejected { from, to },
            ),
    {
        if graph.permits(from, to) {
            Ok(Transition { from, kind: TransitionKind::Next(to) })
        } else {
            Err(TransitionRejected { from, to })
        }
    }

    /// Complete the state machine from state `from`.
    pub fn complete(from: u64, outcome: Result<(), String>) -> (r: Transition)
        ensures
            r.from() == from,
            r.kind() == TransitionKind::Complete(outcome),
    {
        Transition { from, kind: TransitionKind::Complete(outcome) }
    }
}

/// Where the engine goes after a transition.
#[derive(Clone, Debug)]
pub enum Step {
    /// Patch the status of this state, read the latest manifest and call its
    /// advance step.
    Continue(u64),
    /// The machine completed with success.
    Succeeded,
    /// The machine completed with this error: patch an error status and stop.
    Failed(String),
}

/// Walks one object through the graph.
pub struct Engine {
    graph: StateGraph,
    current: u64,
    finished: bool,
}

impl Engine {
    pub closed spec fn graph(self) -> StateGraph {
        self.graph
    }

    pub closed spec fn current(self) -> u64 {
        self.current
    }

    pub closed spec fn finished(self) -> bool {
        self.finished
    }

    /// An engine at the graph's initial state.
    pub fn start(graph: StateGraph) -> (r: Engine)
        ensures
            r.graph() == graph,
            r.current() == graph.initial(),
            !r.finished(),
    {
        let current = graph.initial;
        Engine { graph, current, finished: false }
    }

    /// An engine at the graph's deleted state, as after a deletion cut the
    /// run from the initial state.
    pub fn start_deleted(graph: StateGraph) -> (r: Engine)
        ensures
            r.graph() == graph,
            r.current() == graph.deleted(),
            !r.finished(),
    {
        let current = graph.deleted;
        Engine { graph, current, finished: false }
    }

    pub fn current_state(&self) -> (r: u64)
        ensures
            r == self.current(),
    {
        self.current
    }

    /// Takes the transition that the current state's advance step returned.
    /// A next state is refused unless the transition leaves the current
    /// state along a declared edge; a refused transition changes nothing.
    pub fn advance(&mut self, t: Transition) -> (r: Result<Step, TransitionRejected>)
        requires
            !old(self).finished(),
        ensures
            final(self).graph() == old(self).graph(),
            match t.kind() {
                TransitionKind::Next(to) => if t.from() == old(self).current() && old(
                    self,
                ).graph().allows(t.from(), to) {
                    &&& r matches Ok(Step::Continue(s)) && s == to
                    &&& final(self).current() == to
                    &&& !final(self).finished()
                } else {
                    &&& r == Err::<Step, TransitionRejected>(
                        TransitionRejected { from: old(self).current(), to },
                    )
                    &&& final(self).current() == old(self).current()
                    &&& !final(self).finished()
                },
                TransitionKind::Complete(Ok(())) => {
                    &&& r matches Ok(Step::Succeeded)
                    &&& final(self).current() == old(self).current()
                    &&& final(self).finished()
                },
                TransitionKind::Complete(Err(msg)) => {
                    &&& r matches Ok(Step::Failed(m)) && m == msg
                    &&& final(self).current() == old(self).current()
                    &&& final(self).finished()
                },
            },
    {
        match t.kind {
            TransitionKind::Next(to) => {
                if t.from == self.current && self.graph.permits(t.from, to) {
                    self.current = to;
                    Ok(Step::Continue(to))
                } else {
                    Err(TransitionRejected { from: self.current, to })
                }
            },
            TransitionKind::Complete(Ok(())) => {
                self.finished = true;
                Ok(Step::Succeeded)
            },
            TransitionKind::Complete(Err(msg)) => {
                self.finished = true;
                Ok(Step::Failed(msg))
            },
        }
    }

    /// A deletion cut the run: jump to the deleted state along its implicit
    /// edge and run on from there.
    pub fn preempt(&mut self)
        ensures
            final(self).graph() == old(self).graph(),
            final(self).current() == old(self).graph().deleted(),
            !final(self).finished(),
    {
        self.current = self.graph.deleted;
        self.finished = false;
    }
}

} // verus!
