//! The per-controller dispatcher: routes watcher events to per-object
//! supervisors through a table keyed by object key.
//!
//! The dispatcher decides; the caller carries the decisions out. Each
//! supervisor is known here by a handler number that the dispatcher hands out
//! once and never again, and the caller keeps the channel for each number.
use vstd::prelude::*;
use crate::key::{KeyView, ObjectKey};

verus! {

/// A watcher event for the managed kind, reduced to the keys of its objects.
/// The payloads stay with the caller; commands name them by position.
pub enum WatchEvent {
    Applied(ObjectKey),
    Deleted(ObjectKey),
    Restarted(Vec<ObjectKey>),
}

/// What the caller must do for one object.
pub enum Command {
    /// Send the event's object at position `object` to supervisor `handler`.
    Forward { handler: u64, key: ObjectKey, object: usize },
    /// Start supervisor `handler` for the event's object at position `object`.
    Start { handler: u64, key: ObjectKey, object: usize },
    /// Send the final deletion to supervisor `handler`, which has already left
    /// the table.
    Terminate { handler: u64, key: ObjectKey },
}

pub enum CommandView {
    Forward { handler: u64, key: KeyView, object: int },
    Start { handler: u64, key: KeyView, object: int },
    Terminate { handler: u64, key: KeyView },
}

impl View for Command {
    type V = CommandView;

    open spec fn view(&self) -> CommandView {
        match self {
            Command::Forward { handler, key, object } => CommandView::Forward {
                handler: *handler,
                key: key@,
                object: *object as int,
            },
            Command::Start { handler, key, object } => CommandView::Start {
                handler: *handler,
                key: key@,
                object: *object as int,
            },
            Command::Terminate { handler, key } => CommandView::Terminate {
                handler: *handler,
                key: key@,
            },
        }
    }
}

impl CommandView {
    pub open spec fn key(self) -> KeyView {
        match self {
            CommandView::Forward { key, .. } => key,
            CommandView::Start { key, .. } => key,
            CommandView::Terminate { key, .. } => key,
        }
    }

    pub open spec fn handler(self) -> u64 {
        match self {
            CommandView::Forward { handler, .. } => handler,
            CommandView::Start { handler, .. } => handler,
            CommandView::Terminate { handler, .. } => handler,
        }
    }
}

/// The command for an applied object: forward to the existing supervisor,
/// or start a new one under the next unused handler number.
pub open spec fn applied_command(
    table: Map<KeyView, u64>,
    next: u64,
    k: KeyView,
    object: int,
) -> CommandView {
    if table.contains_key(k) {
        CommandView::Forward { handler: table[k], key: k, object }
    } else {
        CommandView::Start { handler: next, key: k, object }
    }
}

pub open spec fn applied_table(table: Map<KeyView, u64>, next: u64, k: KeyView) -> Map<
    KeyView,
    u64,
> {
    if table.contains_key(k) {
        table
    } else {
        table.insert(k, next)
    }
}

pub open spec fn applied_next(table: Map<KeyView, u64>, next: u64, k: KeyView) -> int {
    if table.contains_key(k) {
        next as int
    } else {
        next + 1
    }
}

pub open spec fn key_views(keys: Seq<ObjectKey>) -> Seq<KeyView> {
    keys.map_values(|k: ObjectKey| k@)
}

/// A tracked key that a restart's list no longer holds.
pub open spec fn stale(table: Map<KeyView, u64>, keys: Seq<KeyView>, k: KeyView) -> bool {
    table.contains_key(k) && !keys.contains(k)
}

/// The `j`th listed object is the first with its key and its key was not
/// tracked: it gets a new supervisor.
pub open spec fn starts_at(table: Map<KeyView, u64>, keys: Seq<KeyView>, j: int) -> bool {
    !table.contains_key(keys[j]) && !keys.subrange(0, j).contains(keys[j])
}

/// What a resync to the listed `keys` owes, from table `table` and next
/// handler number `next` to `table2` and `next2`, with commands `cmds`:
/// first one final deletion for each stale key, each key once; then one
/// apply for each listed object, in list order. Afterwards exactly the
/// listed keys are tracked, those already tracked by the same supervisor.
pub open spec fn resynced(
    table: Map<KeyView, u64>,
    next: u64,
    keys: Seq<KeyView>,
    cmds: Seq<CommandView>,
    table2: Map<KeyView, u64>,
    next2: u64,
) -> bool {
    let n = cmds.len() - keys.len();
    &&& cmds.len() >= keys.len()
    &&& forall|i: int|
        0 <= i < n ==> {
            &&& #[trigger] cmds[i] is Terminate
            &&& stale(table, keys, cmds[i].key())
            &&& cmds[i].handler() == table[cmds[i].key()]
        }
    &&& forall|i: int, j: int| 0 <= i < j < n ==> cmds[i].key() != cmds[j].key()
    &&& forall|k: KeyView| stale(table, keys, k) ==> exists|i: int| 0 <= i < n && cmds[i].key() == k
    &&& forall|j: int|
        0 <= j < keys.len() ==> #[trigger] cmds[n + j] == if starts_at(table, keys, j) {
            CommandView::Start { handler: table2[keys[j]], key: keys[j], object: j }
        } else {
            CommandView::Forward { handler: table2[keys[j]], key: keys[j], object: j }
        }
    &&& forall|k: KeyView| #[trigger] table2.contains_key(k) == keys.contains(k)
    &&& forall|k: KeyView|
        table.contains_key(k) && keys.contains(k) ==> #[trigger] table2[k] == table[k]
    &&& forall|k: KeyView|
        keys.contains(k) && !table.contains_key(k) ==> next <= #[trigger] table2[k] < next2
    &&& next <= next2 <= next + keys.len()
}

/// Whether `key` is among `keys`.
pub fn listed(keys: &Vec<ObjectKey>, key: &ObjectKey) -> (r: bool)
    ensures
        r == key_views(keys@).contains(key@),
{
    let ghost kv = key_views(keys@);
    let mut i: usize = 0;
    while i < keys.len()
        invariant
            i <= keys.len(),
            kv == key_views(keys@),
            forall|j: int| 0 <= j < i ==> kv[j] != key@,
        decreases keys.len() - i,
    {
        if keys[i].same_as(key) {
            assert(kv[i as int] == key@);
            return true;
        }
        i = i + 1;
    }
    false
}

/// The handler table, the next unused handler number and the shutdown gate.
pub struct Dispatcher {
    handlers: Vec<(ObjectKey, u64)>,
    table: Ghost<Map<KeyView, u64>>,
    next_handler: u64,
    shutting_down: bool,
}

impl Dispatcher {
    /// The table as a sequence of (key, handler) entries, one per sender held.
    pub closed spec fn senders(self) -> Seq<(KeyView, u64)> {
        self.handlers@.map_values(|e: (ObjectKey, u64)| (e.0@, e.1))
    }

    /// Which supervisor handles each tracked key.
    pub closed spec fn table(self) -> Map<KeyView, u64> {
        self.table@
    }

    pub closed spec fn next_handler(self) -> u64 {
        self.next_handler
    }

    pub closed spec fn shutting_down(self) -> bool {
        self.shutting_down
    }

    pub closed spec fn wf(self) -> bool {
        let s = self.senders();
        &&& forall|i: int, j: int| 0 <= i < j < s.len() ==> s[i].0 != s[j].0
        &&& forall|i: int|
            0 <= i < s.len() ==> {
                &&& #[trigger] self.table@.contains_key(s[i].0)
                &&& self.table@[s[i].0] == s[i].1
                &&& s[i].1 < self.next_handler
            }
        &&& forall|k: KeyView|
            #[trigger] self.table@.contains_key(k) ==> exists|i: int|
                0 <= i < s.len() && s[i].0 == k
    }

    pub fn new() -> (r: Dispatcher)
        ensures
            r.wf(),
            r.table() == Map::<KeyView, u64>::empty(),
            r.next_handler() == 0,
            !r.shutting_down(),
    {
        let r = Dispatcher {
            handlers: Vec::new(),
            table: Ghost(Map::empty()),
            next_handler: 0,
            shutting_down: false,
        };
        proof {
            assert(r.senders() =~= Seq::empty());
        }
        r
    }

    /// Starts shutting down: later applied events are dropped, while
    /// deletions and restarts still go through.
    pub fn shut_down(&mut self)
        requires
            old(self).wf(),
        ensures
            final(self).wf(),
            final(self).table() == old(self).table(),
            final(self).next_handler() == old(self).next_handler(),
            final(self).shutting_down(),
    {
        let ghost s0 = self.senders();
        self.shutting_down = true;
        proof {
            assert(self.senders() == s0);
        }
    }

    pub fn is_shutting_down(&self) -> (r: bool)
        ensures
            r == self.shutting_down(),
    {
        self.shutting_down
    }

    /// How many more supervisors can be numbered.
    pub fn handlers_left(&self) -> (r: u64)
        ensures
            r == u64::MAX - self.next_handler(),
    {
        u64::MAX - self.next_handler
    }

    fn find(&self, key: &ObjectKey) -> (r: Option<usize>)
        requires
            self.wf(),
        ensures
            match r {
                Some(i) => i < self.senders().len() && self.senders()[i as int].0 == key@,
                None => !self.table().contains_key(key@),
            },
    {
        let mut i: usize = 0;
        while i < self.handlers.len()
            invariant
                i <= self.handlers.len(),
                forall|j: int| 0 <= j < i ==> self.senders()[j].0 != key@,
            decreases self.handlers.len() - i,
        {
            if self.handlers[i].0.same_as(key) {
                return Some(i);
            }
            i = i + 1;
        }
        None
    }

    /// Routes an applied object, bypassing the shutdown gate.
    pub fn dispatch_applied(&mut self, key: &ObjectKey, object: usize) -> (r: Command)
        requires
            old(self).wf(),
            old(self).next_handler() < u64::MAX,
        ensures
            final(self).wf(),
            r@ == applied_command(old(self).table(), old(self).next_handler(), key@, object as int),
            final(self).table() == applied_table(
                old(self).table(),
                old(self).next_handler(),
                key@,
            ),
            final(self).next_handler() == applied_next(
                old(self).table(),
                old(self).next_handler(),
                key@,
            ),
            final(self).shutting_down() == old(self).shutting_down(),
    {
        match self.find(key) {
            Some(i) => {
                let handler = self.handlers[i].1;
                Command::Forward { handler, key: key.duplicate(), object }
            },
            None => {
                let handler = self.next_handler;
                let ghost s0 = self.senders();
                self.handlers.push((key.duplicate(), handler));
                self.next_handler = handler + 1;
                self.table = Ghost(self.table@.insert(key@, handler));
                proof {
                    let s = self.senders();
                    assert(s =~= s0.push((key@, handler)));
                    assert forall|k: KeyView| #[trigger] self.table@.contains_key(k) implies exists|
                        i: int,
                    | 0 <= i < s.len() && s[i].0 == k by {
                        if k == key@ {
                            assert(s[s0.len() as int].0 == k);
                        } else {
                            let i = choose|i: int| 0 <= i < s0.len() && s0[i].0 == k;
                            assert(s[i].0 == k);
                        }
                    }
                }
                Command::Start { handler, key: key.duplicate(), object }
            },
        }
    }

    /// Takes the key's supervisor out of the table before it is told of the
    /// deletion, so that no later event reaches it.
    pub fn dispatch_deleted(&mut self, key: &ObjectKey) -> (r: Option<Command>)
        requires
            old(self).wf(),
        ensures
            final(self).wf(),
            final(self).table() == old(self).table().remove(key@),
            r.is_some() == old(self).table().contains_key(key@),
            r.is_some() ==> r.unwrap()@ == (CommandView::Terminate {
                handler: old(self).table()[key@],
                key: key@,
            }),
            final(self).next_handler() == old(self).next_handler(),
            final(self).shutting_down() == old(self).shutting_down(),
    {
        match self.find(key) {
            Some(i) => {
                let ghost s0 = self.senders();
                proof {
                    assert(self.table@.contains_key(s0[i as int].0));
                }
                let entry = self.handlers.remove(i);
                self.table = Ghost(self.table@.remove(key@));
                proof {
                    let s = self.senders();
                    assert(s =~= s0.remove(i as int));
                    assert forall|k: KeyView| #[trigger] self.table@.contains_key(k) implies exists|
                        j: int,
                    | 0 <= j < s.len() && s[j].0 == k by {
                        let j = choose|j: int| 0 <= j < s0.len() && s0[j].0 == k;
                        if j < i {
                            assert(s[j].0 == k);
                        } else {
                            assert(s[j - 1].0 == k);
                        }
                    }
                }
                Some(Command::Terminate { handler: entry.1, key: entry.0 })
            },
            None => {
                proof {
                    assert(self.table@.remove(key@) =~= self.table@);
                }
                None
            },
        }
    }
    /// Drops the key's entry if it still names `handler`: that supervisor's
    /// channel is closed, or it could not be started. The next applied
    /// event for the key starts a new one.
    pub fn discard(&mut self, key: &ObjectKey, handler: u64)
        requires
            old(self).wf(),
        ensures
            final(self).wf(),
            final(self).table() == if old(self).table().contains_key(key@) && old(self).table()[key@]
                == handler {
                old(self).table().remove(key@)
            } else {
                old(self).table()
            },
            final(self).next_handler() == old(self).next_handler(),
            final(self).shutting_down() == old(self).shutting_down(),
    {
        if let Some(i) = self.find(key) {
            proof {
                assert(self.table@.contains_key(self.senders()[i as int].0));
            }
            if self.handlers[i].1 == handler {
                let _ = self.dispatch_deleted(key);
            }
        }
    }

    /// Resyncs the table to the full list of objects after a watch restart:
    /// final deletions for the tracked keys that are gone, then an apply for
    /// every listed object. The shutdown gate does not apply.
    pub fn resync(&mut self, keys: &Vec<ObjectKey>) -> (r: Vec<Command>)
        requires
            old(self).wf(),
            old(self).next_handler() + keys.len() <= u64::MAX,
        ensures
            final(self).wf(),
            resynced(
                old(self).table(),
                old(self).next_handler(),
                key_views(keys@),
                r@.map_values(|c: Command| c@),
                final(self).table(),
                final(self).next_handler(),
            ),
            final(self).shutting_down() == old(self).shutting_down(),
    {
        let ghost kv = key_views(keys@);
        let ghost table0 = self.table();
        let ghost next0 = self.next_handler();
        let ghost s0 = self.senders();
        // Tracked entries whose key is not listed, in table order.
        let mut gone: Vec<(ObjectKey, u64)> = Vec::new();
        let ghost mut idx: Seq<int> = Seq::empty();
        let mut i: usize = 0;
        while i < self.handlers.len()
            invariant
                self.wf(),
                self.senders() == s0,
                self.table() == table0,
                kv == key_views(keys@),
                i <= s0.len(),
                idx.len() == gone@.len(),
                forall|t: int|
                    0 <= t < idx.len() ==> 0 <= #[trigger] idx[t] < i && (gone@[t].0@, gone@[t].1)
                        == s0[idx[t]] && !kv.contains(gone@[t].0@),
                forall|t1: int, t2: int| 0 <= t1 < t2 < idx.len() ==> idx[t1] < idx[t2],
                forall|j: int|
                    0 <= j < i && !kv.contains(#[trigger] s0[j].0) ==> exists|t: int|
                        0 <= t < idx.len() && idx[t] == j,
            decreases self.handlers.len() - i,
        {
            let ghost idx_before = idx;
            let is_listed = listed(keys, &self.handlers[i].0);
            if !is_listed {
                let k = self.handlers[i].0.duplicate();
                gone.push((k, self.handlers[i].1));
                proof {
                    idx = idx.push(i as int);
                    assert(idx[idx.len() - 1] == i);
                }
            }
            proof {
                assert(s0[i as int].0 == self.handlers@[i as int].0@);
                assert forall|j: int|
                    0 <= j < i + 1 && !kv.contains(#[trigger] s0[j].0) implies exists|t: int|
                    0 <= t < idx.len() && idx[t] == j by {
                    if j < i {
                        let t = choose|t: int| 0 <= t < idx_before.len() && idx_before[t] == j;
                        assert(idx[t] == j);
                    } else {
                        assert(idx[idx.len() - 1] == j);
                    }
                }
            }
            i = i + 1;
        }
        let ghost gv = gone@.map_values(|e: (ObjectKey, u64)| (e.0@, e.1));
        proof {
            assert forall|t: int| 0 <= t < gv.len() implies table0.contains_key(#[trigger] gv[t].0)
                && table0[gv[t].0] == gv[t].1 && !kv.contains(gv[t].0) by {
                assert(gv[t] == s0[idx[t]]);
                assert(table0.contains_key(s0[idx[t]].0));
            }
            assert forall|t1: int, t2: int| 0 <= t1 < t2 < gv.len() implies gv[t1].0 != gv[t2].0 by {
                assert(gv[t1] == s0[idx[t1]]);
                assert(gv[t2] == s0[idx[t2]]);
            }
            assert forall|k: KeyView| stale(table0, kv, k) implies exists|t: int|
                0 <= t < gv.len() && gv[t].0 == k by {
                let j = choose|j: int| 0 <= j < s0.len() && s0[j].0 == k;
                assert(!kv.contains(s0[j].0));
                let t = choose|t: int| 0 <= t < idx.len() && idx[t] == j;
                assert(gv[t] == s0[idx[t]]);
            }
        }
        let mut out: Vec<Command> = Vec::new();
        let ghost mut removed: Set<KeyView> = Set::empty();
        let mut t: usize = 0;
        while t < gone.len()
            invariant
                self.wf(),
                self.next_handler() == next0,
                self.shutting_down() == old(self).shutting_down(),
                kv == key_views(keys@),
                gv == gone@.map_values(|e: (ObjectKey, u64)| (e.0@, e.1)),
                t <= gv.len(),
                forall|u: int|
                    0 <= u < gv.len() ==> table0.contains_key(#[trigger] gv[u].0) && table0[gv[u].0]
                        == gv[u].1 && !kv.contains(gv[u].0),
                forall|t1: int, t2: int| 0 <= t1 < t2 < gv.len() ==> gv[t1].0 != gv[t2].0,
                forall|k: KeyView|
                    stale(table0, kv, k) ==> exists|u: int| 0 <= u < gv.len() && gv[u].0 == k,
                out@.len() == t,
                forall|u: int|
                    0 <= u < t ==> (#[trigger] out@[u])@ == (CommandView::Terminate {
                        handler: gv[u].1,
                        key: gv[u].0,
                    }),
                forall|u: int| 0 <= u < t ==> removed.contains(#[trigger] gv[u].0),
                forall|k: KeyView|
                    #[trigger] removed.contains(k) ==> exists|u: int| 0 <= u < t && gv[u].0 == k,
                forall|k: KeyView| #[trigger] removed.contains(k) ==> !kv.contains(k),
                forall|k: KeyView|
                    #[trigger] self.table().contains_key(k) == (table0.contains_key(k)
                        && !removed.contains(k)),
                forall|k: KeyView| #[trigger] self.table().contains_key(k) ==> self.table()[k] == table0[k],
            decreases gone.len() - t,
        {
            proof {
                assert(gv[t as int].0 == gone@[t as int].0@);
                if removed.contains(gv[t as int].0) {
                    let u = choose|u: int| 0 <= u < t && gv[u].0 == gv[t as int].0;
                    assert(false);
                }
            }
            let c = self.dispatch_deleted(&gone[t].0);
            match c {
                Some(c) => out.push(c),
                None => {},
            }
            proof {
                let removed_before = removed;
                removed = removed.insert(gv[t as int].0);
                assert forall|k: KeyView| #[trigger] removed.contains(k) implies exists|u: int|
                    0 <= u < t + 1 && gv[u].0 == k by {
                    if k != gv[t as int].0 {
                        assert(removed_before.contains(k));
                    }
                }
            }
            t = t + 1;
        }
        proof {
            assert(kv.subrange(0, 0) =~= Seq::<KeyView>::empty());
            assert forall|k: KeyView| #[trigger] self.table().contains_key(k) == (table0.contains_key(k)
                && kv.contains(k)) by {
                if table0.contains_key(k) && !kv.contains(k) {
                    assert(stale(table0, kv, k));
                    let u = choose|u: int| 0 <= u < gv.len() && gv[u].0 == k;
                    assert(removed.contains(gv[u].0));
                }
            }
            assert forall|k: KeyView| table0.contains_key(k) && kv.contains(k) implies #[trigger] self.table()[k]
                == table0[k] by {
                assert(self.table().contains_key(k));
            }
        }
        let ghost n = out@.len();
        let mut j: usize = 0;
        while j < keys.len()
            invariant
                self.wf(),
                self.shutting_down() == old(self).shutting_down(),
                kv == key_views(keys@),
                kv.len() == keys@.len(),
                next0 + kv.len() <= u64::MAX,
                n == gv.len(),
                j <= kv.len(),
                out@.len() == n + j,
                forall|u: int|
                    0 <= u < n ==> (#[trigger] out@[u])@ == (CommandView::Terminate {
                        handler: gv[u].1,
                        key: gv[u].0,
                    }),
                forall|k: KeyView|
                    #[trigger] self.table().contains_key(k) == ((table0.contains_key(k) && kv.contains(
                        k,
                    )) || kv.subrange(0, j as int).contains(k)),
                forall|k: KeyView|
                    table0.contains_key(k) && kv.contains(k) ==> #[trigger] self.table()[k]
                        == table0[k],
                forall|k: KeyView|
                    self.table().contains_key(k) && !table0.contains_key(k) ==> next0
                        <= #[trigger] self.table()[k] < self.next_handler(),
                next0 <= self.next_handler() <= next0 + j,
                forall|jj: int|
                    0 <= jj < j ==> (#[trigger] out@[n + jj])@ == if starts_at(table0, kv, jj) {
                        CommandView::Start {
                            handler: self.table()[kv[jj]],
                            key: kv[jj],
                            object: jj,
                        }
                    } else {
                        CommandView::Forward {
                            handler: self.table()[kv[jj]],
                            key: kv[jj],
                            object: jj,
                        }
                    },
            decreases keys.len() - j,
        {
            let ghost tbl = self.table();
            let ghost k = kv[j as int];
            proof {
                assert(kv.contains(k));
                assert forall|jj: int| 0 <= jj < j implies tbl.contains_key(kv[jj]) by {
                    assert(kv.subrange(0, j as int)[jj] == kv[jj]);
                }
            }
            let c = self.dispatch_applied(&keys[j], j);
            out.push(c);
            proof {
                assert(kv.subrange(0, j as int + 1) =~= kv.subrange(0, j as int).push(k));
                assert forall|kk: KeyView| #[trigger] self.table().contains_key(kk) == ((
                table0.contains_key(kk) && kv.contains(kk)) || kv.subrange(0, j + 1).contains(kk)) by {
                    let next_prefix = kv.subrange(0, j + 1);
                    let prefix = kv.subrange(0, j as int);
                    if next_prefix.contains(kk) && kk != k {
                        let w = choose|w: int| 0 <= w < j + 1 && next_prefix[w] == kk;
                        assert(prefix[w] == kk);
                    }
                    if prefix.contains(kk) {
                        let w = choose|w: int| 0 <= w < j && prefix[w] == kk;
                        assert(next_prefix[w] == kk);
                    }
                    if kk == k {
                        assert(kv.subrange(0, j + 1)[j as int] == kk);
                    }
                }
                if tbl.contains_key(k) {
                    if !table0.contains_key(k) {
                        assert(kv.subrange(0, j as int).contains(k));
                    }
                } else {
                    assert(!kv.subrange(0, j as int).contains(k));
                }
                assert(starts_at(table0, kv, j as int) == !tbl.contains_key(k));
            }
            j = j + 1;
        }
        proof {
            assert(kv.subrange(0, kv.len() as int) =~= kv);
            let cv = out@.map_values(|c: Command| c@);
            assert forall|i: int| 0 <= i < n implies #[trigger] cv[i] == (CommandView::Terminate {
                handler: gv[i].1,
                key: gv[i].0,
            }) by {
                assert(cv[i] == out@[i]@);
            }
            assert forall|jj: int| 0 <= jj < kv.len() implies #[trigger] cv[n + jj] == out@[n
                + jj]@ by {}
            assert forall|k: KeyView| stale(table0, kv, k) implies exists|i: int|
                0 <= i < n && cv[i].key() == k by {
                let t = choose|t: int| 0 <= t < gv.len() && gv[t].0 == k;
                assert(cv[t] == out@[t]@);
            }
        }
        out
    }

    /// Handles one watcher event. Applied objects are dropped while the
    /// shutdown gate is closed; deletions and restarts go through.
    pub fn handle_event(&mut self, event: &WatchEvent) -> (r: Vec<Command>)
        requires
            old(self).wf(),
            old(self).next_handler() + event_size(event) <= u64::MAX,
        ensures
            final(self).wf(),
            final(self).shutting_down() == old(self).shutting_down(),
            match event {
                WatchEvent::Applied(k) => if old(self).shutting_down() {
                    &&& r@.len() == 0
                    &&& final(self).table() == old(self).table()
                    &&& final(self).next_handler() == old(self).next_handler()
                } else {
                    &&& r@.len() == 1
                    &&& r@[0]@ == applied_command(
                        old(self).table(),
                        old(self).next_handler(),
                        k@,
                        0,
                    )
                    &&& final(self).table() == applied_table(
                        old(self).table(),
                        old(self).next_handler(),
                        k@,
                    )
                    &&& final(self).next_handler() == applied_next(
                        old(self).table(),
                        old(self).next_handler(),
                        k@,
                    )
                },
                WatchEvent::Deleted(k) => {
                    &&& final(self).table() == old(self).table().remove(k@)
                    &&& final(self).next_handler() == old(self).next_handler()
                    &&& r@.len() == if old(self).table().contains_key(k@) {
                        1int
                    } else {
                        0
                    }
                    &&& r@.len() == 1 ==> r@[0]@ == (CommandView::Terminate {
                        handler: old(self).table()[k@],
                        key: k@,
                    })
                },
                WatchEvent::Restarted(ks) => resynced(
                    old(self).table(),
                    old(self).next_handler(),
                    key_views(ks@),
                    r@.map_values(|c: Command| c@),
                    final(self).table(),
                    final(self).next_handler(),
                ),
            },
    {
        match event {
            WatchEvent::Applied(k) => {
                let mut out: Vec<Command> = Vec::new();
                if !self.shutting_down {
                    let c = self.dispatch_applied(k, 0);
                    out.push(c);
                }
                out
            },
            WatchEvent::Deleted(k) => {
                let mut out: Vec<Command> = Vec::new();
                if let Some(c) = self.dispatch_deleted(k) {
                    out.push(c);
                }
                out
            },
            WatchEvent::Restarted(ks) => self.resync(ks),
        }
    }
}

/// How many objects an event lists: the most supervisors it can start.
pub open spec fn event_size(event: &WatchEvent) -> int {
    match event {
        WatchEvent::Applied(_) => 1,
        WatchEvent::Deleted(_) => 0,
        WatchEvent::Restarted(ks) => ks.len() as int,
    }
}

impl WatchEvent {
    /// How many objects the event lists.
    pub fn size(&self) -> (r: usize)
        ensures
            r == event_size(self),
    {
        match self {
            WatchEvent::Applied(_) => 1,
            WatchEvent::Deleted(_) => 0,
            WatchEvent::Restarted(ks) => ks.len(),
        }
    }
}

/// The handler table holds at most one sender per object key, and every
/// sender it holds is the one its map view names.
pub proof fn lemma_one_sender_per_key(d: Dispatcher)
    requires
        d.wf(),
    ensures
        forall|i: int, j: int|
            0 <= i < d.senders().len() && 0 <= j < d.senders().len() && i != j ==> d.senders()[i].0
                != d.senders()[j].0,
        forall|i: int|
            0 <= i < d.senders().len() ==> d.table().contains_key(#[trigger] d.senders()[i].0)
                && d.table()[d.senders()[i].0] == d.senders()[i].1,
        forall|k: KeyView|
            #[trigger] d.table().contains_key(k) <==> exists|i: int|
                0 <= i < d.senders().len() && d.senders()[i].0 == k,
{
    assert forall|i: int, j: int|
        0 <= i < d.senders().len() && 0 <= j < d.senders().len() && i != j implies d.senders()[i].0
        != d.senders()[j].0 by {
        if i > j {
            assert(d.senders()[j].0 != d.senders()[i].0);
        }
    }
    assert forall|k: KeyView| (exists|i: int| 0 <= i < d.senders().len() && d.senders()[i].0 == k)
        implies #[trigger] d.table().contains_key(k) by {
        let i = choose|i: int| 0 <= i < d.senders().len() && d.senders()[i].0 == k;
        assert(d.table().contains_key(d.senders()[i].0));
    }
}

/// Once a key's deletion has been dispatched, the next applied object with
/// that key starts a new supervisor, under a number that no earlier
/// supervisor had.
pub proof fn lemma_applied_after_delete_starts_new(d: Dispatcher, k: KeyView, object: int)
    requires
        d.wf(),
    ensures
        applied_command(d.table().remove(k), d.next_handler(), k, object) == (CommandView::Start {
            handler: d.next_handler(),
            key: k,
            object,
        }),
        forall|k2: KeyView| #[trigger] d.table().contains_key(k2) ==> d.table()[k2] < d.next_handler(),
{
    assert forall|k2: KeyView| #[trigger] d.table().contains_key(k2) implies d.table()[k2]
        < d.next_handler() by {
        let i = choose|i: int| 0 <= i < d.senders().len() && d.senders()[i].0 == k2;
        assert(d.table().contains_key(d.senders()[i].0));
    }
}

} // verus!
