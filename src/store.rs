//! The object store: per-kind caches of objects keyed by object key.
//! The last write for a key wins; a key that was never written, or was
//! removed, is not found.
use vstd::prelude::*;
use crate::key::{KeyView, ObjectKey};

verus! {

/// No object is cached under the key asked for.
#[derive(Clone, Copy, PartialEq, Eq, Structural, Debug)]
pub struct NotFound;

/// The cache of one kind.
pub struct ObjectCache<T> {
    entries: Vec<(ObjectKey, T)>,
    objects: Ghost<Map<KeyView, T>>,
}

impl<T> ObjectCache<T> {
    /// The cached object of each key.
    pub closed spec fn objects(self) -> Map<KeyView, T> {
        self.objects@
    }

    closed spec fn keys(self) -> Seq<KeyView> {
        self.entries@.map_values(|e: (ObjectKey, T)| e.0@)
    }

    pub closed spec fn wf(self) -> bool {
        let ks = self.keys();
        &&& forall|i: int, j: int| 0 <= i < j < ks.len() ==> ks[i] != ks[j]
        &&& forall|i: int|
            0 <= i < ks.len() ==> #[trigger] self.objects@.contains_key(ks[i])
                && self.objects@[ks[i]] == self.entries@[i].1
        &&& forall|k: KeyView|
            #[trigger] self.objects@.contains_key(k) ==> exists|i: int| 0 <= i < ks.len() && ks[i] == k
    }

    pub fn new() -> (r: ObjectCache<T>)
        ensures
            r.wf(),
            r.objects() == Map::<KeyView, T>::empty(),
    {
        let r = ObjectCache { entries: Vec::new(), objects: Ghost(Map::empty()) };
        proof {
            assert(r.keys() =~= Seq::<KeyView>::empty());
        }
        r
    }

    fn find(&self, key: &ObjectKey) -> (r: Option<usize>)
        requires
            self.wf(),
        ensures
            match r {
                Some(i) => i < self.entries@.len() && self.keys()[i as int] == key@,
                None => !self.objects().contains_key(key@),
            },
    {
        let mut i: usize = 0;
        while i < self.entries.len()
            invariant
                i <= self.entries.len(),
                forall|j: int| 0 <= j < i ==> self.keys()[j] != key@,
            decreases self.entries.len() - i,
        {
            if self.entries[i].0.same_as(key) {
                return Some(i);
            }
            i = i + 1;
        }
        None
    }

    /// The object cached under `key`.
    pub fn get(&self, key: &ObjectKey) -> (r: Result<&T, NotFound>)
        requires
            self.wf(),
        ensures
            match r {
                Ok(v) => self.objects().contains_key(key@) && *v == self.objects()[key@],
                Err(_) => !self.objects().contains_key(key@),
            },
    {
        match self.find(key) {
            Some(i) => {
                proof {
                    assert(self.objects@.contains_key(self.keys()[i as int]));
                }
                Ok(&self.entries[i].1)
            },
            None => Err(NotFound),
        }
    }

    /// Caches `object` under `key`, replacing what was there.
    pub fn apply(&mut self, key: &ObjectKey, object: T)
        requires
            old(self).wf(),
        ensures
            final(self).wf(),
            final(self).objects() == old(self).objects().insert(key@, object),
    {
        let ghost ks0 = self.keys();
        let ghost e0 = self.entries@;
        match self.find(key) {
            Some(i) => {
                let k = key.duplicate();
                self.entries.set(i, (k, object));
                self.objects = Ghost(self.objects@.insert(key@, object));
                proof {
                    assert(self.keys() =~= ks0);
                    assert forall|j: int| 0 <= j < ks0.len() implies #[trigger] self.objects@.contains_key(
                        ks0[j],
                    ) && self.objects@[ks0[j]] == self.entries@[j].1 by {
                        if j != i {
                            assert(self.entries@[j] == e0[j]);
                        }
                    }
                    assert forall|k2: KeyView| #[trigger] self.objects@.contains_key(k2) implies exists|
                        j: int,
                    | 0 <= j < ks0.len() && ks0[j] == k2 by {
                        if k2 == key@ {
                            assert(ks0[i as int] == k2);
                        }
                    }
                }
            },
            None => {
                let k = key.duplicate();
                self.entries.push((k, object));
                self.objects = Ghost(self.objects@.insert(key@, object));
                proof {
                    let ks = self.keys();
                    assert(ks =~= ks0.push(key@));
                    assert forall|j: int| 0 <= j < ks.len() implies #[trigger] self.objects@.contains_key(
                        ks[j],
                    ) && self.objects@[ks[j]] == self.entries@[j].1 by {
                        if j < ks0.len() {
                            assert(self.entries@[j] == e0[j]);
                            assert(old(self).objects@.contains_key(ks0[j]));
                        }
                    }
                    assert forall|k2: KeyView| #[trigger] self.objects@.contains_key(k2) implies exists|
                        j: int,
                    | 0 <= j < ks.len() && ks[j] == k2 by {
                        if k2 == key@ {
                            assert(ks[ks0.len() as int] == k2);
                        } else {
                            assert(old(self).objects@.contains_key(k2));
                            let j = choose|j: int| 0 <= j < ks0.len() && ks0[j] == k2;
                            assert(ks[j] == k2);
                        }
                    }
                }
            },
        }
    }

    /// Forgets the object cached under `key`, if any.
    pub fn remove(&mut self, key: &ObjectKey)
        requires
            old(self).wf(),
        ensures
            final(self).wf(),
            final(self).objects() == old(self).objects().remove(key@),
    {
        let ghost ks0 = self.keys();
        let ghost e0 = self.entries@;
        match self.find(key) {
            Some(i) => {
                let _ = self.entries.remove(i);
                self.objects = Ghost(self.objects@.remove(key@));
                proof {
                    let ks = self.keys();
                    assert(ks =~= ks0.remove(i as int));
                    assert forall|j: int| 0 <= j < ks.len() implies #[trigger] self.objects@.contains_key(
                        ks[j],
                    ) && self.objects@[ks[j]] == self.entries@[j].1 by {
                        if j < i {
                            assert(self.entries@[j] == e0[j]);
                            assert(old(self).objects@.contains_key(ks0[j]));
                        } else {
                            assert(self.entries@[j] == e0[j + 1]);
                            assert(old(self).objects@.contains_key(ks0[j + 1]));
                        }
                    }
                    assert forall|k2: KeyView| #[trigger] self.objects@.contains_key(k2) implies exists|
                        j: int,
                    | 0 <= j < ks.len() && ks[j] == k2 by {
                        assert(old(self).objects@.contains_key(k2));
                        let j = choose|j: int| 0 <= j < ks0.len() && ks0[j] == k2;
                        if j < i {
                            assert(ks[j] == k2);
                        } else {
                            assert(ks[j - 1] == k2);
                        }
                    }
                }
            },
            None => {
                proof {
                    assert(self.objects@.remove(key@) =~= self.objects@);
                }
            },
        }
    }
}

/// Whether kind `kind` caches an object under `k`.
pub open spec fn cached<T>(objects: Map<Seq<char>, Map<KeyView, T>>, kind: Seq<char>, k: KeyView) -> bool {
    objects.contains_key(kind) && objects[kind].contains_key(k)
}

/// The caches of all kinds, one per kind.
pub struct Store<T> {
    kinds: Vec<(String, ObjectCache<T>)>,
    objects: Ghost<Map<Seq<char>, Map<KeyView, T>>>,
}

impl<T> Store<T> {
    /// The cache of each kind.
    pub closed spec fn objects(self) -> Map<Seq<char>, Map<KeyView, T>> {
        self.objects@
    }

    closed spec fn names(self) -> Seq<Seq<char>> {
        self.kinds@.map_values(|e: (String, ObjectCache<T>)| e.0@)
    }

    pub closed spec fn wf(self) -> bool {
        let ns = self.names();
        &&& forall|i: int, j: int| 0 <= i < j < ns.len() ==> ns[i] != ns[j]
        &&& forall|i: int|
            0 <= i < ns.len() ==> {
                &&& #[trigger] self.objects@.contains_key(ns[i])
                &&& self.objects@[ns[i]] == self.kinds@[i].1.objects()
                &&& self.kinds@[i].1.wf()
            }
        &&& forall|k: Seq<char>|
            #[trigger] self.objects@.contains_key(k) ==> exists|i: int| 0 <= i < ns.len() && ns[i] == k
    }

    pub fn new() -> (r: Store<T>)
        ensures
            r.wf(),
            r.objects() == Map::<Seq<char>, Map<KeyView, T>>::empty(),
    {
        let r = Store { kinds: Vec::new(), objects: Ghost(Map::empty()) };
        proof {
            assert(r.names() =~= Seq::<Seq<char>>::empty());
        }
        r
    }

    fn find_kind(&self, kind: &str) -> (r: Option<usize>)
        requires
            self.wf(),
        ensures
            match r {
                Some(i) => i < self.kinds@.len() && self.names()[i as int] == kind@,
                None => !self.objects().contains_key(kind@),
            },
    {
        let wanted = kind.to_owned();
        let mut i: usize = 0;
        while i < self.kinds.len()
            invariant
                i <= self.kinds.len(),
                wanted@ == kind@,
                forall|j: int| 0 <= j < i ==> self.names()[j] != kind@,
            decreases self.kinds.len() - i,
        {
            if self.kinds[i].0.eq(&wanted) {
                return Some(i);
            }
            i = i + 1;
        }
        None
    }

    /// The object of kind `kind` cached under `key`.
    pub fn get(&self, kind: &str, key: &ObjectKey) -> (r: Result<&T, NotFound>)
        requires
            self.wf(),
        ensures
            match r {
                Ok(v) => cached(self.objects(), kind@, key@) && *v == self.objects()[kind@][key@],
                Err(_) => !cached(self.objects(), kind@, key@),
            },
    {
        match self.find_kind(kind) {
            Some(i) => {
                proof {
                    assert(self.objects@.contains_key(self.names()[i as int]));
                }
                self.kinds[i].1.get(key)
            },
            None => Err(NotFound),
        }
    }

    /// Takes the cache of `kind` out of the store, or a new empty one.
    fn detach(&mut self, kind: &str) -> (r: (String, ObjectCache<T>))
        requires
            old(self).wf(),
        ensures
            final(self).wf(),
            final(self).objects() == old(self).objects().remove(kind@),
            r.0@ == kind@,
            r.1.wf(),
            r.1.objects() == if old(self).objects().contains_key(kind@) {
                old(self).objects()[kind@]
            } else {
                Map::empty()
            },
    {
        match self.find_kind(kind) {
            Some(i) => {
                proof {
                    assert(self.objects@.contains_key(self.names()[i as int]));
                }
                let ghost ns0 = self.names();
                let ghost k0 = self.kinds@;
                let entry = self.kinds.remove(i);
                self.objects = Ghost(self.objects@.remove(kind@));
                proof {
                    let ns = self.names();
                    assert(ns =~= ns0.remove(i as int));
                    assert forall|j: int| 0 <= j < ns.len() implies #[trigger] self.objects@.contains_key(
                        ns[j],
                    ) && self.objects@[ns[j]] == self.kinds@[j].1.objects() && self.kinds@[j].1.wf() by {
                        if j < i {
                            assert(self.kinds@[j] == k0[j]);
                            assert(old(self).objects@.contains_key(ns0[j]));
                        } else {
                            assert(self.kinds@[j] == k0[j + 1]);
                            assert(old(self).objects@.contains_key(ns0[j + 1]));
                        }
                    }
                    assert forall|k: Seq<char>| #[trigger] self.objects@.contains_key(k) implies exists|
                        j: int,
                    | 0 <= j < ns.len() && ns[j] == k by {
                        assert(old(self).objects@.contains_key(k));
                        let j0 = choose|j: int| 0 <= j < ns0.len() && ns0[j] == k;
                        if j0 < i {
                            assert(ns[j0] == k);
                        } else {
                            assert(ns[j0 - 1] == k);
                        }
                    }
                }
                entry
            },
            None => {
                proof {
                    assert(self.objects@.remove(kind@) =~= self.objects@);
                }
                (kind.to_owned(), ObjectCache::new())
            },
        }
    }

    /// Puts the cache of a kind that the store does not hold into it.
    fn attach(&mut self, name: String, cache: ObjectCache<T>)
        requires
            old(self).wf(),
            !old(self).objects().contains_key(name@),
            cache.wf(),
        ensures
            final(self).wf(),
            final(self).objects() == old(self).objects().insert(name@, cache.objects()),
    {
        let ghost ns1 = self.names();
        let ghost k1 = self.kinds@;
        let ghost kind = name@;
        proof {
            assert forall|j: int| 0 <= j < ns1.len() implies ns1[j] != kind by {
                if ns1[j] == kind {
                    assert(self.objects@.contains_key(ns1[j]));
                }
            }
        }
        self.objects = Ghost(self.objects@.insert(kind, cache.objects()));
        self.kinds.push((name, cache));
        proof {
            let ns = self.names();
            assert(ns =~= ns1.push(kind));
            assert forall|j: int| 0 <= j < ns.len() implies #[trigger] self.objects@.contains_key(ns[j])
                && self.objects@[ns[j]] == self.kinds@[j].1.objects() && self.kinds@[j].1.wf() by {
                if j < ns1.len() {
                    assert(self.kinds@[j] == k1[j]);
                    assert(old(self).objects@.contains_key(ns1[j]));
                }
            }
            assert forall|k: Seq<char>| #[trigger] self.objects@.contains_key(k) implies exists|j: int|
                0 <= j < ns.len() && ns[j] == k by {
                if k == kind {
                    assert(ns[ns1.len() as int] == k);
                } else {
                    assert(old(self).objects@.contains_key(k));
                    let j = choose|j: int| 0 <= j < ns1.len() && ns1[j] == k;
                    assert(ns[j] == k);
                }
            }
        }
    }

    /// Caches `object` of kind `kind` under `key`, replacing what was there.
    pub fn apply(&mut self, kind: &str, key: &ObjectKey, object: T)
        requires
            old(self).wf(),
        ensures
            final(self).wf(),
            final(self).objects() == old(self).objects().insert(
                kind@,
                kind_objects(old(self).objects(), kind@).insert(key@, object),
            ),
    {
        let (name, mut cache) = self.detach(kind);
        cache.apply(key, object);
        self.attach(name, cache);
        proof {
            assert(old(self).objects().remove(kind@).insert(kind@, cache.objects())
                =~= old(self).objects().insert(kind@, cache.objects()));
        }
    }

    /// Forgets the object of kind `kind` cached under `key`, if any.
    pub fn remove(&mut self, kind: &str, key: &ObjectKey)
        requires
            old(self).wf(),
        ensures
            final(self).wf(),
            final(self).objects() == old(self).objects().insert(
                kind@,
                kind_objects(old(self).objects(), kind@).remove(key@),
            ),
    {
        let (name, mut cache) = self.detach(kind);
        cache.remove(key);
        self.attach(name, cache);
        proof {
            assert(old(self).objects().remove(kind@).insert(kind@, cache.objects())
                =~= old(self).objects().insert(kind@, cache.objects()));
        }
    }
}

/// The objects cached for `kind`; none when the kind has no cache.
pub open spec fn kind_objects<T>(objects: Map<Seq<char>, Map<KeyView, T>>, kind: Seq<char>) -> Map<KeyView, T> {
    if objects.contains_key(kind) {
        objects[kind]
    } else {
        Map::empty()
    }
}

} // verus!
