//! A lookup table of records from the previously published index, from which
//! each record can be claimed (moved out) once.

use vstd::hash_map::StringHashMap;
use vstd::prelude::*;

verus! {

/// Records keyed by strings. Each key leads to a slot that holds its record;
/// claiming a record empties its slot.
pub struct Cache<V> {
    index: StringHashMap<usize>,
    keys: Vec<String>,
    slots: Vec<Option<V>>,
}

impl<V> Cache<V> {
    /// The records that can still be claimed, by key.
    pub closed spec fn view(&self) -> Map<Seq<char>, V> {
        Map::new(
            |k: Seq<char>| self.index@.contains_key(k),
            |k: Seq<char>| self.slots@[self.index@[k] as int].unwrap(),
        )
    }

    pub closed spec fn wf(&self) -> bool {
        &&& self.keys@.len() == self.slots@.len()
        &&& forall|k: Seq<char>| #[trigger]
            self.index@.contains_key(k) ==> {
                &&& self.index@[k] < self.slots@.len()
                &&& self.keys@[self.index@[k] as int]@ == k
                &&& self.slots@[self.index@[k] as int] is Some
            }
        &&& forall|i: int|
            0 <= i < self.slots@.len() && #[trigger] self.slots@[i] is Some ==> {
                &&& self.index@.contains_key(self.keys@[i]@)
                &&& self.index@[self.keys@[i]@] == i
            }
    }

    /// The number of slots ever filled; bounds how many more records can be stored.
    pub closed spec fn used(&self) -> nat {
        self.slots@.len()
    }

    pub fn used_count(&self) -> (r: usize)
        ensures
            r == self.used(),
    {
        self.slots.len()
    }

    pub fn new() -> (r: Self)
        ensures
            r.wf(),
            r.view() == Map::<Seq<char>, V>::empty(),
            r.used() == 0,
    {
        let r = Cache { index: StringHashMap::new(), keys: Vec::new(), slots: Vec::new() };
        assert(r.view() =~= Map::<Seq<char>, V>::empty());
        r
    }

    /// Stores `v` under `key`, replacing any record stored there.
    pub fn insert(&mut self, key: String, v: V)
        requires
            old(self).wf(),
            old(self).used() < usize::MAX,
        ensures
            final(self).wf(),
            final(self).view() == old(self).view().insert(key@, v),
            final(self).used() == old(self).used() + 1,
    {
        let n = self.slots.len();
        match self.index.get(key.as_str()) {
            Some(j) => {
                let j = *j;
                self.slots[j] = None;
            },
            None => {},
        }
        self.index.insert(key.clone(), n);
        self.keys.push(key);
        self.slots.push(Some(v));
        assert(self.view() =~= old(self).view().insert(key@, v));
    }

    /// Moves out the record stored under `key`, if any.
    pub fn take(&mut self, key: &str) -> (r: Option<V>)
        requires
            old(self).wf(),
        ensures
            final(self).wf(),
            final(self).used() == old(self).used(),
            match r {
                Some(v) => old(self).view().contains_key(key@) && v == old(self).view()[key@],
                None => !old(self).view().contains_key(key@),
            },
            final(self).view() == old(self).view().remove(key@),
    {
        match self.index.get(key) {
            Some(j) => {
                let j = *j;
                self.index.remove(key);
                let r = self.slots[j].take();
                assert(self.view() =~= old(self).view().remove(key@));
                r
            },
            None => {
                assert(self.view() =~= old(self).view().remove(key@));
                None
            },
        }
    }

    /// Moves out every record that is left, emptying the table.
    pub fn drain(&mut self) -> (r: Vec<V>)
        requires
            old(self).wf(),
        ensures
            final(self).wf(),
            final(self).view() == Map::<Seq<char>, V>::empty(),
            final(self).used() == 0,
            r@.len() <= old(self).used(),
            forall|v: V|
                r@.contains(v) <==> exists|k: Seq<char>|
                    old(self).view().contains_key(k) && #[trigger] old(self).view()[k] == v,
    {
        let ghost old_slots = self.slots@;
        let ghost old_view = self.view();
        let mut out: Vec<V> = Vec::new();
        let mut i: usize = 0;
        while i < self.slots.len()
            invariant
                self.slots@.len() == old_slots.len(),
                i <= old_slots.len(),
                out@.len() <= i,
                forall|j: int| i <= j < old_slots.len() ==> self.slots@[j] == old_slots[j],
                forall|v: V|
                    out@.contains(v) <==> exists|j: int|
                        0 <= j < i && #[trigger] old_slots[j] == Some(v),
            decreases old_slots.len() - i,
        {
            let x = self.slots[i].take();
            match x {
                Some(v) => {
                    let ghost before = out@;
                    out.push(v);
                    assert forall|w: V| out@.contains(w) <==> exists|j: int|
                        0 <= j < i + 1 && #[trigger] old_slots[j] == Some(w) by {
                        if out@.contains(w) {
                            let t = choose|t: int| 0 <= t < out@.len() && out@[t] == w;
                            if t < before.len() {
                                assert(before.contains(w));
                            } else {
                                assert(old_slots[i as int] == Some(w));
                            }
                        }
                        if exists|j: int| 0 <= j < i + 1 && #[trigger] old_slots[j] == Some(w) {
                            let j = choose|j: int| 0 <= j < i + 1 && #[trigger] old_slots[j] == Some(w);
                            if j < i {
                                assert(before.contains(w));
                                let t = choose|t: int| 0 <= t < before.len() && before[t] == w;
                                assert(out@[t] == w);
                            } else {
                                assert(out@[before.len() as int] == w);
                            }
                        }
                    }
                },
                None => {},
            }
            i = i + 1;
        }
        assert forall|v: V| out@.contains(v) <==> exists|k: Seq<char>|
            old_view.contains_key(k) && #[trigger] old_view[k] == v by {
            if out@.contains(v) {
                let j = choose|j: int| 0 <= j < old_slots.len() && #[trigger] old_slots[j] == Some(v);
                assert(old_slots[j] is Some);
                let k = old(self).keys@[j]@;
                assert(old_view.contains_key(k) && old_view[k] == v);
            }
            if exists|k: Seq<char>| old_view.contains_key(k) && #[trigger] old_view[k] == v {
                let k = choose|k: Seq<char>| old_view.contains_key(k) && #[trigger] old_view[k] == v;
                let j = old(self).index@[k] as int;
                assert(old(self).index@.contains_key(k));
                assert(old_slots[j] == Some(v));
            }
        }
        self.index.clear();
        self.keys.clear();
        self.slots.clear();
        assert(self.view() =~= Map::<Seq<char>, V>::empty());
        out
    }
}

} // verus!
