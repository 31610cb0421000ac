use vstd::prelude::*;

use crate::model::{samples_match, served_by, serves, KeyView, MetricKey, Sample, ServerDescriptor};

verus! {

/// The map that `set` leaves behind.
pub open spec fn after_set(m: Map<KeyView, u64>, k: KeyView, v: u64) -> Map<KeyView, u64> {
    m.insert(k, v)
}

/// The map that `reset_all` leaves behind: nothing survives a reset.
pub open spec fn after_reset(m: Map<KeyView, u64>) -> Map<KeyView, u64> {
    Map::empty()
}

/// The last-known rate of each measured target, in kbps.
pub struct Registry {
    entries: Vec<Sample>,
    contents: Ghost<Map<KeyView, u64>>,
}

impl View for Registry {
    type V = Map<KeyView, u64>;

    closed spec fn view(&self) -> Map<KeyView, u64> {
        self.contents@
    }
}

impl Registry {
    /// Each key is stored once, and the entries list exactly the contents.
    pub closed spec fn well_formed(&self) -> bool {
        samples_match(self.entries@, self.contents@)
    }

    pub fn new() -> (r: Registry)
        ensures
            r.well_formed(),
            r@ == Map::<KeyView, u64>::empty(),
    {
        Registry { entries: Vec::new(), contents: Ghost(Map::empty()) }
    }

    /// Position of the entry for `key`, if there is one.
    fn position_of(&self, key: &MetricKey) -> (r: Option<usize>)
        requires
            self.well_formed(),
        ensures
            r is None <==> !self@.contains_key(key@),
            r matches Some(i) ==> i < self.entries@.len() && self.entries@[i as int].key@ == key@,
    {
        let mut i: usize = 0;
        while i < self.entries.len()
            invariant
                self.well_formed(),
                i <= self.entries@.len(),
                forall|j: int| 0 <= j < i ==> self.entries@[j].key@ != key@,
            decreases self.entries@.len() - i,
        {
            if self.entries[i].key.same_series(key) {
                proof {
                    assert(self.contents@.contains_key(self.entries@[i as int].key@));
                }
                return Some(i);
            }
            i = i + 1;
        }
        proof {
            if self@.contains_key(key@) {
                let j = choose|j: int| 0 <= j < self.entries@.len() && self.entries@[j].key@ == key@;
            }
        }
        None
    }

    /// Stores `value` as the last-known rate for `key`.
    pub fn set(&mut self, key: MetricKey, value: u64)
        requires
            old(self).well_formed(),
        ensures
            final(self).well_formed(),
            final(self)@ == after_set(old(self)@, key@, value),
    {
        let ghost k = key@;
        let ghost new_map = self.contents@.insert(k, value);
        match self.position_of(&key) {
            Some(i) => {
                self.entries[i] = Sample { key, value };
                self.contents = Ghost(new_map);
                assert forall|q: KeyView| #[trigger] new_map.contains_key(q) implies exists|j: int|
                    0 <= j < self.entries@.len() && self.entries@[j].key@ == q by {
                    if q != k {
                        let j = choose|j: int| 0 <= j < old(self).entries@.len() && old(self).entries@[j].key@ == q;
                        assert(self.entries@[j].key@ == q);
                    } else {
                        assert(self.entries@[i as int].key@ == q);
                    }
                }
            },
            None => {
                self.entries.push(Sample { key, value });
                self.contents = Ghost(new_map);
                let ghost n = self.entries@.len() - 1;
                assert forall|q: KeyView| #[trigger] new_map.contains_key(q) implies exists|j: int|
                    0 <= j < self.entries@.len() && self.entries@[j].key@ == q by {
                    if q != k {
                        let j = choose|j: int| 0 <= j < old(self).entries@.len() && old(self).entries@[j].key@ == q;
                        assert(self.entries@[j].key@ == q);
                    } else {
                        assert(self.entries@[n].key@ == q);
                    }
                }
                assert forall|a: int, b: int| 0 <= a < b < self.entries@.len() implies
                    self.entries@[a].key@ != self.entries@[b].key@ by {
                    if b == n {
                        assert(old(self).entries@[a].key@ != k);
                    }
                }
            },
        }
    }

    /// Removes every entry at once.
    pub fn reset_all(&mut self)
        requires
            old(self).well_formed(),
        ensures
            final(self).well_formed(),
            final(self)@ == after_reset(old(self)@),
    {
        self.entries.clear();
        self.contents = Ghost(Map::empty());
    }

    /// Drops every entry that is not a series of one of `servers`.
    pub fn retain_servers(&mut self, servers: &Vec<ServerDescriptor>)
        requires
            old(self).well_formed(),
        ensures
            final(self).well_formed(),
            final(self)@ == old(self)@.restrict(served_by(servers@)),
    {
        let ghost keep = served_by(servers@);
        let ghost old_map = self.contents@;
        let mut entries: Vec<Sample> = Vec::new();
        std::mem::swap(&mut entries, &mut self.entries);
        let mut kept: Vec<Sample> = Vec::new();
        let ghost mut kept_map: Map<KeyView, u64> = Map::empty();
        let mut i: usize = 0;
        while i < entries.len()
            invariant
                keep == served_by(servers@),
                samples_match(entries@, old_map),
                i <= entries@.len(),
                samples_match(kept@, kept_map),
                forall|k: KeyView| #[trigger] kept_map.contains_key(k) <==> (keep.contains(k) && exists|j: int|
                    0 <= j < i && entries@[j].key@ == k),
                forall|k: KeyView| #[trigger] kept_map.contains_key(k) ==> kept_map[k] == old_map[k],
            decreases entries@.len() - i,
        {
            let ghost ki = entries@[i as int].key@;
            let ghost before_map = kept_map;
            assert(old_map.contains_key(ki));
            assert(!before_map.contains_key(ki)) by {
                if before_map.contains_key(ki) {
                    let j = choose|j: int| 0 <= j < i && entries@[j].key@ == ki;
                }
            }
            let served = serves(servers, &entries[i].key);
            if served {
                let s = &entries[i];
                let ghost before = kept@;
                kept.push(Sample { key: s.key.copied(), value: s.value });
                proof {
                    kept_map = before_map.insert(ki, s.value);
                    let n = before.len() as int;
                    assert forall|a: int| 0 <= a < kept@.len() implies #[trigger] kept_map.contains_key(kept@[a].key@)
                        && kept_map[kept@[a].key@] == kept@[a].value by {
                        if a < n {
                            assert(kept@[a] == before[a]);
                            assert(before_map.contains_key(before[a].key@));
                        }
                    }
                    assert forall|a: int, b: int| 0 <= a < b < kept@.len() implies kept@[a].key@ != kept@[b].key@ by {
                        if b == n {
                            assert(before_map.contains_key(before[a].key@));
                        }
                    }
                    assert forall|k: KeyView| #[trigger] kept_map.contains_key(k) implies exists|j: int|
                        0 <= j < kept@.len() && kept@[j].key@ == k by {
                        if k == ki {
                            assert(kept@[n].key@ == k);
                        } else {
                            let j = choose|j: int| 0 <= j < before.len() && before[j].key@ == k;
                            assert(kept@[j].key@ == k);
                        }
                    }
                }
            }
            proof {
                assert forall|k: KeyView| #[trigger] kept_map.contains_key(k) <==> (keep.contains(k) && exists|j: int|
                    0 <= j < i + 1 && entries@[j].key@ == k) by {
                    assert(before_map.contains_key(k) == (keep.contains(k) && exists|j: int|
                        0 <= j < i && entries@[j].key@ == k));
                    assert(served == keep.contains(ki));
                    if exists|j: int| 0 <= j < i + 1 && entries@[j].key@ == k {
                        let j = choose|j: int| 0 <= j < i + 1 && entries@[j].key@ == k;
                        if j < i {
                            assert(0 <= j < i && entries@[j].key@ == k);
                        } else {
                            assert(k == ki);
                        }
                    }
                    if exists|j: int| 0 <= j < i && entries@[j].key@ == k {
                        let j = choose|j: int| 0 <= j < i && entries@[j].key@ == k;
                        assert(0 <= j < i + 1 && entries@[j].key@ == k);
                    }
                }
            }
            i = i + 1;
        }
        proof {
            assert forall|k: KeyView| #[trigger] kept_map.contains_key(k) <==> old_map.restrict(keep).contains_key(k) by {
                if old_map.contains_key(k) && keep.contains(k) {
                    let j = choose|j: int| 0 <= j < entries@.len() && entries@[j].key@ == k;
                }
            }
            assert(kept_map =~= old_map.restrict(keep));
        }
        self.entries = kept;
        self.contents = Ghost(kept_map);
    }

    /// The last-known rate for `key`, if it has one.
    pub fn get(&self, key: &MetricKey) -> (r: Option<u64>)
        requires
            self.well_formed(),
        ensures
            r == (if self@.contains_key(key@) { Some(self@[key@]) } else { None::<u64> }),
    {
        match self.position_of(key) {
            Some(i) => Some(self.entries[i].value),
            None => None,
        }
    }

    pub fn is_empty(&self) -> (r: bool)
        requires
            self.well_formed(),
        ensures
            r == (self@ == Map::<KeyView, u64>::empty()),
    {
        let r = self.entries.len() == 0;
        proof {
            if r {
                assert(self@ =~= Map::<KeyView, u64>::empty());
            } else {
                assert(self@.contains_key(self.entries@[0].key@));
            }
        }
        r
    }

    /// A copy of every entry, each key once, to read without further locking.
    pub fn snapshot(&self) -> (r: Vec<Sample>)
        requires
            self.well_formed(),
        ensures
            samples_match(r@, self@),
    {
        let mut out: Vec<Sample> = Vec::new();
        let mut i: usize = 0;
        while i < self.entries.len()
            invariant
                self.well_formed(),
                i <= self.entries@.len(),
                out@.len() == i,
                forall|j: int| 0 <= j < i ==> out@[j].key@ == self.entries@[j].key@ && out@[j].value
                    == self.entries@[j].value,
            decreases self.entries@.len() - i,
        {
            let s = &self.entries[i];
            out.push(Sample { key: s.key.copied(), value: s.value });
            i = i + 1;
        }
        assert forall|k: KeyView| #[trigger] self@.contains_key(k) implies exists|j: int|
            0 <= j < out@.len() && out@[j].key@ == k by {
            let j = choose|j: int| 0 <= j < self.entries@.len() && self.entries@[j].key@ == k;
            assert(out@[j].key@ == k);
        }
        out
    }
}

} // verus!
