//! The stream registry: opaque stream ids mapped to file paths.
use vstd::prelude::*;
use crate::text::{hex, lemma_hex_injective, uuid_simple};

verus! {

/// One registered stream.
pub struct StreamEntry {
    pub id: String,
    pub path: String,
    stamp: u64,
}

/// Maps stream ids to the paths of the files they serve. Ids are the
/// lowercase hexadecimal text of a stamp (a clock reading), raised where
/// needed so that each id issued is newer than every earlier one: an id is
/// never issued twice, even after its stream is removed.
pub struct StreamingState {
    entries: Vec<StreamEntry>,
    last_stamp: u64,
    map: Ghost<Map<Seq<char>, Seq<char>>>,
}

impl View for StreamingState {
    type V = Map<Seq<char>, Seq<char>>;

    closed spec fn view(&self) -> Map<Seq<char>, Seq<char>> {
        self.map@
    }
}

/// The stamp that a registration made with clock reading `stamp` uses,
/// after the newest stamp `last`.
pub open spec fn next_stamp(last: u64, stamp: u64) -> u64 {
    if stamp > last {
        stamp
    } else {
        (last + 1) as u64
    }
}

impl StreamingState {
    /// The newest stamp issued (0 before the first registration).
    pub closed spec fn last_stamp(&self) -> u64 {
        self.last_stamp
    }

    pub closed spec fn wf(&self) -> bool {
        &&& forall|i: int|
            0 <= i < self.entries@.len() ==> {
                &&& self.map@.contains_key(#[trigger] self.entries@[i].id@)
                &&& self.map@[self.entries@[i].id@] == self.entries@[i].path@
                &&& self.entries@[i].id@ == hex(self.entries@[i].stamp as nat)
                &&& self.entries@[i].stamp <= self.last_stamp
            }
        &&& forall|k: Seq<char>|
            #[trigger] self.map@.contains_key(k) ==> exists|i: int|
                0 <= i < self.entries@.len() && #[trigger] self.entries@[i].id@ == k
        &&& forall|i: int, j: int|
            0 <= i < self.entries@.len() && 0 <= j < self.entries@.len() && i != j
                ==> #[trigger] self.entries@[i].id@ != #[trigger] self.entries@[j].id@
    }

    pub fn new() -> (r: StreamingState)
        ensures
            r.wf(),
            r@ == Map::<Seq<char>, Seq<char>>::empty(),
            r.last_stamp() == 0,
    {
        StreamingState { entries: Vec::new(), last_stamp: 0, map: Ghost(Map::empty()) }
    }

    /// Index of the entry with id `id`, if any.
    fn find(&self, id: &str) -> (r: Option<usize>)
        requires
            self.wf(),
        ensures
            match r {
                Some(i) => i < self.entries@.len() && self.entries@[i as int].id@ == id@,
                None => !self@.contains_key(id@),
            },
    {
        let key = id.to_owned();
        let mut i: usize = 0;
        while i < self.entries.len()
            invariant
                self.wf(),
                key@ == id@,
                i <= self.entries@.len(),
                forall|j: int| 0 <= j < i ==> #[trigger] self.entries@[j].id@ != id@,
            decreases self.entries@.len() - i,
        {
            if self.entries[i].id.eq(&key) {
                return Some(i);
            }
            i = i + 1;
        }
        None
    }

    /// Registers the file at `path` and returns its new id, made from the
    /// clock reading `stamp`, or from the stamp after the newest one where
    /// the clock did not move forward. `None` only when every stamp has
    /// been issued.
    pub fn register_stream(&mut self, path: String, stamp: u64) -> (id: Option<String>)
        requires
            old(self).wf(),
        ensures
            final(self).wf(),
            match id {
                Some(t) => {
                    &&& !old(self)@.contains_key(t@)
                    &&& final(self)@ == old(self)@.insert(t@, path@)
                    &&& t@ == hex(next_stamp(old(self).last_stamp(), stamp) as nat)
                    &&& final(self).last_stamp() == next_stamp(old(self).last_stamp(), stamp)
                    &&& final(self).last_stamp() > old(self).last_stamp()
                },
                None => {
                    &&& stamp <= old(self).last_stamp() == u64::MAX
                    &&& final(self)@ == old(self)@
                    &&& final(self).last_stamp() == old(self).last_stamp()
                },
            },
    {
        if stamp <= self.last_stamp && self.last_stamp == u64::MAX {
            return None;
        }
        let s = if stamp > self.last_stamp {
            stamp
        } else {
            self.last_stamp + 1
        };
        let id = uuid_simple(s);
        proof {
            assert forall|i: int| 0 <= i < self.entries@.len() implies #[trigger] self.entries@[i].id@
                != id@ by {
                if self.entries@[i].id@ == id@ {
                    lemma_hex_injective(self.entries@[i].stamp as nat, s as nat);
                }
            }
        }
        let ghost old_entries = self.entries@;
        let ghost old_map = self.map@;
        self.entries.push(StreamEntry { id: id.clone(), path: path, stamp: s });
        self.last_stamp = s;
        self.map = Ghost(self.map@.insert(id@, path@));
        proof {
            let n = old_entries.len();
            assert(self.entries@[n as int].id@ == id@);
            assert forall|k: Seq<char>| #[trigger] self.map@.contains_key(k) implies exists|i: int|
                0 <= i < self.entries@.len() && #[trigger] self.entries@[i].id@ == k by {
                if k == id@ {
                    assert(self.entries@[n as int].id@ == k);
                } else {
                    assert(old_map.contains_key(k));
                    let i = choose|i: int| 0 <= i < old_entries.len() && #[trigger] old_entries[i].id@ == k;
                    assert(self.entries@[i].id@ == k);
                }
            }
            assert forall|i: int| 0 <= i < self.entries@.len() implies {
                &&& self.map@.contains_key(#[trigger] self.entries@[i].id@)
                &&& self.map@[self.entries@[i].id@] == self.entries@[i].path@
                &&& self.entries@[i].id@ == hex(self.entries@[i].stamp as nat)
                &&& self.entries@[i].stamp <= self.last_stamp
            } by {
                if i < n {
                    assert(self.entries@[i] == old_entries[i]);
                }
            }
            assert forall|i: int, j: int|
                0 <= i < self.entries@.len() && 0 <= j < self.entries@.len() && i != j
                implies #[trigger] self.entries@[i].id@ != #[trigger] self.entries@[j].id@ by {
                if i < n && j < n {
                    assert(self.entries@[i] == old_entries[i]);
                    assert(self.entries@[j] == old_entries[j]);
                }
            }
        }
        Some(id)
    }

    /// The path registered under `id`, if any.
    pub fn get_stream_path(&self, id: &str) -> (r: Option<String>)
        requires
            self.wf(),
        ensures
            match r {
                Some(p) => self@.contains_key(id@) && p@ == self@[id@],
                None => !self@.contains_key(id@),
            },
    {
        match self.find(id) {
            Some(i) => Some(self.entries[i].path.clone()),
            None => None,
        }
    }

    /// Removes the stream `id`; nothing happens where it is not registered.
    pub fn remove_stream(&mut self, id: &str)
        requires
            old(self).wf(),
        ensures
            final(self).wf(),
            final(self)@ == old(self)@.remove(id@),
            final(self).last_stamp() == old(self).last_stamp(),
    {
        match self.find(id) {
            None => {
                assert(self.map@.remove(id@) =~= self.map@);
            },
            Some(i) => {
                let ghost old_entries = self.entries@;
                let ghost old_map = self.map@;
                self.entries.remove(i);
                self.map = Ghost(self.map@.remove(id@));
                proof {
                    assert forall|k: Seq<char>| #[trigger] self.map@.contains_key(k) implies exists|
                        j: int,
                    | 0 <= j < self.entries@.len() && #[trigger] self.entries@[j].id@ == k by {
                        assert(old_map.contains_key(k));
                        let j = choose|j: int|
                            0 <= j < old_entries.len() && #[trigger] old_entries[j].id@ == k;
                        assert(j != i);
                        if j < i {
                            assert(self.entries@[j] == old_entries[j]);
                        } else {
                            assert(self.entries@[j - 1] == old_entries[j]);
                        }
                    }
                    assert forall|j: int| 0 <= j < self.entries@.len() implies {
                        &&& self.map@.contains_key(#[trigger] self.entries@[j].id@)
                        &&& self.map@[self.entries@[j].id@] == self.entries@[j].path@
                        &&& self.entries@[j].id@ == hex(self.entries@[j].stamp as nat)
                        &&& self.entries@[j].stamp <= self.last_stamp
                    } by {
                        if j < i {
                            assert(self.entries@[j] == old_entries[j]);
                            assert(old_entries[j].id@ != old_entries[i as int].id@);
                        } else {
                            assert(self.entries@[j] == old_entries[j + 1]);
                            assert(old_entries[j + 1].id@ != old_entries[i as int].id@);
                        }
                    }
                    assert forall|a: int, b: int|
                        0 <= a < self.entries@.len() && 0 <= b < self.entries@.len() && a != b
                        implies #[trigger] self.entries@[a].id@ != #[trigger] self.entries@[b].id@ by {
                        let oa = if a < i { a } else { a + 1 };
                        let ob = if b < i { b } else { b + 1 };
                        assert(self.entries@[a] == old_entries[oa]);
                        assert(self.entries@[b] == old_entries[ob]);
                    }
                }
            },
        }
    }

    /// Removes every stream.
    pub fn clear_streams(&mut self)
        requires
            old(self).wf(),
        ensures
            final(self).wf(),
            final(self)@ == Map::<Seq<char>, Seq<char>>::empty(),
            final(self).last_stamp() == old(self).last_stamp(),
    {
        self.entries.clear();
        self.map = Ghost(Map::empty());
    }
}

impl Default for StreamingState {
    fn default() -> (r: StreamingState)
        ensures
            r.wf(),
            r@ == Map::<Seq<char>, Seq<char>>::empty(),
            r.last_stamp() == 0,
    {
        StreamingState::new()
    }
}

/// Ids are never issued twice. A registration into a registry whose
/// newest stamp is `last1`, with clock reading `stamp1`, leaves the newest
/// stamp at `next_stamp(last1, stamp1)`, and no later operation lowers it;
/// so any later registration, from newest stamp `last2` with reading
/// `stamp2`, returns another id.
pub proof fn lemma_ids_never_repeat(last1: u64, stamp1: u64, last2: u64, stamp2: u64)
    requires
        last2 >= next_stamp(last1, stamp1),
        !(stamp2 <= last2 && last2 == u64::MAX),
    ensures
        hex(next_stamp(last1, stamp1) as nat) != hex(next_stamp(last2, stamp2) as nat),
{
    if hex(next_stamp(last1, stamp1) as nat) == hex(next_stamp(last2, stamp2) as nat) {
        lemma_hex_injective(next_stamp(last1, stamp1) as nat, next_stamp(last2, stamp2) as nat);
    }
}

/// After `remove_stream(id)` the id resolves to nothing.
pub proof fn lemma_removed_stream_is_absent(r0: StreamingState, r1: StreamingState, id: Seq<char>)
    requires
        r1@ == r0@.remove(id),
    ensures
        !r1@.contains_key(id),
{
}

} // verus!
