//! What an entity remembers: values under names, each with the tick it was
//! stored at, and a few well-known facts.
use vstd::prelude::*;
use crate::world::BlockPos;

verus! {

/// A remembered value and the game tick it was stored at.
#[derive(Clone, Copy, Debug, PartialEq, Eq, Structural)]
pub struct MemoryEntry {
    pub value: MemoryValue,
    pub timestamp: u64,
}

/// A value an entity can remember.
#[derive(Clone, Copy, Debug, PartialEq, Eq, Structural)]
pub enum MemoryValue {
    /// Another entity, by id.
    Entity(u64),
    Position(BlockPos),
    /// A number, as the bits of an `f64`.
    Float(u64),
    Bool(bool),
}

/// The memory of an entity.
#[derive(Clone, Debug)]
pub struct EntityMemory {
    entries: Vec<(String, MemoryEntry)>,
    pub current_target: Option<u64>,
    pub home_position: Option<BlockPos>,
    pub last_damage_source: Option<String>,
    pub last_seen_player: Option<u64>,
    pub panic_target: Option<BlockPos>,
}

/// The names of a list of entries, as character sequences.
pub open spec fn entry_keys(es: Seq<(String, MemoryEntry)>) -> Seq<Seq<char>> {
    es.map_values(|e: (String, MemoryEntry)| e.0@)
}

impl EntityMemory {
    /// The invariant: no name is stored twice.
    pub closed spec fn wf(&self) -> bool {
        entry_keys(self.entries@).no_duplicates()
    }

    /// The remembered entries, by name.
    pub closed spec fn entries_map(&self) -> Map<Seq<char>, MemoryEntry> {
        Map::new(
            |k: Seq<char>| entry_keys(self.entries@).contains(k),
            |k: Seq<char>| self.entries@[entry_keys(self.entries@).index_of(k)].1,
        )
    }

    /// The other fields, which the entry operations leave alone except
    /// where they say so.
    pub closed spec fn facts(&self) -> (Option<u64>, Option<BlockPos>, Option<Seq<char>>, Option<u64>, Option<BlockPos>) {
        (
            self.current_target,
            self.home_position,
            match &self.last_damage_source {
                Some(s) => Some(s@),
                None => None,
            },
            self.last_seen_player,
            self.panic_target,
        )
    }

    /// An empty memory.
    pub fn new() -> (m: EntityMemory)
        ensures
            m.wf(),
            m.entries_map() == Map::<Seq<char>, MemoryEntry>::empty(),
            m.facts() == (None::<u64>, None::<BlockPos>, None::<Seq<char>>, None::<u64>, None::<BlockPos>),
    {
        let m = EntityMemory {
            entries: Vec::new(),
            current_target: None,
            home_position: None,
            last_damage_source: None,
            last_seen_player: None,
            panic_target: None,
        };
        proof {
            assert(m.entries_map() =~= Map::<Seq<char>, MemoryEntry>::empty());
        }
        m
    }

    /// Where the entry named `key` is stored, if anywhere.
    fn position_of(&self, key: &str) -> (r: Option<usize>)
        ensures
            r matches Some(i) ==> i < self.entries@.len() && self.entries@[i as int].0@ == key@,
            r is None ==> !entry_keys(self.entries@).contains(key@),
    {
        let k = key.to_owned();
        let mut i: usize = 0;
        while i < self.entries.len()
            invariant
                k@ == key@,
                i <= self.entries@.len(),
                forall|j: int| 0 <= j < i ==> self.entries@[j].0@ != key@,
            decreases self.entries@.len() - i,
        {
            if self.entries[i].0 == k {
                return Some(i);
            }
            i = i + 1;
        }
        proof {
            if entry_keys(self.entries@).contains(key@) {
                let j = choose|j: int| 0 <= j < entry_keys(self.entries@).len() && entry_keys(self.entries@)[j] == key@;
                assert(self.entries@[j].0@ == key@);
            }
        }
        None
    }

    /// Remembers `value` under `key`, stored at tick `tick`, replacing
    /// what was there.
    pub fn remember(&mut self, key: &str, value: MemoryValue, tick: u64)
        requires
            old(self).wf(),
        ensures
            final(self).wf(),
            final(self).entries_map() == old(self).entries_map().insert(key@, MemoryEntry { value, timestamp: tick }),
            final(self).facts() == old(self).facts(),
    {
        let entry = MemoryEntry { value, timestamp: tick };
        let ghost e0 = self.entries@;
        match self.position_of(key) {
            Some(i) => {
                let name = key.to_owned();
                self.entries.set(i, (name, entry));
                proof {
                    let e1 = self.entries@;
                    assert(entry_keys(e1) =~= entry_keys(e0));
                    assert(entry_keys(e1)[i as int] == key@);
                    assert forall|k: Seq<char>| entry_keys(e1).contains(k) implies e1[entry_keys(e1).index_of(k)].1
                        == old(self).entries_map().insert(key@, entry)[k] by {
                        let j = entry_keys(e1).index_of(k);
                        assert(entry_keys(e1)[j] == k);
                        if k == key@ {
                            assert(entry_keys(e1)[i as int] == k);
                            assert(j == i);
                        } else {
                            assert(j != i);
                            assert(e1[j] == e0[j]);
                        }
                    }
                    assert(self.entries_map() =~= old(self).entries_map().insert(key@, entry));
                }
            },
            None => {
                let name = key.to_owned();
                self.entries.push((name, entry));
                proof {
                    let e1 = self.entries@;
                    assert(entry_keys(e1) =~= entry_keys(e0).push(key@));
                    assert forall|k: Seq<char>| entry_keys(e1).contains(k) implies e1[entry_keys(e1).index_of(k)].1
                        == old(self).entries_map().insert(key@, entry)[k] by {
                        if k != key@ {
                            assert(entry_keys(e0).contains(k));
                        } else {
                            assert(entry_keys(e1)[e0.len() as int] == k);
                        }
                    }
                    assert forall|k: Seq<char>| #[trigger] entry_keys(e1).contains(k) == (entry_keys(e0).contains(k) || k == key@) by {
                        if entry_keys(e0).contains(k) {
                            let j = choose|j: int| 0 <= j < entry_keys(e0).len() && entry_keys(e0)[j] == k;
                            assert(entry_keys(e1)[j] == k);
                        }
                        if k == key@ {
                            assert(entry_keys(e1)[e0.len() as int] == k);
                        }
                    }
                    assert(self.entries_map() =~= old(self).entries_map().insert(key@, entry));
                }
            },
        }
    }

    /// The entry remembered under `key`, if any.
    pub fn recall(&self, key: &str) -> (r: Option<&MemoryEntry>)
        requires
            self.wf(),
        ensures
            r is Some <==> self.entries_map().contains_key(key@),
            r matches Some(e) ==> *e == self.entries_map()[key@],
    {
        match self.position_of(key) {
            Some(i) => {
                proof {
                    assert(entry_keys(self.entries@)[i as int] == key@);
                }
                Some(&self.entries[i].1)
            },
            None => None,
        }
    }

    /// Forgets the entry under `key`.
    pub fn forget(&mut self, key: &str)
        requires
            old(self).wf(),
        ensures
            final(self).wf(),
            final(self).entries_map() == old(self).entries_map().remove(key@),
            final(self).facts() == old(self).facts(),
    {
        let ghost e0 = self.entries@;
        match self.position_of(key) {
            Some(i) => {
                self.entries.remove(i);
                proof {
                    let e1 = self.entries@;
                    assert(entry_keys(e1) =~= entry_keys(e0).remove(i as int));
                    assert(entry_keys(e0)[i as int] == key@);
                    assert forall|k: Seq<char>| #[trigger] entry_keys(e1).contains(k) == (entry_keys(e0).contains(k) && k != key@) by {
                        if entry_keys(e1).contains(k) {
                            let j = choose|j: int| 0 <= j < entry_keys(e1).len() && entry_keys(e1)[j] == k;
                            if j < i {
                                assert(entry_keys(e0)[j] == k);
                            } else {
                                assert(entry_keys(e0)[j + 1] == k);
                            }
                        }
                        if entry_keys(e0).contains(k) && k != key@ {
                            let j = choose|j: int| 0 <= j < entry_keys(e0).len() && entry_keys(e0)[j] == k;
                            if j < i {
                                assert(entry_keys(e1)[j] == k);
                            } else {
                                assert(entry_keys(e1)[j - 1] == k);
                            }
                        }
                    }
                    assert forall|k: Seq<char>| entry_keys(e1).contains(k) implies e1[entry_keys(e1).index_of(k)].1
                        == old(self).entries_map()[k] by {
                        let j = entry_keys(e1).index_of(k);
                        let j0 = entry_keys(e0).index_of(k);
                        assert(entry_keys(e1)[j] == k);
                        assert(entry_keys(e0).contains(k));
                        assert(entry_keys(e0)[j0] == k);
                        if j < i {
                            assert(entry_keys(e0)[j] == k);
                            assert(j0 == j);
                            assert(e1[j] == e0[j]);
                        } else {
                            assert(entry_keys(e0)[j + 1] == k);
                            assert(j0 == j + 1);
                            assert(e1[j] == e0[j + 1]);
                        }
                    }
                    assert(self.entries_map() =~= old(self).entries_map().remove(key@));
                }
            },
            None => {
                proof {
                    assert(old(self).entries_map() =~= old(self).entries_map().remove(key@));
                }
            },
        }
    }

    /// Forgets every entry and the current target.
    pub fn clear(&mut self)
        ensures
            final(self).wf(),
            final(self).entries_map() == Map::<Seq<char>, MemoryEntry>::empty(),
            final(self).facts() == (None::<u64>, old(self).facts().1, old(self).facts().2, old(self).facts().3, old(self).facts().4),
    {
        self.entries = Vec::new();
        self.current_target = None;
        proof {
            assert(self.entries_map() =~= Map::<Seq<char>, MemoryEntry>::empty());
        }
    }

    /// Whether the entry under `key` is older than `max_age` ticks at
    /// `current_tick`; a missing entry counts as expired.
    pub fn is_expired(&self, key: &str, current_tick: u64, max_age: u64) -> (b: bool)
        requires
            self.wf(),
            self.entries_map().contains_key(key@) ==> self.entries_map()[key@].timestamp <= current_tick,
        ensures
            b == match self.entries_map().get(key@) {
                Some(e) => current_tick - e.timestamp > max_age,
                None => true,
            },
    {
        match self.recall(key) {
            Some(entry) => current_tick - entry.timestamp > max_age,
            None => true,
        }
    }
}

/// Recalling a name right after remembering a value under it gives that
/// value and tick; other names keep what they had.
pub proof fn lemma_recall_after_remember(m: Map<Seq<char>, MemoryEntry>, key: Seq<char>, e: MemoryEntry, other: Seq<char>)
    ensures
        m.insert(key, e).contains_key(key) && m.insert(key, e)[key] == e,
        other != key ==> (m.insert(key, e).contains_key(other) == m.contains_key(other) && (m.contains_key(other)
            ==> m.insert(key, e)[other] == m[other])),
{
}

/// After forgetting a name nothing is remembered under it, and other
/// names keep what they had.
pub proof fn lemma_recall_after_forget(m: Map<Seq<char>, MemoryEntry>, key: Seq<char>, other: Seq<char>)
    ensures
        !m.remove(key).contains_key(key),
        other != key ==> (m.remove(key).contains_key(other) == m.contains_key(other) && (m.contains_key(other)
            ==> m.remove(key)[other] == m[other])),
{
}

} // verus!
