//! The peer's chunk store: a read-only mapping from chunk identifiers to
//! payloads, filled once.

use vstd::prelude::*;
use std::collections::HashMap;

verus! {

broadcast use vstd::std_specs::hash::group_hash_axioms;

pub type ChunkId = u16;

pub type Chunk = Vec<u8>;

/// The store that loading `entries` in order gives: each identifier maps to
/// the payload of the last entry that names it.
pub open spec fn loaded_store(entries: Seq<(ChunkId, Chunk)>) -> Map<ChunkId, Seq<u8>>
    decreases entries.len(),
{
    if entries.len() == 0 {
        Map::empty()
    } else {
        loaded_store(entries.drop_last()).insert(entries.last().0, entries.last().1@)
    }
}

/// A loaded store holds the chunks that the entries name and no others, and
/// for each of them the payload of the last entry that names it.
pub proof fn lemma_loaded_store_holds_last_entries(entries: Seq<(ChunkId, Chunk)>, id: ChunkId)
    ensures
        loaded_store(entries).contains_key(id) <==> exists|i: int|
            0 <= i < entries.len() && (#[trigger] entries[i]).0 == id,
        forall|i: int|
            0 <= i < entries.len() && (#[trigger] entries[i]).0 == id && (forall|j: int|
                i < j < entries.len() ==> (#[trigger] entries[j]).0 != id) ==> loaded_store(
                entries,
            )[id] == entries[i].1@,
    decreases entries.len(),
{
    if entries.len() > 0 {
        let rest = entries.drop_last();
        lemma_loaded_store_holds_last_entries(rest, id);
        if entries.last().0 == id {
            assert(entries[entries.len() - 1].0 == id);
        } else {
            if loaded_store(rest).contains_key(id) {
                let i = choose|i: int| 0 <= i < rest.len() && (#[trigger] rest[i]).0 == id;
                assert(entries[i].0 == id);
            }
            if exists|i: int| 0 <= i < entries.len() && (#[trigger] entries[i]).0 == id {
                let i = choose|i: int| 0 <= i < entries.len() && (#[trigger] entries[i]).0 == id;
                assert(rest[i].0 == id);
            }
        }
        assert forall|i: int|
            0 <= i < entries.len() && (#[trigger] entries[i]).0 == id && (forall|j: int|
                i < j < entries.len() ==> (#[trigger] entries[j]).0 != id) implies loaded_store(
            entries,
        )[id] == entries[i].1@ by {
            if i < entries.len() - 1 {
                assert(entries[entries.len() - 1].0 != id);
                assert(rest[i] == entries[i]);
                assert forall|j: int| i < j < rest.len() implies (#[trigger] rest[j]).0 != id by {
                    assert(entries[j].0 != id);
                }
            }
        }
    }
}

/// The chunks that a peer can serve.
pub struct ChunkManager {
    map: HashMap<ChunkId, Chunk>,
}

impl View for ChunkManager {
    type V = Map<ChunkId, Seq<u8>>;

    closed spec fn view(&self) -> Map<ChunkId, Seq<u8>> {
        self.map@.map_values(|chunk: Chunk| chunk@)
    }
}

impl ChunkManager {
    /// Builds the store from the manifest's entries, each an identifier and
    /// the payload read for it, in the manifest's order.
    pub fn new(entries: Vec<(ChunkId, Chunk)>) -> (store: ChunkManager)
        ensures
            store@ == loaded_store(entries@),
    {
        let mut map: HashMap<ChunkId, Chunk> = HashMap::new();
        let ghost all = entries@;
        for entry in iter: entries
            invariant
                iter.seq() == all,
                map@.map_values(|chunk: Chunk| chunk@) == loaded_store(
                    all.take(iter.index() as int),
                ),
        {
            let ghost before = map@;
            let ghost i = iter.index() as int;
            map.insert(entry.0, entry.1);
            proof {
                assert(all.take(i + 1).drop_last() =~= all.take(i));
                assert(map@.map_values(|chunk: Chunk| chunk@) =~= before.map_values(
                    |chunk: Chunk| chunk@,
                ).insert(entry.0, entry.1@));
            }
        }
        assert(all.take(all.len() as int) =~= all);
        ChunkManager { map }
    }

    /// Whether the store holds a payload for `key`.
    pub fn contains(&self, key: &ChunkId) -> (held: bool)
        ensures
            held == self@.contains_key(*key),
    {
        self.map.contains_key(key)
    }

    /// The payload held for `key`, if any. A miss is an ordinary outcome.
    pub fn get(&self, key: &ChunkId) -> (found: Option<&Chunk>)
        ensures
            match found {
                Some(chunk) => self@.contains_key(*key) && self@[*key] == chunk@,
                None => !self@.contains_key(*key),
            },
    {
        self.map.get(key)
    }
}

} // verus!
