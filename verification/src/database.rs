//! A keyed store of snapshots, held in memory.
//!
//! The store maps the identifier of a swap to the bytes of its latest
//! snapshot. A write replaces what was there: of a swap only the state it
//! last reached is kept.

use crate::codec::{decode, decode_spec, encode, encode_spec};
use crate::state::Swap;
use vstd::prelude::*;

verus! {

/// The identifier of one swap, stable across restarts.
#[derive(Clone, Copy, Debug, PartialEq, Eq, Hash, Structural)]
pub struct SwapId(pub u128);

/// Why a snapshot could not be read.
#[derive(Clone, Copy, Debug, PartialEq, Eq, Structural)]
pub enum ReadError {
    /// Nothing is stored under the identifier.
    NotFound,
    /// What is stored under the identifier is no snapshot.
    Corrupt,
}

/// One stored snapshot.
struct Entry {
    id: u128,
    snapshot: Vec<u8>,
}

/// The store.
pub struct Database {
    entries: Vec<Entry>,
}

/// No identifier occurs twice.
spec fn distinct(entries: Seq<Entry>) -> bool {
    forall|i: int, j: int|
        0 <= i < j < entries.len() ==> (#[trigger] entries[i]).id != (#[trigger] entries[j]).id
}

/// The map that a sequence of entries stands for.
spec fn as_map(entries: Seq<Entry>) -> Map<u128, Seq<u8>>
    decreases entries.len(),
{
    if entries.len() == 0 {
        Map::empty()
    } else {
        as_map(entries.drop_last()).insert(entries.last().id, entries.last().snapshot@)
    }
}

/// An entry's identifier is in the map, with the entry's snapshot.
proof fn lemma_entry_is_mapped(entries: Seq<Entry>, i: int)
    requires
        distinct(entries),
        0 <= i < entries.len(),
    ensures
        as_map(entries).dom().contains(entries[i].id),
        as_map(entries)[entries[i].id] == entries[i].snapshot@,
    decreases entries.len(),
{
    if i < entries.len() - 1 {
        let init = entries.drop_last();
        assert(init[i] == entries[i]);
        assert(entries[i].id != entries[entries.len() - 1].id);
        lemma_entry_is_mapped(init, i);
    }
}

/// An identifier that no entry has is not in the map.
proof fn lemma_absent_is_unmapped(entries: Seq<Entry>, id: u128)
    requires
        forall|i: int| 0 <= i < entries.len() ==> (#[trigger] entries[i]).id != id,
    ensures
        !as_map(entries).dom().contains(id),
    decreases entries.len(),
{
    if entries.len() > 0 {
        let init = entries.drop_last();
        assert forall|i: int| 0 <= i < init.len() implies (#[trigger] init[i]).id != id by {
            assert(init[i] == entries[i]);
        }
        assert(entries[entries.len() - 1].id != id);
        lemma_absent_is_unmapped(init, id);
    }
}

/// An identifier in the map belongs to some entry.
proof fn lemma_mapped_has_entry(entries: Seq<Entry>, id: u128)
    requires
        as_map(entries).dom().contains(id),
    ensures
        exists|i: int| 0 <= i < entries.len() && (#[trigger] entries[i]).id == id,
{
    if forall|i: int| 0 <= i < entries.len() ==> (#[trigger] entries[i]).id != id {
        lemma_absent_is_unmapped(entries, id);
    }
}

/// Replacing an entry's snapshot replaces the value in the map.
proof fn lemma_replace_is_insert(entries: Seq<Entry>, i: int, entry: Entry)
    requires
        distinct(entries),
        0 <= i < entries.len(),
        entry.id == entries[i].id,
    ensures
        distinct(entries.update(i, entry)),
        as_map(entries.update(i, entry)) == as_map(entries).insert(entry.id, entry.snapshot@),
    decreases entries.len(),
{
    let changed = entries.update(i, entry);
    assert forall|a: int, b: int| 0 <= a < b < changed.len() implies (#[trigger] changed[a]).id != (
    #[trigger] changed[b]).id by {
        assert(changed[a].id == entries[a].id);
        assert(changed[b].id == entries[b].id);
    }
    if i == entries.len() - 1 {
        assert(changed.drop_last() =~= entries.drop_last());
        assert(as_map(changed) =~= as_map(entries).insert(entry.id, entry.snapshot@));
    } else {
        let init = entries.drop_last();
        assert(init[i] == entries[i]);
        assert forall|a: int, b: int| 0 <= a < b < init.len() implies (#[trigger] init[a]).id != (
        #[trigger] init[b]).id by {
            assert(init[a] == entries[a]);
            assert(init[b] == entries[b]);
        }
        lemma_replace_is_insert(init, i, entry);
        assert(changed.drop_last() =~= init.update(i, entry));
        assert(changed.last() == entries.last());
        assert(entries[i].id != entries[entries.len() - 1].id);
        assert(as_map(changed) =~= as_map(entries).insert(entry.id, entry.snapshot@));
    }
}

/// Where the entry of `id` stands, if there is one.
fn position(entries: &Vec<Entry>, id: u128) -> (at: Option<usize>)
    ensures
        match at {
            Some(i) => i < entries@.len() && entries@[i as int].id == id,
            None => forall|i: int| 0 <= i < entries@.len() ==> (#[trigger] entries@[i]).id != id,
        },
{
    let mut i: usize = 0;
    while i < entries.len()
        invariant
            i <= entries@.len(),
            forall|k: int| 0 <= k < i ==> (#[trigger] entries@[k]).id != id,
        decreases entries@.len() - i,
    {
        if entries[i].id == id {
            return Some(i);
        }
        i = i + 1;
    }
    None
}

impl Database {
    #[verifier::type_invariant]
    spec fn well_formed(self) -> bool {
        distinct(self.entries@)
    }

    /// What is stored: the bytes of the latest snapshot of each swap.
    pub closed spec fn view(&self) -> Map<u128, Seq<u8>> {
        as_map(self.entries@)
    }

    /// An empty store.
    pub fn new() -> (db: Database)
        ensures
            db@ == Map::<u128, Seq<u8>>::empty(),
    {
        Database { entries: Vec::new() }
    }

    /// Whether anything is stored under `id`.
    pub fn contains(&self, id: SwapId) -> (found: bool)
        ensures
            found == self@.dom().contains(id.0),
    {
        proof {
            use_type_invariant(self);
        }
        match position(&self.entries, id.0) {
            Some(i) => {
                proof {
                    lemma_entry_is_mapped(self.entries@, i as int);
                }
                true
            },
            None => {
                proof {
                    lemma_absent_is_unmapped(self.entries@, id.0);
                }
                false
            },
        }
    }

    /// Stores `bytes` under `id` as they are, in place of what was there.
    pub fn import(&mut self, id: SwapId, bytes: Vec<u8>)
        ensures
            final(self)@ == old(self)@.insert(id.0, bytes@),
    {
        proof {
            use_type_invariant(&*self);
        }
        let entry = Entry { id: id.0, snapshot: bytes };
        let mut entries: Vec<Entry> = Vec::new();
        std::mem::swap(&mut self.entries, &mut entries);
        match position(&entries, id.0) {
            Some(i) => {
                proof {
                    lemma_replace_is_insert(entries@, i as int, entry);
                }
                entries.set(i, entry);
            },
            None => {
                proof {
                    let grown = entries@.push(entry);
                    assert(grown.drop_last() =~= entries@);
                    assert forall|a: int, b: int| 0 <= a < b < grown.len() implies (
                    #[trigger] grown[a]).id != (#[trigger] grown[b]).id by {
                        assert(grown[a] == entries@[a]);
                        if b < grown.len() - 1 {
                            assert(grown[b] == entries@[b]);
                        }
                    }
                }
                entries.push(entry);
            },
        }
        self.entries = entries;
    }

    /// The bytes stored under `id`, if there are any.
    pub fn export(&self, id: SwapId) -> (bytes: Option<Vec<u8>>)
        ensures
            match bytes {
                Some(found) => self@.dom().contains(id.0) && found@ == self@[id.0],
                None => !self@.dom().contains(id.0),
            },
    {
        proof {
            use_type_invariant(self);
        }
        match position(&self.entries, id.0) {
            Some(i) => {
                proof {
                    lemma_entry_is_mapped(self.entries@, i as int);
                }
                Some(self.entries[i].snapshot.clone())
            },
            None => {
                proof {
                    lemma_absent_is_unmapped(self.entries@, id.0);
                }
                None
            },
        }
    }

    /// Writes the snapshot of a swap, in place of the one before.
    pub fn put(&mut self, id: SwapId, swap: &Swap<Vec<u8>>)
        ensures
            final(self)@ == old(self)@.insert(id.0, encode_spec(swap@)),
    {
        self.import(id, encode(swap));
    }

    /// Reads the snapshot of a swap.
    pub fn get(&self, id: SwapId) -> (read: Result<Swap<Vec<u8>>, ReadError>)
        ensures
            match read {
                Ok(swap) => self@.dom().contains(id.0) && decode_spec(self@[id.0]) == Some(swap@),
                Err(ReadError::NotFound) => !self@.dom().contains(id.0),
                Err(ReadError::Corrupt) => self@.dom().contains(id.0) && decode_spec(self@[id.0])
                    is None,
            },
    {
        proof {
            use_type_invariant(self);
        }
        match position(&self.entries, id.0) {
            Some(i) => {
                proof {
                    lemma_entry_is_mapped(self.entries@, i as int);
                }
                match decode(self.entries[i].snapshot.as_slice()) {
                    Some(swap) => Ok(swap),
                    None => Err(ReadError::Corrupt),
                }
            },
            None => {
                proof {
                    lemma_absent_is_unmapped(self.entries@, id.0);
                }
                Err(ReadError::NotFound)
            },
        }
    }

    /// The identifiers under which something is stored, each once.
    pub fn list(&self) -> (ids: Vec<SwapId>)
        ensures
            ids@.no_duplicates(),
            forall|id: SwapId| ids@.contains(id) <==> self@.dom().contains(id.0),
    {
        proof {
            use_type_invariant(self);
        }
        let mut ids: Vec<SwapId> = Vec::new();
        let mut i: usize = 0;
        while i < self.entries.len()
            invariant
                i <= self.entries@.len(),
                ids@.len() == i,
                forall|k: int| 0 <= k < i ==> (#[trigger] ids@[k]).0 == self.entries@[k].id,
            decreases self.entries@.len() - i,
        {
            ids.push(SwapId(self.entries[i].id));
            i = i + 1;
        }
        proof {
            assert forall|a: int, b: int| 0 <= a < ids@.len() && 0 <= b < ids@.len() && a
                != b implies ids@[a] != ids@[b] by {
                assert(ids@[a].0 == self.entries@[a].id);
                assert(ids@[b].0 == self.entries@[b].id);
            }
            assert forall|id: SwapId| ids@.contains(id) <==> self@.dom().contains(id.0) by {
                if ids@.contains(id) {
                    let k = choose|k: int| 0 <= k < ids@.len() && ids@[k] == id;
                    lemma_entry_is_mapped(self.entries@, k);
                }
                if self@.dom().contains(id.0) {
                    lemma_mapped_has_entry(self.entries@, id.0);
                    let k = choose|k: int|
                        0 <= k < self.entries@.len() && (#[trigger] self.entries@[k]).id == id.0;
                    assert(ids@[k] == id);
                }
            }
        }
        ids
    }
}

} // verus!
