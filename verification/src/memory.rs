//! The storage that keeps its rows in memory.

use crate::row::{Row, RowId};
use crate::storage::{lists, Storage, StorageState};
use std::collections::HashMap;
use vstd::prelude::*;
use vstd::std_specs::iter::IteratorSpec;

verus! {

/// A storage that keeps its rows in a hash map and counts the identifiers up
/// from zero.
pub struct MemoryStorage {
    data: HashMap<RowId, Row>,
    next_id: RowId,
}

impl MemoryStorage {
    /// A storage that holds no row; the first row gets the identifier 0.
    pub fn new() -> (storage: MemoryStorage)
        ensures
            storage.inv(),
            storage.state() == StorageState::empty(),
    {
        let data = HashMap::new();
        let next_id: RowId = 0;
        let storage = MemoryStorage { data, next_id };
        storage
    }
}

impl Storage for MemoryStorage {
    closed spec fn state(&self) -> StorageState {
        StorageState { rows: self.data@, next_id: self.next_id }
    }

    open spec fn inv(&self) -> bool {
        self.state().well_formed()
    }

    proof fn lemma_inv_state(&self) {
    }

    fn has_room(&self) -> (room: bool) {
        self.next_id < RowId::MAX
    }

    fn insert(&mut self, row: Row) -> (id: RowId) {
        broadcast use vstd::std_specs::hash::group_hash_axioms;

        let id: RowId = self.next_id;

        self.data.insert(id, row);
        self.next_id = self.next_id + 1;

        id
    }

    fn get(&self, id: RowId) -> (row: Option<&Row>) {
        broadcast use vstd::std_specs::hash::group_hash_axioms;

        self.data.get(&id)
    }

    fn delete(&mut self, id: RowId) -> (removed: bool) {
        broadcast use vstd::std_specs::hash::group_hash_axioms;

        self.data.remove(&id).is_some()
    }

    fn iter(&self) -> (rows: Vec<&Row>) {
        broadcast use vstd::std_specs::hash::group_hash_axioms;

        let mut rows: Vec<&Row> = Vec::new();
        let ghost mut ids: Seq<RowId> = Seq::empty();
        let entries = self.data.iter();
        let ghost all = entries.remaining();
        for entry in it: entries
            invariant
                it.seq() == all,
                rows@.len() == it.index(),
                ids.len() == it.index(),
                forall|i: int|
                    0 <= i < it.index() ==> #[trigger] ids[i] == *all[i].0 && *rows@[i]
                        == *all[i].1,
        {
            rows.push(entry.1);
            proof {
                ids = ids.push(*entry.0);
            }
        }
        proof {
            assert(ids.no_duplicates()) by {
                assert forall|a: int, b: int|
                    0 <= a < ids.len() && 0 <= b < ids.len() && a != b implies ids[a] != ids[b] by {
                    if ids[a] == ids[b] {
                        assert(self.data@[*all[a].0] == *all[a].1);
                        assert(self.data@[*all[b].0] == *all[b].1);
                        assert(all[a] == all[b]);
                    }
                }
            }
            assert(ids.to_set() =~= self.data@.dom()) by {
                assert forall|id: RowId| self.data@.contains_key(id) implies ids.to_set().contains(
                    id,
                ) by {
                    let entry = (&id, &self.data@[id]);
                    let i = all.index_of(entry);
                    assert(ids[i] == id);
                }
                assert forall|id: RowId| ids.to_set().contains(id) implies self.data@.contains_key(
                    id,
                ) by {
                    let i = ids.index_of(id);
                    assert(self.data@.contains_key(*all[i].0));
                }
            }
            assert forall|i: int| 0 <= i < ids.len() implies #[trigger] rows@.unref()[i]
                == self.data@[ids[i]] by {
                assert(self.data@[*all[i].0] == *all[i].1);
            }
            assert(lists(self.state().rows, ids, rows@.unref()));
        }
        rows
    }
}

} // verus!
