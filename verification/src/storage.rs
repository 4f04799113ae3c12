//! The contract of a storage: a keyed store of rows that hands out the
//! identifiers itself, and the laws that follow from the contract.

use crate::row::{Row, RowId};
use vstd::prelude::*;

verus! {

/// What a storage holds: the stored rows by identifier, and the identifier
/// that the next insert hands out. Identifiers are handed out in rising order
/// and never again, whatever is deleted.
pub struct StorageState {
    /// The stored rows.
    pub rows: Map<RowId, Row>,
    /// The identifier of the next row.
    pub next_id: RowId,
}

impl StorageState {
    /// A storage that holds nothing and has handed out no identifier.
    pub open spec fn empty() -> StorageState {
        StorageState { rows: Map::empty(), next_id: 0 }
    }

    /// Every stored row has an identifier that was handed out, and the rows
    /// are finitely many.
    pub open spec fn well_formed(self) -> bool {
        &&& self.rows.dom().finite()
        &&& forall|id: RowId| self.rows.contains_key(id) ==> id < self.next_id
    }

    /// Whether another row can be stored: an identifier is left for it.
    pub open spec fn has_room(self) -> bool {
        self.next_id < RowId::MAX
    }

    /// The state after `row` is stored under the next identifier.
    pub open spec fn insert(self, row: Row) -> StorageState {
        StorageState {
            rows: self.rows.insert(self.next_id, row),
            next_id: (self.next_id + 1) as RowId,
        }
    }

    /// The row stored under `id`, if there is one.
    pub open spec fn get(self, id: RowId) -> Option<Row> {
        if self.rows.contains_key(id) {
            Some(self.rows[id])
        } else {
            None
        }
    }

    /// The state after the row under `id`, if there is one, is removed.
    pub open spec fn delete(self, id: RowId) -> StorageState {
        StorageState { rows: self.rows.remove(id), next_id: self.next_id }
    }

    /// The state after the rows of `rows` are stored one after the other.
    pub open spec fn insert_all(self, rows: Seq<Row>) -> StorageState
        decreases rows.len(),
    {
        if rows.len() == 0 {
            self
        } else {
            self.insert_all(rows.drop_last()).insert(rows.last())
        }
    }

    /// The identifiers that storing the rows of `rows` one after the other
    /// hands out, in that order.
    pub open spec fn inserted_ids(self, rows: Seq<Row>) -> Seq<RowId>
        decreases rows.len(),
    {
        if rows.len() == 0 {
            Seq::empty()
        } else {
            self.inserted_ids(rows.drop_last()).push(self.insert_all(rows.drop_last()).next_id)
        }
    }
}

/// One change to a storage.
pub enum Step {
    /// This row is stored.
    Insert(Row),
    /// The row under this identifier, if there is one, is removed.
    Delete(RowId),
}

impl StorageState {
    /// The state after `step`.
    pub open spec fn step(self, step: Step) -> StorageState {
        match step {
            Step::Insert(row) => self.insert(row),
            Step::Delete(id) => self.delete(id),
        }
    }

    /// The state after the steps of `steps`, one after the other.
    pub open spec fn after(self, steps: Seq<Step>) -> StorageState
        decreases steps.len(),
    {
        if steps.len() == 0 {
            self
        } else {
            self.after(steps.drop_last()).step(steps.last())
        }
    }

    /// The identifiers that the inserts among `steps` hand out, in order.
    pub open spec fn handed_out(self, steps: Seq<Step>) -> Seq<RowId>
        decreases steps.len(),
    {
        if steps.len() == 0 {
            Seq::empty()
        } else {
            let before = self.handed_out(steps.drop_last());
            match steps.last() {
                Step::Insert(_) => before.push(self.after(steps.drop_last()).next_id),
                Step::Delete(_) => before,
            }
        }
    }
}

/// Whether `listing` holds each row of `rows` once, in some order: there are
/// identifiers, each key of `rows` once among them, whose rows `listing` holds
/// in their order.
pub open spec fn is_listing(rows: Map<RowId, Row>, listing: Seq<Row>) -> bool {
    exists|ids: Seq<RowId>| lists(rows, ids, listing)
}

/// Whether `ids` holds each key of `rows` once and `listing` holds the rows of
/// these identifiers, in their order.
pub open spec fn lists(rows: Map<RowId, Row>, ids: Seq<RowId>, listing: Seq<Row>) -> bool {
    &&& ids.no_duplicates()
    &&& ids.to_set() == rows.dom()
    &&& ids.len() == listing.len()
    &&& forall|i: int| 0 <= i < ids.len() ==> #[trigger] listing[i] == rows[ids[i]]
}

/// A store of rows that hands out an identifier for each row it takes.
pub trait Storage {
    /// What the storage holds.
    spec fn state(&self) -> StorageState;

    /// Whether the storage is in order, as every operation needs it and
    /// leaves it.
    spec fn inv(&self) -> bool;

    /// A storage that is in order holds a well-formed state.
    proof fn lemma_inv_state(&self)
        requires
            self.inv(),
        ensures
            self.state().well_formed(),
    ;

    /// Whether another row can be stored.
    fn has_room(&self) -> (room: bool)
        requires
            self.inv(),
        ensures
            room == self.state().has_room(),
    ;

    /// Stores `row` and returns its identifier, which no row had before.
    fn insert(&mut self, row: Row) -> (id: RowId)
        requires
            old(self).inv(),
            old(self).state().has_room(),
        ensures
            final(self).inv(),
            id == old(self).state().next_id,
            final(self).state() == old(self).state().insert(row),
    ;

    /// The row stored under `id`, if there is one.
    fn get(&self, id: RowId) -> (row: Option<&Row>)
        requires
            self.inv(),
        ensures
            match row {
                Some(row) => self.state().get(id) == Some(*row),
                None => self.state().get(id) is None,
            },
    ;

    /// Removes the row under `id` and says whether there was one.
    fn delete(&mut self, id: RowId) -> (removed: bool)
        requires
            old(self).inv(),
        ensures
            final(self).inv(),
            removed == old(self).state().rows.contains_key(id),
            final(self).state() == old(self).state().delete(id),
    ;

    /// The stored rows, each once, in no particular order.
    fn iter(&self) -> (rows: Vec<&Row>)
        requires
            self.inv(),
        ensures
            is_listing(self.state().rows, rows@.unref()),
    ;
}

/// The identifiers that `n` inserts hand out are the `n` numbers from the
/// first free identifier on.
pub proof fn lemma_inserted_ids(state: StorageState, rows: Seq<Row>)
    requires
        state.next_id + rows.len() <= RowId::MAX,
    ensures
        state.inserted_ids(rows).len() == rows.len(),
        state.insert_all(rows).next_id == state.next_id + rows.len(),
        forall|i: int|
            0 <= i < rows.len() ==> #[trigger] state.inserted_ids(rows)[i] == state.next_id + i,
    decreases rows.len(),
{
    if rows.len() > 0 {
        lemma_inserted_ids(state, rows.drop_last());
    }
}

/// Identifiers are unique: the identifiers that any number of inserts into one
/// storage hand out differ from one another, and each of them gives back the
/// row that was stored under it.
pub proof fn lemma_insert_ids_unique(state: StorageState, rows: Seq<Row>)
    requires
        state.well_formed(),
        state.next_id + rows.len() <= RowId::MAX,
    ensures
        state.inserted_ids(rows).len() == rows.len(),
        state.inserted_ids(rows).no_duplicates(),
        state.insert_all(rows).well_formed(),
        forall|i: int|
            0 <= i < rows.len() ==> #[trigger] state.insert_all(rows).get(
                state.inserted_ids(rows)[i],
            ) == Some(rows[i]),
        forall|id: RowId|
            state.rows.contains_key(id) ==> #[trigger] state.insert_all(rows).get(id)
                == state.get(id),
    decreases rows.len(),
{
    lemma_inserted_ids(state, rows);
    if rows.len() > 0 {
        let before = rows.drop_last();
        lemma_insert_ids_unique(state, before);
        lemma_inserted_ids(state, before);
        let ids = state.inserted_ids(rows);
        assert forall|i: int| 0 <= i < rows.len() implies #[trigger] state.insert_all(rows).get(
            ids[i],
        ) == Some(rows[i]) by {
            if i < before.len() {
                assert(state.insert_all(before).get(state.inserted_ids(before)[i]) == Some(
                    before[i],
                ));
            }
        }
        assert forall|id: RowId| state.rows.contains_key(id) implies #[trigger] state.insert_all(
            rows,
        ).get(id) == state.get(id) by {
            assert(state.insert_all(before).get(id) == state.get(id));
        }
    }
}

/// Deleting is idempotent: after a delete no row is stored under the
/// identifier, so a second delete removes nothing and changes nothing.
pub proof fn lemma_delete_idempotent(state: StorageState, id: RowId)
    ensures
        state.delete(id).get(id) is None,
        !state.delete(id).rows.contains_key(id),
        state.delete(id).delete(id) == state.delete(id),
        !state.rows.contains_key(id) ==> state.delete(id) == state,
        state.well_formed() ==> state.delete(id).well_formed(),
{
    assert(state.delete(id).rows.remove(id) =~= state.delete(id).rows);
    if !state.rows.contains_key(id) {
        assert(state.rows.remove(id) =~= state.rows);
    }
}

/// A stored row comes back as it went in: the identifier that an insert hands
/// out gives the inserted row, and every other row stays as it was.
pub proof fn lemma_insert_then_get(state: StorageState, row: Row)
    requires
        state.well_formed(),
        state.has_room(),
    ensures
        state.insert(row).get(state.next_id) == Some(row),
        !state.rows.contains_key(state.next_id),
        state.insert(row).well_formed(),
        forall|id: RowId| id != state.next_id ==> state.insert(row).get(id) == state.get(id),
{
}

/// Identifiers rise and are never handed out again: over any run of inserts
/// and deletes, each insert hands out an identifier above every one handed out
/// before it, whatever was deleted in between.
pub proof fn lemma_ids_never_reused(state: StorageState, steps: Seq<Step>)
    requires
        state.well_formed(),
        state.next_id + steps.len() <= RowId::MAX,
    ensures
        state.after(steps).well_formed(),
        state.next_id <= state.after(steps).next_id <= state.next_id + steps.len(),
        forall|i: int|
            0 <= i < state.handed_out(steps).len() ==> state.next_id
                <= #[trigger] state.handed_out(steps)[i] < state.after(steps).next_id,
        forall|i: int, j: int|
            0 <= i < j < state.handed_out(steps).len() ==> state.handed_out(steps)[i]
                < state.handed_out(steps)[j],
        state.handed_out(steps).no_duplicates(),
    decreases steps.len(),
{
    if steps.len() > 0 {
        lemma_ids_never_reused(state, steps.drop_last());
    }
}

} // verus!
