//! Tables: a schema and the storage of the rows that fit it.

use crate::column::Column;
use crate::row::{Row, RowId};
use crate::storage::{is_listing, Storage, StorageState};
use crate::value::Value;
use crate::value_type::ValueType;
use vstd::prelude::*;

verus! {

/// Whether `values` fit the schema `columns`: there are as many values as
/// columns, and each value has the type of the column at its place.
pub open spec fn conforms(columns: Seq<Column>, values: Seq<Value>) -> bool {
    &&& values.len() == columns.len()
    &&& forall|i: int|
        0 <= i < values.len() ==> (#[trigger] values[i]).value_type() == columns[i].col_type
}

/// The rows of a storage under a schema that every one of them fits. The
/// schema is set when the table is made and never changes. Nothing keeps two
/// columns from bearing the same name.
pub struct Table<S: Storage> {
    storage: S,
    columns: Vec<Column>,
}

impl<S: Storage> Table<S> {
    /// The columns of the table, in order.
    pub closed spec fn schema(&self) -> Seq<Column> {
        self.columns@
    }

    /// What the storage of the table holds.
    pub closed spec fn state(&self) -> StorageState {
        self.storage.state()
    }

    /// Whether the storage of the table is in order.
    pub closed spec fn storage_inv(&self) -> bool {
        self.storage.inv()
    }

    /// Whether the table is in order: its storage is, and every stored row
    /// fits the schema.
    pub open spec fn inv(&self) -> bool {
        &&& self.storage_inv()
        &&& self.state().well_formed()
        &&& forall|id: RowId| #[trigger]
            self.state().rows.contains_key(id) ==> conforms(
                self.schema(),
                self.state().rows[id].values@,
            )
    }

    /// A table with the schema `columns` over `storage`, whose rows, if it
    /// holds any, fit the schema.
    pub fn new(columns: Vec<Column>, storage: S) -> (table: Table<S>)
        requires
            storage.inv(),
            forall|id: RowId| #[trigger]
                storage.state().rows.contains_key(id) ==> conforms(
                    columns@,
                    storage.state().rows[id].values@,
                ),
        ensures
            table.inv(),
            table.schema() == columns@,
            table.state() == storage.state(),
    {
        proof {
            storage.lemma_inv_state();
        }
        Table { columns, storage }
    }

    /// The columns of the table, in order.
    pub fn columns(&self) -> (columns: &Vec<Column>)
        ensures
            columns@ == self.schema(),
    {
        &self.columns
    }

    /// Whether the storage of the table can take another row.
    pub fn has_room(&self) -> (room: bool)
        requires
            self.inv(),
        ensures
            room == self.state().has_room(),
    {
        self.storage.has_room()
    }

    /// Whether `values` fit the schema of the table.
    pub fn accepts(&self, values: &Vec<Value>) -> (fits: bool)
        ensures
            fits == conforms(self.schema(), values@),
    {
        if values.len() != self.columns.len() {
            return false;
        }
        let mut i: usize = 0;
        while i < values.len()
            invariant
                i <= values.len(),
                values.len() == self.columns.len(),
                forall|k: int|
                    0 <= k < i ==> (#[trigger] values@[k]).value_type() == self.columns@[k].col_type,
            decreases values.len() - i,
        {
            if ValueType::from(&values[i]) != self.columns[i].col_type {
                return false;
            }
            i = i + 1;
        }
        true
    }

    /// Stores `values` as a row if they fit the schema, and returns the
    /// identifier of the row; stores nothing and returns `None` if they do not.
    pub fn insert(&mut self, values: Vec<Value>) -> (id: Option<RowId>)
        requires
            old(self).inv(),
            conforms(old(self).schema(), values@) ==> old(self).state().has_room(),
        ensures
            final(self).inv(),
            final(self).schema() == old(self).schema(),
            id is Some <==> conforms(old(self).schema(), values@),
            id is Some ==> id->0 == old(self).state().next_id,
            id is Some ==> final(self).state() == old(self).state().insert((Row { values })),
            id is Some ==> final(self).state().get(id->0) == Some((Row { values })),
            id is None ==> *final(self) == *old(self),
    {
        if !self.accepts(&values) {
            return None;
        }
        let row = Row { values };
        Some(self.storage.insert(row))
    }

    /// The row stored under `id`, if there is one.
    pub fn get(&self, id: RowId) -> (row: Option<&Row>)
        requires
            self.inv(),
        ensures
            match row {
                Some(row) => self.state().get(id) == Some(*row) && conforms(
                    self.schema(),
                    row.values@,
                ),
                None => self.state().get(id) is None,
            },
    {
        self.storage.get(id)
    }

    /// The stored rows, each once, in no particular order.
    pub fn iter(&self) -> (rows: Vec<&Row>)
        requires
            self.inv(),
        ensures
            is_listing(self.state().rows, rows@.unref()),
    {
        self.storage.iter()
    }
}

} // verus!
