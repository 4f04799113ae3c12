//! The storage that is to keep its rows on disk. It is not implemented: it
//! cannot be opened, and none of its operations can be reached.

use crate::row::{Row, RowId};
use crate::storage::{Storage, StorageState};
use vstd::pervasive::unreached;
use vstd::prelude::*;

verus! {

/// Why a storage could not be opened.
#[derive(Clone, Copy, Debug, PartialEq, Eq, Structural)]
pub enum StorageError {
    /// The storage has no implementation yet.
    Unimplemented,
}

/// A storage on disk. No value of it is ever in order, so verified code can
/// call none of its operations; called from elsewhere, each stops the program
/// at once.
pub struct DiskStorage;

#[allow(unused_variables)]
impl DiskStorage {
    /// Opens the storage at `path`. This fails on every path, since the
    /// storage has no implementation yet.
    pub fn open(path: &str) -> (storage: Result<DiskStorage, StorageError>)
        ensures
            storage == Err::<DiskStorage, StorageError>(StorageError::Unimplemented),
    {
        Err(StorageError::Unimplemented)
    }
}

#[allow(unused_variables)]
impl Storage for DiskStorage {
    open spec fn state(&self) -> StorageState {
        StorageState::empty()
    }

    open spec fn inv(&self) -> bool {
        false
    }

    proof fn lemma_inv_state(&self) {
    }

    fn has_room(&self) -> (room: bool) {
        unreached()
    }

    fn insert(&mut self, row: Row) -> (id: RowId) {
        unreached()
    }

    fn get(&self, id: RowId) -> (row: Option<&Row>) {
        unreached()
    }

    fn delete(&mut self, id: RowId) -> (removed: bool) {
        unreached()
    }

    fn iter(&self) -> (rows: Vec<&Row>) {
        unreached()
    }
}

} // verus!
