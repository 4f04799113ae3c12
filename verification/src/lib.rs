//! A small in-memory tabular data store with a line-oriented command
//! interpreter, verified with Verus.
//!
//! A [`Table`] keeps the rows that fit its schema in a [`Storage`], which
//! hands out the identifiers of the rows. A [`Database`] holds the tables by
//! name, and a [`Shell`] carries out directives, selections and insertions on
//! it, one line at a time, and hands back the text that is to be written.
//!
//! Every function states what it returns and changes over sequences of
//! characters and maps of rows; the laws of the storage are proved in
//! [`storage`].

pub mod column;
pub mod database;
pub mod disk;
pub mod handler;
pub mod memory;
pub mod number;
pub mod render;
pub mod row;
pub mod shell;
pub mod storage;
pub mod table;
pub mod text;
pub mod value;
pub mod value_type;

pub use column::Column;
pub use database::Database;
pub use disk::{DiskStorage, StorageError};
pub use memory::MemoryStorage;
pub use row::{Row, RowId};
pub use shell::{LineKind, Outcome, Shell};
pub use storage::Storage;
pub use table::Table;
pub use value::{Float, Timestamp, Value};
pub use value_type::ValueType;
