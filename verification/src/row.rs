//! Rows and the identifiers that a storage gives them.

use crate::value::{Value, ValueView};
use vstd::prelude::*;

verus! {

/// The identifier of a stored row.
pub type RowId = u64;

/// An ordered sequence of values.
#[derive(Debug, Clone, PartialEq)]
pub struct Row {
    /// The values, in the order of the columns.
    pub values: Vec<Value>,
}

impl View for Row {
    type V = Seq<ValueView>;

    /// What each value of the row holds, in order.
    open spec fn view(&self) -> Seq<ValueView> {
        self.values@.map_values(|value: Value| value@)
    }
}

} // verus!
