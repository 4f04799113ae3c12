//! Columns: the named, typed places of a table's rows.

use crate::value_type::ValueType;
use vstd::prelude::*;

verus! {

/// One column of a schema: its name and the type of its values.
#[derive(Clone, Debug, PartialEq)]
pub struct Column {
    /// The name of the column.
    pub name: String,
    /// The type that each value of the column has.
    pub col_type: ValueType,
}

} // verus!
