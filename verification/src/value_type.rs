//! The types that a value can have.

use crate::value::Value;
use vstd::prelude::*;
use vstd::std_specs::convert::FromSpecImpl;

verus! {

/// The type of a value, and the type that a column declares.
#[derive(Clone, Copy, Debug, PartialEq, Eq, Structural)]
pub enum ValueType {
    /// Text.
    Text,
    /// A truth value.
    Bool,
    /// A signed 64-bit integer.
    Int,
    /// A floating-point number.
    Float,
    /// A point in time.
    DateTime,
}

impl ValueType {
    /// The name under which the type is shown.
    pub open spec fn label(self) -> Seq<char> {
        match self {
            ValueType::Text => "Text"@,
            ValueType::Bool => "Boolean"@,
            ValueType::Int => "Integer"@,
            ValueType::Float => "Float"@,
            ValueType::DateTime => "Date/Time"@,
        }
    }

    /// The name under which the type is shown.
    pub fn name(&self) -> (name: &'static str)
        ensures
            name@ == self.label(),
    {
        match self {
            ValueType::Text => "Text",
            ValueType::Bool => "Boolean",
            ValueType::Int => "Integer",
            ValueType::Float => "Float",
            ValueType::DateTime => "Date/Time",
        }
    }

    /// The name under which the type is shown, as an owned string.
    pub fn to_string(&self) -> (name: String)
        ensures
            name@ == self.label(),
    {
        self.name().to_owned()
    }
}

impl From<&Value> for ValueType {
    /// The type of `value`.
    fn from(value: &Value) -> (kind: ValueType) {
        match value {
            Value::Text(_) => ValueType::Text,
            Value::Bool(_) => ValueType::Bool,
            Value::Int(_) => ValueType::Int,
            Value::Float(_) => ValueType::Float,
            Value::DateTime(_) => ValueType::DateTime,
        }
    }
}

impl FromSpecImpl<&Value> for ValueType {
    open spec fn obeys_from_spec() -> bool {
        true
    }

    open spec fn from_spec(value: &Value) -> ValueType {
        value.value_type()
    }
}

} // verus!
