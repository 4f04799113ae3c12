//! Values: text, truth values, integers, floating-point literals and points
//! in time, and the text that each is shown as.

use crate::number::{float_literal_ok, is_float_literal, signed_decimal, signed_decimal_chars};
use crate::text::{to_chars, to_string};
use crate::value_type::ValueType;
use vstd::prelude::*;

verus! {

/// The RFC 3339 text of the instant `secs` seconds and `nanos` nanoseconds
/// after 1970-01-01T00:00:00 UTC, as chrono writes it; `None` where chrono has
/// no date and time for these two numbers.
pub uninterp spec fn rfc3339_text(secs: i64, nanos: u32) -> Option<Seq<char>>;

/// Calls `chrono::DateTime::from_timestamp` and, on the date and time that it
/// gives, `chrono::DateTime::to_rfc3339`. The result is named, not described:
/// the same two numbers always give the same text, and `None` comes back exactly
/// where `from_timestamp` returns `None`.
#[verifier::external_body]
fn rfc3339(secs: i64, nanos: u32) -> (text: Option<String>)
    ensures
        match text {
            Some(t) => rfc3339_text(secs, nanos) == Some(t@),
            None => rfc3339_text(secs, nanos) is None,
        },
{
    match chrono::DateTime::from_timestamp(secs, nanos) {
        Some(instant) => Some(instant.to_rfc3339()),
        None => None,
    }
}

/// A floating-point number, held as the literal that writes it. The store
/// compares, keeps and shows such numbers and never computes with them.
#[derive(Debug, PartialEq, Eq)]
pub struct Float {
    literal: String,
}

impl Clone for Float {
    /// A floating-point number with the same literal.
    fn clone(&self) -> (copy: Float)
        ensures
            copy == *self,
    {
        proof {
            use_type_invariant(self);
        }
        Float { literal: self.literal.clone() }
    }
}

impl View for Float {
    type V = Seq<char>;

    /// The literal.
    closed spec fn view(&self) -> Seq<char> {
        self.literal@
    }
}

impl Float {
    #[verifier::type_invariant]
    spec fn well_formed(self) -> bool {
        is_float_literal(self.literal@)
    }

    /// Reads `literal` as a floating-point number: `Some` exactly where it is
    /// a floating-point literal.
    pub fn parse(literal: &str) -> (float: Option<Float>)
        ensures
            float is Some <==> is_float_literal(literal@),
            float is Some ==> float->0@ == literal@,
    {
        let chars = to_chars(literal);
        Float::from_chars(chars.as_slice())
    }

    /// Reads the characters of `literal` as a floating-point number: `Some`
    /// exactly where they are a floating-point literal.
    pub fn from_chars(literal: &[char]) -> (float: Option<Float>)
        ensures
            float is Some <==> is_float_literal(literal@),
            float is Some ==> float->0@ == literal@,
    {
        if float_literal_ok(literal) {
            Some(Float { literal: to_string(literal) })
        } else {
            None
        }
    }

    /// The literal.
    pub fn as_str(&self) -> (literal: &str)
        ensures
            literal@ == self@,
            is_float_literal(literal@),
    {
        proof {
            use_type_invariant(self);
        }
        self.literal.as_str()
    }
}

/// A point in time on the UTC time line: seconds since the start of 1970 and
/// nanoseconds since the last whole second, held only where chrono has a date
/// and time for them.
#[derive(Clone, Copy, Debug, PartialEq, Eq)]
pub struct Timestamp {
    secs: i64,
    nanos: u32,
}

impl View for Timestamp {
    type V = (i64, u32);

    /// The seconds and the nanoseconds.
    closed spec fn view(&self) -> (i64, u32) {
        (self.secs, self.nanos)
    }
}

impl Timestamp {
    #[verifier::type_invariant]
    spec fn well_formed(self) -> bool {
        rfc3339_text(self.secs, self.nanos) is Some
    }

    /// The text that the point in time is shown as.
    pub open spec fn text(self) -> Seq<char> {
        match rfc3339_text(self@.0, self@.1) {
            Some(text) => text,
            None => Seq::empty(),
        }
    }

    /// The point in time `secs` seconds and `nanos` nanoseconds after the start
    /// of 1970: `Some` exactly where chrono has a date and time for it.
    pub fn new(secs: i64, nanos: u32) -> (instant: Option<Timestamp>)
        ensures
            instant is Some <==> rfc3339_text(secs, nanos) is Some,
            instant is Some ==> instant->0@ == (secs, nanos),
    {
        match rfc3339(secs, nanos) {
            Some(_) => Some(Timestamp { secs, nanos }),
            None => None,
        }
    }

    /// The whole seconds since the start of 1970.
    pub fn seconds(&self) -> (secs: i64)
        ensures
            secs == self@.0,
    {
        self.secs
    }

    /// The nanoseconds since the last whole second.
    pub fn nanoseconds(&self) -> (nanos: u32)
        ensures
            nanos == self@.1,
    {
        self.nanos
    }

    /// The point in time in RFC 3339 form.
    pub fn to_rfc3339(&self) -> (text: String)
        ensures
            text@ == self.text(),
            rfc3339_text(self@.0, self@.1) == Some(text@),
    {
        proof {
            use_type_invariant(self);
        }
        match rfc3339(self.secs, self.nanos) {
            Some(text) => text,
            None => vstd::pervasive::unreached(),
        }
    }
}

/// One value of a row.
#[derive(Clone, Debug, PartialEq)]
pub enum Value {
    /// Text.
    Text(String),
    /// A truth value.
    Bool(bool),
    /// A signed 64-bit integer.
    Int(i64),
    /// A floating-point number.
    Float(Float),
    /// A point in time.
    DateTime(Timestamp),
}

/// What a value holds, with each text as a sequence of characters.
pub enum ValueView {
    /// Text.
    Text(Seq<char>),
    /// A truth value.
    Bool(bool),
    /// A signed 64-bit integer.
    Int(i64),
    /// A floating-point number, as its literal.
    Float(Seq<char>),
    /// A point in time, as its seconds and nanoseconds.
    DateTime(i64, u32),
}

impl ValueView {
    /// The type of the value.
    pub open spec fn value_type(self) -> ValueType {
        match self {
            ValueView::Text(_) => ValueType::Text,
            ValueView::Bool(_) => ValueType::Bool,
            ValueView::Int(_) => ValueType::Int,
            ValueView::Float(_) => ValueType::Float,
            ValueView::DateTime(_, _) => ValueType::DateTime,
        }
    }
}

impl View for Value {
    type V = ValueView;

    open spec fn view(&self) -> ValueView {
        match self {
            Value::Text(text) => ValueView::Text(text@),
            Value::Bool(b) => ValueView::Bool(*b),
            Value::Int(i) => ValueView::Int(*i),
            Value::Float(float) => ValueView::Float(float@),
            Value::DateTime(instant) => ValueView::DateTime(instant@.0, instant@.1),
        }
    }
}

impl Value {
    /// The type of the value.
    pub open spec fn value_type(self) -> ValueType {
        match self {
            Value::Text(_) => ValueType::Text,
            Value::Bool(_) => ValueType::Bool,
            Value::Int(_) => ValueType::Int,
            Value::Float(_) => ValueType::Float,
            Value::DateTime(_) => ValueType::DateTime,
        }
    }

    /// The text that the value is shown as: text as it is, a truth value as
    /// `true` or `false`, an integer in decimal, a floating-point number as its
    /// literal, a point in time in RFC 3339 form.
    pub open spec fn text(self) -> Seq<char> {
        match self {
            Value::Text(text) => text@,
            Value::Bool(b) => if b {
                "true"@
            } else {
                "false"@
            },
            Value::Int(i) => signed_decimal(i as int),
            Value::Float(float) => float@,
            Value::DateTime(instant) => instant.text(),
        }
    }

    /// The text that the value is shown as.
    pub fn to_string(&self) -> (text: String)
        ensures
            text@ == self.text(),
    {
        match self {
            Value::Text(text) => text.clone(),
            Value::Bool(b) => if *b {
                "true".to_owned()
            } else {
                "false".to_owned()
            },
            Value::Int(i) => to_string(signed_decimal_chars(*i).as_slice()),
            Value::Float(float) => float.as_str().to_owned(),
            Value::DateTime(instant) => instant.to_rfc3339(),
        }
    }
}

} // verus!
