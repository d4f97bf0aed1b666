//! The typed-cell data model: the raw cell shape a decoded worksheet hands
//! over, and the generic value a table column stores.
//!
//! Numeric cells reach the library as their decimal rendering, produced once
//! at the boundary from the source's 64-bit float; the library's own logic
//! only ever reads that rendering (for display, key comparison, and the
//! integer coercion of the quantity column).

use vstd::prelude::*;
use vstd::string::StringExecFns;

use crate::text::int_str;

verus! {

/// A decoded worksheet cell, as the workbook reader reports it.
#[derive(Debug)]
pub enum RawCell {
    /// A text cell; may carry embedded null code units (see `decode_text`).
    Text(String),
    /// A numeric cell, as the decimal rendering of its 64-bit float.
    Number(String),
    Int(i64),
    Bool(bool),
    /// A cell holding a spreadsheet error marker.
    Error,
    Empty,
    /// A date-time cell, as the decimal rendering of its serial number.
    DateTime(String),
    /// A duration cell, as the decimal rendering of its serial number.
    Duration(String),
    DateTimeIso(String),
    DurationIso(String),
}

/// A generic table value: text, a rendered number, an integer, a boolean, or
/// the null/missing marker.
#[derive(Debug)]
pub enum Value {
    Text(String),
    Number(String),
    Int(i64),
    Bool(bool),
    Null,
}

/// The mathematical shape of a `Value`.
pub ghost enum ValueV {
    Text(Seq<char>),
    Number(Seq<char>),
    Int(i64),
    Bool(bool),
    Null,
}

impl View for Value {
    type V = ValueV;

    open spec fn view(&self) -> ValueV {
        match self {
            Value::Text(s) => ValueV::Text(s@),
            Value::Number(s) => ValueV::Number(s@),
            Value::Int(i) => ValueV::Int(*i),
            Value::Bool(b) => ValueV::Bool(*b),
            Value::Null => ValueV::Null,
        }
    }
}

impl DeepView for Value {
    type V = ValueV;

    open spec fn deep_view(&self) -> ValueV {
        self.view()
    }
}

/// The generic display form of a value: text and rendered numbers pass
/// through, integers render in decimal, booleans as `true`/`false`, null as
/// `null`.
pub open spec fn string_of_value(v: ValueV) -> Seq<char> {
    match v {
        ValueV::Text(s) => s,
        ValueV::Number(s) => s,
        ValueV::Int(i) => int_str(i as int),
        ValueV::Bool(b) => if b {
            "true"@
        } else {
            "false"@
        },
        ValueV::Null => "null"@,
    }
}

/// Renders a value in its generic display form.
pub fn value_to_string(v: &Value) -> (r: String)
    ensures
        r@ == string_of_value(v@),
{
    match v {
        Value::Text(s) => s.clone(),
        Value::Number(s) => s.clone(),
        Value::Int(i) => crate::text::i64_to_string(*i),
        Value::Bool(b) => if *b {
            String::from_str("true")
        } else {
            String::from_str("false")
        },
        Value::Null => String::from_str("null"),
    }
}

/// Decides whether two values are equal, against the views. Two nulls compare
/// equal; values of different kinds do not.
pub fn value_eq(a: &Value, b: &Value) -> (r: bool)
    ensures
        r == (a@ == b@),
{
    match (a, b) {
        (Value::Text(x), Value::Text(y)) => crate::text::str_eq(x.as_str(), y.as_str()),
        (Value::Number(x), Value::Number(y)) => crate::text::str_eq(x.as_str(), y.as_str()),
        (Value::Int(x), Value::Int(y)) => *x == *y,
        (Value::Bool(x), Value::Bool(y)) => *x == *y,
        (Value::Null, Value::Null) => true,
        _ => false,
    }
}

/// An exact copy of a value.
pub fn clone_value(v: &Value) -> (r: Value)
    ensures
        r@ == v@,
{
    match v {
        Value::Text(s) => Value::Text(s.clone()),
        Value::Number(s) => Value::Number(s.clone()),
        Value::Int(i) => Value::Int(*i),
        Value::Bool(b) => Value::Bool(*b),
        Value::Null => Value::Null,
    }
}

} // verus!
