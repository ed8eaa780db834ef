use vstd::prelude::*;

use crate::value::{Address, Value, ValueV};

verus! {

/// A literal value as the parsing front end delivers it. It carries the same
/// shapes as the evaluator's `Value` and converts into it losslessly.
#[derive(Debug)]
pub enum ParsedValue {
    Integer(i64),
    Boolean(bool),
    Unit,
    Pointer(Address),
}

impl View for ParsedValue {
    type V = ValueV;

    open spec fn view(&self) -> ValueV {
        match self {
            ParsedValue::Integer(i) => ValueV::Integer(*i),
            ParsedValue::Boolean(b) => ValueV::Boolean(*b),
            ParsedValue::Unit => ValueV::Unit,
            ParsedValue::Pointer(a) => ValueV::Pointer(a@),
        }
    }
}

impl Clone for ParsedValue {
    fn clone(&self) -> (res: ParsedValue)
        ensures
            res@ == self@,
    {
        match self {
            ParsedValue::Integer(i) => ParsedValue::Integer(*i),
            ParsedValue::Boolean(b) => ParsedValue::Boolean(*b),
            ParsedValue::Unit => ParsedValue::Unit,
            ParsedValue::Pointer(a) => ParsedValue::Pointer(a.clone()),
        }
    }
}

impl ParsedValue {
    /// The equally shaped runtime value.
    pub fn to_value(&self) -> (r: Value)
        ensures
            r@ == self@,
    {
        match self {
            ParsedValue::Integer(i) => Value::Integer(*i),
            ParsedValue::Boolean(b) => Value::Boolean(*b),
            ParsedValue::Unit => Value::Unit,
            ParsedValue::Pointer(a) => Value::Pointer(a.clone()),
        }
    }
}

impl core::convert::From<ParsedValue> for Value {
    fn from(v: ParsedValue) -> (r: Value)
        ensures
            r@ == v@,
    {
        match v {
            ParsedValue::Integer(i) => Value::Integer(i),
            ParsedValue::Boolean(b) => Value::Boolean(b),
            ParsedValue::Unit => Value::Unit,
            ParsedValue::Pointer(a) => Value::Pointer(a),
        }
    }
}

impl vstd::std_specs::convert::FromSpecImpl<ParsedValue> for Value {
    open spec fn obeys_from_spec() -> bool {
        true
    }

    open spec fn from_spec(v: ParsedValue) -> Value {
        match v {
            ParsedValue::Integer(i) => Value::Integer(i),
            ParsedValue::Boolean(b) => Value::Boolean(b),
            ParsedValue::Unit => Value::Unit,
            ParsedValue::Pointer(a) => Value::Pointer(a),
        }
    }
}

} // verus!
