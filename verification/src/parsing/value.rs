use vstd::prelude::*;

use crate::value::ValueV;

verus! {

/// A primitive literal as it appears in concrete syntax: pointers cannot be
/// written literally, so there is no pointer shape here.
#[derive(Debug)]
pub enum Value {
    Integer(i64),
    Boolean(bool),
    Unit,
}

impl View for Value {
    type V = ValueV;

    open spec fn view(&self) -> ValueV {
        match self {
            Value::Integer(i) => ValueV::Integer(*i),
            Value::Boolean(b) => ValueV::Boolean(*b),
            Value::Unit => ValueV::Unit,
        }
    }
}

impl Clone for Value {
    fn clone(&self) -> (res: Value)
        ensures
            res@ == self@,
    {
        match self {
            Value::Integer(i) => Value::Integer(*i),
            Value::Boolean(b) => Value::Boolean(*b),
            Value::Unit => Value::Unit,
        }
    }
}

} // verus!
