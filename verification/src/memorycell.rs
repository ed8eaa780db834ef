use vstd::prelude::*;

use crate::error::{ErrV, EvalError};
use crate::expression::ExprV;
use crate::value::{Value, ValueV};

verus! {

/// The mathematical form of a memory cell.
#[verifier::ext_equal]
pub struct CellV {
    pub mutable: bool,
    pub value: ValueV,
}

/// The storage unit of one binding: a value together with a mutability flag.
/// Reading always succeeds and yields a copy; writing succeeds exactly when
/// the cell is mutable.
#[derive(Debug)]
pub struct MemoryCell {
    mutable: bool,
    value: Value,
}

impl View for MemoryCell {
    type V = CellV;

    closed spec fn view(&self) -> CellV {
        CellV { mutable: self.mutable, value: self.value@ }
    }
}

impl MemoryCell {
    /// Makes a cell holding `value`, writable exactly when `mutable` is set.
    pub fn new(mutable: bool, value: Value) -> (c: MemoryCell)
        ensures
            c@ == (CellV { mutable, value: value@ }),
    {
        MemoryCell { mutable, value }
    }

    /// Whether the cell accepts writes.
    pub fn is_mutable(&self) -> (r: bool)
        ensures
            r == self@.mutable,
    {
        self.mutable
    }

    /// Returns a copy of the stored value; there is no uninitialized state,
    /// so this always succeeds.
    pub fn get_value(&self) -> (r: Result<Value, EvalError>)
        ensures
            r matches Ok(v) && v@ == self@.value,
    {
        Ok(self.value.clone())
    }

    /// Stores `value` when the cell is mutable; otherwise fails with
    /// `NotMutable` and leaves the cell unchanged.
    pub fn set_value(&mut self, value: Value) -> (r: Result<(), EvalError>)
        ensures
            old(self)@.mutable ==> r is Ok && final(self)@ == (CellV {
                mutable: true,
                value: value@,
            }),
            !old(self)@.mutable ==> (r matches Err(e) && e@ == ErrV::NotMutable(None::<ExprV>))
                && final(self)@ == old(self)@,
    {
        if self.is_mutable() {
            self.value = value;
            Ok(())
        } else {
            Err(EvalError::NotMutable(None))
        }
    }
}

} // verus!
