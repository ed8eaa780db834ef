use vstd::prelude::*;

verus! {

/// A binary operator as the grammar knows it.
#[derive(Debug, Clone, Copy, PartialEq, Eq, Structural)]
pub enum Binop {
    Add,
    Sub,
    Mul,
    Div,
    Mod,
    Leq,
    Geq,
    Lt,
    Gt,
    Eq,
    Neq,
    And,
    Or,
}

} // verus!
