use vstd::prelude::*;

use crate::value::Identifier;

verus! {

/// The mathematical form of a place expression.
pub enum LeftExprV {
    Identifier(Seq<char>),
    Star(Box<LeftExprV>),
}

/// A place expression: a bare identifier, or a dereference of one. The
/// evaluator supports only the bare identifier shape.
#[derive(Debug)]
pub enum LeftExpression {
    Identifier(Identifier),
    Star(Box<LeftExpression>),
}

impl View for LeftExpression {
    type V = LeftExprV;

    open spec fn view(&self) -> LeftExprV
        decreases self,
    {
        match self {
            LeftExpression::Identifier(id) => LeftExprV::Identifier(id@),
            LeftExpression::Star(inner) => LeftExprV::Star(Box::new((**inner)@)),
        }
    }
}

} // verus!
