use vstd::prelude::*;

use crate::parsing::binop::Binop;
use crate::parsing::leftexpression::{LeftExprV, LeftExpression};
use crate::parsing::parsedvalue::ParsedValue;
use crate::parsing::ptr_kind::PtrKind;
use crate::value::ValueV;

verus! {

/// The mathematical form of a grammar-level expression.
pub enum PExprV {
    Const(ValueV),
    NewPtr(PtrKind, Box<PExprV>),
    ValueAt(LeftExprV),
    BinOp(Box<PExprV>, Binop, Box<PExprV>),
    Conditional { cond: Box<PExprV>, cond_true: Box<PExprV>, cond_false: Box<PExprV> },
}

/// An expression as the grammar knows it. The evaluator's own expression
/// type supports a subset of these shapes; `Expression::from_parse` in the
/// `expression` module does the conversion.
#[derive(Debug)]
pub enum Expression {
    Const(ParsedValue),
    NewPtr(PtrKind, Box<Expression>),
    ValueAt(LeftExpression),
    BinOp(Box<Expression>, Binop, Box<Expression>),
    Conditional { cond: Box<Expression>, cond_true: Box<Expression>, cond_false: Box<Expression> },
}

impl View for Expression {
    type V = PExprV;

    open spec fn view(&self) -> PExprV
        decreases self,
    {
        match self {
            Expression::Const(v) => PExprV::Const(v@),
            Expression::NewPtr(kind, inner) => PExprV::NewPtr(*kind, Box::new((**inner)@)),
            Expression::ValueAt(place) => PExprV::ValueAt(place@),
            Expression::BinOp(lhs, op, rhs) => PExprV::BinOp(
                Box::new((**lhs)@),
                *op,
                Box::new((**rhs)@),
            ),
            Expression::Conditional { cond, cond_true, cond_false } => PExprV::Conditional {
                cond: Box::new((**cond)@),
                cond_true: Box::new((**cond_true)@),
                cond_false: Box::new((**cond_false)@),
            },
        }
    }
}

} // verus!
