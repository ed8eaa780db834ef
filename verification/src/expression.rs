use vstd::prelude::*;

use crate::binop::Binop;
use crate::error::ParseError;
use crate::parsing::expression::{Expression as ParseExpression, PExprV};
use crate::parsing::leftexpression::{LeftExprV, LeftExpression};
use crate::parsing::parsedvalue::ParsedValue;
use crate::value::ValueV;

verus! {

/// The mathematical form of an evaluator expression.
pub enum ExprV {
    Const(ValueV),
    Identifier(Seq<char>),
    BinOp(Box<ExprV>, Binop, Box<ExprV>),
    Conditional { cond: Box<ExprV>, cond_true: Box<ExprV>, cond_false: Box<ExprV> },
    AddressOf(Box<ExprV>),
}

/// An expression the evaluator understands: a literal, a variable reference,
/// a binary operation, a conditional, or address-of.
#[derive(Debug)]
pub enum Expression {
    Const(ParsedValue),
    Identifier(crate::value::Identifier),
    BinOp(Box<Expression>, Binop, Box<Expression>),
    Conditional { cond: Box<Expression>, cond_true: Box<Expression>, cond_false: Box<Expression> },
    AddressOf(Box<Expression>),
}

impl View for Expression {
    type V = ExprV;

    open spec fn view(&self) -> ExprV
        decreases self,
    {
        match self {
            Expression::Const(v) => ExprV::Const(v@),
            Expression::Identifier(id) => ExprV::Identifier(id@),
            Expression::BinOp(lhs, op, rhs) => ExprV::BinOp(
                Box::new((**lhs)@),
                *op,
                Box::new((**rhs)@),
            ),
            Expression::Conditional { cond, cond_true, cond_false } => ExprV::Conditional {
                cond: Box::new((**cond)@),
                cond_true: Box::new((**cond_true)@),
                cond_false: Box::new((**cond_false)@),
            },
            Expression::AddressOf(inner) => ExprV::AddressOf(Box::new((**inner)@)),
        }
    }
}

impl Clone for Expression {
    fn clone(&self) -> (res: Expression)
        ensures
            res@ == self@,
        decreases self,
    {
        match self {
            Expression::Const(v) => Expression::Const(v.clone()),
            Expression::Identifier(id) => Expression::Identifier(id.clone()),
            Expression::BinOp(lhs, op, rhs) => Expression::BinOp(
                Box::new((**lhs).clone()),
                *op,
                Box::new((**rhs).clone()),
            ),
            Expression::Conditional { cond, cond_true, cond_false } => Expression::Conditional {
                cond: Box::new((**cond).clone()),
                cond_true: Box::new((**cond_true).clone()),
                cond_false: Box::new((**cond_false).clone()),
            },
            Expression::AddressOf(inner) => Expression::AddressOf(Box::new((**inner).clone())),
        }
    }
}

/// What converting a grammar-level expression yields: the shapes the
/// evaluator models convert structurally; a pointer-new or a dereference
/// place is unsupported syntax. Sub-expressions convert left to right and
/// the first failure wins.
pub open spec fn spec_convert_expr(p: PExprV) -> Result<ExprV, ParseError>
    decreases p,
{
    match p {
        PExprV::Const(v) => Ok(ExprV::Const(v)),
        PExprV::ValueAt(place) => match place {
            LeftExprV::Identifier(name) => Ok(ExprV::Identifier(name)),
            LeftExprV::Star(_) => Err(ParseError::SyntaxNotSupported),
        },
        PExprV::BinOp(lhs, op, rhs) => match spec_convert_expr(*lhs) {
            Err(e) => Err(e),
            Ok(l) => match spec_convert_expr(*rhs) {
                Err(e) => Err(e),
                Ok(r) => Ok(ExprV::BinOp(Box::new(l), Binop::spec_from_parse(op), Box::new(r))),
            },
        },
        PExprV::Conditional { cond, cond_true, cond_false } => match spec_convert_expr(*cond) {
            Err(e) => Err(e),
            Ok(c) => match spec_convert_expr(*cond_true) {
                Err(e) => Err(e),
                Ok(t) => match spec_convert_expr(*cond_false) {
                    Err(e) => Err(e),
                    Ok(f) => Ok(ExprV::Conditional {
                        cond: Box::new(c),
                        cond_true: Box::new(t),
                        cond_false: Box::new(f),
                    }),
                },
            },
        },
        PExprV::NewPtr(_, _) => Err(ParseError::SyntaxNotSupported),
    }
}

/// The view of a conversion result.
pub open spec fn convert_expr_view(r: Result<Expression, ParseError>) -> Result<ExprV, ParseError> {
    match r {
        Ok(e) => Ok(e@),
        Err(pe) => Err(pe),
    }
}

impl Expression {
    /// Converts a grammar-level expression into an evaluator expression, or
    /// reports the first unsupported construct.
    pub fn from_parse(p: &ParseExpression) -> (r: Result<Expression, ParseError>)
        ensures
            convert_expr_view(r) == spec_convert_expr(p@),
        decreases p,
    {
        match p {
            ParseExpression::Const(v) => Ok(Expression::Const(v.clone())),
            ParseExpression::ValueAt(place) => match place {
                LeftExpression::Identifier(id) => Ok(Expression::Identifier(id.clone())),
                LeftExpression::Star(_) => Err(ParseError::SyntaxNotSupported),
            },
            ParseExpression::BinOp(lhs, op, rhs) => {
                let l = match Expression::from_parse(&**lhs) {
                    Ok(l) => l,
                    Err(e) => {
                        return Err(e);
                    },
                };
                let r = match Expression::from_parse(&**rhs) {
                    Ok(r) => r,
                    Err(e) => {
                        return Err(e);
                    },
                };
                Ok(Expression::BinOp(Box::new(l), Binop::from_parse(*op), Box::new(r)))
            },
            ParseExpression::Conditional { cond, cond_true, cond_false } => {
                let c = match Expression::from_parse(&**cond) {
                    Ok(c) => c,
                    Err(e) => {
                        return Err(e);
                    },
                };
                let t = match Expression::from_parse(&**cond_true) {
                    Ok(t) => t,
                    Err(e) => {
                        return Err(e);
                    },
                };
                let f = match Expression::from_parse(&**cond_false) {
                    Ok(f) => f,
                    Err(e) => {
                        return Err(e);
                    },
                };
                Ok(Expression::Conditional {
                    cond: Box::new(c),
                    cond_true: Box::new(t),
                    cond_false: Box::new(f),
                })
            },
            ParseExpression::NewPtr(_, _) => Err(ParseError::SyntaxNotSupported),
        }
    }
}

} // verus!
