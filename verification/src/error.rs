use vstd::prelude::*;

use crate::expression::{ExprV, Expression};
use crate::value::{Identifier, Type};

verus! {

/// Why a line of input could not become an instruction: either the grammar
/// rejected it, or it used a construct the evaluator does not model.
#[derive(Debug, Clone, Copy, PartialEq, Eq, Structural)]
pub enum ParseError {
    CannotParse,
    SyntaxNotSupported,
}

/// The mathematical form of an evaluation error.
pub enum ErrV {
    DivisionByZero(ExprV),
    Undefined(Seq<char>),
    AlreadyDefined(Seq<char>),
    NotMutable(Option<ExprV>),
    TypeMismatch { expression: ExprV, expected: Type, found: Type },
}

/// Why evaluation failed: division or remainder by zero (carrying the
/// divisor expression), an unknown name, a redeclaration within one scope,
/// an assignment to an immutable cell, or a coercion failure.
#[derive(Debug)]
pub enum EvalError {
    DivisionByZero(Expression),
    Undefined(Identifier),
    AlreadyDefined(Identifier),
    NotMutable(Option<Expression>),
    TypeMismatch { expression: Expression, expected: Type, found: Type },
}

impl View for EvalError {
    type V = ErrV;

    open spec fn view(&self) -> ErrV {
        match self {
            EvalError::DivisionByZero(e) => ErrV::DivisionByZero(e@),
            EvalError::Undefined(id) => ErrV::Undefined(id@),
            EvalError::AlreadyDefined(id) => ErrV::AlreadyDefined(id@),
            EvalError::NotMutable(context) => ErrV::NotMutable(
                match context {
                    Some(e) => Some(e@),
                    None => None,
                },
            ),
            EvalError::TypeMismatch { expression, expected, found } => ErrV::TypeMismatch {
                expression: expression@,
                expected: *expected,
                found: *found,
            },
        }
    }
}

/// The mathematical form of a top-level error.
pub enum ErrorV {
    ParseError(ParseError),
    EvalError(ErrV),
}

/// A top-level error: the two families are never intermixed; a caller can
/// always tell a rejected input from a failed evaluation.
#[derive(Debug)]
pub enum Error {
    ParseError(ParseError),
    EvalError(EvalError),
}

impl View for Error {
    type V = ErrorV;

    open spec fn view(&self) -> ErrorV {
        match self {
            Error::ParseError(e) => ErrorV::ParseError(*e),
            Error::EvalError(e) => ErrorV::EvalError(e@),
        }
    }
}

impl core::convert::From<ParseError> for Error {
    fn from(e: ParseError) -> (r: Error) {
        Error::ParseError(e)
    }
}

impl vstd::std_specs::convert::FromSpecImpl<ParseError> for Error {
    open spec fn obeys_from_spec() -> bool {
        true
    }

    open spec fn from_spec(e: ParseError) -> Error {
        Error::ParseError(e)
    }
}

impl core::convert::From<EvalError> for Error {
    fn from(e: EvalError) -> (r: Error) {
        Error::EvalError(e)
    }
}

impl vstd::std_specs::convert::FromSpecImpl<EvalError> for Error {
    open spec fn obeys_from_spec() -> bool {
        true
    }

    open spec fn from_spec(e: EvalError) -> Error {
        Error::EvalError(e)
    }
}

} // verus!
