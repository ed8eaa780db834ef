//! The abstract syntax the parsing front end produces. The front end itself
//! (concrete syntax to these types) lives outside the library; the
//! conversions from these types into the evaluator's own syntax live in
//! `expression` and `instruction`.

pub mod binop;
pub mod expression;
pub mod instruction;
pub mod leftexpression;
pub mod parsedvalue;
pub mod ptr_kind;
pub mod value;
