//! A verified evaluation engine for a small imperative expression language:
//! integer and boolean expressions, conditional expressions, address-of on
//! variables, variable declaration with explicit mutability, and lexically
//! scoped blocks, evaluated against a stack of namespaces.

pub mod binop;
pub mod error;
pub mod eval;
pub mod expression;
pub mod instruction;
pub mod laws;
pub mod memorycell;
pub mod namespace;
pub mod namespacestack;
pub mod parsing;
pub mod text;
pub mod value;

pub use value::Identifier;
pub use value::Type;
pub use value::Value;
