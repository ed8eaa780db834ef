use vstd::prelude::*;

verus! {

/// A binary operator of the expression language. Arithmetic and comparison
/// operators take integer operands; `And` and `Or` take boolean operands.
#[derive(Debug, Clone, Copy, PartialEq, Eq, Structural)]
pub enum Binop {
    Add,
    Sub,
    Mul,
    Div,
    Mod,
    Leq,
    Geq,
    Lt,
    Gt,
    Eq,
    Neq,
    And,
    Or,
}

/// The operator's concrete syntax.
pub open spec fn binop_text(op: Binop) -> Seq<char> {
    match op {
        Binop::Add => "+"@,
        Binop::Sub => "-"@,
        Binop::Mul => "*"@,
        Binop::Div => "/"@,
        Binop::Mod => "%"@,
        Binop::Leq => "<="@,
        Binop::Geq => ">="@,
        Binop::Lt => "<"@,
        Binop::Gt => ">"@,
        Binop::Eq => "=="@,
        Binop::Neq => "!="@,
        Binop::And => "&&"@,
        Binop::Or => "||"@,
    }
}

impl Binop {
    /// Renders the operator as its concrete syntax.
    pub fn to_text(&self) -> (s: String)
        ensures
            s@ == binop_text(*self),
    {
        match self {
            Binop::Add => "+".to_owned(),
            Binop::Sub => "-".to_owned(),
            Binop::Mul => "*".to_owned(),
            Binop::Div => "/".to_owned(),
            Binop::Mod => "%".to_owned(),
            Binop::Leq => "<=".to_owned(),
            Binop::Geq => ">=".to_owned(),
            Binop::Lt => "<".to_owned(),
            Binop::Gt => ">".to_owned(),
            Binop::Eq => "==".to_owned(),
            Binop::Neq => "!=".to_owned(),
            Binop::And => "&&".to_owned(),
            Binop::Or => "||".to_owned(),
        }
    }

    /// The operator a grammar-level operator stands for.
    pub open spec fn spec_from_parse(op: crate::parsing::binop::Binop) -> Binop {
        match op {
            crate::parsing::binop::Binop::Add => Binop::Add,
            crate::parsing::binop::Binop::Sub => Binop::Sub,
            crate::parsing::binop::Binop::Mul => Binop::Mul,
            crate::parsing::binop::Binop::Div => Binop::Div,
            crate::parsing::binop::Binop::Mod => Binop::Mod,
            crate::parsing::binop::Binop::Leq => Binop::Leq,
            crate::parsing::binop::Binop::Geq => Binop::Geq,
            crate::parsing::binop::Binop::Lt => Binop::Lt,
            crate::parsing::binop::Binop::Gt => Binop::Gt,
            crate::parsing::binop::Binop::Eq => Binop::Eq,
            crate::parsing::binop::Binop::Neq => Binop::Neq,
            crate::parsing::binop::Binop::And => Binop::And,
            crate::parsing::binop::Binop::Or => Binop::Or,
        }
    }

    /// Converts a grammar-level operator; every one is supported.
    pub fn from_parse(op: crate::parsing::binop::Binop) -> (r: Binop)
        ensures
            r == Binop::spec_from_parse(op),
    {
        match op {
            crate::parsing::binop::Binop::Add => Binop::Add,
            crate::parsing::binop::Binop::Sub => Binop::Sub,
            crate::parsing::binop::Binop::Mul => Binop::Mul,
            crate::parsing::binop::Binop::Div => Binop::Div,
            crate::parsing::binop::Binop::Mod => Binop::Mod,
            crate::parsing::binop::Binop::Leq => Binop::Leq,
            crate::parsing::binop::Binop::Geq => Binop::Geq,
            crate::parsing::binop::Binop::Lt => Binop::Lt,
            crate::parsing::binop::Binop::Gt => Binop::Gt,
            crate::parsing::binop::Binop::Eq => Binop::Eq,
            crate::parsing::binop::Binop::Neq => Binop::Neq,
            crate::parsing::binop::Binop::And => Binop::And,
            crate::parsing::binop::Binop::Or => Binop::Or,
        }
    }
}

} // verus!
