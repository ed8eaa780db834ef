//! Textual rendering for values, types, expressions, instructions and
//! errors, suitable for line-oriented output such as
//! `<identifier> : <type> = <value>`.

use vstd::prelude::*;
use vstd::string::StringExecFns;

use crate::binop::{binop_text, Binop};
use crate::error::{ErrV, ErrorV, Error, EvalError, ParseError};
use crate::expression::{ExprV, Expression};
use crate::instruction::{InstrV, Instruction};
use crate::parsing::expression::{Expression as ParseExpression, PExprV};
use crate::parsing::instruction::{Instruction as ParseInstruction, PInstrV};
use crate::parsing::leftexpression::{LeftExprV, LeftExpression};
use crate::parsing::parsedvalue::ParsedValue;
use crate::parsing::ptr_kind::PtrKind;
use crate::value::{Type, Value, ValueV};

verus! {

/// The base-ten rendering of a 64-bit integer.
pub uninterp spec fn decimal_of(i: i64) -> Seq<char>;

/// Relies on std's `ToString::to_string` for `i64`: the base-ten rendering
/// of the integer, with a leading minus sign when negative, a function of
/// the integer alone.
#[verifier::external_body]
fn decimal_string(i: i64) -> (s: String)
    ensures
        s@ == decimal_of(i),
{
    i.to_string()
}

/// The rendering of a value.
pub open spec fn value_text(v: ValueV) -> Seq<char> {
    match v {
        ValueV::Integer(i) => decimal_of(i),
        ValueV::Boolean(b) => if b {
            "true"@
        } else {
            "false"@
        },
        ValueV::Unit => "()"@,
        ValueV::Pointer(a) => "&"@ + a.name,
    }
}

/// The rendering of a type name.
pub open spec fn type_text(t: Type) -> Seq<char> {
    match t {
        Type::Int => "int"@,
        Type::Bool => "bool"@,
        Type::Unit => "unit"@,
        Type::Pointer => "pointer"@,
    }
}

/// The rendering of a place expression.
pub open spec fn left_text(l: LeftExprV) -> Seq<char>
    decreases l,
{
    match l {
        LeftExprV::Identifier(name) => name,
        LeftExprV::Star(inner) => "*"@ + left_text(*inner),
    }
}

/// The rendering of a pointer flavour.
pub open spec fn ptr_kind_text(k: PtrKind) -> Seq<char> {
    match k {
        PtrKind::RawPtr => "RawPtr"@,
        PtrKind::Box => "Box"@,
        PtrKind::Rc => "Rc"@,
    }
}

/// The rendering of an evaluator expression.
pub open spec fn expr_text(e: ExprV) -> Seq<char>
    decreases e,
{
    match e {
        ExprV::Const(v) => value_text(v),
        ExprV::Identifier(name) => name,
        ExprV::BinOp(lhs, op, rhs) => "("@ + expr_text(*lhs) + " "@ + binop_text(op) + " "@
            + expr_text(*rhs) + ")"@,
        ExprV::Conditional { cond, cond_true, cond_false } => "("@ + expr_text(*cond) + ") ? "@
            + expr_text(*cond_true) + "  : "@ + expr_text(*cond_false) + " "@,
        ExprV::AddressOf(inner) => "&"@ + expr_text(*inner),
    }
}

/// The rendering of an evaluator instruction.
pub open spec fn instr_text(i: InstrV) -> Seq<char>
    decreases i,
{
    match i {
        InstrV::Expr(e) => expr_text(e),
        InstrV::Let { id, mutable, expr } => (if mutable {
            "let mut "@
        } else {
            "let "@
        }) + id + " = "@ + expr_text(expr),
        InstrV::Block(instrs) => "{"@ + block_text(instrs) + "}"@,
    }
}

/// The body of a block: the instructions' renderings joined by `;`.
pub open spec fn block_text(instrs: Seq<InstrV>) -> Seq<char>
    decreases instrs,
{
    if instrs.len() == 0 {
        Seq::empty()
    } else if instrs.len() == 1 {
        instr_text(instrs[0])
    } else {
        block_text(instrs.drop_last()) + ";"@ + instr_text(instrs.last())
    }
}

/// The rendering of a grammar-level expression.
pub open spec fn parse_expr_text(e: PExprV) -> Seq<char>
    decreases e,
{
    match e {
        PExprV::Const(v) => value_text(v),
        PExprV::NewPtr(kind, inner) => ptr_kind_text(kind) + "::new("@ + parse_expr_text(*inner)
            + ")"@,
        PExprV::ValueAt(place) => left_text(place),
        PExprV::BinOp(lhs, op, rhs) => "("@ + parse_expr_text(*lhs) + " "@ + binop_text(
            Binop::spec_from_parse(op),
        ) + " "@ + parse_expr_text(*rhs) + ")"@,
        PExprV::Conditional { cond, cond_true, cond_false } => "("@ + parse_expr_text(*cond)
            + ") ? "@ + parse_expr_text(*cond_true) + "  : "@ + parse_expr_text(*cond_false)
            + " "@,
    }
}

/// The rendering of a grammar-level instruction.
pub open spec fn parse_instr_text(i: PInstrV) -> Seq<char>
    decreases i,
{
    match i {
        PInstrV::Expr(e) => parse_expr_text(e),
        PInstrV::Let { id, mutable, expr } => (if mutable {
            "let mut "@
        } else {
            "let "@
        }) + id + " = "@ + parse_expr_text(expr),
        PInstrV::Block(instrs) => "{"@ + parse_block_text(instrs) + "}"@,
        PInstrV::IfElse { cond, cond_true, cond_false } => "if "@ + parse_expr_text(cond) + " "@
            + parse_instr_text(*cond_true) + " else "@ + parse_instr_text(*cond_false),
        PInstrV::WriteAt(place, e) => left_text(place) + " = "@ + parse_expr_text(e),
        PInstrV::While(cond, body) => "while "@ + parse_expr_text(cond) + " "@ + parse_instr_text(
            *body,
        ),
        PInstrV::Free(place) => "free "@ + left_text(place),
        PInstrV::Drop(place) => "drop "@ + left_text(place),
    }
}

/// The body of a grammar-level block: the instructions' renderings joined
/// by `;`.
pub open spec fn parse_block_text(instrs: Seq<PInstrV>) -> Seq<char>
    decreases instrs,
{
    if instrs.len() == 0 {
        Seq::empty()
    } else if instrs.len() == 1 {
        parse_instr_text(instrs[0])
    } else {
        parse_block_text(instrs.drop_last()) + ";"@ + parse_instr_text(instrs.last())
    }
}

/// The rendering of a parse error.
pub open spec fn parse_error_text(e: ParseError) -> Seq<char> {
    match e {
        ParseError::CannotParse => "Cannot parse"@,
        ParseError::SyntaxNotSupported => "Syntax not supported"@,
    }
}

/// The rendering of an evaluation error.
pub open spec fn eval_error_text(e: ErrV) -> Seq<char> {
    match e {
        ErrV::DivisionByZero(ex) => "Division by zero, `"@ + expr_text(ex) + "` evaluates to 0"@,
        ErrV::Undefined(id) => "Undefined identifier: `"@ + id + "`"@,
        ErrV::AlreadyDefined(id) => "Identifier `"@ + id + "` already defined."@,
        ErrV::NotMutable(context) => match context {
            Some(ex) => "Cell at `"@ + expr_text(ex) + "` is not mutable."@,
            None => "Cell is not mutable."@,
        },
        ErrV::TypeMismatch { .. } => "Type mismatch"@,
    }
}

/// The rendering of a top-level error.
pub open spec fn error_text(e: ErrorV) -> Seq<char> {
    match e {
        ErrorV::ParseError(pe) => "Parse Error: "@ + parse_error_text(pe),
        ErrorV::EvalError(ee) => "Evaluation Error: "@ + eval_error_text(ee),
    }
}

impl Value {
    /// Renders the value.
    pub fn to_text(&self) -> (s: String)
        ensures
            s@ == value_text(self@),
    {
        match self {
            Value::Integer(i) => decimal_string(*i),
            Value::Boolean(b) => if *b {
                "true".to_owned()
            } else {
                "false".to_owned()
            },
            Value::Unit => "()".to_owned(),
            Value::Pointer(a) => {
                let mut s = String::from_str("&");
                s.append(a.name.as_str());
                s
            },
        }
    }
}

impl Type {
    /// Renders the type's name.
    pub fn to_text(&self) -> (s: String)
        ensures
            s@ == type_text(*self),
    {
        match self {
            Type::Int => "int".to_owned(),
            Type::Bool => "bool".to_owned(),
            Type::Unit => "unit".to_owned(),
            Type::Pointer => "pointer".to_owned(),
        }
    }
}

impl ParsedValue {
    /// Renders the literal value.
    pub fn to_text(&self) -> (s: String)
        ensures
            s@ == value_text(self@),
    {
        match self {
            ParsedValue::Integer(i) => decimal_string(*i),
            ParsedValue::Boolean(b) => if *b {
                "true".to_owned()
            } else {
                "false".to_owned()
            },
            ParsedValue::Unit => "()".to_owned(),
            ParsedValue::Pointer(a) => {
                let mut s = String::from_str("&");
                s.append(a.name.as_str());
                s
            },
        }
    }
}

impl crate::parsing::value::Value {
    /// Renders the literal value.
    pub fn to_text(&self) -> (s: String)
        ensures
            s@ == value_text(self@),
    {
        match self {
            crate::parsing::value::Value::Integer(i) => decimal_string(*i),
            crate::parsing::value::Value::Boolean(b) => if *b {
                "true".to_owned()
            } else {
                "false".to_owned()
            },
            crate::parsing::value::Value::Unit => "()".to_owned(),
        }
    }
}

impl LeftExpression {
    /// Renders the place expression.
    pub fn to_text(&self) -> (s: String)
        ensures
            s@ == left_text(self@),
        decreases self,
    {
        match self {
            LeftExpression::Identifier(id) => id.as_str().to_owned(),
            LeftExpression::Star(inner) => {
                let mut s = String::from_str("*");
                let t = (**inner).to_text();
                s.append(t.as_str());
                s
            },
        }
    }
}

impl PtrKind {
    /// Renders the pointer flavour's name.
    pub fn to_text(&self) -> (s: String)
        ensures
            s@ == ptr_kind_text(*self),
    {
        match self {
            PtrKind::RawPtr => "RawPtr".to_owned(),
            PtrKind::Box => "Box".to_owned(),
            PtrKind::Rc => "Rc".to_owned(),
        }
    }
}

impl Expression {
    /// Renders the expression as concrete syntax.
    pub fn to_text(&self) -> (s: String)
        ensures
            s@ == expr_text(self@),
        decreases self,
    {
        match self {
            Expression::Const(v) => v.to_text(),
            Expression::Identifier(id) => id.as_str().to_owned(),
            Expression::BinOp(lhs, op, rhs) => {
                let mut s = String::from_str("(");
                let l = (**lhs).to_text();
                s.append(l.as_str());
                s.append(" ");
                let o = op.to_text();
                s.append(o.as_str());
                s.append(" ");
                let r = (**rhs).to_text();
                s.append(r.as_str());
                s.append(")");
                s
            },
            Expression::Conditional { cond, cond_true, cond_false } => {
                let mut s = String::from_str("(");
                let c = (**cond).to_text();
                s.append(c.as_str());
                s.append(") ? ");
                let t = (**cond_true).to_text();
                s.append(t.as_str());
                s.append("  : ");
                let f = (**cond_false).to_text();
                s.append(f.as_str());
                s.append(" ");
                s
            },
            Expression::AddressOf(inner) => {
                let mut s = String::from_str("&");
                let t = (**inner).to_text();
                s.append(t.as_str());
                s
            },
        }
    }
}

impl Instruction {
    /// Renders the instruction as concrete syntax.
    #[verifier::loop_isolation(false)]
    pub fn to_text(&self) -> (s: String)
        ensures
            s@ == instr_text(self@),
        decreases self,
    {
        match self {
            Instruction::Expr(e) => e.to_text(),
            Instruction::Let { id, mutable, expr } => {
                let mut s = if *mutable {
                    String::from_str("let mut ")
                } else {
                    String::from_str("let ")
                };
                s.append(id.as_str());
                s.append(" = ");
                let t = expr.to_text();
                s.append(t.as_str());
                s
            },
            Instruction::Block(instrs) => {
                let ghost iview = crate::instruction::instrs_view(instrs@);
                proof {
                    crate::instruction::lemma_instrs_view(instrs@);
                }
                let mut s = String::from_str("{");
                let n = instrs.len();
                let mut idx: usize = 0;
                while idx < n
                    invariant
                        idx <= n,
                        s@ == "{"@ + block_text(iview.subrange(0, idx as int)),
                    decreases n - idx,
                {
                    proof {
                        assert(decreases_to!(*self => *instrs));
                        assert(decreases_to!(*instrs => (*instrs)[idx as int]));
                    }
                    if idx > 0 {
                        s.append(";");
                    }
                    let t = instrs[idx].to_text();
                    s.append(t.as_str());
                    proof {
                        let prefix = iview.subrange(0, idx as int);
                        let prefix1 = iview.subrange(0, idx as int + 1);
                        assert(prefix1.drop_last() =~= prefix);
                        assert(prefix1.last() == iview[idx as int]);
                        if idx == 0 {
                            assert(s@ == "{"@ + (Seq::<char>::empty() + t@));
                            assert(Seq::<char>::empty() + t@ =~= t@);
                        }
                    }
                    idx = idx + 1;
                }
                proof {
                    assert(iview.subrange(0, n as int) =~= iview);
                }
                s.append("}");
                s
            },
        }
    }
}

impl ParseExpression {
    /// Renders the grammar-level expression as concrete syntax.
    pub fn to_text(&self) -> (s: String)
        ensures
            s@ == parse_expr_text(self@),
        decreases self,
    {
        match self {
            ParseExpression::Const(v) => v.to_text(),
            ParseExpression::NewPtr(kind, inner) => {
                let mut s = kind.to_text();
                s.append("::new(");
                let t = (**inner).to_text();
                s.append(t.as_str());
                s.append(")");
                s
            },
            ParseExpression::ValueAt(place) => place.to_text(),
            ParseExpression::BinOp(lhs, op, rhs) => {
                let mut s = String::from_str("(");
                let l = (**lhs).to_text();
                s.append(l.as_str());
                s.append(" ");
                let o = Binop::from_parse(*op).to_text();
                s.append(o.as_str());
                s.append(" ");
                let r = (**rhs).to_text();
                s.append(r.as_str());
                s.append(")");
                s
            },
            ParseExpression::Conditional { cond, cond_true, cond_false } => {
                let mut s = String::from_str("(");
                let c = (**cond).to_text();
                s.append(c.as_str());
                s.append(") ? ");
                let t = (**cond_true).to_text();
                s.append(t.as_str());
                s.append("  : ");
                let f = (**cond_false).to_text();
                s.append(f.as_str());
                s.append(" ");
                s
            },
        }
    }
}

impl ParseInstruction {
    /// Renders the grammar-level instruction as concrete syntax.
    #[verifier::loop_isolation(false)]
    pub fn to_text(&self) -> (s: String)
        ensures
            s@ == parse_instr_text(self@),
        decreases self,
    {
        match self {
            ParseInstruction::Expr(e) => e.to_text(),
            ParseInstruction::Let { id, mutable, expr } => {
                let mut s = if *mutable {
                    String::from_str("let mut ")
                } else {
                    String::from_str("let ")
                };
                s.append(id.as_str());
                s.append(" = ");
                let t = expr.to_text();
                s.append(t.as_str());
                s
            },
            ParseInstruction::Block(instrs) => {
                let ghost iview = crate::parsing::instruction::parse_instrs_view(instrs@);
                proof {
                    crate::parsing::instruction::lemma_parse_instrs_view(instrs@);
                }
                let mut s = String::from_str("{");
                let n = instrs.len();
                let mut idx: usize = 0;
                while idx < n
                    invariant
                        idx <= n,
                        s@ == "{"@ + parse_block_text(iview.subrange(0, idx as int)),
                    decreases n - idx,
                {
                    proof {
                        assert(decreases_to!(*self => *instrs));
                        assert(decreases_to!(*instrs => (*instrs)[idx as int]));
                    }
                    if idx > 0 {
                        s.append(";");
                    }
                    let t = instrs[idx].to_text();
                    s.append(t.as_str());
                    proof {
                        let prefix = iview.subrange(0, idx as int);
                        let prefix1 = iview.subrange(0, idx as int + 1);
                        assert(prefix1.drop_last() =~= prefix);
                        assert(prefix1.last() == iview[idx as int]);
                        if idx == 0 {
                            assert(s@ == "{"@ + (Seq::<char>::empty() + t@));
                            assert(Seq::<char>::empty() + t@ =~= t@);
                        }
                    }
                    idx = idx + 1;
                }
                proof {
                    assert(iview.subrange(0, n as int) =~= iview);
                }
                s.append("}");
                s
            },
            ParseInstruction::IfElse { cond, cond_true, cond_false } => {
                let mut s = String::from_str("if ");
                let c = cond.to_text();
                s.append(c.as_str());
                s.append(" ");
                let t = (**cond_true).to_text();
                s.append(t.as_str());
                s.append(" else ");
                let f = (**cond_false).to_text();
                s.append(f.as_str());
                s
            },
            ParseInstruction::WriteAt(place, e) => {
                let mut s = place.to_text();
                s.append(" = ");
                let t = e.to_text();
                s.append(t.as_str());
                s
            },
            ParseInstruction::While(cond, body) => {
                let mut s = String::from_str("while ");
                let c = cond.to_text();
                s.append(c.as_str());
                s.append(" ");
                let b = (**body).to_text();
                s.append(b.as_str());
                s
            },
            ParseInstruction::Free(place) => {
                let mut s = String::from_str("free ");
                let t = place.to_text();
                s.append(t.as_str());
                s
            },
            ParseInstruction::Drop(place) => {
                let mut s = String::from_str("drop ");
                let t = place.to_text();
                s.append(t.as_str());
                s
            },
        }
    }
}

impl ParseError {
    /// Renders the parse error.
    pub fn to_text(&self) -> (s: String)
        ensures
            s@ == parse_error_text(*self),
    {
        match self {
            ParseError::CannotParse => "Cannot parse".to_owned(),
            ParseError::SyntaxNotSupported => "Syntax not supported".to_owned(),
        }
    }
}

impl EvalError {
    /// Renders the evaluation error.
    pub fn to_text(&self) -> (s: String)
        ensures
            s@ == eval_error_text(self@),
    {
        match self {
            EvalError::DivisionByZero(ex) => {
                let mut s = String::from_str("Division by zero, `");
                let t = ex.to_text();
                s.append(t.as_str());
                s.append("` evaluates to 0");
                s
            },
            EvalError::Undefined(id) => {
                let mut s = String::from_str("Undefined identifier: `");
                s.append(id.as_str());
                s.append("`");
                s
            },
            EvalError::AlreadyDefined(id) => {
                let mut s = String::from_str("Identifier `");
                s.append(id.as_str());
                s.append("` already defined.");
                s
            },
            EvalError::NotMutable(context) => match context {
                Some(ex) => {
                    let mut s = String::from_str("Cell at `");
                    let t = ex.to_text();
                    s.append(t.as_str());
                    s.append("` is not mutable.");
                    s
                },
                None => "Cell is not mutable.".to_owned(),
            },
            EvalError::TypeMismatch { .. } => "Type mismatch".to_owned(),
        }
    }
}

impl Error {
    /// Renders the top-level error, naming its family.
    pub fn to_text(&self) -> (s: String)
        ensures
            s@ == error_text(self@),
    {
        match self {
            Error::ParseError(pe) => {
                let mut s = String::from_str("Parse Error: ");
                let t = pe.to_text();
                s.append(t.as_str());
                s
            },
            Error::EvalError(ee) => {
                let mut s = String::from_str("Evaluation Error: ");
                let t = ee.to_text();
                s.append(t.as_str());
                s
            },
        }
    }
}

} // verus!
