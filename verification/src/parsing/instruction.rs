use vstd::prelude::*;

use crate::parsing::expression::{Expression, PExprV};
use crate::parsing::leftexpression::{LeftExprV, LeftExpression};
use crate::value::Identifier;

verus! {

/// The mathematical form of a grammar-level instruction.
pub enum PInstrV {
    Expr(PExprV),
    Let { id: Seq<char>, mutable: bool, expr: PExprV },
    Block(Seq<PInstrV>),
    IfElse { cond: PExprV, cond_true: Box<PInstrV>, cond_false: Box<PInstrV> },
    WriteAt(LeftExprV, PExprV),
    While(PExprV, Box<PInstrV>),
    Free(LeftExprV),
    Drop(LeftExprV),
}

/// An instruction as the grammar knows it. The evaluator executes only
/// expression statements, declarations and blocks; `Instruction::from_parse`
/// in the `instruction` module rejects the rest as unsupported syntax.
#[derive(Debug)]
pub enum Instruction {
    Expr(Expression),
    Let { id: Identifier, mutable: bool, expr: Expression },
    Block(Vec<Instruction>),
    IfElse { cond: Expression, cond_true: Box<Instruction>, cond_false: Box<Instruction> },
    WriteAt(LeftExpression, Expression),
    While(Expression, Box<Instruction>),
    Free(LeftExpression),
    Drop(LeftExpression),
}

/// The views of a sequence of grammar-level instructions, in order.
pub open spec fn parse_instrs_view(s: Seq<Instruction>) -> Seq<PInstrV>
    decreases s,
{
    if s.len() == 0 {
        Seq::empty()
    } else {
        parse_instrs_view(s.drop_last()).push(s.last()@)
    }
}

impl View for Instruction {
    type V = PInstrV;

    open spec fn view(&self) -> PInstrV
        decreases self,
    {
        match self {
            Instruction::Expr(e) => PInstrV::Expr(e@),
            Instruction::Let { id, mutable, expr } => PInstrV::Let {
                id: id@,
                mutable: *mutable,
                expr: expr@,
            },
            Instruction::Block(instrs) => PInstrV::Block(parse_instrs_view(instrs@)),
            Instruction::IfElse { cond, cond_true, cond_false } => PInstrV::IfElse {
                cond: cond@,
                cond_true: Box::new((**cond_true)@),
                cond_false: Box::new((**cond_false)@),
            },
            Instruction::WriteAt(place, e) => PInstrV::WriteAt(place@, e@),
            Instruction::While(cond, body) => PInstrV::While(cond@, Box::new((**body)@)),
            Instruction::Free(place) => PInstrV::Free(place@),
            Instruction::Drop(place) => PInstrV::Drop(place@),
        }
    }
}

/// Each element of `parse_instrs_view` is the view of the matching element.
pub proof fn lemma_parse_instrs_view(s: Seq<Instruction>)
    ensures
        parse_instrs_view(s).len() == s.len(),
        forall|i: int| 0 <= i < s.len() ==> parse_instrs_view(s)[i] == #[trigger] s[i]@,
    decreases s,
{
    if s.len() > 0 {
        lemma_parse_instrs_view(s.drop_last());
        assert(parse_instrs_view(s) == parse_instrs_view(s.drop_last()).push(s.last()@));
        assert forall|i: int| 0 <= i < s.len() implies parse_instrs_view(s)[i] == #[trigger] s[i]@ by {
            if i < s.len() - 1 {
                assert(s.drop_last()[i] == s[i]);
            } else {
                assert(s[i] == s.last());
            }
        }
    }
}

} // verus!
