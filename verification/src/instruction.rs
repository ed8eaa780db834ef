use vstd::prelude::*;

use crate::error::ParseError;
use crate::expression::{convert_expr_view, spec_convert_expr, ExprV, Expression};
use crate::parsing::instruction::{
    lemma_parse_instrs_view, parse_instrs_view, Instruction as ParseInstruction, PInstrV,
};
use crate::value::Identifier;

verus! {

/// The mathematical form of an evaluator instruction.
pub enum InstrV {
    Expr(ExprV),
    Let { id: Seq<char>, mutable: bool, expr: ExprV },
    Block(Seq<InstrV>),
}

/// An instruction the evaluator executes: an expression statement, a
/// declaration with explicit mutability, or a lexically scoped block.
#[derive(Debug)]
pub enum Instruction {
    Expr(Expression),
    Let { id: Identifier, mutable: bool, expr: Expression },
    Block(Vec<Instruction>),
}

/// The views of a sequence of instructions, in order.
pub open spec fn instrs_view(s: Seq<Instruction>) -> Seq<InstrV>
    decreases s,
{
    if s.len() == 0 {
        Seq::empty()
    } else {
        instrs_view(s.drop_last()).push(s.last()@)
    }
}

impl View for Instruction {
    type V = InstrV;

    open spec fn view(&self) -> InstrV
        decreases self,
    {
        match self {
            Instruction::Expr(e) => InstrV::Expr(e@),
            Instruction::Let { id, mutable, expr } => InstrV::Let {
                id: id@,
                mutable: *mutable,
                expr: expr@,
            },
            Instruction::Block(instrs) => InstrV::Block(instrs_view(instrs@)),
        }
    }
}

/// Each element of `instrs_view` is the view of the matching element.
pub proof fn lemma_instrs_view(s: Seq<Instruction>)
    ensures
        instrs_view(s).len() == s.len(),
        forall|i: int| 0 <= i < s.len() ==> instrs_view(s)[i] == #[trigger] s[i]@,
    decreases s,
{
    if s.len() > 0 {
        lemma_instrs_view(s.drop_last());
        assert(instrs_view(s) == instrs_view(s.drop_last()).push(s.last()@));
        assert forall|i: int| 0 <= i < s.len() implies instrs_view(s)[i] == #[trigger] s[i]@ by {
            if i < s.len() - 1 {
                assert(s.drop_last()[i] == s[i]);
            } else {
                assert(s[i] == s.last());
            }
        }
    }
}

/// What converting a sequence of grammar-level instructions yields: each
/// converts in order and the first failure wins.
pub open spec fn spec_convert_instrs(s: Seq<PInstrV>) -> Result<Seq<InstrV>, ParseError>
    decreases s,
{
    if s.len() == 0 {
        Ok(Seq::empty())
    } else {
        match Instruction::spec_convert(s[0]) {
            Err(pe) => Err(pe),
            Ok(first) => match spec_convert_instrs(s.drop_first()) {
                Err(pe) => Err(pe),
                Ok(rest) => Ok(seq![first] + rest),
            },
        }
    }
}

/// The view of a conversion result.
pub open spec fn convert_instr_view(r: Result<Instruction, ParseError>) -> Result<
    InstrV,
    ParseError,
> {
    match r {
        Ok(i) => Ok(i@),
        Err(pe) => Err(pe),
    }
}

impl Instruction {
    /// What converting a grammar-level instruction yields: expression
    /// statements, declarations and blocks convert structurally; the
    /// constructs the evaluator does not model are unsupported syntax.
    pub open spec fn spec_convert(p: PInstrV) -> Result<InstrV, ParseError>
        decreases p,
    {
        match p {
            PInstrV::Expr(e) => match spec_convert_expr(e) {
                Err(pe) => Err(pe),
                Ok(ce) => Ok(InstrV::Expr(ce)),
            },
            PInstrV::Let { id, mutable, expr } => match spec_convert_expr(expr) {
                Err(pe) => Err(pe),
                Ok(ce) => Ok(InstrV::Let { id, mutable, expr: ce }),
            },
            PInstrV::Block(instrs) => match spec_convert_instrs(instrs) {
                Err(pe) => Err(pe),
                Ok(cis) => Ok(InstrV::Block(cis)),
            },
            _ => Err(ParseError::SyntaxNotSupported),
        }
    }

    /// Converts a grammar-level instruction into an evaluator instruction,
    /// or reports the first unsupported construct.
    #[verifier::loop_isolation(false)]
    pub fn from_parse(p: &ParseInstruction) -> (r: Result<Instruction, ParseError>)
        ensures
            convert_instr_view(r) == Instruction::spec_convert(p@),
        decreases p,
    {
        match p {
            ParseInstruction::Expr(e) => match Expression::from_parse(e) {
                Ok(ce) => Ok(Instruction::Expr(ce)),
                Err(pe) => Err(pe),
            },
            ParseInstruction::Let { id, mutable, expr } => match Expression::from_parse(expr) {
                Ok(ce) => Ok(Instruction::Let { id: id.clone(), mutable: *mutable, expr: ce }),
                Err(pe) => Err(pe),
            },
            ParseInstruction::Block(instrs) => {
                let ghost pview = parse_instrs_view(instrs@);
                let n = instrs.len();
                let mut out: Vec<Instruction> = Vec::new();
                let mut idx: usize = 0;
                proof {
                    lemma_parse_instrs_view(instrs@);
                    assert(pview.subrange(0, pview.len() as int) =~= pview);
                    if spec_convert_instrs(pview) is Ok {
                        assert(instrs_view(out@) + spec_convert_instrs(pview)->Ok_0
                            =~= spec_convert_instrs(pview)->Ok_0);
                    }
                }
                while idx < n
                    invariant
                        idx <= n,
                        n == instrs@.len(),
                        pview == parse_instrs_view(instrs@),
                        pview.len() == n,
                        forall|i: int| 0 <= i < n ==> pview[i] == #[trigger] instrs@[i]@,
                        (match spec_convert_instrs(pview.subrange(idx as int, n as int)) {
                            Ok(tail) => spec_convert_instrs(pview) == Ok::<
                                Seq<InstrV>,
                                ParseError,
                            >(instrs_view(out@) + tail),
                            Err(pe) => spec_convert_instrs(pview) == Err::<
                                Seq<InstrV>,
                                ParseError,
                            >(pe),
                        }),
                    decreases n - idx,
                {
                    let ghost old_out = out@;
                    let ghost suffix = pview.subrange(idx as int, n as int);
                    proof {
                        assert(suffix[0] == pview[idx as int]);
                        assert(suffix.drop_first() =~= pview.subrange(idx as int + 1, n as int));
                        assert(decreases_to!(*p => *instrs));
                        assert(decreases_to!(*instrs => (*instrs)[idx as int]));
                    }
                    match Instruction::from_parse(&instrs[idx]) {
                        Err(pe) => {
                            proof {
                                assert(suffix.len() > 0);
                                assert(spec_convert_instrs(suffix) == Err::<
                                    Seq<InstrV>,
                                    ParseError,
                                >(pe));
                            }
                            return Err(pe);
                        },
                        Ok(converted) => {
                            out.push(converted);
                            proof {
                                assert(out@.drop_last() =~= old_out);
                                assert(instrs_view(out@) == instrs_view(old_out).push(
                                    out@.last()@,
                                ));
                                let rest = pview.subrange(idx as int + 1, n as int);
                                if spec_convert_instrs(rest) is Ok {
                                    let tail = spec_convert_instrs(rest)->Ok_0;
                                    assert(instrs_view(old_out) + (seq![out@.last()@] + tail)
                                        =~= instrs_view(out@) + tail);
                                }
                            }
                        },
                    }
                    idx = idx + 1;
                }
                proof {
                    assert(pview.subrange(idx as int, n as int) =~= Seq::<PInstrV>::empty());
                    assert(instrs_view(out@) + Seq::<InstrV>::empty() =~= instrs_view(out@));
                }
                Ok(Instruction::Block(out))
            },
            _ => Err(ParseError::SyntaxNotSupported),
        }
    }
}

} // verus!
