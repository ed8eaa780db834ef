use vstd::prelude::*;

use crate::binop::Binop;
use crate::error::{ErrV, EvalError};
use crate::expression::{ExprV, Expression};
use crate::instruction::{instrs_view, lemma_instrs_view, InstrV, Instruction};
use crate::memorycell::CellV;
use crate::namespace::NameSpace;
use crate::namespacestack::{
    stack_declare, stack_frame_of, stack_has, stack_lookup, NameSpaceStack, StackV,
};
use crate::value::{to_bool_v, to_int_v, type_of_v, AddressV, Identifier, Type, Value, ValueV};

verus! {

/// Coercing the outcome of evaluating `e` to an integer: an evaluation error
/// passes through; a non-integer value is a type mismatch at `e`.
pub open spec fn coerce_int(e: ExprV, r: Result<ValueV, ErrV>) -> Result<i64, ErrV> {
    match r {
        Err(er) => Err(er),
        Ok(v) => match to_int_v(v) {
            Ok(i) => Ok(i),
            Err(found) => Err(ErrV::TypeMismatch { expression: e, expected: Type::Int, found }),
        },
    }
}

/// Coercing the outcome of evaluating `e` to a boolean: an evaluation error
/// passes through; a non-boolean value is a type mismatch at `e`.
pub open spec fn coerce_bool(e: ExprV, r: Result<ValueV, ErrV>) -> Result<bool, ErrV> {
    match r {
        Err(er) => Err(er),
        Ok(v) => match to_bool_v(v) {
            Ok(b) => Ok(b),
            Err(found) => Err(ErrV::TypeMismatch { expression: e, expected: Type::Bool, found }),
        },
    }
}

/// Truncating division on two's-complement 64-bit integers: the one quotient
/// that does not fit (the smallest integer divided by -1) wraps to itself.
pub open spec fn div_wrapped(a: i64, b: i64) -> i64 {
    match a.checked_div(b) {
        Some(q) => q,
        None => i64::MIN,
    }
}

/// Remainder paired with `div_wrapped`: on the one wrapping quotient the
/// remainder is 0.
pub open spec fn rem_wrapped(a: i64, b: i64) -> i64 {
    match a.checked_rem(b) {
        Some(m) => m,
        None => 0,
    }
}

/// What an integer-operand operator yields on operands `a` and `b`:
/// arithmetic is two's-complement with wrap-around, division and remainder
/// truncate and fail with `DivisionByZero` carrying the divisor expression
/// when `b` is zero, and the comparisons have their standard meaning.
pub open spec fn eval_int_binop(op: Binop, a: i64, b: i64, divisor: ExprV) -> Result<
    ValueV,
    ErrV,
> {
    match op {
        Binop::Add => Ok(ValueV::Integer(a.wrapping_add(b))),
        Binop::Sub => Ok(ValueV::Integer(a.wrapping_sub(b))),
        Binop::Mul => Ok(ValueV::Integer(a.wrapping_mul(b))),
        Binop::Div => if b == 0 {
            Err(ErrV::DivisionByZero(divisor))
        } else {
            Ok(ValueV::Integer(div_wrapped(a, b)))
        },
        Binop::Mod => if b == 0 {
            Err(ErrV::DivisionByZero(divisor))
        } else {
            Ok(ValueV::Integer(rem_wrapped(a, b)))
        },
        Binop::Leq => Ok(ValueV::Boolean(a <= b)),
        Binop::Geq => Ok(ValueV::Boolean(a >= b)),
        Binop::Lt => Ok(ValueV::Boolean(a < b)),
        Binop::Gt => Ok(ValueV::Boolean(a > b)),
        Binop::Eq => Ok(ValueV::Boolean(a == b)),
        Binop::Neq => Ok(ValueV::Boolean(a != b)),
        _ => Ok(ValueV::Unit),
    }
}

/// The meaning of an expression against a scope stack. Expressions never
/// change the stack. Operands evaluate left to right; `&&` and `||` evaluate
/// both operands unconditionally; a conditional evaluates its condition and
/// then exactly one branch; address-of is legal only on a bare identifier.
pub open spec fn eval_expr(e: ExprV, stk: StackV) -> Result<ValueV, ErrV>
    decreases e,
{
    match e {
        ExprV::Const(v) => Ok(v),
        ExprV::Identifier(name) => match stack_lookup(stk, name) {
            Some(cell) => Ok(cell.value),
            None => Err(ErrV::Undefined(name)),
        },
        ExprV::BinOp(lhs, op, rhs) => if op == Binop::And || op == Binop::Or {
            match coerce_bool(*lhs, eval_expr(*lhs, stk)) {
                Err(er) => Err(er),
                Ok(a) => match coerce_bool(*rhs, eval_expr(*rhs, stk)) {
                    Err(er) => Err(er),
                    Ok(b) => Ok(
                        ValueV::Boolean(
                            if op == Binop::And {
                                a && b
                            } else {
                                a || b
                            },
                        ),
                    ),
                },
            }
        } else {
            match coerce_int(*lhs, eval_expr(*lhs, stk)) {
                Err(er) => Err(er),
                Ok(a) => match coerce_int(*rhs, eval_expr(*rhs, stk)) {
                    Err(er) => Err(er),
                    Ok(b) => eval_int_binop(op, a, b, *rhs),
                },
            }
        },
        ExprV::Conditional { cond, cond_true, cond_false } => match coerce_bool(
            *cond,
            eval_expr(*cond, stk),
        ) {
            Err(er) => Err(er),
            Ok(c) => if c {
                eval_expr(*cond_true, stk)
            } else {
                eval_expr(*cond_false, stk)
            },
        },
        ExprV::AddressOf(inner) => match *inner {
            ExprV::Identifier(name) => if stack_has(stk, name) {
                Ok(ValueV::Pointer(AddressV { frame: stack_frame_of(stk, name), name }))
            } else {
                Err(ErrV::Undefined(name))
            },
            _ => Err(
                ErrV::TypeMismatch {
                    expression: *inner,
                    expected: Type::Pointer,
                    found: Type::Unit,
                },
            ),
        },
    }
}

/// The meaning of an instruction: the outcome (an optionally bound name and
/// a value, or an error) together with the stack it leaves behind. A block
/// opens a fresh scope, runs its body, and closes the scope whether the body
/// succeeded or failed.
pub open spec fn exec_instr(i: InstrV, stk: StackV) -> (Result<
    (Option<Seq<char>>, ValueV),
    ErrV,
>, StackV)
    decreases i,
{
    match i {
        InstrV::Expr(e) => (
            match eval_expr(e, stk) {
                Ok(v) => Ok((None::<Seq<char>>, v)),
                Err(er) => Err(er),
            },
            stk,
        ),
        InstrV::Let { id, mutable, expr } => match eval_expr(expr, stk) {
            Err(er) => (Err(er), stk),
            Ok(v) => if stk.last().contains_key(id) {
                (Err(ErrV::AlreadyDefined(id)), stk)
            } else {
                (Ok((Some(id), v)), stack_declare(stk, id, CellV { mutable, value: v }))
            },
        },
        InstrV::Block(instrs) => {
            let inner = exec_block(instrs, stk.push(Map::empty()), ValueV::Unit);
            (
                match inner.0 {
                    Ok(v) => Ok((None::<Seq<char>>, v)),
                    Err(er) => Err(er),
                },
                inner.1.drop_last(),
            )
        },
    }
}

/// Running the instructions of a block in order, threading the stack and the
/// value of the most recently run instruction (`Unit` for an empty block);
/// the first failure stops the block.
pub open spec fn exec_block(instrs: Seq<InstrV>, stk: StackV, last: ValueV) -> (Result<
    ValueV,
    ErrV,
>, StackV)
    decreases instrs,
{
    if instrs.len() == 0 {
        (Ok(last), stk)
    } else {
        let step = exec_instr(instrs[0], stk);
        match step.0 {
            Err(er) => (Err(er), step.1),
            Ok(pair) => exec_block(instrs.drop_first(), step.1, pair.1),
        }
    }
}

/// An instruction leaves the stack depth unchanged and never touches any
/// scope but the innermost; a block leaves the whole stack exactly as it
/// found it.
pub proof fn lemma_exec_instr_frames(i: InstrV, stk: StackV)
    requires
        stk.len() > 0,
    ensures
        exec_instr(i, stk).1.len() == stk.len(),
        exec_instr(i, stk).1.drop_last() == stk.drop_last(),
        i is Block ==> exec_instr(i, stk).1 == stk,
    decreases i,
{
    match i {
        InstrV::Expr(_) => {},
        InstrV::Let { id, mutable, expr } => {
            match eval_expr(expr, stk) {
                Err(_) => {},
                Ok(v) => {
                    if !stk.last().contains_key(id) {
                        let stk2 = stack_declare(stk, id, CellV { mutable, value: v });
                        assert(stk2.drop_last() =~= stk.drop_last());
                    }
                },
            }
        },
        InstrV::Block(instrs) => {
            lemma_exec_block_frames(instrs, stk.push(Map::empty()), ValueV::Unit);
            let inner = exec_block(instrs, stk.push(Map::empty()), ValueV::Unit);
            assert(stk.push(Map::empty()).drop_last() =~= stk);
            assert(inner.1.drop_last() == stk);
        },
    }
}

/// Running a block body preserves the stack depth and every scope below the
/// innermost.
pub proof fn lemma_exec_block_frames(instrs: Seq<InstrV>, stk: StackV, last: ValueV)
    requires
        stk.len() > 0,
    ensures
        exec_block(instrs, stk, last).1.len() == stk.len(),
        exec_block(instrs, stk, last).1.drop_last() == stk.drop_last(),
    decreases instrs,
{
    if instrs.len() > 0 {
        lemma_exec_instr_frames(instrs[0], stk);
        let step = exec_instr(instrs[0], stk);
        match step.0 {
            Err(_) => {},
            Ok(pair) => {
                lemma_exec_block_frames(instrs.drop_first(), step.1, pair.1);
            },
        }
    }
}

/// The view of an expression evaluation result.
pub open spec fn value_result_view(r: Result<Value, EvalError>) -> Result<ValueV, ErrV> {
    match r {
        Ok(v) => Ok(v@),
        Err(e) => Err(e@),
    }
}

/// The view of an integer coercion result.
pub open spec fn int_result_view(r: Result<i64, EvalError>) -> Result<i64, ErrV> {
    match r {
        Ok(i) => Ok(i),
        Err(e) => Err(e@),
    }
}

/// The view of a boolean coercion result.
pub open spec fn bool_result_view(r: Result<bool, EvalError>) -> Result<bool, ErrV> {
    match r {
        Ok(b) => Ok(b),
        Err(e) => Err(e@),
    }
}

/// The view of an instruction execution result.
pub open spec fn exec_result_view(r: Result<(Option<Identifier>, Value), EvalError>) -> Result<
    (Option<Seq<char>>, ValueV),
    ErrV,
> {
    match r {
        Ok(p) => Ok(
            (
                match p.0 {
                    Some(id) => Some(id@),
                    None => None::<Seq<char>>,
                },
                p.1@,
            ),
        ),
        Err(e) => Err(e@),
    }
}

impl Expression {
    /// Evaluates the expression and coerces the value to an integer,
    /// reporting a type mismatch at this expression otherwise.
    fn eval_and_cast_to_int(&self, nss: &mut NameSpaceStack) -> (r: Result<i64, EvalError>)
        requires
            old(nss).wf(),
        ensures
            final(nss)@ == old(nss)@,
            final(nss).wf(),
            int_result_view(r) == coerce_int(self@, eval_expr(self@, old(nss)@)),
        decreases self, 1int,
    {
        let v = match self.eval(nss) {
            Ok(v) => v,
            Err(e) => {
                return Err(e);
            },
        };
        match v.to_int() {
            Ok(i) => Ok(i),
            Err(found) => Err(
                EvalError::TypeMismatch { expression: self.clone(), expected: Type::Int, found },
            ),
        }
    }

    /// Evaluates the expression and coerces the value to a boolean,
    /// reporting a type mismatch at this expression otherwise.
    fn eval_and_cast_to_bool(&self, nss: &mut NameSpaceStack) -> (r: Result<bool, EvalError>)
        requires
            old(nss).wf(),
        ensures
            final(nss)@ == old(nss)@,
            final(nss).wf(),
            bool_result_view(r) == coerce_bool(self@, eval_expr(self@, old(nss)@)),
        decreases self, 1int,
    {
        let v = match self.eval(nss) {
            Ok(v) => v,
            Err(e) => {
                return Err(e);
            },
        };
        match v.to_bool() {
            Ok(b) => Ok(b),
            Err(found) => Err(
                EvalError::TypeMismatch { expression: self.clone(), expected: Type::Bool, found },
            ),
        }
    }

    /// Resolves the expression to the address of a named storage slot; only
    /// a bare identifier is addressable.
    fn eval_to_address(&self, nss: &mut NameSpaceStack) -> (r: Result<
        crate::value::Address,
        EvalError,
    >)
        requires
            old(nss).wf(),
        ensures
            final(nss)@ == old(nss)@,
            final(nss).wf(),
            (match self@ {
                ExprV::Identifier(name) => {
                    &&& stack_has(old(nss)@, name) ==> (r matches Ok(a) && a@ == (AddressV {
                        frame: stack_frame_of(old(nss)@, name),
                        name,
                    }))
                    &&& !stack_has(old(nss)@, name) ==> (r matches Err(e) && e@ == ErrV::Undefined(
                        name,
                    ))
                },
                _ => r matches Err(e) && e@ == (ErrV::TypeMismatch {
                    expression: self@,
                    expected: Type::Unit,
                    found: Type::Unit,
                }),
            }),
    {
        match self {
            Expression::Identifier(id) => nss.get_address(id),
            _ => Err(
                EvalError::TypeMismatch {
                    expression: self.clone(),
                    expected: Type::Unit,
                    found: Type::Unit,
                },
            ),
        }
    }

    /// Evaluates the expression against the scope stack. Evaluation reads
    /// the stack but never changes it; the result is exactly what
    /// `eval_expr` assigns to this expression.
    pub fn eval(&self, nss: &mut NameSpaceStack) -> (r: Result<Value, EvalError>)
        requires
            old(nss).wf(),
        ensures
            final(nss)@ == old(nss)@,
            final(nss).wf(),
            value_result_view(r) == eval_expr(self@, old(nss)@),
        decreases self, 0int,
    {
        match self {
            Expression::Const(value) => Ok(value.to_value()),
            Expression::Identifier(id) => match nss.find(id) {
                Ok(v) => Ok(v),
                Err(e) => Err(e),
            },
            Expression::BinOp(e1, Binop::Add, e2) => {
                let v1 = match e1.eval_and_cast_to_int(nss) {
                    Ok(i) => i,
                    Err(e) => {
                        return Err(e);
                    },
                };
                let v2 = match e2.eval_and_cast_to_int(nss) {
                    Ok(i) => i,
                    Err(e) => {
                        return Err(e);
                    },
                };
                Ok(Value::Integer(v1.wrapping_add(v2)))
            },
            Expression::BinOp(e1, Binop::Sub, e2) => {
                let v1 = match e1.eval_and_cast_to_int(nss) {
                    Ok(i) => i,
                    Err(e) => {
                        return Err(e);
                    },
                };
                let v2 = match e2.eval_and_cast_to_int(nss) {
                    Ok(i) => i,
                    Err(e) => {
                        return Err(e);
                    },
                };
                Ok(Value::Integer(v1.wrapping_sub(v2)))
            },
            Expression::BinOp(e1, Binop::Mul, e2) => {
                let v1 = match e1.eval_and_cast_to_int(nss) {
                    Ok(i) => i,
                    Err(e) => {
                        return Err(e);
                    },
                };
                let v2 = match e2.eval_and_cast_to_int(nss) {
                    Ok(i) => i,
                    Err(e) => {
                        return Err(e);
                    },
                };
                Ok(Value::Integer(v1.wrapping_mul(v2)))
            },
            Expression::BinOp(e1, Binop::Div, e2) => {
                let v1 = match e1.eval_and_cast_to_int(nss) {
                    Ok(i) => i,
                    Err(e) => {
                        return Err(e);
                    },
                };
                let v2 = match e2.eval_and_cast_to_int(nss) {
                    Ok(i) => i,
                    Err(e) => {
                        return Err(e);
                    },
                };
                if v2 == 0 {
                    Err(EvalError::DivisionByZero((**e2).clone()))
                } else {
                    Ok(
                        Value::Integer(
                            match v1.checked_div(v2) {
                                Some(q) => q,
                                None => i64::MIN,
                            },
                        ),
                    )
                }
            },
            Expression::BinOp(e1, Binop::Mod, e2) => {
                let v1 = match e1.eval_and_cast_to_int(nss) {
                    Ok(i) => i,
                    Err(e) => {
                        return Err(e);
                    },
                };
                let v2 = match e2.eval_and_cast_to_int(nss) {
                    Ok(i) => i,
                    Err(e) => {
                        return Err(e);
                    },
                };
                if v2 == 0 {
                    Err(EvalError::DivisionByZero((**e2).clone()))
                } else {
                    Ok(
                        Value::Integer(
                            match v1.checked_rem(v2) {
                                Some(m) => m,
                                None => 0,
                            },
                        ),
                    )
                }
            },
            Expression::BinOp(e1, Binop::Leq, e2) => {
                let v1 = match e1.eval_and_cast_to_int(nss) {
                    Ok(i) => i,
                    Err(e) => {
                        return Err(e);
                    },
                };
                let v2 = match e2.eval_and_cast_to_int(nss) {
                    Ok(i) => i,
                    Err(e) => {
                        return Err(e);
                    },
                };
                Ok(Value::Boolean(v1 <= v2))
            },
            Expression::BinOp(e1, Binop::Geq, e2) => {
                let v1 = match e1.eval_and_cast_to_int(nss) {
                    Ok(i) => i,
                    Err(e) => {
                        return Err(e);
                    },
                };
                let v2 = match e2.eval_and_cast_to_int(nss) {
                    Ok(i) => i,
                    Err(e) => {
                        return Err(e);
                    },
                };
                Ok(Value::Boolean(v1 >= v2))
            },
            Expression::BinOp(e1, Binop::Lt, e2) => {
                let v1 = match e1.eval_and_cast_to_int(nss) {
                    Ok(i) => i,
                    Err(e) => {
                        return Err(e);
                    },
                };
                let v2 = match e2.eval_and_cast_to_int(nss) {
                    Ok(i) => i,
                    Err(e) => {
                        return Err(e);
                    },
                };
                Ok(Value::Boolean(v1 < v2))
            },
            Expression::BinOp(e1, Binop::Gt, e2) => {
                let v1 = match e1.eval_and_cast_to_int(nss) {
                    Ok(i) => i,
                    Err(e) => {
                        return Err(e);
                    },
                };
                let v2 = match e2.eval_and_cast_to_int(nss) {
                    Ok(i) => i,
                    Err(e) => {
                        return Err(e);
                    },
                };
                Ok(Value::Boolean(v1 > v2))
            },
            Expression::BinOp(e1, Binop::Eq, e2) => {
                let v1 = match e1.eval_and_cast_to_int(nss) {
                    Ok(i) => i,
                    Err(e) => {
                        return Err(e);
                    },
                };
                let v2 = match e2.eval_and_cast_to_int(nss) {
                    Ok(i) => i,
                    Err(e) => {
                        return Err(e);
                    },
                };
                Ok(Value::Boolean(v1 == v2))
            },
            Expression::BinOp(e1, Binop::Neq, e2) => {
                let v1 = match e1.eval_and_cast_to_int(nss) {
                    Ok(i) => i,
                    Err(e) => {
                        return Err(e);
                    },
                };
                let v2 = match e2.eval_and_cast_to_int(nss) {
                    Ok(i) => i,
                    Err(e) => {
                        return Err(e);
                    },
                };
                Ok(Value::Boolean(v1 != v2))
            },
            Expression::BinOp(e1, Binop::And, e2) => {
                let v1 = match e1.eval_and_cast_to_bool(nss) {
                    Ok(b) => b,
                    Err(e) => {
                        return Err(e);
                    },
                };
                let v2 = match e2.eval_and_cast_to_bool(nss) {
                    Ok(b) => b,
                    Err(e) => {
                        return Err(e);
                    },
                };
                Ok(Value::Boolean(v1 && v2))
            },
            Expression::BinOp(e1, Binop::Or, e2) => {
                let v1 = match e1.eval_and_cast_to_bool(nss) {
                    Ok(b) => b,
                    Err(e) => {
                        return Err(e);
                    },
                };
                let v2 = match e2.eval_and_cast_to_bool(nss) {
                    Ok(b) => b,
                    Err(e) => {
                        return Err(e);
                    },
                };
                Ok(Value::Boolean(v1 || v2))
            },
            Expression::Conditional { cond, cond_true, cond_false } => {
                let c = match cond.eval_and_cast_to_bool(nss) {
                    Ok(b) => b,
                    Err(e) => {
                        return Err(e);
                    },
                };
                if c {
                    cond_true.eval(nss)
                } else {
                    cond_false.eval(nss)
                }
            },
            Expression::AddressOf(inner) => {
                proof {
                    assert(self@ == ExprV::AddressOf(Box::new((**inner)@)));
                }
                match &**inner {
                    Expression::Identifier(id) => match nss.get_address(id) {
                        Ok(address) => {
                            proof {
                                assert(stack_has(nss@, id@));
                                assert(eval_expr(self@, old(nss)@) == Ok::<ValueV, ErrV>(
                                    ValueV::Pointer(
                                        AddressV { frame: stack_frame_of(nss@, id@), name: id@ },
                                    ),
                                ));
                            }
                            Ok(Value::Pointer(address))
                        },
                        Err(_) => {
                            proof {
                                assert(eval_expr(self@, old(nss)@) == Err::<ValueV, ErrV>(
                                    ErrV::Undefined(id@),
                                ));
                            }
                            Err(EvalError::Undefined(id.clone()))
                        },
                    },
                    _ => {
                        proof {
                            assert(eval_expr(self@, old(nss)@) == Err::<ValueV, ErrV>(
                                ErrV::TypeMismatch {
                                    expression: (**inner)@,
                                    expected: Type::Pointer,
                                    found: Type::Unit,
                                },
                            ));
                        }
                        Err(
                            EvalError::TypeMismatch {
                                expression: (**inner).clone(),
                                expected: Type::Pointer,
                                found: Type::Unit,
                            },
                        )
                    },
                }
            },
        }
    }
}

impl Instruction {
    /// Executes the instruction against the scope stack: on success an
    /// optionally bound name and the resulting value; the outcome and the
    /// stack afterwards are exactly what `exec_instr` assigns to this
    /// instruction.
    #[verifier::loop_isolation(false)]
    pub fn exec(&self, nss: &mut NameSpaceStack) -> (r: Result<
        (Option<Identifier>, Value),
        EvalError,
    >)
        requires
            old(nss).wf(),
            old(nss)@.len() > 0,
        ensures
            final(nss).wf(),
            exec_result_view(r) == exec_instr(self@, old(nss)@).0,
            final(nss)@ == exec_instr(self@, old(nss)@).1,
        decreases self,
    {
        match self {
            Instruction::Expr(expr) => match expr.eval(nss) {
                Ok(v) => Ok((None, v)),
                Err(e) => Err(e),
            },
            Instruction::Let { id, mutable, expr } => {
                let v = match expr.eval(nss) {
                    Ok(v) => v,
                    Err(e) => {
                        return Err(e);
                    },
                };
                match nss.declare(id, *mutable, &v) {
                    Ok(_) => Ok((Some(id.clone()), v)),
                    Err(e) => Err(e),
                }
            },
            Instruction::Block(instrs) => {
                let ghost stk0 = nss@;
                let ghost iview = instrs_view(instrs@);
                nss.push(NameSpace::new());
                let ghost inner0 = nss@;
                let n = instrs.len();
                let mut last = Value::Unit;
                let mut idx: usize = 0;
                proof {
                    lemma_instrs_view(instrs@);
                    assert(inner0 == stk0.push(Map::empty()));
                    assert(iview.subrange(0, iview.len() as int) =~= iview);
                }
                while idx < n
                    invariant
                        idx <= n,
                        nss.wf(),
                        nss@.len() == stk0.len() + 1,
                        exec_block(iview, inner0, ValueV::Unit) == exec_block(
                            iview.subrange(idx as int, n as int),
                            nss@,
                            last@,
                        ),
                    decreases n - idx,
                {
                    let ghost suffix = iview.subrange(idx as int, n as int);
                    proof {
                        assert(suffix[0] == iview[idx as int]);
                        assert(suffix.drop_first() =~= iview.subrange(idx as int + 1, n as int));
                        assert(decreases_to!(*self => *instrs));
                        assert(decreases_to!(*instrs => (*instrs)[idx as int]));
                    }
                    let ghost stk_before = nss@;
                    match instrs[idx].exec(nss) {
                        Err(e) => {
                            proof {
                                lemma_exec_instr_frames(suffix[0], stk_before);
                            }
                            nss.pop();
                            return Err(e);
                        },
                        Ok(pair) => {
                            proof {
                                lemma_exec_instr_frames(suffix[0], stk_before);
                            }
                            last = pair.1;
                        },
                    }
                    idx = idx + 1;
                }
                proof {
                    assert(iview.subrange(idx as int, n as int) =~= Seq::<InstrV>::empty());
                }
                nss.pop();
                Ok((None, last))
            },
        }
    }
}

} // verus!
