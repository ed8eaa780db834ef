//! The general laws of the evaluator, each proved once and for all inputs:
//! truncating division and remainder, the coherence of the six comparisons,
//! strict evaluation of both logical operands, redeclaration and shadowing,
//! assignment followed by lookup, address-of, and the behaviour of blocks.

use vstd::arithmetic::div_mod::{lemma_fundamental_div_mod, lemma_mod_division_less_than_divisor};
use vstd::math::abs;
use vstd::prelude::*;

use crate::binop::Binop;
use crate::error::ErrV;
use crate::eval::{
    div_wrapped, eval_expr, exec_block, exec_instr, lemma_exec_block_frames,
    lemma_exec_instr_frames, rem_wrapped,
};
use crate::expression::ExprV;
use crate::instruction::InstrV;
use crate::memorycell::CellV;
use crate::namespacestack::{
    lemma_stack_frame_of, lemma_stack_frame_of_is, stack_declare, stack_frame_of, stack_has,
    stack_lookup, stack_set, StackV,
};
use crate::value::{AddressV, Type, ValueV};

verus! {

/// The expression writing the integer literal `i`.
pub open spec fn int_const(i: i64) -> ExprV {
    ExprV::Const(ValueV::Integer(i))
}

/// The expression combining two integer literals with `op`.
pub open spec fn int_binop(a: i64, op: Binop, b: i64) -> ExprV {
    ExprV::BinOp(Box::new(int_const(a)), op, Box::new(int_const(b)))
}

/// Whether the comparison `a op b` evaluates to the boolean true.
pub open spec fn comparison_holds(a: i64, op: Binop, b: i64, stk: StackV) -> bool {
    eval_expr(int_binop(a, op, b), stk) == Ok::<ValueV, ErrV>(ValueV::Boolean(true))
}

/// Law: for integers `a` and `b` with `b` nonzero, `a / b` evaluates to the
/// truncated quotient and `a % b` to the matching remainder — the quotient
/// and remainder satisfy `a == b * q + m` with `m` of the sign of `a` and
/// smaller than `b` in magnitude; with `b` zero both fail with
/// `DivisionByZero` carrying the divisor expression. The one pair whose
/// quotient does not fit in 64 bits, the smallest integer divided by -1, is
/// left out: there the implementation wraps.
pub proof fn lemma_division_law(a: i64, b: i64, stk: StackV)
    requires
        a != i64::MIN || b != -1,
    ensures
        b != 0 ==> ({
            let q = div_wrapped(a, b) as int;
            let m = rem_wrapped(a, b) as int;
            &&& eval_expr(int_binop(a, Binop::Div, b), stk) == Ok::<ValueV, ErrV>(
                ValueV::Integer(div_wrapped(a, b)),
            )
            &&& eval_expr(int_binop(a, Binop::Mod, b), stk) == Ok::<ValueV, ErrV>(
                ValueV::Integer(rem_wrapped(a, b)),
            )
            &&& a == b * q + m
            &&& a >= 0 ==> 0 <= m < abs(b as int)
            &&& a < 0 ==> -(abs(b as int) as int) < m <= 0
        }),
        b == 0 ==> eval_expr(int_binop(a, Binop::Div, b), stk) == Err::<ValueV, ErrV>(
            ErrV::DivisionByZero(int_const(b)),
        ) && eval_expr(int_binop(a, Binop::Mod, b), stk) == Err::<ValueV, ErrV>(
            ErrV::DivisionByZero(int_const(b)),
        ),
{
    reveal_with_fuel(eval_expr, 3);
    if b != 0 {
        let x = a as int;
        let d = b as int;
        if x == 0 {
            assert(div_wrapped(a, b) == 0);
            assert(rem_wrapped(a, b) == 0);
        } else if x > 0 && d > 0 {
            lemma_fundamental_div_mod(x, d);
            lemma_mod_division_less_than_divisor(x, d);
            vstd::arithmetic::div_mod::lemma_div_pos_is_pos(x, d);
            vstd::arithmetic::div_mod::lemma_div_nonincreasing(x, d);
            assert(div_wrapped(a, b) as int == x / d);
            assert(rem_wrapped(a, b) as int == x % d);
            assert(x == d * (x / d) + x % d);
        } else if x < 0 && d < 0 {
            let y = -x;
            let e = -d;
            lemma_fundamental_div_mod(y, e);
            lemma_mod_division_less_than_divisor(y, e);
            vstd::arithmetic::div_mod::lemma_div_pos_is_pos(y, e);
            if e == 1 {
                vstd::arithmetic::div_mod::lemma_div_basics(y);
            } else {
                vstd::arithmetic::div_mod::lemma_div_decreases(y, e);
            }
            assert((x * -1) / (d * -1) == y / e);
            assert((x * -1) % (d * -1) == y % e);
            assert(y / e <= i64::MAX as int);
            assert(div_wrapped(a, b) as int == y / e);
            assert(rem_wrapped(a, b) as int == -(y % e));
            assert(x == d * (y / e) + -(y % e)) by (nonlinear_arith)
                requires
                    y == e * (y / e) + y % e,
                    y == -x,
                    e == -d,
            ;
        } else if x < 0 {
            let y = -x;
            lemma_fundamental_div_mod(y, d);
            lemma_mod_division_less_than_divisor(y, d);
            vstd::arithmetic::div_mod::lemma_div_pos_is_pos(y, d);
            vstd::arithmetic::div_mod::lemma_div_nonincreasing(y, d);
            assert((x * -1) / d == y / d);
            assert((x * -1) % d == y % d);
            assert(div_wrapped(a, b) as int == (y / d) * -1);
            assert(rem_wrapped(a, b) as int == (y % d) * -1);
            assert(x == d * ((y / d) * -1) + (y % d) * -1) by (nonlinear_arith)
                requires
                    y == d * (y / d) + y % d,
                    y == -x,
            ;
        } else {
            let e = -d;
            lemma_fundamental_div_mod(x, e);
            lemma_mod_division_less_than_divisor(x, e);
            vstd::arithmetic::div_mod::lemma_div_pos_is_pos(x, e);
            vstd::arithmetic::div_mod::lemma_div_nonincreasing(x, e);
            assert(x / (d * -1) == x / e);
            assert(x % (d * -1) == x % e);
            assert(div_wrapped(a, b) as int == (x / e) * -1);
            assert(rem_wrapped(a, b) as int == x % e);
            assert(x == d * ((x / e) * -1) + x % e) by (nonlinear_arith)
                requires
                    x == e * (x / e) + x % e,
                    e == -d,
            ;
        }
    }
}

/// Law: each of the six comparisons evaluates to a boolean with its
/// standard meaning, and as a set they cohere: exactly one of `<`, `==`,
/// `>` holds, `<=` holds exactly when `<` or `==` does, `>=` exactly when
/// `>` or `==` does, and `!=` exactly when `==` does not.
pub proof fn lemma_comparison_partition(a: i64, b: i64, stk: StackV)
    ensures
        comparison_holds(a, Binop::Lt, b, stk) <==> a < b,
        comparison_holds(a, Binop::Gt, b, stk) <==> a > b,
        comparison_holds(a, Binop::Eq, b, stk) <==> a == b,
        comparison_holds(a, Binop::Leq, b, stk) <==> a <= b,
        comparison_holds(a, Binop::Geq, b, stk) <==> a >= b,
        comparison_holds(a, Binop::Neq, b, stk) <==> a != b,
        comparison_holds(a, Binop::Lt, b, stk) || comparison_holds(a, Binop::Eq, b, stk)
            || comparison_holds(a, Binop::Gt, b, stk),
        !(comparison_holds(a, Binop::Lt, b, stk) && comparison_holds(a, Binop::Eq, b, stk)),
        !(comparison_holds(a, Binop::Lt, b, stk) && comparison_holds(a, Binop::Gt, b, stk)),
        !(comparison_holds(a, Binop::Eq, b, stk) && comparison_holds(a, Binop::Gt, b, stk)),
        comparison_holds(a, Binop::Leq, b, stk) <==> (comparison_holds(a, Binop::Lt, b, stk)
            || comparison_holds(a, Binop::Eq, b, stk)),
        comparison_holds(a, Binop::Geq, b, stk) <==> (comparison_holds(a, Binop::Gt, b, stk)
            || comparison_holds(a, Binop::Eq, b, stk)),
        comparison_holds(a, Binop::Neq, b, stk) <==> !comparison_holds(a, Binop::Eq, b, stk),
{
    reveal_with_fuel(eval_expr, 3);
}

/// Law: `&&` and `||` evaluate both operands. Even when the left operand
/// alone decides the result — false for `&&`, true for `||` — a failure of
/// the right operand still surfaces.
pub proof fn lemma_no_short_circuit(e1: ExprV, e2: ExprV, stk: StackV, err: ErrV)
    requires
        eval_expr(e2, stk) == Err::<ValueV, ErrV>(err),
    ensures
        eval_expr(e1, stk) == Ok::<ValueV, ErrV>(ValueV::Boolean(false)) ==> eval_expr(
            ExprV::BinOp(Box::new(e1), Binop::And, Box::new(e2)),
            stk,
        ) == Err::<ValueV, ErrV>(err),
        eval_expr(e1, stk) == Ok::<ValueV, ErrV>(ValueV::Boolean(true)) ==> eval_expr(
            ExprV::BinOp(Box::new(e1), Binop::Or, Box::new(e2)),
            stk,
        ) == Err::<ValueV, ErrV>(err),
{
}

/// Law: declaring the same identifier twice in one scope fails with
/// `AlreadyDefined`, whatever the two values and mutability flags, and the
/// enclosing stack comes back unchanged.
pub proof fn lemma_redeclaration_fails(
    id: Seq<char>,
    v1: ValueV,
    v2: ValueV,
    m1: bool,
    m2: bool,
    stk: StackV,
)
    requires
        stk.len() > 0,
    ensures
        exec_instr(
            InstrV::Block(
                seq![
                    InstrV::Let { id, mutable: m1, expr: ExprV::Const(v1) },
                    InstrV::Let { id, mutable: m2, expr: ExprV::Const(v2) },
                ],
            ),
            stk,
        ) == (Err::<(Option<Seq<char>>, ValueV), ErrV>(ErrV::AlreadyDefined(id)), stk),
{
    reveal_with_fuel(exec_block, 4);
    let instrs = seq![
        InstrV::Let { id, mutable: m1, expr: ExprV::Const(v1) },
        InstrV::Let { id, mutable: m2, expr: ExprV::Const(v2) },
    ];
    let stk0 = stk.push(Map::empty());
    let step = exec_instr(instrs[0], stk0);
    let stk1 = stack_declare(stk0, id, CellV { mutable: m1, value: v1 });
    assert(step == (Ok::<(Option<Seq<char>>, ValueV), ErrV>((Some(id), v1)), stk1));
    assert(instrs.drop_first() =~= seq![
        InstrV::Let { id, mutable: m2, expr: ExprV::Const(v2) },
    ]);
    assert(stk1.last().contains_key(id));
    let step2 = exec_instr(instrs.drop_first()[0], stk1);
    assert(step2 == (Err::<(Option<Seq<char>>, ValueV), ErrV>(ErrV::AlreadyDefined(id)), stk1));
    assert(exec_block(instrs.drop_first(), stk1, v1) == (
        Err::<ValueV, ErrV>(ErrV::AlreadyDefined(id)),
        stk1,
    ));
    assert(exec_block(instrs, stk0, ValueV::Unit) == (
        Err::<ValueV, ErrV>(ErrV::AlreadyDefined(id)),
        stk1,
    ));
    assert(stk1.drop_last() =~= stk);
}

/// Law: declaring an identifier in a nested block succeeds even when an
/// outer scope already binds it — shadowing is not an error — the inner
/// lookup then sees the inner value, and the block leaves the stack exactly
/// as it was, so after the block the outer binding is what it was before.
pub proof fn lemma_shadowing(id: Seq<char>, inner: ValueV, mutable: bool, stk: StackV)
    requires
        stk.len() > 0,
        stack_has(stk, id),
    ensures
        exec_instr(
            InstrV::Block(
                seq![
                    InstrV::Let { id, mutable, expr: ExprV::Const(inner) },
                    InstrV::Expr(ExprV::Identifier(id)),
                ],
            ),
            stk,
        ) == (Ok::<(Option<Seq<char>>, ValueV), ErrV>((None, inner)), stk),
{
    reveal_with_fuel(exec_block, 4);
    let instrs = seq![
        InstrV::Let { id, mutable, expr: ExprV::Const(inner) },
        InstrV::Expr(ExprV::Identifier(id)),
    ];
    let stk0 = stk.push(Map::empty());
    assert(!stk0.last().contains_key(id));
    let stk1 = stack_declare(stk0, id, CellV { mutable, value: inner });
    let step = exec_instr(instrs[0], stk0);
    assert(step == (Ok::<(Option<Seq<char>>, ValueV), ErrV>((Some(id), inner)), stk1));
    assert(stk1.last().contains_key(id));
    assert(stk1.last()[id] == (CellV { mutable, value: inner }));
    lemma_stack_frame_of_is(stk1, id, stk1.len() - 1);
    assert(stack_lookup(stk1, id) == Some(CellV { mutable, value: inner }));
    assert(instrs.drop_first() =~= seq![InstrV::Expr(ExprV::Identifier(id))]);
    let step2 = exec_instr(instrs.drop_first()[0], stk1);
    assert(step2 == (Ok::<(Option<Seq<char>>, ValueV), ErrV>((None, inner)), stk1));
    assert(instrs.drop_first().drop_first() =~= Seq::<InstrV>::empty());
    assert(exec_block(instrs.drop_first().drop_first(), stk1, inner) == (
        Ok::<ValueV, ErrV>(inner),
        stk1,
    ));
    assert(exec_block(instrs.drop_first(), stk1, inner) == (Ok::<ValueV, ErrV>(inner), stk1));
    assert(exec_block(instrs, stk0, ValueV::Unit) == (Ok::<ValueV, ErrV>(inner), stk1));
    assert(stk1.drop_last() =~= stk);
}

/// Law: after a successful assignment to a mutable binding, looking the
/// name up yields the new value.
pub proof fn lemma_set_then_lookup(stk: StackV, id: Seq<char>, v: ValueV)
    requires
        stack_lookup(stk, id) matches Some(cell) && cell.mutable,
    ensures
        stack_lookup(stack_set(stk, id, v), id) == Some(CellV { mutable: true, value: v }),
{
    lemma_stack_frame_of(stk, id);
    let f = stack_frame_of(stk, id);
    let stk2 = stack_set(stk, id, v);
    assert(stk2[f].contains_key(id));
    assert forall|k: int| f < k < stk2.len() implies !(#[trigger] stk2[k]).contains_key(id) by {
        assert(stk2[k] == stk[k]);
    }
    lemma_stack_frame_of_is(stk2, id, f);
}

/// Law: address-of on a declared identifier yields a pointer to the
/// innermost binding; on an undeclared identifier it fails `Undefined`; on
/// any other expression shape it fails `TypeMismatch` — only named storage
/// is addressable.
pub proof fn lemma_address_of(e: ExprV, stk: StackV)
    ensures
        e matches ExprV::Identifier(name) ==> ({
            &&& stack_has(stk, name) ==> eval_expr(ExprV::AddressOf(Box::new(e)), stk) == Ok::<
                ValueV,
                ErrV,
            >(ValueV::Pointer(AddressV { frame: stack_frame_of(stk, name), name }))
            &&& !stack_has(stk, name) ==> eval_expr(ExprV::AddressOf(Box::new(e)), stk) == Err::<
                ValueV,
                ErrV,
            >(ErrV::Undefined(name))
        }),
        !(e is Identifier) ==> eval_expr(ExprV::AddressOf(Box::new(e)), stk) == Err::<
            ValueV,
            ErrV,
        >(ErrV::TypeMismatch { expression: e, expected: Type::Pointer, found: Type::Unit }),
{
}

/// Law: an empty block evaluates to `Unit` and leaves the stack unchanged.
pub proof fn lemma_empty_block_unit(stk: StackV)
    requires
        stk.len() > 0,
    ensures
        exec_instr(InstrV::Block(Seq::empty()), stk) == (
            Ok::<(Option<Seq<char>>, ValueV), ErrV>((None, ValueV::Unit)),
            stk,
        ),
{
    assert(stk.push(Map::empty()).drop_last() =~= stk);
}

/// Running a block body with one more instruction at the end: the body runs
/// first, and when it succeeds the added instruction's outcome decides.
proof fn lemma_exec_block_snoc(instrs: Seq<InstrV>, x: InstrV, stk: StackV, acc: ValueV)
    ensures
        exec_block(instrs.push(x), stk, acc) == ({
            let body = exec_block(instrs, stk, acc);
            match body.0 {
                Err(er) => (Err::<ValueV, ErrV>(er), body.1),
                Ok(_) => {
                    let step = exec_instr(x, body.1);
                    match step.0 {
                        Err(er) => (Err::<ValueV, ErrV>(er), step.1),
                        Ok(pair) => (Ok::<ValueV, ErrV>(pair.1), step.1),
                    }
                },
            }
        }),
    decreases instrs,
{
    if instrs.len() == 0 {
        assert(instrs.push(x)[0] == x);
        assert(instrs.push(x).drop_first() =~= Seq::<InstrV>::empty());
        let step = exec_instr(x, stk);
        match step.0 {
            Err(_) => {},
            Ok(pair) => {
                assert(exec_block(instrs.push(x).drop_first(), step.1, pair.1) == (
                    Ok::<ValueV, ErrV>(pair.1),
                    step.1,
                ));
            },
        }
    } else {
        assert(instrs.push(x)[0] == instrs[0]);
        assert(instrs.push(x).drop_first() =~= instrs.drop_first().push(x));
        let step = exec_instr(instrs[0], stk);
        match step.0 {
            Err(_) => {},
            Ok(pair) => {
                lemma_exec_block_snoc(instrs.drop_first(), x, step.1, pair.1);
                assert(exec_block(instrs.push(x), stk, acc) == exec_block(
                    instrs.drop_first().push(x),
                    step.1,
                    pair.1,
                ));
                assert(exec_block(instrs, stk, acc) == exec_block(
                    instrs.drop_first(),
                    step.1,
                    pair.1,
                ));
            },
        }
    }
}

/// Law: a block's result is its last instruction's result. When the body
/// before the last instruction succeeds, the block yields the value the
/// last instruction yields (with no bound name), or that instruction's
/// error.
pub proof fn lemma_block_result_is_last(instrs: Seq<InstrV>, x: InstrV, stk: StackV)
    requires
        stk.len() > 0,
        exec_block(instrs, stk.push(Map::empty()), ValueV::Unit).0 is Ok,
    ensures
        exec_instr(InstrV::Block(instrs.push(x)), stk) == ({
            let mid = exec_block(instrs, stk.push(Map::empty()), ValueV::Unit).1;
            let step = exec_instr(x, mid);
            match step.0 {
                Err(er) => (Err::<(Option<Seq<char>>, ValueV), ErrV>(er), step.1.drop_last()),
                Ok(pair) => (
                    Ok::<(Option<Seq<char>>, ValueV), ErrV>((None, pair.1)),
                    step.1.drop_last(),
                ),
            }
        }),
{
    lemma_exec_block_snoc(instrs, x, stk.push(Map::empty()), ValueV::Unit);
}

/// Law: a failing instruction changes nothing. Whatever the error, the
/// stack after the failure is the stack before it: established bindings are
/// never corrupted or rolled back by a failure.
pub proof fn lemma_failure_preserves_bindings(i: InstrV, stk: StackV)
    requires
        stk.len() > 0,
        exec_instr(i, stk).0 is Err,
    ensures
        exec_instr(i, stk).1 == stk,
{
    lemma_exec_instr_frames(i, stk);
}

/// Running one block body after another: the first body runs first, and
/// when it succeeds the second continues from its stack and value.
proof fn lemma_exec_block_append(s: Seq<InstrV>, t: Seq<InstrV>, stk: StackV, acc: ValueV)
    ensures
        exec_block(s + t, stk, acc) == ({
            let body = exec_block(s, stk, acc);
            match body.0 {
                Err(er) => (Err::<ValueV, ErrV>(er), body.1),
                Ok(v) => exec_block(t, body.1, v),
            }
        }),
    decreases s,
{
    if s.len() == 0 {
        assert(s + t =~= t);
    } else {
        assert((s + t)[0] == s[0]);
        assert((s + t).drop_first() =~= s.drop_first() + t);
        let step = exec_instr(s[0], stk);
        match step.0 {
            Err(_) => {},
            Ok(pair) => {
                lemma_exec_block_append(s.drop_first(), t, step.1, pair.1);
                assert(exec_block(s + t, stk, acc) == exec_block(
                    s.drop_first() + t,
                    step.1,
                    pair.1,
                ));
                assert(exec_block(s, stk, acc) == exec_block(s.drop_first(), step.1, pair.1));
            },
        }
    }
}

/// Law: the first failure in a block aborts it. Whatever instructions
/// follow the failing one, they run on nothing: the block's outcome is that
/// same error, and the enclosing stack comes back exactly as it was.
pub proof fn lemma_block_aborts_on_failure(
    prefix: Seq<InstrV>,
    bad: InstrV,
    rest: Seq<InstrV>,
    stk: StackV,
    er: ErrV,
)
    requires
        stk.len() > 0,
        exec_block(prefix, stk.push(Map::empty()), ValueV::Unit).0 is Ok,
        exec_instr(bad, exec_block(prefix, stk.push(Map::empty()), ValueV::Unit).1).0 == Err::<
            (Option<Seq<char>>, ValueV),
            ErrV,
        >(er),
    ensures
        exec_instr(InstrV::Block(prefix + seq![bad] + rest), stk) == (
            Err::<(Option<Seq<char>>, ValueV), ErrV>(er),
            stk,
        ),
{
    let inner0 = stk.push(Map::empty());
    let body = exec_block(prefix, inner0, ValueV::Unit);
    let v = body.0->Ok_0;
    assert(prefix + seq![bad] + rest =~= prefix + (seq![bad] + rest));
    lemma_exec_block_append(prefix, seq![bad] + rest, inner0, ValueV::Unit);
    lemma_exec_block_append(seq![bad], rest, body.1, v);
    assert(seq![bad][0] == bad);
    assert(seq![bad].drop_first() =~= Seq::<InstrV>::empty());
    let bad_step = exec_instr(bad, body.1);
    assert(exec_block(seq![bad], body.1, v) == (Err::<ValueV, ErrV>(er), bad_step.1));
    lemma_exec_block_frames(prefix, inner0, ValueV::Unit);
    lemma_exec_instr_frames(bad, body.1);
    assert(bad_step.1.drop_last() == body.1.drop_last());
    assert(inner0.drop_last() =~= stk);
}

/// Law: a block always restores the stack it was given — the same depth and
/// the same bindings — whether its body succeeded or failed partway.
pub proof fn lemma_block_restores_stack(instrs: Seq<InstrV>, stk: StackV)
    requires
        stk.len() > 0,
    ensures
        exec_instr(InstrV::Block(instrs), stk).1 == stk,
{
    lemma_exec_instr_frames(InstrV::Block(instrs), stk);
}

} // verus!

