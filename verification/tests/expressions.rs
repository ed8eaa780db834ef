use microrust::binop::Binop;
use microrust::error::EvalError;
use microrust::expression::Expression;
use microrust::memorycell::MemoryCell;
use microrust::namespace::NameSpace;
use microrust::namespacestack::NameSpaceStack;
use microrust::parsing::parsedvalue::ParsedValue;
use microrust::value::{Identifier, Type, Value};

fn lit(i: i64) -> Expression {
    Expression::Const(ParsedValue::Integer(i))
}

fn boolean(b: bool) -> Expression {
    Expression::Const(ParsedValue::Boolean(b))
}

fn var(name: &str) -> Expression {
    Expression::Identifier(Identifier::from(name))
}

fn binop(lhs: Expression, op: Binop, rhs: Expression) -> Expression {
    Expression::BinOp(Box::new(lhs), op, Box::new(rhs))
}

fn stack() -> NameSpaceStack {
    let mut nss = NameSpaceStack::new();
    nss.push(NameSpace::new());
    nss
}

fn eval_int(e: Expression, nss: &mut NameSpaceStack) -> i64 {
    match e.eval(nss) {
        Ok(Value::Integer(i)) => i,
        other => panic!("expected an integer, got {:?}", other),
    }
}

fn eval_bool(e: Expression, nss: &mut NameSpaceStack) -> bool {
    match e.eval(nss) {
        Ok(Value::Boolean(b)) => b,
        other => panic!("expected a boolean, got {:?}", other),
    }
}

#[test]
fn arithmetic_has_exact_results() {
    let mut nss = stack();
    assert_eq!(eval_int(binop(lit(1), Binop::Add, lit(2)), &mut nss), 3);
    assert_eq!(eval_int(binop(lit(1), Binop::Sub, lit(2)), &mut nss), -1);
    assert_eq!(eval_int(binop(lit(6), Binop::Mul, lit(7)), &mut nss), 42);
}

#[test]
fn division_truncates() {
    let mut nss = stack();
    assert_eq!(eval_int(binop(lit(7), Binop::Div, lit(2)), &mut nss), 3);
    assert_eq!(eval_int(binop(lit(-7), Binop::Div, lit(2)), &mut nss), -3);
    assert_eq!(eval_int(binop(lit(7), Binop::Div, lit(-2)), &mut nss), -3);
    assert_eq!(eval_int(binop(lit(-7), Binop::Div, lit(-2)), &mut nss), 3);
    assert_eq!(eval_int(binop(lit(7), Binop::Mod, lit(2)), &mut nss), 1);
    assert_eq!(eval_int(binop(lit(-7), Binop::Mod, lit(2)), &mut nss), -1);
    assert_eq!(eval_int(binop(lit(7), Binop::Mod, lit(-2)), &mut nss), 1);
    assert_eq!(eval_int(binop(lit(-7), Binop::Mod, lit(-2)), &mut nss), -1);
}

#[test]
fn division_by_zero_fails() {
    let mut nss = stack();
    match binop(lit(1), Binop::Div, lit(0)).eval(&mut nss) {
        Err(EvalError::DivisionByZero(_)) => (),
        other => panic!("expected DivisionByZero, got {:?}", other),
    }
    match binop(lit(5), Binop::Mod, lit(0)).eval(&mut nss) {
        Err(EvalError::DivisionByZero(_)) => (),
        other => panic!("expected DivisionByZero, got {:?}", other),
    }
}

#[test]
fn comparisons_partition() {
    let mut nss = stack();
    let cases: Vec<(i64, i64)> = vec![(1, 2), (2, 2), (3, 2), (-5, 5), (0, 0)];
    for (a, b) in cases {
        let lt = eval_bool(binop(lit(a), Binop::Lt, lit(b)), &mut nss);
        let eq = eval_bool(binop(lit(a), Binop::Eq, lit(b)), &mut nss);
        let gt = eval_bool(binop(lit(a), Binop::Gt, lit(b)), &mut nss);
        let leq = eval_bool(binop(lit(a), Binop::Leq, lit(b)), &mut nss);
        let geq = eval_bool(binop(lit(a), Binop::Geq, lit(b)), &mut nss);
        let neq = eval_bool(binop(lit(a), Binop::Neq, lit(b)), &mut nss);
        assert_eq!(lt, a < b);
        assert_eq!(eq, a == b);
        assert_eq!(gt, a > b);
        assert_eq!(leq, a <= b);
        assert_eq!(geq, a >= b);
        assert_eq!(neq, a != b);
        assert_eq!(lt as u8 + eq as u8 + gt as u8, 1);
        assert_eq!(leq, lt || eq);
        assert_eq!(geq, gt || eq);
        assert_eq!(neq, !eq);
    }
}

#[test]
fn logical_operators_evaluate_both_operands() {
    let mut nss = stack();
    assert!(!eval_bool(binop(boolean(false), Binop::And, boolean(true)), &mut nss));
    assert!(eval_bool(binop(boolean(true), Binop::Or, boolean(false)), &mut nss));
    // Even when the left operand decides the result, the right operand's
    // failure surfaces: there is no short-circuit.
    match binop(boolean(false), Binop::And, var("missing")).eval(&mut nss) {
        Err(EvalError::Undefined(id)) => assert_eq!(id, Identifier::from("missing")),
        other => panic!("expected Undefined, got {:?}", other),
    }
    match binop(boolean(true), Binop::Or, var("missing")).eval(&mut nss) {
        Err(EvalError::Undefined(id)) => assert_eq!(id, Identifier::from("missing")),
        other => panic!("expected Undefined, got {:?}", other),
    }
}

#[test]
fn conditional_evaluates_one_branch() {
    let mut nss = stack();
    let lazy = Expression::Conditional {
        cond: Box::new(boolean(true)),
        cond_true: Box::new(lit(1)),
        cond_false: Box::new(binop(lit(1), Binop::Div, lit(0))),
    };
    // The untaken branch would fail; it is never evaluated.
    assert_eq!(eval_int(lazy, &mut nss), 1);
    let taken = Expression::Conditional {
        cond: Box::new(boolean(false)),
        cond_true: Box::new(lit(1)),
        cond_false: Box::new(lit(2)),
    };
    assert_eq!(eval_int(taken, &mut nss), 2);
}

#[test]
fn coercion_failures_report_types() {
    let mut nss = stack();
    match binop(boolean(true), Binop::Add, lit(1)).eval(&mut nss) {
        Err(EvalError::TypeMismatch { expected: Type::Int, found: Type::Bool, .. }) => (),
        other => panic!("expected TypeMismatch, got {:?}", other),
    }
    match binop(lit(1), Binop::And, boolean(true)).eval(&mut nss) {
        Err(EvalError::TypeMismatch { expected: Type::Bool, found: Type::Int, .. }) => (),
        other => panic!("expected TypeMismatch, got {:?}", other),
    }
}

#[test]
fn identifiers_resolve_innermost_first() {
    let mut nss = stack();
    nss.declare(&Identifier::from("x"), false, &Value::Integer(3)).unwrap();
    assert_eq!(eval_int(var("x"), &mut nss), 3);
    let mut inner = NameSpace::new();
    inner
        .declare(&Identifier::from("x"), MemoryCell::new(false, Value::Integer(9)))
        .unwrap();
    nss.push(inner);
    assert_eq!(eval_int(var("x"), &mut nss), 9);
    nss.pop();
    assert_eq!(eval_int(var("x"), &mut nss), 3);
    match var("missing").eval(&mut nss) {
        Err(EvalError::Undefined(_)) => (),
        other => panic!("expected Undefined, got {:?}", other),
    }
}

#[test]
fn address_of_names_only() {
    let mut nss = stack();
    nss.declare(&Identifier::from("x"), false, &Value::Integer(3)).unwrap();
    match Expression::AddressOf(Box::new(var("x"))).eval(&mut nss) {
        Ok(Value::Pointer(a)) => {
            assert_eq!(a.frame, 0);
            assert_eq!(a.name, Identifier::from("x"));
        },
        other => panic!("expected a pointer, got {:?}", other),
    }
    match Expression::AddressOf(Box::new(var("missing"))).eval(&mut nss) {
        Err(EvalError::Undefined(_)) => (),
        other => panic!("expected Undefined, got {:?}", other),
    }
    match Expression::AddressOf(Box::new(binop(lit(1), Binop::Add, lit(2)))).eval(&mut nss) {
        Err(EvalError::TypeMismatch { .. }) => (),
        other => panic!("expected TypeMismatch, got {:?}", other),
    }
}
