use microrust::binop::Binop;
use microrust::error::EvalError;
use microrust::expression::Expression;
use microrust::instruction::Instruction;
use microrust::namespace::NameSpace;
use microrust::namespacestack::NameSpaceStack;
use microrust::parsing::parsedvalue::ParsedValue;
use microrust::value::{Identifier, Value};

fn lit(i: i64) -> Expression {
    Expression::Const(ParsedValue::Integer(i))
}

fn var(name: &str) -> Expression {
    Expression::Identifier(Identifier::from(name))
}

fn binop(lhs: Expression, op: Binop, rhs: Expression) -> Expression {
    Expression::BinOp(Box::new(lhs), op, Box::new(rhs))
}

fn let_in(name: &str, mutable: bool, expr: Expression) -> Instruction {
    Instruction::Let { id: Identifier::from(name), mutable, expr }
}

fn stack() -> NameSpaceStack {
    let mut nss = NameSpaceStack::new();
    nss.push(NameSpace::new());
    nss
}

#[test]
fn let_binds_and_returns() {
    let mut nss = stack();
    // `let x = 1 + 2` binds x and returns (Some(x), Integer(3)).
    match let_in("x", false, binop(lit(1), Binop::Add, lit(2))).exec(&mut nss) {
        Ok((Some(id), Value::Integer(3))) => assert_eq!(id, Identifier::from("x")),
        other => panic!("expected (Some(x), Integer(3)), got {:?}", other),
    }
    match nss.find(&Identifier::from("x")) {
        Ok(Value::Integer(3)) => (),
        other => panic!("x should be bound to 3, got {:?}", other),
    }
}

#[test]
fn block_scopes_and_results() {
    let mut nss = stack();
    nss.declare(&Identifier::from("x"), false, &Value::Integer(3)).unwrap();
    // `{ let y = x * 2 ; y - 1 }` declares y = 6 inside, results in 5, and
    // y is not visible after the block.
    let block = Instruction::Block(vec![
        let_in("y", false, binop(var("x"), Binop::Mul, lit(2))),
        Instruction::Expr(binop(var("y"), Binop::Sub, lit(1))),
    ]);
    match block.exec(&mut nss) {
        Ok((None, Value::Integer(5))) => (),
        other => panic!("expected (None, Integer(5)), got {:?}", other),
    }
    match nss.find(&Identifier::from("y")) {
        Err(EvalError::Undefined(_)) => (),
        other => panic!("y must not outlive its block, got {:?}", other),
    }
}

#[test]
fn empty_block_is_unit() {
    let mut nss = stack();
    match Instruction::Block(Vec::new()).exec(&mut nss) {
        Ok((None, Value::Unit)) => (),
        other => panic!("expected Unit, got {:?}", other),
    }
}

#[test]
fn failing_block_restores_depth() {
    let mut nss = stack();
    let depth = nss.depth();
    let failing = Instruction::Block(vec![
        let_in("y", false, lit(1)),
        Instruction::Expr(binop(lit(1), Binop::Div, lit(0))),
        Instruction::Expr(lit(7)),
    ]);
    match failing.exec(&mut nss) {
        Err(EvalError::DivisionByZero(_)) => (),
        other => panic!("expected DivisionByZero, got {:?}", other),
    }
    assert_eq!(nss.depth(), depth);
    match nss.find(&Identifier::from("y")) {
        Err(EvalError::Undefined(_)) => (),
        other => panic!("y must not leak out of a failed block, got {:?}", other),
    }
}

#[test]
fn redeclaration_in_one_scope_fails() {
    let mut nss = stack();
    assert!(let_in("x", false, lit(1)).exec(&mut nss).is_ok());
    match let_in("x", false, lit(2)).exec(&mut nss) {
        Err(EvalError::AlreadyDefined(id)) => assert_eq!(id, Identifier::from("x")),
        other => panic!("expected AlreadyDefined, got {:?}", other),
    }
    // The failed redeclaration leaves the original binding in place.
    match nss.find(&Identifier::from("x")) {
        Ok(Value::Integer(1)) => (),
        other => panic!("x should still be 1, got {:?}", other),
    }
}

#[test]
fn shadowing_in_nested_block_succeeds() {
    let mut nss = stack();
    assert!(let_in("x", false, lit(1)).exec(&mut nss).is_ok());
    let block = Instruction::Block(vec![
        let_in("x", false, lit(9)),
        Instruction::Expr(var("x")),
    ]);
    // The inner lookup sees the inner value...
    match block.exec(&mut nss) {
        Ok((None, Value::Integer(9))) => (),
        other => panic!("expected the shadowing value 9, got {:?}", other),
    }
    // ...and after the block the outer binding is what it was.
    match nss.find(&Identifier::from("x")) {
        Ok(Value::Integer(1)) => (),
        other => panic!("x should be 1 again, got {:?}", other),
    }
}

#[test]
fn assignment_to_mutable_binding() {
    let mut nss = stack();
    // `let mut z = 5` then assigning 7 succeeds; z then reads as 7.
    assert!(let_in("z", true, lit(5)).exec(&mut nss).is_ok());
    assert!(nss.set(&Identifier::from("z"), Value::Integer(7)).is_ok());
    match nss.find(&Identifier::from("z")) {
        Ok(Value::Integer(7)) => (),
        other => panic!("z should read 7, got {:?}", other),
    }
}

#[test]
fn assignment_to_immutable_binding_fails() {
    let mut nss = stack();
    assert!(let_in("w", false, lit(5)).exec(&mut nss).is_ok());
    match nss.set(&Identifier::from("w"), Value::Integer(7)) {
        Err(EvalError::NotMutable(None)) => (),
        other => panic!("expected NotMutable, got {:?}", other),
    }
    match nss.find(&Identifier::from("w")) {
        Ok(Value::Integer(5)) => (),
        other => panic!("w should still be 5, got {:?}", other),
    }
}

#[test]
fn expression_statement_binds_nothing() {
    let mut nss = stack();
    match Instruction::Expr(lit(41)).exec(&mut nss) {
        Ok((None, Value::Integer(41))) => (),
        other => panic!("expected (None, Integer(41)), got {:?}", other),
    }
}
