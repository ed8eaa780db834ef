use microrust::binop::Binop;
use microrust::error::{Error, EvalError, ParseError};
use microrust::expression::Expression;
use microrust::instruction::Instruction;
use microrust::parsing::binop::Binop as ParseBinop;
use microrust::parsing::expression::Expression as ParseExpression;
use microrust::parsing::instruction::Instruction as ParseInstruction;
use microrust::parsing::leftexpression::LeftExpression;
use microrust::parsing::parsedvalue::ParsedValue;
use microrust::parsing::ptr_kind::PtrKind;
use microrust::value::{Identifier, Value};

fn pint(i: i64) -> ParseExpression {
    ParseExpression::Const(ParsedValue::Integer(i))
}

fn pvar(name: &str) -> ParseExpression {
    ParseExpression::ValueAt(LeftExpression::Identifier(Identifier::from(name)))
}

#[test]
fn supported_expressions_convert() {
    let sum = ParseExpression::BinOp(Box::new(pint(1)), ParseBinop::Add, Box::new(pvar("x")));
    match Expression::from_parse(&sum) {
        Ok(Expression::BinOp(lhs, Binop::Add, rhs)) => {
            match (*lhs, *rhs) {
                (
                    Expression::Const(ParsedValue::Integer(1)),
                    Expression::Identifier(id),
                ) => assert_eq!(id, Identifier::from("x")),
                other => panic!("wrong operands: {:?}", other),
            }
        },
        other => panic!("expected a BinOp, got {:?}", other),
    }
    let cond = ParseExpression::Conditional {
        cond: Box::new(pvar("c")),
        cond_true: Box::new(pint(1)),
        cond_false: Box::new(pint(2)),
    };
    assert!(matches!(
        Expression::from_parse(&cond),
        Ok(Expression::Conditional { .. })
    ));
}

#[test]
fn unsupported_expressions_are_rejected() {
    let newptr = ParseExpression::NewPtr(PtrKind::Box, Box::new(pint(1)));
    assert!(matches!(
        Expression::from_parse(&newptr),
        Err(ParseError::SyntaxNotSupported)
    ));
    let deref = ParseExpression::ValueAt(LeftExpression::Star(Box::new(
        LeftExpression::Identifier(Identifier::from("p")),
    )));
    assert!(matches!(
        Expression::from_parse(&deref),
        Err(ParseError::SyntaxNotSupported)
    ));
    // The failure surfaces from inside a larger expression too.
    let nested = ParseExpression::BinOp(
        Box::new(pint(1)),
        ParseBinop::Add,
        Box::new(ParseExpression::NewPtr(PtrKind::Rc, Box::new(pint(2)))),
    );
    assert!(matches!(
        Expression::from_parse(&nested),
        Err(ParseError::SyntaxNotSupported)
    ));
}

#[test]
fn every_operator_converts() {
    let table = vec![
        (ParseBinop::Add, Binop::Add),
        (ParseBinop::Sub, Binop::Sub),
        (ParseBinop::Mul, Binop::Mul),
        (ParseBinop::Div, Binop::Div),
        (ParseBinop::Mod, Binop::Mod),
        (ParseBinop::Leq, Binop::Leq),
        (ParseBinop::Geq, Binop::Geq),
        (ParseBinop::Lt, Binop::Lt),
        (ParseBinop::Gt, Binop::Gt),
        (ParseBinop::Eq, Binop::Eq),
        (ParseBinop::Neq, Binop::Neq),
        (ParseBinop::And, Binop::And),
        (ParseBinop::Or, Binop::Or),
    ];
    for (parsed, expected) in table {
        assert_eq!(Binop::from_parse(parsed), expected);
    }
}

#[test]
fn supported_instructions_convert() {
    let decl = ParseInstruction::Let {
        id: Identifier::from("x"),
        mutable: true,
        expr: pint(5),
    };
    match Instruction::from_parse(&decl) {
        Ok(Instruction::Let { id, mutable: true, expr: Expression::Const(ParsedValue::Integer(5)) }) => {
            assert_eq!(id, Identifier::from("x"));
        },
        other => panic!("expected a Let, got {:?}", other),
    }
    let block = ParseInstruction::Block(vec![
        ParseInstruction::Expr(pint(1)),
        ParseInstruction::Expr(pint(2)),
    ]);
    match Instruction::from_parse(&block) {
        Ok(Instruction::Block(body)) => assert_eq!(body.len(), 2),
        other => panic!("expected a Block, got {:?}", other),
    }
}

#[test]
fn unsupported_instructions_are_rejected() {
    let write = ParseInstruction::WriteAt(
        LeftExpression::Identifier(Identifier::from("x")),
        pint(1),
    );
    assert!(matches!(
        Instruction::from_parse(&write),
        Err(ParseError::SyntaxNotSupported)
    ));
    let whileloop = ParseInstruction::While(
        pvar("c"),
        Box::new(ParseInstruction::Expr(pint(1))),
    );
    assert!(matches!(
        Instruction::from_parse(&whileloop),
        Err(ParseError::SyntaxNotSupported)
    ));
    // A bad instruction inside a block rejects the whole block.
    let block = ParseInstruction::Block(vec![
        ParseInstruction::Expr(pint(1)),
        ParseInstruction::Free(LeftExpression::Identifier(Identifier::from("p"))),
    ]);
    assert!(matches!(
        Instruction::from_parse(&block),
        Err(ParseError::SyntaxNotSupported)
    ));
}

#[test]
fn parsed_values_convert_losslessly() {
    assert!(matches!(Value::from(ParsedValue::Integer(7)), Value::Integer(7)));
    assert!(matches!(Value::from(ParsedValue::Boolean(true)), Value::Boolean(true)));
    assert!(matches!(Value::from(ParsedValue::Unit), Value::Unit));
}

#[test]
fn error_families_wrap() {
    assert!(matches!(
        Error::from(ParseError::CannotParse),
        Error::ParseError(ParseError::CannotParse)
    ));
    assert!(matches!(
        Error::from(EvalError::NotMutable(None)),
        Error::EvalError(EvalError::NotMutable(None))
    ));
}
