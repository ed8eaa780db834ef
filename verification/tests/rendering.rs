use microrust::binop::Binop;
use microrust::error::{Error, EvalError, ParseError};
use microrust::expression::Expression;
use microrust::instruction::Instruction;
use microrust::parsing::parsedvalue::ParsedValue;
use microrust::value::{Identifier, Type, Value};

fn lit(i: i64) -> Expression {
    Expression::Const(ParsedValue::Integer(i))
}

#[test]
fn values_render_in_base_ten() {
    assert_eq!(Value::Integer(42).to_text(), "42");
    assert_eq!(Value::Integer(-3).to_text(), "-3");
    assert_eq!(Value::Integer(0).to_text(), "0");
    assert_eq!(Value::Boolean(true).to_text(), "true");
    assert_eq!(Value::Boolean(false).to_text(), "false");
    assert_eq!(Value::Unit.to_text(), "()");
}

#[test]
fn types_render_by_name() {
    assert_eq!(Type::Int.to_text(), "int");
    assert_eq!(Type::Bool.to_text(), "bool");
    assert_eq!(Type::Unit.to_text(), "unit");
    assert_eq!(Type::Pointer.to_text(), "pointer");
    assert_eq!(Value::Integer(1).type_of(), Type::Int);
    assert_eq!(Value::Boolean(true).type_of(), Type::Bool);
    assert_eq!(Value::Unit.type_of(), Type::Unit);
}

#[test]
fn operators_render_as_symbols() {
    assert_eq!(Binop::Add.to_text(), "+");
    assert_eq!(Binop::Sub.to_text(), "-");
    assert_eq!(Binop::Mul.to_text(), "*");
    assert_eq!(Binop::Div.to_text(), "/");
    assert_eq!(Binop::Mod.to_text(), "%");
    assert_eq!(Binop::Leq.to_text(), "<=");
    assert_eq!(Binop::Geq.to_text(), ">=");
    assert_eq!(Binop::Lt.to_text(), "<");
    assert_eq!(Binop::Gt.to_text(), ">");
    assert_eq!(Binop::Eq.to_text(), "==");
    assert_eq!(Binop::Neq.to_text(), "!=");
    assert_eq!(Binop::And.to_text(), "&&");
    assert_eq!(Binop::Or.to_text(), "||");
}

#[test]
fn expressions_render_with_parentheses() {
    let sum = Expression::BinOp(Box::new(lit(1)), Binop::Add, Box::new(lit(2)));
    assert_eq!(sum.to_text(), "(1 + 2)");
    let addr = Expression::AddressOf(Box::new(Expression::Identifier(Identifier::from("x"))));
    assert_eq!(addr.to_text(), "&x");
    let cond = Expression::Conditional {
        cond: Box::new(Expression::Const(ParsedValue::Boolean(true))),
        cond_true: Box::new(lit(1)),
        cond_false: Box::new(lit(2)),
    };
    assert_eq!(cond.to_text(), "(true) ? 1  : 2 ");
}

#[test]
fn instructions_render_as_source() {
    let decl = Instruction::Let {
        id: Identifier::from("x"),
        mutable: false,
        expr: lit(1),
    };
    assert_eq!(decl.to_text(), "let x = 1");
    let decl_mut = Instruction::Let {
        id: Identifier::from("z"),
        mutable: true,
        expr: lit(5),
    };
    assert_eq!(decl_mut.to_text(), "let mut z = 5");
    let block = Instruction::Block(vec![
        Instruction::Expr(lit(1)),
        Instruction::Expr(lit(2)),
    ]);
    assert_eq!(block.to_text(), "{1;2}");
    assert_eq!(Instruction::Block(Vec::new()).to_text(), "{}");
}

#[test]
fn errors_render_with_their_payloads() {
    let div = EvalError::DivisionByZero(lit(0));
    assert_eq!(div.to_text(), "Division by zero, `0` evaluates to 0");
    let undef = EvalError::Undefined(Identifier::from("x"));
    assert_eq!(undef.to_text(), "Undefined identifier: `x`");
    let dup = EvalError::AlreadyDefined(Identifier::from("x"));
    assert_eq!(dup.to_text(), "Identifier `x` already defined.");
    assert_eq!(EvalError::NotMutable(None).to_text(), "Cell is not mutable.");
    let ctx = EvalError::NotMutable(Some(Expression::Identifier(Identifier::from("w"))));
    assert_eq!(ctx.to_text(), "Cell at `w` is not mutable.");
    let mismatch = EvalError::TypeMismatch {
        expression: lit(1),
        expected: Type::Bool,
        found: Type::Int,
    };
    assert_eq!(mismatch.to_text(), "Type mismatch");
    assert_eq!(
        Error::ParseError(ParseError::CannotParse).to_text(),
        "Parse Error: Cannot parse"
    );
    assert_eq!(
        Error::EvalError(EvalError::NotMutable(None)).to_text(),
        "Evaluation Error: Cell is not mutable."
    );
}
