use microrust::error::EvalError;
use microrust::memorycell::MemoryCell;
use microrust::namespace::NameSpace;
use microrust::value::{Identifier, Value};

#[test]
fn test_declare() {
    let mut ns = NameSpace::new();
    let id = Identifier::from("x");
    assert!(ns.declare(&id, MemoryCell::new(false, Value::Integer(42))).is_ok());
    match ns.declare(&id, MemoryCell::new(false, Value::Integer(42))) {
        Ok(_) => panic!("Identifier should not be declared twice"),
        Err(EvalError::AlreadyDefined(id2)) => assert_eq!(id, id2),
        Err(_) => panic!("Unexpected error"),
    }
}

#[test]
fn test_find() {
    let mut ns = NameSpace::new();
    let id = Identifier::from("x");
    match ns.find(&id) {
        Ok(_) => panic!("Identifier should not be found"),
        Err(EvalError::Undefined(id2)) => assert_eq!(id, id2),
        Err(_) => panic!("Unexpected error"),
    }
    assert!(ns.declare(&id, MemoryCell::new(false, Value::Integer(42))).is_ok());
    match ns.find(&id) {
        Ok(Value::Integer(42)) => (),
        _ => panic!("Identifier should be found"),
    }
}

#[test]
fn namespace_set_respects_mutability() {
    let mut ns = NameSpace::new();
    let frozen = Identifier::from("frozen");
    let counter = Identifier::from("counter");
    ns.declare(&frozen, MemoryCell::new(false, Value::Integer(1))).unwrap();
    ns.declare(&counter, MemoryCell::new(true, Value::Integer(1))).unwrap();
    match ns.set(&frozen, Value::Integer(2)) {
        Err(EvalError::NotMutable(None)) => (),
        _ => panic!("an immutable cell must reject writes"),
    }
    assert!(ns.set(&counter, Value::Integer(2)).is_ok());
    match ns.find(&counter) {
        Ok(Value::Integer(2)) => (),
        _ => panic!("a successful write must be visible"),
    }
    match ns.find(&frozen) {
        Ok(Value::Integer(1)) => (),
        _ => panic!("a failed write must change nothing"),
    }
    match ns.set(&Identifier::from("ghost"), Value::Integer(3)) {
        Err(EvalError::Undefined(_)) => (),
        _ => panic!("writing an unbound name must fail"),
    }
    assert!(ns.contains_key(&frozen));
    assert!(!ns.contains_key(&Identifier::from("ghost")));
}

#[test]
fn memorycell_accessors() {
    let cell = MemoryCell::new(false, Value::Boolean(true));
    assert!(!cell.is_mutable());
    match cell.get_value() {
        Ok(Value::Boolean(true)) => (),
        _ => panic!("get_value must return the stored value"),
    }
    let mut cell = MemoryCell::new(true, Value::Integer(7));
    assert!(cell.is_mutable());
    assert!(cell.set_value(Value::Integer(8)).is_ok());
    match cell.get_value() {
        Ok(Value::Integer(8)) => (),
        _ => panic!("set_value must store the new value"),
    }
}
