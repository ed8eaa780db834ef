use vstd::prelude::*;

verus! {

/// An immutable, string-backed name token, used as a mapping key and embedded
/// in error payloads. In specifications an identifier is its character
/// sequence.
#[derive(Debug)]
pub struct Identifier {
    name: String,
}

impl View for Identifier {
    type V = Seq<char>;

    closed spec fn view(&self) -> Seq<char> {
        self.name@
    }
}

impl Identifier {
    /// Makes the identifier with the given text.
    pub fn new(text: &str) -> (id: Identifier)
        ensures
            id@ == text@,
    {
        Identifier { name: text.to_owned() }
    }

    /// The identifier's text.
    pub fn as_str(&self) -> (r: &str)
        ensures
            r@ == self@,
    {
        self.name.as_str()
    }
}

impl Clone for Identifier {
    fn clone(&self) -> (res: Identifier)
        ensures
            res@ == self@,
    {
        Identifier { name: self.name.clone() }
    }
}

impl PartialEq for Identifier {
    fn eq(&self, other: &Identifier) -> (r: bool) {
        self.name == other.name
    }
}

impl vstd::std_specs::cmp::PartialEqSpecImpl for Identifier {
    open spec fn obeys_eq_spec() -> bool {
        true
    }

    open spec fn eq_spec(&self, other: &Identifier) -> bool {
        self@ == other@
    }
}

impl core::convert::From<&str> for Identifier {
    /// Verified code uses `Identifier::new`, whose contract relates the
    /// result to the argument; this impl serves callers outside the library.
    fn from(text: &str) -> (id: Identifier) {
        Identifier::new(text)
    }
}

impl vstd::std_specs::convert::FromSpecImpl<&str> for Identifier {
    open spec fn obeys_from_spec() -> bool {
        false
    }

    open spec fn from_spec(text: &str) -> Identifier {
        arbitrary()
    }
}

/// The mathematical form of an address: the index of the scope frame the
/// binding lives in (0 is the outermost frame) and the bound name.
#[verifier::ext_equal]
pub struct AddressV {
    pub frame: int,
    pub name: Seq<char>,
}

/// An opaque handle identifying one storage slot, produced only by taking the
/// address of an existing, currently declared binding.
#[derive(Debug)]
pub struct Address {
    pub frame: usize,
    pub name: Identifier,
}

impl View for Address {
    type V = AddressV;

    open spec fn view(&self) -> AddressV {
        AddressV { frame: self.frame as int, name: self.name@ }
    }
}

impl Clone for Address {
    fn clone(&self) -> (res: Address)
        ensures
            res@ == self@,
    {
        Address { frame: self.frame, name: self.name.clone() }
    }
}

/// The type of a runtime value, as reported in type-mismatch errors.
#[derive(Debug, Clone, Copy, PartialEq, Eq, Structural)]
pub enum Type {
    Int,
    Bool,
    Unit,
    Pointer,
}

/// The mathematical form of a runtime value.
#[verifier::ext_equal]
pub enum ValueV {
    Integer(i64),
    Boolean(bool),
    Unit,
    Pointer(AddressV),
}

/// The type a value carries.
pub open spec fn type_of_v(v: ValueV) -> Type {
    match v {
        ValueV::Integer(_) => Type::Int,
        ValueV::Boolean(_) => Type::Bool,
        ValueV::Unit => Type::Unit,
        ValueV::Pointer(_) => Type::Pointer,
    }
}

/// Coercion of a value to an integer: succeeds exactly on `Integer`, and
/// otherwise reports the type actually found.
pub open spec fn to_int_v(v: ValueV) -> Result<i64, Type> {
    match v {
        ValueV::Integer(i) => Ok(i),
        _ => Err(type_of_v(v)),
    }
}

/// Coercion of a value to a boolean: succeeds exactly on `Boolean`, and
/// otherwise reports the type actually found.
pub open spec fn to_bool_v(v: ValueV) -> Result<bool, Type> {
    match v {
        ValueV::Boolean(b) => Ok(b),
        _ => Err(type_of_v(v)),
    }
}

/// A runtime value: always copied on read, never aliased; aliasing is
/// modeled explicitly by `Pointer`.
#[derive(Debug)]
pub enum Value {
    Integer(i64),
    Boolean(bool),
    Unit,
    Pointer(Address),
}

impl View for Value {
    type V = ValueV;

    open spec fn view(&self) -> ValueV {
        match self {
            Value::Integer(i) => ValueV::Integer(*i),
            Value::Boolean(b) => ValueV::Boolean(*b),
            Value::Unit => ValueV::Unit,
            Value::Pointer(a) => ValueV::Pointer(a@),
        }
    }
}

impl Clone for Value {
    fn clone(&self) -> (res: Value)
        ensures
            res@ == self@,
    {
        match self {
            Value::Integer(i) => Value::Integer(*i),
            Value::Boolean(b) => Value::Boolean(*b),
            Value::Unit => Value::Unit,
            Value::Pointer(a) => Value::Pointer(a.clone()),
        }
    }
}

impl Value {
    /// The type of this value.
    pub fn type_of(&self) -> (t: Type)
        ensures
            t == type_of_v(self@),
    {
        match self {
            Value::Integer(_) => Type::Int,
            Value::Boolean(_) => Type::Bool,
            Value::Unit => Type::Unit,
            Value::Pointer(_) => Type::Pointer,
        }
    }

    /// Coerces this value to an integer; succeeds only on `Integer`.
    pub fn to_int(&self) -> (r: Result<i64, Type>)
        ensures
            r == to_int_v(self@),
    {
        match self {
            Value::Integer(i) => Ok(*i),
            _ => Err(self.type_of()),
        }
    }

    /// Coerces this value to a boolean; succeeds only on `Boolean`.
    pub fn to_bool(&self) -> (r: Result<bool, Type>)
        ensures
            r == to_bool_v(self@),
    {
        match self {
            Value::Boolean(b) => Ok(*b),
            _ => Err(self.type_of()),
        }
    }
}

} // verus!
