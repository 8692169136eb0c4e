//! Runtime values.

use crate::class::Class;
use crate::function::Function;
use crate::instance::Instance;
use crate::number::number_eq;
use crate::token::Literal;
use vstd::prelude::*;

verus! {

/// A value of the language. A number is the bit pattern of its double; a
/// class or an instance is a handle to state that the interpreter owns, so
/// that copies of the value share that state.
#[derive(Debug)]
pub enum Value {
    Nil,
    Boolean(bool),
    Number(u64),
    LoxString(String),
    LoxFunction(Function),
    LoxClass(Class),
    LoxInstance(Instance),
}

/// What a value is, with a string as the sequence of its characters.
pub enum Datum {
    Nil,
    Boolean(bool),
    Number(u64),
    Text(Seq<char>),
    Function(Function),
    Class(Class),
    Instance(Instance),
}

impl View for Value {
    type V = Datum;

    open spec fn view(&self) -> Datum {
        match *self {
            Value::Nil => Datum::Nil,
            Value::Boolean(b) => Datum::Boolean(b),
            Value::Number(n) => Datum::Number(n),
            Value::LoxString(s) => Datum::Text(s@),
            Value::LoxFunction(f) => Datum::Function(f),
            Value::LoxClass(c) => Datum::Class(c),
            Value::LoxInstance(i) => Datum::Instance(i),
        }
    }
}

impl Clone for Value {
    fn clone(&self) -> (r: Self)
        ensures
            r == *self,
    {
        match self {
            Value::Nil => Value::Nil,
            Value::Boolean(b) => Value::Boolean(*b),
            Value::Number(n) => Value::Number(*n),
            Value::LoxString(s) => Value::LoxString(s.clone()),
            Value::LoxFunction(f) => Value::LoxFunction(f.clone()),
            Value::LoxClass(c) => Value::LoxClass(*c),
            Value::LoxInstance(i) => Value::LoxInstance(*i),
        }
    }
}

/// The value that a literal denotes.
pub open spec fn literal_datum(literal: Literal) -> Datum {
    match literal {
        Literal::Num(n) => Datum::Number(n),
        Literal::Str(s) => Datum::Text(s@),
        Literal::Bool(b) => Datum::Boolean(b),
        Literal::Nil => Datum::Nil,
    }
}

impl Literal {
    pub fn value(&self) -> (r: Value)
        ensures
            r@ == literal_datum(*self),
    {
        match self {
            Literal::Num(n) => Value::Number(*n),
            Literal::Str(s) => Value::LoxString(s.clone()),
            Literal::Bool(b) => Value::Boolean(*b),
            Literal::Nil => Value::Nil,
        }
    }
}

impl Datum {
    /// `nil` and `false` are falsy; every other value is truthy.
    pub open spec fn truthy(self) -> bool {
        match self {
            Datum::Nil => false,
            Datum::Boolean(b) => b,
            _ => true,
        }
    }

    /// Equality of the language: by content for nil, booleans, numbers and
    /// strings, by handle for classes and instances. A function equals
    /// nothing, and values of different kinds are never equal.
    pub open spec fn same(self, other: Datum) -> bool {
        match (self, other) {
            (Datum::Nil, Datum::Nil) => true,
            (Datum::Boolean(a), Datum::Boolean(b)) => a == b,
            (Datum::Number(a), Datum::Number(b)) => number_eq(a, b),
            (Datum::Text(a), Datum::Text(b)) => a == b,
            (Datum::Class(a), Datum::Class(b)) => a == b,
            (Datum::Instance(a), Datum::Instance(b)) => a == b,
            _ => false,
        }
    }
}

impl Value {
    pub fn is_truthy(&self) -> (r: bool)
        ensures
            r == self@.truthy(),
    {
        match self {
            Value::Nil => false,
            Value::Boolean(b) => *b,
            _ => true,
        }
    }

    pub fn equals(&self, other: &Value) -> (r: bool)
        ensures
            r == self@.same(other@),
    {
        match (self, other) {
            (Value::Nil, Value::Nil) => true,
            (Value::Boolean(a), Value::Boolean(b)) => *a == *b,
            (Value::Number(a), Value::Number(b)) => crate::number::equal(*a, *b),
            (Value::LoxString(a), Value::LoxString(b)) => *a == *b,
            (Value::LoxClass(a), Value::LoxClass(b)) => a.core == b.core,
            (Value::LoxInstance(a), Value::LoxInstance(b)) => a.class.core == b.class.core
                && a.id == b.id,
            _ => false,
        }
    }

    /// The number that the value holds, if it is one.
    pub fn as_number(&self) -> (r: Option<u64>)
        ensures
            r == (match self@ {
                Datum::Number(n) => Some(n),
                _ => None,
            }),
    {
        match self {
            Value::Number(n) => Some(*n),
            _ => None,
        }
    }
}

} // verus!

verus! {

impl Value {
    /// The number that `f` makes of the number that the value holds;
    /// nothing if the value is not a number.
    pub fn map_number<F: Fn(u64) -> u64>(self, f: F) -> (r: Option<Self>)
        requires
            self matches Value::Number(n) ==> f.requires((n,)),
        ensures
            match self {
                Value::Number(n) => r matches Some(Value::Number(m)) && f.ensures((n,), m),
                _ => r is None,
            },
    {
        match self {
            Value::Number(n) => Some(Value::Number(f(n))),
            _ => None,
        }
    }
}

} // verus!

verus! {

/// `==` on values is the equality of the language.
impl PartialEq for Value {
    fn eq(&self, other: &Value) -> (r: bool) {
        self.equals(other)
    }
}

impl vstd::std_specs::cmp::PartialEqSpecImpl for Value {
    open spec fn obeys_eq_spec() -> bool {
        true
    }

    open spec fn eq_spec(&self, other: &Value) -> bool {
        self@.same(other@)
    }
}

} // verus!
