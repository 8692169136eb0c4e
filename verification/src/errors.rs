//! The three families of failure, which are never turned into one another:
//! scanning and parsing errors, resolution errors, and what ends the
//! execution of a statement early.

use crate::text::join3;
use crate::token::Token;
use crate::value::{Datum, Value};
use vstd::prelude::*;

verus! {

#[derive(Debug)]
pub struct ScanError {}

impl ScanError {
    pub fn raise() -> (r: Self)
        ensures
            r == (ScanError {  }),
    {
        ScanError {  }
    }

    pub fn describe(&self) -> (r: String)
        ensures
            r@ == "ScanError."@,
    {
        String::from_str("ScanError.")
    }
}

#[derive(Debug, Clone)]
pub struct ParseError {}

impl ParseError {
    pub fn raise() -> (r: Self)
        ensures
            r == (ParseError {  }),
    {
        ParseError {  }
    }

    pub fn describe(&self) -> (r: String)
        ensures
            r@ == "ParseError."@,
    {
        String::from_str("ParseError.")
    }
}

/// A program that the resolver found fault with.
#[derive(Debug, Clone)]
pub struct SemanticError {}

impl SemanticError {
    pub fn raise() -> (r: Self)
        ensures
            r == (SemanticError {  }),
    {
        SemanticError {  }
    }

    pub fn describe(&self) -> (r: String)
        ensures
            r@ == "SemanticError."@,
    {
        String::from_str("SemanticError.")
    }
}

/// What ends a statement before its end: an error of the program, with the
/// token it arose at; a `return`, which travels up to the call it belongs
/// to; or the exhaustion of the evaluator's step budget.
#[derive(Debug)]
pub enum RuntimeBreak {
    RuntimeError { token: Token, message: String },
    Return { value: Value },
    StepLimit,
}

/// What a break is, with its message as a sequence of characters.
pub enum Stop {
    Error { token: Token, message: Seq<char> },
    Return { value: Datum },
    StepLimit,
}

impl View for RuntimeBreak {
    type V = Stop;

    open spec fn view(&self) -> Stop {
        match *self {
            RuntimeBreak::RuntimeError { token, message } => Stop::Error {
                token,
                message: message@,
            },
            RuntimeBreak::Return { value } => Stop::Return { value: value@ },
            RuntimeBreak::StepLimit => Stop::StepLimit,
        }
    }
}

/// What an evaluation gave, as the rules of the language see it.
pub open spec fn outcome(r: Result<Value, RuntimeBreak>) -> Result<Datum, Stop> {
    match r {
        Ok(value) => Ok(value@),
        Err(stop) => Err(stop@),
    }
}

/// How an execution ended, as the rules of the language see it.
pub open spec fn ending(r: Result<(), RuntimeBreak>) -> Result<(), Stop> {
    match r {
        Ok(_) => Ok(()),
        Err(stop) => Err(stop@),
    }
}

pub open spec fn undefined_variable_text(name: Seq<char>) -> Seq<char> {
    "Undefined variable '"@ + name + "'."@
}

/// The error of a variable that nothing binds.
pub open spec fn undefined_variable(name: Token) -> Stop {
    Stop::Error { token: name, message: undefined_variable_text(name.lexeme@) }
}

/// The runtime error at `token` with the message `text`.
pub open spec fn error_at(token: Token, text: Seq<char>) -> Stop {
    Stop::Error { token, message: text }
}

impl RuntimeBreak {
    pub fn raise(token: Token, message: String) -> (r: Self)
        ensures
            r == (RuntimeBreak::RuntimeError { token, message }),
    {
        RuntimeBreak::RuntimeError { token, message }
    }

    pub fn ret(value: Value) -> (r: Self)
        ensures
            r == (RuntimeBreak::Return { value }),
    {
        RuntimeBreak::Return { value }
    }

    /// The runtime error at `token` with the message `text`.
    pub fn error(token: &Token, text: &str) -> (r: Self)
        ensures
            r@ == error_at(*token, text@),
    {
        RuntimeBreak::RuntimeError { token: token.clone(), message: String::from_str(text) }
    }

    pub fn undefined_variable(name: &Token) -> (r: Self)
        ensures
            r@ == undefined_variable(*name),
    {
        let message = join3("Undefined variable '", name.lexeme.as_str(), "'.");
        RuntimeBreak::RuntimeError { token: name.clone(), message }
    }
}

} // verus!
