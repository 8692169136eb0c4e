//! What can be called, and what the evaluator asks of its host: the
//! arithmetic of doubles, their spelling, and the native functions.

use crate::class::{class_arity, Class, ClassModel};
use crate::errors::{outcome, RuntimeBreak};
use crate::function::Function;
use crate::interpreter::{datums, Interpreter};
use crate::semantics::{call_class, call_function, Evaluation, State};
use crate::token::Literal;
use crate::value::{Datum, Value};
use vstd::prelude::*;

verus! {

/// The host of an evaluation. Numbers pass as the bit patterns of their
/// doubles. The evaluator promises nothing about what a host returns and
/// relies on nothing: it is correct with every host.
pub trait Host {
    /// The sum of two doubles.
    fn add(&mut self, left: u64, right: u64) -> u64;

    /// The difference of two doubles.
    fn subtract(&mut self, left: u64, right: u64) -> u64;

    /// The product of two doubles.
    fn multiply(&mut self, left: u64, right: u64) -> u64;

    /// The quotient of two doubles. The evaluator never asks for a
    /// division by zero.
    fn divide(&mut self, left: u64, right: u64) -> u64;

    /// How a double is printed.
    fn number_text(&mut self, number: u64) -> String;

    /// The double that a numeral of the source spells.
    fn number_of(&mut self, numeral: &str) -> u64;

    /// Runs the native function registered under `native`.
    fn call_native(&mut self, native: usize, arguments: &Vec<Value>) -> Literal;
}

/// What a call expression may call: a function or a class. Both say how
/// many arguments they take and are called in the same way.
pub trait Callable {
    /// The number of arguments that a call takes.
    spec fn arity_in(&self, classes: Seq<ClassModel>) -> usize;

    /// What a call does and yields, by the rules of evaluation.
    spec fn called(&self, st: State, arguments: Seq<Datum>, answers: Seq<Datum>) -> Evaluation;

    fn arity(&self, interpreter: &Interpreter) -> (r: usize)
        ensures
            r == self.arity_in(interpreter@.classes),
    ;

    fn call<H: Host>(
        &self,
        interpreter: &mut Interpreter,
        host: &mut H,
        arguments: &Vec<Value>,
    ) -> (r: Result<Value, RuntimeBreak>)
        requires
            old(interpreter)@.well_formed(),
        ensures
            final(interpreter)@.well_formed(),
            final(interpreter).heard_after(*old(interpreter)),
            final(interpreter)@.extends(old(interpreter)@),
            forall|answers: Seq<Datum>|
                final(interpreter).hears(answers) ==> #[trigger] self.called(
                    old(interpreter)@,
                    datums(arguments@),
                    answers,
                ) == (final(interpreter)@, outcome(r)),
    ;
}

impl Callable for Function {
    open spec fn arity_in(&self, classes: Seq<ClassModel>) -> usize {
        self.arity_nr
    }

    open spec fn called(&self, st: State, arguments: Seq<Datum>, answers: Seq<Datum>) -> Evaluation {
        call_function(st, *self, arguments, answers)
    }

    fn arity(&self, interpreter: &Interpreter) -> (r: usize) {
        self.arity_nr
    }

    fn call<H: Host>(
        &self,
        interpreter: &mut Interpreter,
        host: &mut H,
        arguments: &Vec<Value>,
    ) -> (r: Result<Value, RuntimeBreak>) {
        let r = Function::call(self, interpreter, host, arguments);
        proof {
            assert forall|answers: Seq<Datum>| interpreter.hears(answers) implies self.called(
                old(interpreter)@,
                datums(arguments@),
                answers,
            ) == (interpreter@, outcome(r)) by {
                assert(call_function(old(interpreter)@, *self, datums(arguments@), answers) == (
                    interpreter@,
                    outcome(r),
                ));
            }
        }
        r
    }
}

impl Callable for Class {
    open spec fn arity_in(&self, classes: Seq<ClassModel>) -> usize {
        class_arity(classes, *self)
    }

    open spec fn called(&self, st: State, arguments: Seq<Datum>, answers: Seq<Datum>) -> Evaluation {
        call_class(st, *self, arguments, answers)
    }

    fn arity(&self, interpreter: &Interpreter) -> (r: usize) {
        Class::arity(self, &interpreter.classes)
    }

    fn call<H: Host>(
        &self,
        interpreter: &mut Interpreter,
        host: &mut H,
        arguments: &Vec<Value>,
    ) -> (r: Result<Value, RuntimeBreak>) {
        let r = Class::call(self, interpreter, host, arguments);
        proof {
            assert forall|answers: Seq<Datum>| interpreter.hears(answers) implies self.called(
                old(interpreter)@,
                datums(arguments@),
                answers,
            ) == (interpreter@, outcome(r)) by {
                assert(call_class(old(interpreter)@, *self, datums(arguments@), answers) == (
                    interpreter@,
                    outcome(r),
                ));
            }
        }
        r
    }
}

} // verus!
