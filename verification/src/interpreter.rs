//! The evaluator: it walks the syntax tree, keeps the chain of live
//! scopes, and reads variables by the distances that the resolver found.
//! What it does is what the rules of evaluation say, for whatever the
//! host answers.

use crate::callable::Host;
use crate::class::{cores, Class, ClassCore};
use crate::environment::{frames, Environment, Frame};
use crate::errors::{ending, error_at, outcome, RuntimeBreak, Stop};
use crate::expr::{
    Assign, Binary, Call, Expr, Get, Grouping, Lit, Logical, SetField, Super, This, Unary,
    Variable,
};
use crate::function::{Function, FunctionBody};
use crate::instance::Instance;
use crate::semantics::{
    arity_checked, asks_host, binary_plain, bound_first, call_class, call_frame, call_function,
    call_result, datum_text, declared_function, declared_methods, distance_of, eval_arguments,
    eval_assign, eval_binary, eval_call, eval_get, eval_logical, eval_set, eval_unary, evaluate,
    exec_expression, exec_if, exec_print, exec_return, exec_var, exec_while, execute,
    execute_all, execute_block, invoke, lemma_declared_methods_none, short_circuits, this_of,
    unary, Exchange, Local, Question, State,
};
use crate::stmt::{share, Block, Expression, Fun, If, Print, Return, Stmt, Var, While};
use crate::table::Table;
use crate::text::{
    integer, integer_text, join3, lemma_texts_push, natural, starts_with, texts,
};
use crate::token::{Token, TokenType};
use crate::value::{literal_datum, Datum, Value};
use std::rc::Rc;
use vstd::prelude::*;

verus! {

/// The number under which the native `clock` is registered.
pub const CLOCK: usize = 0;

pub struct Interpreter {
    /// The outermost scope.
    pub globals: usize,
    /// The scope in which code currently runs.
    pub environment: usize,
    /// The distance table, which the resolver fills before evaluation.
    pub locals: Vec<Local>,
    /// All scopes; a scope names the one around it by index.
    pub scopes: Vec<Environment>,
    /// All classes, with the fields of their instances.
    pub classes: Vec<ClassCore>,
    /// The lines printed so far.
    pub output: Vec<String>,
    /// How many more expressions and statements may be evaluated.
    pub steps: u64,
    /// What the host was asked so far, and what it answered.
    pub host: Ghost<Seq<Exchange>>,
}

/// The questions of a conversation with the host.
pub open spec fn questions(host: Seq<Exchange>) -> Seq<Question> {
    Seq::new(host.len(), |i: int| host[i].question)
}

/// The answers of a conversation with the host.
pub open spec fn heard(host: Seq<Exchange>) -> Seq<Datum> {
    Seq::new(host.len(), |i: int| host[i].answer)
}

/// What the values are.
pub open spec fn datums(values: Seq<Value>) -> Seq<Datum> {
    Seq::new(values.len(), |i: int| values[i]@)
}

impl View for Interpreter {
    type V = State;

    open spec fn view(&self) -> State {
        State {
            globals: self.globals,
            environment: self.environment,
            locals: self.locals@,
            scopes: frames(self.scopes@),
            classes: cores(self.classes@),
            output: texts(self.output@),
            steps: self.steps,
            asked: questions(self.host@),
        }
    }
}

/// The state of an interpreter that has not run anything: the global
/// scope alone, in which `clock` is bound to the native of that name; no
/// class, no output, no recorded distance; the largest step budget.
pub open spec fn initial(st: State) -> bool {
    &&& st.well_formed()
    &&& st.globals == 0
    &&& st.environment == 0
    &&& st.locals.len() == 0
    &&& st.classes.len() == 0
    &&& st.output.len() == 0
    &&& st.steps == u64::MAX
    &&& st.asked.len() == 0
    &&& st.scopes.len() == 1
    &&& st.scopes[0].enclosing is None
    &&& st.scopes[0].values.dom() == set!["clock"@]
    &&& st.scopes[0].values["clock"@] matches Datum::Function(f) && f.name@ == "clock"@
        && f.arity_nr == 0 && f.body == FunctionBody::Native(CLOCK)
}

impl Interpreter {
    /// `answers` begins with what the host has answered so far.
    pub open spec fn hears(self, answers: Seq<Datum>) -> bool {
        starts_with(answers, heard(self.host@))
    }

    /// The conversation with the host went on from that of `before`.
    pub open spec fn heard_after(self, before: Interpreter) -> bool {
        starts_with(self.host@, before.host@)
    }

    /// The host has not been asked since `before`.
    pub open spec fn silent_since(self, before: Interpreter) -> bool {
        self.host@ == before.host@
    }
}

/// Answers that begin with a conversation begin with every earlier state
/// of it.
pub proof fn lemma_hears(earlier: Interpreter, later: Interpreter, answers: Seq<Datum>)
    requires
        later.heard_after(earlier),
        later.hears(answers),
    ensures
        earlier.hears(answers),
{
    assert forall|i: int| 0 <= i < heard(earlier.host@).len() implies answers[i] == heard(
        earlier.host@,
    )[i] by {
        assert(answers[i] == heard(later.host@)[i]);
        assert(later.host@[i] == earlier.host@[i]);
    }
}

/// Asking the host a question is what the rules call asking, for answers
/// that begin with what the host answered.
pub proof fn lemma_asked(
    before: Interpreter,
    after: Interpreter,
    question: Question,
    answer: Datum,
    answers: Seq<Datum>,
)
    requires
        after.host@ == before.host@.push(Exchange { question, answer }),
        after.globals == before.globals,
        after.environment == before.environment,
        after.locals == before.locals,
        after.scopes == before.scopes,
        after.classes == before.classes,
        after.output == before.output,
        after.steps == before.steps,
        after.hears(answers),
    ensures
        before@.ask(question, answers) == (after@, answer),
{
    assert(questions(after.host@) =~= questions(before.host@).push(question));
    assert(answers[before.host@.len() as int] == heard(after.host@)[before.host@.len() as int]);
}

impl Interpreter {
    /// An interpreter with the global scope alone, in which `clock` is
    /// bound to the native of that name, and with the largest step budget.
    pub fn new() -> (r: Self)
        ensures
            initial(r@),
            r.host@.len() == 0,
    {
        let mut globals = Environment::new(None);
        let function = Function::new_native("clock", 0u8, CLOCK);
        globals.define("clock", Value::LoxFunction(function));
        assert(globals@.values.dom() =~= set!["clock"@]);
        let mut scopes: Vec<Environment> = Vec::new();
        scopes.push(globals);
        Interpreter {
            globals: 0,
            environment: 0,
            locals: Vec::new(),
            scopes,
            classes: Vec::new(),
            output: Vec::new(),
            steps: u64::MAX,
            host: Ghost(Seq::empty()),
        }
    }

    /// Sets the number of expressions and statements that may still be
    /// evaluated before evaluation stops with `StepLimit`.
    pub fn set_budget(&mut self, steps: u64)
        ensures
            final(self)@ == (State { steps, ..old(self)@ }),
            final(self).silent_since(*old(self)),
    {
        self.steps = steps;
    }

    /// Binds `name` in the global scope to the native function that the
    /// host knows under the number `native`.
    pub fn define_native(&mut self, name: &str, arity: u8, native: usize)
        requires
            old(self)@.well_formed(),
        ensures
            final(self).silent_since(*old(self)),
            exists|f: Function|
                f.name@ == name@ && f.arity_nr == arity && f.body == FunctionBody::Native(native)
                    && final(self)@ == old(self)@.with_scopes(
                    crate::environment::bound(
                        old(self)@.scopes,
                        old(self).globals as int,
                        name@,
                        Datum::Function(f),
                    ),
                ),
    {
        let function = Function::new_native(name, arity, native);
        let ghost f = function;
        Environment::define_in(&mut self.scopes, self.globals, name, Value::LoxFunction(function));
        assert(self@ == old(self)@.with_scopes(
            crate::environment::bound(
                old(self)@.scopes,
                old(self).globals as int,
                name@,
                Datum::Function(f),
            ),
        ));
    }

    /// Records that the variable use `token` finds its binding `depth`
    /// scopes outward.
    pub fn resolve(&mut self, token: Token, depth: usize)
        ensures
            final(self)@ == (State {
                locals: old(self)@.locals.push(Local { token, depth }),
                ..old(self)@
            }),
            distance_of(final(self)@.locals, token) == Some(depth),
            final(self).globals == old(self).globals,
            final(self).environment == old(self).environment,
            final(self).scopes == old(self).scopes,
            final(self).classes == old(self).classes,
            final(self).output == old(self).output,
            final(self).steps == old(self).steps,
            final(self).host == old(self).host,
    {
        let ghost before = self.locals@;
        self.locals.push(Local { token, depth });
        assert(self.locals@.drop_last() =~= before);
    }

    /// The distance recorded for the use site `name`, if any.
    pub fn distance(&self, name: &Token) -> (r: Option<usize>)
        ensures
            r == distance_of(self@.locals, *name),
    {
        let mut i: usize = self.locals.len();
        assert(self.locals@.take(i as int) =~= self.locals@);
        while i > 0
            invariant
                i <= self.locals@.len(),
                distance_of(self.locals@, *name) == distance_of(self.locals@.take(i as int), *name),
            decreases i,
        {
            i = i - 1;
            assert(self.locals@.take(i + 1).drop_last() =~= self.locals@.take(i as int));
            if self.locals[i].token.is_same_site(name) {
                return Some(self.locals[i].depth);
            }
        }
        None
    }

    /// Reads the variable that the use site `name` refers to: at the
    /// recorded distance from the current scope, or, without one, in the
    /// global scope.
    pub fn lookup_variable(&self, name: &Token) -> (r: Result<Value, RuntimeBreak>)
        ensures
            outcome(r) == self@.variable(*name),
    {
        match self.distance(name) {
            Some(d) => Environment::get_at(&self.scopes, self.environment, d, name),
            None => Environment::get(&self.scopes, self.globals, name),
        }
    }

    /// Writes the variable that the use site `name` refers to.
    pub fn assign_variable(&mut self, name: &Token, value: Value) -> (r: Result<(), RuntimeBreak>)
        ensures
            (final(self)@, ending(r)) == old(self)@.assigned(*name, value@),
            final(self)@.extends(old(self)@),
            final(self).silent_since(*old(self)),
    {
        match self.distance(name) {
            Some(d) => Environment::assign_at(&mut self.scopes, self.environment, d, name, value),
            None => Environment::assign(&mut self.scopes, self.globals, name, value),
        }
    }

    /// Binds `name` in the current scope.
    pub fn define(&mut self, name: &str, value: Value)
        requires
            old(self)@.well_formed(),
        ensures
            final(self)@ == old(self)@.defined(name@, value@),
            final(self)@.extends(old(self)@),
            final(self).silent_since(*old(self)),
    {
        Environment::define_in(&mut self.scopes, self.environment, name, value);
    }

    pub fn is_truthy(value: &Value) -> (r: bool)
        ensures
            r == value@.truthy(),
    {
        value.is_truthy()
    }

    pub fn check_number_operand(operator: &Token, operand: &Value) -> (r: Result<
        u64,
        RuntimeBreak,
    >)
        ensures
            match operand@ {
                Datum::Number(n) => r == Ok::<u64, RuntimeBreak>(n),
                _ => r is Err && r->Err_0@ == error_at(*operator, "Operand must be a number."@),
            },
    {
        match operand {
            Value::Number(n) => Ok(*n),
            _ => Err(RuntimeBreak::error(operator, "Operand must be a number.")),
        }
    }

    pub fn check_number_operands(operator: &Token, left: &Value, right: &Value) -> (r: Result<
        (u64, u64),
        RuntimeBreak,
    >)
        ensures
            match (left@, right@) {
                (Datum::Number(a), Datum::Number(b)) => r == Ok::<(u64, u64), RuntimeBreak>(
                    (a, b),
                ),
                _ => r is Err && r->Err_0@ == error_at(*operator, "Operand must be a number."@),
            },
    {
        match (left, right) {
            (Value::Number(a), Value::Number(b)) => Ok((*a, *b)),
            _ => Err(RuntimeBreak::error(operator, "Operand must be a number.")),
        }
    }

    /// The result of a unary operation.
    pub fn unary_operation(operator: &Token, right: &Value) -> (r: Result<Value, RuntimeBreak>)
        ensures
            outcome(r) == unary(*operator, right@),
    {
        match operator.token_type {
            TokenType::BANG => Ok(Value::Boolean(!right.is_truthy())),
            TokenType::MINUS => {
                match Self::check_number_operand(operator, right) {
                    Ok(n) => Ok(Value::Number(crate::number::negate(n))),
                    Err(e) => Err(e),
                }
            },
            _ => Err(RuntimeBreak::error(operator, "Invalid unary operator.")),
        }
    }

    /// Whether a binary operation is one that the host computes.
    pub fn needs_host(operator: TokenType, left: &Value, right: &Value) -> (r: bool)
        ensures
            r == asks_host(operator, left@, right@),
    {
        match (left, right) {
            (Value::Number(_), Value::Number(b)) => {
                match operator {
                    TokenType::PLUS | TokenType::MINUS | TokenType::STAR => true,
                    TokenType::SLASH => !crate::number::zero(*b),
                    _ => false,
                }
            },
            _ => false,
        }
    }

    /// The result of a binary operation that the evaluator decides alone:
    /// every one but arithmetic on numbers.
    pub fn binary_result(operator: &Token, left: &Value, right: &Value) -> (r: Result<
        Value,
        RuntimeBreak,
    >)
        requires
            !asks_host(operator.token_type, left@, right@),
        ensures
            outcome(r) == binary_plain(*operator, left@, right@),
    {
        match operator.token_type {
            TokenType::EQUAL_EQUAL => Ok(Value::Boolean(left.equals(right))),
            TokenType::BANG_EQUAL => Ok(Value::Boolean(!left.equals(right))),
            TokenType::GREATER => {
                match Self::check_number_operands(operator, left, right) {
                    Ok((a, b)) => Ok(Value::Boolean(crate::number::less(b, a))),
                    Err(e) => Err(e),
                }
            },
            TokenType::GREATER_EQUAL => {
                match Self::check_number_operands(operator, left, right) {
                    Ok((a, b)) => Ok(Value::Boolean(crate::number::less_equal(b, a))),
                    Err(e) => Err(e),
                }
            },
            TokenType::LESS => {
                match Self::check_number_operands(operator, left, right) {
                    Ok((a, b)) => Ok(Value::Boolean(crate::number::less(a, b))),
                    Err(e) => Err(e),
                }
            },
            TokenType::LESS_EQUAL => {
                match Self::check_number_operands(operator, left, right) {
                    Ok((a, b)) => Ok(Value::Boolean(crate::number::less_equal(a, b))),
                    Err(e) => Err(e),
                }
            },
            TokenType::MINUS | TokenType::STAR | TokenType::SLASH => {
                match Self::check_number_operands(operator, left, right) {
                    Ok(_) => Err(RuntimeBreak::error(operator, "Devided by 0")),
                    Err(e) => Err(e),
                }
            },
            TokenType::PLUS => {
                match (left, right) {
                    (Value::LoxString(a), Value::LoxString(b)) => {
                        let mut text = a.clone();
                        text.append(b.as_str());
                        Ok(Value::LoxString(text))
                    },
                    _ => Err(RuntimeBreak::error(operator, "Operands must be numbers or strings.")),
                }
            },
            _ => Err(RuntimeBreak::error(operator, "Invalid binary operator.")),
        }
    }

    /// Asks the host for the result of arithmetic on two numbers.
    pub fn ask_arithmetic<H: Host>(&mut self, host: &mut H, operator: TokenType, a: u64, b: u64) -> (r:
        u64)
        ensures
            final(self).host@ == old(self).host@.push(
                Exchange {
                    question: Question::Arithmetic(operator, a, b),
                    answer: Datum::Number(r),
                },
            ),
            final(self).globals == old(self).globals,
            final(self).environment == old(self).environment,
            final(self).locals == old(self).locals,
            final(self).scopes == old(self).scopes,
            final(self).classes == old(self).classes,
            final(self).output == old(self).output,
            final(self).steps == old(self).steps,
    {
        let r = match operator {
            TokenType::PLUS => host.add(a, b),
            TokenType::MINUS => host.subtract(a, b),
            TokenType::STAR => host.multiply(a, b),
            _ => host.divide(a, b),
        };
        proof {
            self.host@ = self.host@.push(
                Exchange {
                    question: Question::Arithmetic(operator, a, b),
                    answer: Datum::Number(r),
                },
            );
        }
        r
    }

    /// The result of a binary operation. Where the operation is
    /// arithmetic on numbers, the host computes the number; everything
    /// else is decided here.
    pub fn binary_operation<H: Host>(
        &mut self,
        host: &mut H,
        operator: &Token,
        left: &Value,
        right: &Value,
    ) -> (r: Result<Value, RuntimeBreak>)
        ensures
            final(self).heard_after(*old(self)),
            final(self)@.extends(old(self)@),
            final(self).steps == old(self).steps,
            forall|answers: Seq<Datum>|
                final(self).hears(answers) ==> #[trigger] old(self)@.binary(
                    *operator,
                    left@,
                    right@,
                    answers,
                ) == (final(self)@, outcome(r)),
            !asks_host(operator.token_type, left@, right@) ==> *final(self) == *old(self)
                && outcome(r) == binary_plain(*operator, left@, right@),
    {
        if Self::needs_host(operator.token_type, left, right) {
            match (left, right) {
                (Value::Number(a), Value::Number(b)) => {
                    let n = self.ask_arithmetic(host, operator.token_type, *a, *b);
                    proof {
                        assert forall|answers: Seq<Datum>| self.hears(answers) implies old(self)@.binary(*operator, left@, right@, answers) == (
                            self@,
                            Ok::<Datum, Stop>(Datum::Number(n)),
                        ) by {
                            lemma_asked(
                                *old(self),
                                *self,
                                Question::Arithmetic(operator.token_type, *a, *b),
                                Datum::Number(n),
                                answers,
                            );
                        }
                    }
                    Ok(Value::Number(n))
                },
                _ => Self::binary_result(operator, left, right),
            }
        } else {
            Self::binary_result(operator, left, right)
        }
    }

    /// Whether the left operand of a logical operator decides the result.
    pub fn short_circuits(operator: TokenType, left: &Value) -> (r: bool)
        ensures
            r == short_circuits(operator, left@),
    {
        if operator == TokenType::OR {
            left.is_truthy()
        } else {
            !left.is_truthy()
        }
    }

    /// Whether a call with `count` arguments fits a callee of the given
    /// arity; the error names both numbers.
    pub fn check_arity(paren: &Token, arity: usize, count: usize) -> (r: Result<(), RuntimeBreak>)
        ensures
            ending(r) == arity_checked(*paren, arity, count as nat),
    {
        if arity == count {
            Ok(())
        } else {
            let expected = natural(arity as u64);
            let got = natural(count as u64);
            let mut message = join3("Expected ", expected.as_str(), " arguments but got ");
            message.append(got.as_str());
            message.append(".");
            Err(RuntimeBreak::raise(paren.clone(), message))
        }
    }

    /// The text that `print` writes for a value that is not a number.
    pub fn stringify(&self, value: &Value) -> (r: String)
        ensures
            r@ == datum_text(self@.classes, value@),
    {
        match value {
            Value::Nil => String::from_str("nil"),
            Value::Boolean(b) => if *b {
                String::from_str("true")
            } else {
                String::from_str("false")
            },
            Value::Number(_) => String::from_str(""),
            Value::LoxString(s) => s.clone(),
            Value::LoxFunction(f) => join3("#<Function: ", f.name.as_str(), ">"),
            Value::LoxClass(c) => {
                match c.name(&self.classes) {
                    Some(name) => join3("#<Class: ", name.as_str(), ">"),
                    None => join3("#<Class: ", "", ">"),
                }
            },
            Value::LoxInstance(i) => {
                match i.class.name(&self.classes) {
                    Some(name) => join3("#<Instance of ", name.as_str(), ">"),
                    None => join3("#<Instance of ", "", ">"),
                }
            },
        }
    }

    /// The text of a value as `print` writes it. A number is spelled by
    /// the host, which is asked outside of any evaluation.
    pub fn text_of<H: Host>(&self, host: &mut H, value: &Value) -> (r: String)
        ensures
            !(value@ is Number) ==> r@ == datum_text(self@.classes, value@),
    {
        match value {
            Value::Number(n) => host.number_text(*n),
            _ => self.stringify(value),
        }
    }

    /// What is shown of a break that reaches the top of a program.
    pub fn describe<H: Host>(&self, host: &mut H, stop: &RuntimeBreak) -> (r: String)
        ensures
            match stop@ {
                Stop::Error { token, message } => r@ == "RuntimeError: "@ + message + "\n[line "@
                    + integer_text(token.line as int) + "]"@,
                Stop::StepLimit => r@ == "RuntimeError: Step limit reached."@,
                Stop::Return { value } => !(value is Number) ==> r@ == "Return: "@ + datum_text(
                    self@.classes,
                    value,
                ),
            },
    {
        match stop {
            RuntimeBreak::RuntimeError { token, message } => {
                let mut text = join3("RuntimeError: ", message.as_str(), "\n[line ");
                let line = integer(token.line);
                text.append(line.as_str());
                text.append("]");
                text
            },
            RuntimeBreak::StepLimit => String::from_str("RuntimeError: Step limit reached."),
            RuntimeBreak::Return { value } => {
                let shown = self.text_of(host, value);
                let mut text = String::from_str("Return: ");
                text.append(shown.as_str());
                text
            },
        }
    }

    /// Prints a value: its text becomes the last line of the output. A
    /// number is spelled by the host.
    pub fn emit<H: Host>(&mut self, host: &mut H, value: &Value)
        ensures
            final(self).heard_after(*old(self)),
            final(self)@.extends(old(self)@),
            final(self).steps == old(self).steps,
            forall|answers: Seq<Datum>|
                final(self).hears(answers) ==> #[trigger] old(self)@.emit(value@, answers)
                    == final(self)@,
    {
        match value {
            Value::Number(n) => {
                let text = host.number_text(*n);
                proof {
                    self.host@ = self.host@.push(
                        Exchange { question: Question::Spell(*n), answer: Datum::Text(text@) },
                    );
                }
                let ghost asked = *self;
                proof {
                    lemma_texts_push(self.output@, text);
                }
                self.output.push(text);
                proof {
                    assert forall|answers: Seq<Datum>| self.hears(answers) implies old(self)@.emit(value@, answers) == self@ by {
                        lemma_asked(
                            *old(self),
                            asked,
                            Question::Spell(*n),
                            Datum::Text(text@),
                            answers,
                        );
                    }
                }
            },
            _ => {
                let text = self.stringify(value);
                proof {
                    lemma_texts_push(self.output@, text);
                }
                self.output.push(text);
            },
        }
    }

    /// Reads a property of a value. Only an instance has properties.
    pub fn get_property(&mut self, object: &Value, name: &Token) -> (r: Result<
        Value,
        RuntimeBreak,
    >)
        ensures
            (final(self)@, outcome(r)) == old(self)@.property(object@, *name),
            final(self).silent_since(*old(self)),
            final(self)@.extends(old(self)@),
    {
        match object {
            Value::LoxInstance(instance) => instance.get(&self.classes, &mut self.scopes, name),
            _ => Err(RuntimeBreak::error(name, "Only instances have properties.")),
        }
    }

    /// Writes a field of an instance; the expression yields nil.
    pub fn set_field(&mut self, instance: Instance, name: &Token, value: Value) -> (r: Result<
        Value,
        RuntimeBreak,
    >)
        ensures
            (final(self)@, outcome(r)) == old(self)@.field_set(instance, *name, value@),
            final(self).silent_since(*old(self)),
            final(self)@.extends(old(self)@),
    {
        match instance.set(&mut self.classes, name, value) {
            Ok(_) => Ok(Value::Nil),
            Err(e) => Err(e),
        }
    }

    /// The instance that a bound method finds as `this` in its closure.
    pub fn this_of(&self, closure: Option<usize>) -> (r: Value)
        ensures
            r@ == this_of(self@.scopes, closure),
    {
        match closure {
            Some(scope) => {
                if scope < self.scopes.len() {
                    match self.scopes[scope].values.get(&String::from_str("this")) {
                        Some(value) => value.clone(),
                        None => Value::Nil,
                    }
                } else {
                    Value::Nil
                }
            },
            None => Value::Nil,
        }
    }

    /// What a call yields once the body has ended.
    pub fn finish_call(&self, closure: Option<usize>, is_initializer: bool, ended: Result<
        (),
        RuntimeBreak,
    >) -> (r: Result<Value, RuntimeBreak>)
        ensures
            outcome(r) == call_result(
                is_initializer,
                ending(ended),
                this_of(self@.scopes, closure),
            ),
    {
        match ended {
            Err(RuntimeBreak::RuntimeError { token, message }) => Err(
                RuntimeBreak::RuntimeError { token, message },
            ),
            Err(RuntimeBreak::StepLimit) => Err(RuntimeBreak::StepLimit),
            Err(RuntimeBreak::Return { value }) => {
                if is_initializer {
                    Ok(self.this_of(closure))
                } else {
                    Ok(value)
                }
            },
            Ok(_) => {
                if is_initializer {
                    Ok(self.this_of(closure))
                } else {
                    Ok(Value::Nil)
                }
            },
        }
    }

    pub fn visit_literal(&mut self, expr: &Lit) -> (r: Result<Value, RuntimeBreak>)
        ensures
            outcome(r) == Ok::<Datum, Stop>(literal_datum(*expr.0)),
            *final(self) == *old(self),
    {
        Ok(expr.0.value())
    }

    pub fn visit_variable(&mut self, expr: &Variable) -> (r: Result<Value, RuntimeBreak>)
        ensures
            outcome(r) == old(self)@.variable(*expr.0),
            *final(self) == *old(self),
    {
        self.lookup_variable(&expr.0)
    }

    pub fn visit_this(&mut self, expr: &This) -> (r: Result<Value, RuntimeBreak>)
        ensures
            outcome(r) == old(self)@.variable(*expr.0),
            *final(self) == *old(self),
    {
        self.lookup_variable(&expr.0)
    }

    /// Declares a function: its name is bound, in the current scope, to
    /// the function that closes over that very scope.
    pub fn visit_fun(&mut self, stmt: &Rc<Fun>) -> (r: Result<(), RuntimeBreak>)
        requires
            old(self)@.well_formed(),
        ensures
            r is Ok,
            final(self)@ == old(self)@.function_declared(*stmt),
            final(self)@.extends(old(self)@),
            final(self).silent_since(*old(self)),
    {
        let function = Function::new_lox(share(stmt), Some(self.environment), false);
        self.define(stmt.0.lexeme.as_str(), Value::LoxFunction(function));
        Ok(())
    }

    pub fn visit_super(&mut self, expr: &Super) -> (r: Result<Value, RuntimeBreak>)
        ensures
            (final(self)@, outcome(r)) == old(self)@.super_method(*expr),
            final(self).silent_since(*old(self)),
            final(self)@.extends(old(self)@),
    {
        let distance = match self.distance(&expr.0) {
            Some(d) => d,
            None => {
                return Err(RuntimeBreak::undefined_variable(&expr.0));
            },
        };
        let up = match Environment::find_holder_at(
            &self.scopes,
            self.environment,
            distance,
            &expr.0.lexeme,
        ) {
            Some(h) => h,
            None => {
                return Err(RuntimeBreak::undefined_variable(&expr.0));
            },
        };
        if distance == 0 {
            return Err(RuntimeBreak::error(&expr.0, "Undefined variable 'this'."));
        }
        let this = String::from_str("this");
        let near = match Environment::find_holder_at(
            &self.scopes,
            self.environment,
            distance - 1,
            &this,
        ) {
            Some(h) => h,
            None => {
                return Err(RuntimeBreak::error(&expr.0, "Undefined variable 'this'."));
            },
        };
        let superclass = self.scopes[up].values.get(&expr.0.lexeme);
        let object = self.scopes[near].values.get(&this);
        match (superclass, object) {
            (Some(Value::LoxClass(class)), Some(Value::LoxInstance(instance))) => {
                let instance = *instance;
                match class.find_method(&self.classes, &expr.1.lexeme) {
                    Some(method) => Ok(
                        Value::LoxFunction(method.bind(&mut self.scopes, instance)),
                    ),
                    None => {
                        let message = join3(
                            "Undefined property '",
                            expr.1.lexeme.as_str(),
                            "'.",
                        );
                        Err(RuntimeBreak::raise((*expr.1).clone(), message))
                    },
                }
            },
            _ => Err(
                RuntimeBreak::error(
                    &expr.0,
                    "[BUG] Superclass isnt a Class || This isnt a instance.",
                ),
            ),
        }
    }

    #[verifier::loop_isolation(false)]
    pub fn visit_class(&mut self, stmt: &crate::stmt::Class) -> (r: Result<(), RuntimeBreak>)
        requires
            old(self)@.well_formed(),
        ensures
            (final(self)@, ending(r)) == old(self)@.class_declared(*stmt),
            final(self)@.extends(old(self)@),
            final(self).silent_since(*old(self)),
    {
        let mut superclass: Option<Class> = None;
        match &stmt.1 {
            Some(expr) => {
                match &**expr {
                    Expr::Variable_(var) => {
                        match self.lookup_variable(&var.0) {
                            Ok(Value::LoxClass(class)) => {
                                superclass = Some(class);
                            },
                            Ok(_) => {
                                return Err(
                                    RuntimeBreak::error(&var.0, "Superclass must be a class."),
                                );
                            },
                            Err(e) => {
                                return Err(e);
                            },
                        }
                    },
                    _ => {
                        return Err(RuntimeBreak::error(&stmt.0, "[BUG] Not a variable."));
                    },
                }
            },
            None => {},
        }
        let scope: usize = if superclass.is_some() {
            self.scopes.len()
        } else {
            self.environment
        };
        let mut methods: Table<Function> = Table::new();
        let mut i: usize = 0;
        assert(stmt.2@.take(0) =~= Seq::<Stmt>::empty());
        while i < stmt.2.len()
            invariant
                i <= stmt.2@.len(),
                declared_methods(stmt.2@.take(i as int), scope) == Some(methods@),
            decreases stmt.2@.len() - i,
        {
            proof {
                assert(stmt.2@.take(i + 1).drop_last() =~= stmt.2@.take(i as int));
                assert(stmt.2@.take(i + 1).last() == stmt.2@[i as int]);
            }
            match &stmt.2[i] {
                Stmt::Fun_(declaration) => {
                    let is_initializer = crate::token::spells(&declaration.0.lexeme, "init");
                    let function = Function::new_lox(
                        share(declaration),
                        Some(scope),
                        is_initializer,
                    );
                    assert(function == declared_function(*declaration, scope, is_initializer));
                    methods.insert(declaration.0.lexeme.clone(), function);
                },
                _ => {
                    proof {
                        lemma_declared_methods_none(stmt.2@, scope, i + 1);
                    }
                    return Err(
                        RuntimeBreak::error(
                            &stmt.0,
                            "[BUG] Included a stmt that is ot a function.",
                        ),
                    );
                },
            }
            i = i + 1;
        }
        assert(stmt.2@.take(i as int) =~= stmt.2@);
        match superclass {
            Some(parent) => {
                let mut environment = Environment::new(Some(self.environment));
                environment.define("super", Value::LoxClass(parent));
                Environment::push(&mut self.scopes, environment);
            },
            None => {},
        }
        let class = Class::new(&mut self.classes, stmt.0.lexeme.as_str(), methods, superclass);
        Environment::define_in(
            &mut self.scopes,
            self.environment,
            stmt.0.lexeme.as_str(),
            Value::LoxClass(class),
        );
        Ok(())
    }
}

} // verus!

verus! {

pub proof fn lemma_datums_push(values: Seq<Value>, value: Value)
    ensures
        datums(values.push(value)) == datums(values).push(value@),
{
    assert(datums(values.push(value)) =~= datums(values).push(value@));
}

impl Interpreter {
    /// Runs a program: its statements in order, up to the first that
    /// fails.
    pub fn interpret<H: Host>(&mut self, host: &mut H, statements: &Vec<Stmt>) -> (r: Result<
        (),
        RuntimeBreak,
    >)
        requires
            old(self)@.well_formed(),
        ensures
            final(self)@.well_formed(),
            final(self).heard_after(*old(self)),
            final(self)@.extends(old(self)@),
            forall|answers: Seq<Datum>|
                final(self).hears(answers) ==> #[trigger] execute_all(old(self)@, statements@, answers) == (final(self)@, ending(r)),
    {
        let r = self.run(host, statements);
        proof {
            assert(statements@.skip(0) =~= statements@);
            assert forall|answers: Seq<Datum>| self.hears(answers) implies execute_all(
                old(self)@,
                statements@,
                answers,
            ) == (self@, ending(r)) by {
                assert(execute_all(old(self)@, statements@.skip(0), answers) == (
                    self@,
                    ending(r),
                ));
            }
        }
        r
    }

    /// Runs the statements from the first on, in order, up to the first
    /// that fails.
    pub fn run<H: Host>(&mut self, host: &mut H, statements: &Vec<Stmt>) -> (r: Result<
        (),
        RuntimeBreak,
    >)
        requires
            old(self)@.well_formed(),
        ensures
            final(self)@.well_formed(),
            final(self).heard_after(*old(self)),
            final(self)@.extends(old(self)@),
            forall|answers: Seq<Datum>|
                final(self).hears(answers) ==> #[trigger] execute_all(old(self)@, statements@.skip(0), answers) == (final(self)@, ending(r)),
        decreases old(self).steps, 1nat, 0nat,
    {
        let mut i: usize = 0;
        while i < statements.len()
            invariant
                i <= statements@.len(),
                self@.well_formed(),
                self.heard_after(*old(self)),
                self@.extends(old(self)@),
                forall|answers: Seq<Datum>|
                    self.hears(answers) ==> #[trigger] execute_all(
                        old(self)@,
                        statements@.skip(0),
                        answers,
                    ) == execute_all(self@, statements@.skip(i as int), answers),
            decreases statements@.len() - i,
        {
            let ghost before = *self;
            let r = self.execute(host, &statements[i]);
            proof {
                assert(statements@.skip(i as int)[0] == statements@[i as int]);
                assert(statements@.skip(i as int).skip(1) =~= statements@.skip(i + 1));
                assert forall|answers: Seq<Datum>| self.hears(answers) implies execute_all(
                    old(self)@,
                    statements@.skip(0),
                    answers,
                ) == (if r is Ok {
                    execute_all(self@, statements@.skip(i + 1), answers)
                } else {
                    (self@, ending(r))
                }) by {
                    lemma_hears(before, *self, answers);
                    assert(execute_all(old(self)@, statements@.skip(0), answers) == execute_all(
                        before@,
                        statements@.skip(i as int),
                        answers,
                    ));
                    assert(execute(before@, statements@[i as int], answers) == (self@, ending(r)));
                }
            }
            match r {
                Ok(_) => {},
                Err(e) => {
                    return Err(e);
                },
            }
            i = i + 1;
        }
        proof {
            assert(statements@.skip(i as int).len() == 0);
        }
        Ok(())
    }

    /// Runs `statements` in `environment`, which becomes the youngest
    /// scope and the current one for that time. The scope that was current
    /// before is current again afterwards, however the statements end.
    pub fn execute_block<H: Host>(
        &mut self,
        host: &mut H,
        statements: &Vec<Stmt>,
        environment: Environment,
    ) -> (r: Result<(), RuntimeBreak>)
        requires
            old(self)@.well_formed(),
        ensures
            final(self)@.well_formed(),
            final(self).heard_after(*old(self)),
            final(self)@.extends(old(self)@),
            forall|answers: Seq<Datum>|
                final(self).hears(answers) ==> #[trigger] execute_block(old(self)@, statements@, environment@, answers) == (final(self)@, ending(r)),
        decreases old(self).steps, 2nat, 0nat,
    {
        let previous = self.environment;
        let scope = Environment::push(&mut self.scopes, environment);
        self.environment = scope;
        let ghost inside = *self;
        let r = self.run(host, statements);
        let ghost after = *self;
        self.environment = previous;
        proof {
            assert(inside@ == old(self)@.with_scopes(old(self)@.scopes.push(environment@)).within(
                old(self)@.scopes.len() as usize,
            ));
            assert(self@ == after@.within(old(self).environment));
            assert forall|answers: Seq<Datum>| self.hears(answers) implies execute_block(
                old(self)@,
                statements@,
                environment@,
                answers,
            ) == (self@, ending(r)) by {
                assert(after.hears(answers));
                assert(statements@.skip(0) =~= statements@);
                assert(execute_all(inside@, statements@.skip(0), answers) == (after@, ending(r)));
            }
        }
        r
    }

    pub fn execute<H: Host>(&mut self, host: &mut H, stmt: &Stmt) -> (r: Result<(), RuntimeBreak>)
        requires
            old(self)@.well_formed(),
        ensures
            final(self)@.well_formed(),
            final(self).heard_after(*old(self)),
            final(self)@.extends(old(self)@),
            r is Ok ==> final(self).steps < old(self).steps,
            forall|answers: Seq<Datum>|
                final(self).hears(answers) ==> #[trigger] execute(old(self)@, *stmt, answers) == (final(self)@, ending(r)),
        decreases old(self).steps, 0nat, 0nat,
    {
        if self.steps == 0 {
            return Err(RuntimeBreak::StepLimit);
        }
        self.steps = self.steps - 1;
        let ghost s = *self;
        assert(s@ == old(self)@.tick());
        match stmt {
            Stmt::Block_(b) => {
                let r = self.visit_block(host, b);
                proof {
                    assert forall|answers: Seq<Datum>| self.hears(answers) implies execute(
                        old(self)@,
                        *stmt,
                        answers,
                    ) == (self@, ending(r)) by {
                        assert(execute_block(
                            s@,
                            b.0@,
                            Frame { enclosing: Some(s.environment), values: Map::empty() },
                            answers,
                        ) == (self@, ending(r)));
                    }
                }
                r
            },
            Stmt::Expression_(e) => {
                let r = self.visit_expression(host, e);
                proof {
                    assert forall|answers: Seq<Datum>| self.hears(answers) implies execute(
                        old(self)@,
                        *stmt,
                        answers,
                    ) == (self@, ending(r)) by {
                        assert(exec_expression(s@, *e, answers) == (self@, ending(r)));
                    }
                }
                r
            },
            Stmt::If_(i) => {
                let r = self.visit_if(host, i);
                proof {
                    assert forall|answers: Seq<Datum>| self.hears(answers) implies execute(
                        old(self)@,
                        *stmt,
                        answers,
                    ) == (self@, ending(r)) by {
                        assert(exec_if(s@, *i, answers) == (self@, ending(r)));
                    }
                }
                r
            },
            Stmt::Print_(p) => {
                let r = self.visit_print(host, p);
                proof {
                    assert forall|answers: Seq<Datum>| self.hears(answers) implies execute(
                        old(self)@,
                        *stmt,
                        answers,
                    ) == (self@, ending(r)) by {
                        assert(exec_print(s@, *p, answers) == (self@, ending(r)));
                    }
                }
                r
            },
            Stmt::Return_(x) => {
                let r = self.visit_return(host, x);
                proof {
                    assert forall|answers: Seq<Datum>| self.hears(answers) implies execute(
                        old(self)@,
                        *stmt,
                        answers,
                    ) == (self@, ending(r)) by {
                        assert(exec_return(s@, *x, answers) == (self@, ending(r)));
                    }
                }
                r
            },
            Stmt::Var_(v) => {
                let r = self.visit_var(host, v);
                proof {
                    assert forall|answers: Seq<Datum>| self.hears(answers) implies execute(
                        old(self)@,
                        *stmt,
                        answers,
                    ) == (self@, ending(r)) by {
                        assert(exec_var(s@, *v, answers) == (self@, ending(r)));
                    }
                }
                r
            },
            Stmt::While_(w) => {
                let r = self.visit_while(host, w);
                proof {
                    assert forall|answers: Seq<Datum>| self.hears(answers) implies execute(
                        old(self)@,
                        *stmt,
                        answers,
                    ) == (self@, ending(r)) by {
                        assert(exec_while(s@, *w, answers) == (self@, ending(r)));
                    }
                }
                r
            },
            Stmt::Class_(c) => self.visit_class(c),
            Stmt::Fun_(f) => self.visit_fun(f),
            Stmt::Null => Ok(()),
        }
    }

    pub fn evaluate<H: Host>(&mut self, host: &mut H, expr: &Expr) -> (r: Result<
        Value,
        RuntimeBreak,
    >)
        requires
            old(self)@.well_formed(),
        ensures
            final(self)@.well_formed(),
            final(self).heard_after(*old(self)),
            final(self)@.extends(old(self)@),
            r is Ok ==> final(self).steps < old(self).steps,
            forall|answers: Seq<Datum>|
                final(self).hears(answers) ==> #[trigger] evaluate(old(self)@, *expr, answers) == (final(self)@, outcome(r)),
        decreases old(self).steps, 0nat, 0nat,
    {
        if self.steps == 0 {
            return Err(RuntimeBreak::StepLimit);
        }
        self.steps = self.steps - 1;
        let ghost s = *self;
        assert(s@ == old(self)@.tick());
        match expr {
            Expr::Assign_(e) => {
                let r = self.visit_assign(host, e);
                proof {
                    assert forall|answers: Seq<Datum>| self.hears(answers) implies evaluate(
                        old(self)@,
                        *expr,
                        answers,
                    ) == (self@, outcome(r)) by {
                        assert(eval_assign(s@, *e, answers) == (self@, outcome(r)));
                    }
                }
                r
            },
            Expr::Binary_(e) => {
                let r = self.visit_binary(host, e);
                proof {
                    assert forall|answers: Seq<Datum>| self.hears(answers) implies evaluate(
                        old(self)@,
                        *expr,
                        answers,
                    ) == (self@, outcome(r)) by {
                        assert(eval_binary(s@, *e, answers) == (self@, outcome(r)));
                    }
                }
                r
            },
            Expr::Call_(e) => {
                let r = self.visit_call(host, e);
                proof {
                    assert forall|answers: Seq<Datum>| self.hears(answers) implies evaluate(
                        old(self)@,
                        *expr,
                        answers,
                    ) == (self@, outcome(r)) by {
                        assert(eval_call(s@, *e, answers) == (self@, outcome(r)));
                    }
                }
                r
            },
            Expr::Get_(e) => {
                let r = self.visit_get(host, e);
                proof {
                    assert forall|answers: Seq<Datum>| self.hears(answers) implies evaluate(
                        old(self)@,
                        *expr,
                        answers,
                    ) == (self@, outcome(r)) by {
                        assert(eval_get(s@, *e, answers) == (self@, outcome(r)));
                    }
                }
                r
            },
            Expr::Grouping_(e) => {
                let r = self.visit_grouping(host, e);
                proof {
                    assert forall|answers: Seq<Datum>| self.hears(answers) implies evaluate(
                        old(self)@,
                        *expr,
                        answers,
                    ) == (self@, outcome(r)) by {
                        assert(evaluate(s@, *e.0, answers) == (self@, outcome(r)));
                    }
                }
                r
            },
            Expr::Logical_(e) => {
                let r = self.visit_logical(host, e);
                proof {
                    assert forall|answers: Seq<Datum>| self.hears(answers) implies evaluate(
                        old(self)@,
                        *expr,
                        answers,
                    ) == (self@, outcome(r)) by {
                        assert(eval_logical(s@, *e, answers) == (self@, outcome(r)));
                    }
                }
                r
            },
            Expr::Set_(e) => {
                let r = self.visit_set(host, e);
                proof {
                    assert forall|answers: Seq<Datum>| self.hears(answers) implies evaluate(
                        old(self)@,
                        *expr,
                        answers,
                    ) == (self@, outcome(r)) by {
                        assert(eval_set(s@, *e, answers) == (self@, outcome(r)));
                    }
                }
                r
            },
            Expr::Unary_(e) => {
                let r = self.visit_unary(host, e);
                proof {
                    assert forall|answers: Seq<Datum>| self.hears(answers) implies evaluate(
                        old(self)@,
                        *expr,
                        answers,
                    ) == (self@, outcome(r)) by {
                        assert(eval_unary(s@, *e, answers) == (self@, outcome(r)));
                    }
                }
                r
            },
            Expr::Literal_(e) => self.visit_literal(e),
            Expr::Super_(e) => self.visit_super(e),
            Expr::This_(e) => self.visit_this(e),
            Expr::Variable_(e) => self.visit_variable(e),
            Expr::Null => Ok(Value::Nil),
        }
    }

    pub fn visit_block<H: Host>(&mut self, host: &mut H, stmt: &Block) -> (r: Result<
        (),
        RuntimeBreak,
    >)
        requires
            old(self)@.well_formed(),
        ensures
            final(self)@.well_formed(),
            final(self).heard_after(*old(self)),
            final(self)@.extends(old(self)@),
            forall|answers: Seq<Datum>|
                final(self).hears(answers) ==> #[trigger] execute_block(
                    old(self)@,
                    stmt.0@,
                    Frame { enclosing: Some(old(self).environment), values: Map::empty() },
                    answers,
                ) == (final(self)@, ending(r)),
        decreases old(self).steps, 7nat, 0nat,
    {
        let environment = Environment::new(Some(self.environment));
        let r = self.execute_block(host, &stmt.0, environment);
        proof {
            assert forall|answers: Seq<Datum>| self.hears(answers) implies execute_block(
                old(self)@,
                stmt.0@,
                Frame { enclosing: Some(old(self).environment), values: Map::empty() },
                answers,
            ) == (self@, ending(r)) by {
                assert(execute_block(old(self)@, stmt.0@, environment@, answers) == (
                    self@,
                    ending(r),
                ));
            }
        }
        r
    }

    pub fn visit_expression<H: Host>(&mut self, host: &mut H, stmt: &Expression) -> (r: Result<
        (),
        RuntimeBreak,
    >)
        requires
            old(self)@.well_formed(),
        ensures
            final(self)@.well_formed(),
            final(self).heard_after(*old(self)),
            final(self)@.extends(old(self)@),
            forall|answers: Seq<Datum>|
                final(self).hears(answers) ==> #[trigger] exec_expression(old(self)@, *stmt, answers) == (final(self)@, ending(r)),
        decreases old(self).steps, 7nat, 0nat,
    {
        let r0 = self.evaluate(host, &stmt.0);
        let r = match r0 {
            Ok(_) => Ok(()),
            Err(e) => Err(e),
        };
        proof {
            assert forall|answers: Seq<Datum>| self.hears(answers) implies exec_expression(old(self)@, *stmt, answers) == (
                self@,
                ending(r),
            ) by {
                assert(evaluate(old(self)@, *stmt.0, answers) == (self@, outcome(r0)));
            }
        }
        r
    }

    pub fn visit_if<H: Host>(&mut self, host: &mut H, stmt: &If) -> (r: Result<(), RuntimeBreak>)
        requires
            old(self)@.well_formed(),
        ensures
            final(self)@.well_formed(),
            final(self).heard_after(*old(self)),
            final(self)@.extends(old(self)@),
            forall|answers: Seq<Datum>|
                final(self).hears(answers) ==> #[trigger] exec_if(old(self)@, *stmt, answers) == (final(self)@, ending(r)),
        decreases old(self).steps, 7nat, 0nat,
    {
        let r0 = self.evaluate(host, &stmt.0);
        let ghost s1 = *self;
        let condition = match r0 {
            Ok(value) => value,
            Err(e) => {
                proof {
                    assert forall|answers: Seq<Datum>| self.hears(answers) implies exec_if(old(self)@, *stmt, answers) == (
                        self@,
                        Err::<(), Stop>(e@),
                    ) by {
                        assert(evaluate(old(self)@, *stmt.0, answers) == (self@, outcome(r0)));
                    }
                }
                return Err(e);
            },
        };
        if condition.is_truthy() {
            let r = self.execute(host, &stmt.1);
            proof {
                assert forall|answers: Seq<Datum>| self.hears(answers) implies exec_if(old(self)@, *stmt, answers) == (
                    self@,
                    ending(r),
                ) by {
                    lemma_hears(s1, *self, answers);
                    assert(evaluate(old(self)@, *stmt.0, answers) == (s1@, outcome(r0)));
                    assert(execute(s1@, *stmt.1, answers) == (self@, ending(r)));
                }
            }
            r
        } else {
            match &stmt.2 {
                Some(other) => {
                    let r = self.execute(host, other);
                    proof {
                        assert forall|answers: Seq<Datum>| self.hears(answers) implies exec_if(old(self)@, *stmt, answers) == (
                            self@,
                            ending(r),
                        ) by {
                            lemma_hears(s1, *self, answers);
                            assert(evaluate(old(self)@, *stmt.0, answers) == (s1@, outcome(r0)));
                            assert(execute(s1@, **other, answers) == (self@, ending(r)));
                        }
                    }
                    r
                },
                None => {
                    proof {
                        assert forall|answers: Seq<Datum>| self.hears(answers) implies exec_if(old(self)@, *stmt, answers) == (
                            self@,
                            Ok::<(), Stop>(()),
                        ) by {
                            assert(evaluate(old(self)@, *stmt.0, answers) == (s1@, outcome(r0)));
                        }
                    }
                    Ok(())
                },
            }
        }
    }

    pub fn visit_while<H: Host>(&mut self, host: &mut H, stmt: &While) -> (r: Result<
        (),
        RuntimeBreak,
    >)
        requires
            old(self)@.well_formed(),
        ensures
            final(self)@.well_formed(),
            final(self).heard_after(*old(self)),
            final(self)@.extends(old(self)@),
            forall|answers: Seq<Datum>|
                final(self).hears(answers) ==> #[trigger] exec_while(old(self)@, *stmt, answers) == (final(self)@, ending(r)),
        decreases old(self).steps, 7nat, 0nat,
    {
        loop
            invariant
                self@.well_formed(),
                self.heard_after(*old(self)),
                self@.extends(old(self)@),
                forall|answers: Seq<Datum>|
                    self.hears(answers) ==> #[trigger] exec_while(old(self)@, *stmt, answers)
                        == exec_while(self@, *stmt, answers),
            decreases self.steps,
        {
            let ghost s0 = *self;
            let c = self.evaluate(host, &stmt.0);
            let ghost s1 = *self;
            let condition = match c {
                Ok(value) => value,
                Err(e) => {
                    proof {
                        assert forall|answers: Seq<Datum>| self.hears(answers) implies exec_while(
                            old(self)@,
                            *stmt,
                            answers,
                        ) == (self@, Err::<(), Stop>(e@)) by {
                            lemma_hears(s0, *self, answers);
                            assert(exec_while(old(self)@, *stmt, answers) == exec_while(
                                s0@,
                                *stmt,
                                answers,
                            ));
                            assert(evaluate(s0@, *stmt.0, answers) == (s1@, outcome(c)));
                        }
                    }
                    return Err(e);
                },
            };
            if !condition.is_truthy() {
                proof {
                    assert forall|answers: Seq<Datum>| self.hears(answers) implies exec_while(
                        old(self)@,
                        *stmt,
                        answers,
                    ) == (self@, Ok::<(), Stop>(())) by {
                        lemma_hears(s0, *self, answers);
                        assert(exec_while(old(self)@, *stmt, answers) == exec_while(
                            s0@,
                            *stmt,
                            answers,
                        ));
                        assert(evaluate(s0@, *stmt.0, answers) == (s1@, outcome(c)));
                    }
                }
                return Ok(());
            }
            let r = self.execute(host, &stmt.1);
            proof {
                assert forall|answers: Seq<Datum>| self.hears(answers) implies exec_while(
                    old(self)@,
                    *stmt,
                    answers,
                ) == (if r is Ok {
                    exec_while(self@, *stmt, answers)
                } else {
                    (self@, ending(r))
                }) by {
                    lemma_hears(s1, *self, answers);
                    lemma_hears(s0, s1, answers);
                    assert(exec_while(old(self)@, *stmt, answers) == exec_while(
                        s0@,
                        *stmt,
                        answers,
                    ));
                    assert(evaluate(s0@, *stmt.0, answers) == (s1@, outcome(c)));
                    assert(execute(s1@, *stmt.1, answers) == (self@, ending(r)));
                }
            }
            match r {
                Ok(_) => {},
                Err(e) => {
                    return Err(e);
                },
            }
        }
    }

    pub fn visit_print<H: Host>(&mut self, host: &mut H, stmt: &Print) -> (r: Result<
        (),
        RuntimeBreak,
    >)
        requires
            old(self)@.well_formed(),
        ensures
            final(self)@.well_formed(),
            final(self).heard_after(*old(self)),
            final(self)@.extends(old(self)@),
            forall|answers: Seq<Datum>|
                final(self).hears(answers) ==> #[trigger] exec_print(old(self)@, *stmt, answers) == (final(self)@, ending(r)),
        decreases old(self).steps, 7nat, 0nat,
    {
        let r0 = self.evaluate(host, &stmt.0);
        let ghost s1 = *self;
        let value = match r0 {
            Ok(value) => value,
            Err(e) => {
                proof {
                    assert forall|answers: Seq<Datum>| self.hears(answers) implies exec_print(old(self)@, *stmt, answers) == (
                        self@,
                        Err::<(), Stop>(e@),
                    ) by {
                        assert(evaluate(old(self)@, *stmt.0, answers) == (self@, outcome(r0)));
                    }
                }
                return Err(e);
            },
        };
        self.emit(host, &value);
        proof {
            assert forall|answers: Seq<Datum>| self.hears(answers) implies exec_print(old(self)@, *stmt, answers) == (
                self@,
                Ok::<(), Stop>(()),
            ) by {
                lemma_hears(s1, *self, answers);
                assert(evaluate(old(self)@, *stmt.0, answers) == (s1@, outcome(r0)));
                assert(s1@.emit(value@, answers) == self@);
            }
        }
        Ok(())
    }

    /// `return`: the value travels upward as a break, never as success.
    pub fn visit_return<H: Host>(&mut self, host: &mut H, stmt: &Return) -> (r: Result<
        (),
        RuntimeBreak,
    >)
        requires
            old(self)@.well_formed(),
        ensures
            final(self)@.well_formed(),
            final(self).heard_after(*old(self)),
            final(self)@.extends(old(self)@),
            r is Err,
            forall|answers: Seq<Datum>|
                final(self).hears(answers) ==> #[trigger] exec_return(old(self)@, *stmt, answers) == (final(self)@, ending(r)),
        decreases old(self).steps, 7nat, 0nat,
    {
        let r0 = self.evaluate(host, &stmt.1);
        let r = match r0 {
            Ok(value) => Err(RuntimeBreak::ret(value)),
            Err(e) => Err(e),
        };
        proof {
            assert forall|answers: Seq<Datum>| self.hears(answers) implies exec_return(old(self)@, *stmt, answers) == (
                self@,
                ending(r),
            ) by {
                assert(evaluate(old(self)@, *stmt.1, answers) == (self@, outcome(r0)));
            }
        }
        r
    }

    pub fn visit_var<H: Host>(&mut self, host: &mut H, stmt: &Var) -> (r: Result<(), RuntimeBreak>)
        requires
            old(self)@.well_formed(),
        ensures
            final(self)@.well_formed(),
            final(self).heard_after(*old(self)),
            final(self)@.extends(old(self)@),
            forall|answers: Seq<Datum>|
                final(self).hears(answers) ==> #[trigger] exec_var(old(self)@, *stmt, answers) == (final(self)@, ending(r)),
        decreases old(self).steps, 7nat, 0nat,
    {
        let r0 = self.evaluate(host, &stmt.1);
        let ghost s1 = *self;
        let ghost o = outcome(r0);
        let value = match r0 {
            Ok(value) => value,
            Err(e) => {
                proof {
                    assert forall|answers: Seq<Datum>| self.hears(answers) implies exec_var(old(self)@, *stmt, answers) == (
                        self@,
                        Err::<(), Stop>(e@),
                    ) by {
                        assert(evaluate(old(self)@, *stmt.1, answers) == (self@, o));
                    }
                }
                return Err(e);
            },
        };
        self.define(stmt.0.lexeme.as_str(), value);
        proof {
            assert forall|answers: Seq<Datum>| self.hears(answers) implies exec_var(old(self)@, *stmt, answers) == (
                self@,
                Ok::<(), Stop>(()),
            ) by {
                assert(evaluate(old(self)@, *stmt.1, answers) == (s1@, o));
            }
        }
        Ok(())
    }

    pub fn visit_assign<H: Host>(&mut self, host: &mut H, expr: &Assign) -> (r: Result<
        Value,
        RuntimeBreak,
    >)
        requires
            old(self)@.well_formed(),
        ensures
            final(self)@.well_formed(),
            final(self).heard_after(*old(self)),
            final(self)@.extends(old(self)@),
            forall|answers: Seq<Datum>|
                final(self).hears(answers) ==> #[trigger] eval_assign(old(self)@, *expr, answers) == (final(self)@, outcome(r)),
        decreases old(self).steps, 7nat, 0nat,
    {
        let r0 = self.evaluate(host, &expr.1);
        let ghost s1 = *self;
        let value = match r0 {
            Ok(value) => value,
            Err(e) => {
                proof {
                    assert forall|answers: Seq<Datum>| self.hears(answers) implies eval_assign(old(self)@, *expr, answers) == (
                        self@,
                        Err::<Datum, Stop>(e@),
                    ) by {
                        assert(evaluate(old(self)@, *expr.1, answers) == (self@, outcome(r0)));
                    }
                }
                return Err(e);
            },
        };
        let r = match self.assign_variable(&expr.0, value.clone()) {
            Ok(_) => Ok(value),
            Err(e) => Err(e),
        };
        proof {
            assert forall|answers: Seq<Datum>| self.hears(answers) implies eval_assign(old(self)@, *expr, answers) == (
                self@,
                outcome(r),
            ) by {
                assert(evaluate(old(self)@, *expr.1, answers) == (s1@, outcome(r0)));
            }
        }
        r
    }

    pub fn visit_binary<H: Host>(&mut self, host: &mut H, expr: &Binary) -> (r: Result<
        Value,
        RuntimeBreak,
    >)
        requires
            old(self)@.well_formed(),
        ensures
            final(self)@.well_formed(),
            final(self).heard_after(*old(self)),
            final(self)@.extends(old(self)@),
            forall|answers: Seq<Datum>|
                final(self).hears(answers) ==> #[trigger] eval_binary(old(self)@, *expr, answers) == (final(self)@, outcome(r)),
        decreases old(self).steps, 7nat, 0nat,
    {
        let r0 = self.evaluate(host, &expr.0);
        let ghost s1 = *self;
        let left = match r0 {
            Ok(value) => value,
            Err(e) => {
                proof {
                    assert forall|answers: Seq<Datum>| self.hears(answers) implies eval_binary(old(self)@, *expr, answers) == (
                        self@,
                        Err::<Datum, Stop>(e@),
                    ) by {
                        assert(evaluate(old(self)@, *expr.0, answers) == (self@, outcome(r0)));
                    }
                }
                return Err(e);
            },
        };
        let r1 = self.evaluate(host, &expr.2);
        let ghost s2 = *self;
        let right = match r1 {
            Ok(value) => value,
            Err(e) => {
                proof {
                    assert forall|answers: Seq<Datum>| self.hears(answers) implies eval_binary(old(self)@, *expr, answers) == (
                        self@,
                        Err::<Datum, Stop>(e@),
                    ) by {
                        lemma_hears(s1, *self, answers);
                        assert(evaluate(old(self)@, *expr.0, answers) == (s1@, outcome(r0)));
                        assert(evaluate(s1@, *expr.2, answers) == (self@, outcome(r1)));
                    }
                }
                return Err(e);
            },
        };
        let r = self.binary_operation(host, &expr.1, &left, &right);
        proof {
            assert forall|answers: Seq<Datum>| self.hears(answers) implies eval_binary(old(self)@, *expr, answers) == (
                self@,
                outcome(r),
            ) by {
                lemma_hears(s2, *self, answers);
                lemma_hears(s1, s2, answers);
                assert(evaluate(old(self)@, *expr.0, answers) == (s1@, outcome(r0)));
                assert(evaluate(s1@, *expr.2, answers) == (s2@, outcome(r1)));
                assert(s2@.binary(*expr.1, left@, right@, answers) == (self@, outcome(r)));
            }
        }
        r
    }

    pub fn visit_grouping<H: Host>(&mut self, host: &mut H, expr: &Grouping) -> (r: Result<
        Value,
        RuntimeBreak,
    >)
        requires
            old(self)@.well_formed(),
        ensures
            final(self)@.well_formed(),
            final(self).heard_after(*old(self)),
            final(self)@.extends(old(self)@),
            forall|answers: Seq<Datum>|
                final(self).hears(answers) ==> #[trigger] evaluate(old(self)@, *expr.0, answers) == (final(self)@, outcome(r)),
        decreases old(self).steps, 7nat, 0nat,
    {
        self.evaluate(host, &expr.0)
    }

    /// `or` yields its left operand if that is truthy, `and` if it is
    /// falsy; only otherwise is the right operand evaluated.
    pub fn visit_logical<H: Host>(&mut self, host: &mut H, expr: &Logical) -> (r: Result<
        Value,
        RuntimeBreak,
    >)
        requires
            old(self)@.well_formed(),
        ensures
            final(self)@.well_formed(),
            final(self).heard_after(*old(self)),
            final(self)@.extends(old(self)@),
            forall|answers: Seq<Datum>|
                final(self).hears(answers) ==> #[trigger] eval_logical(old(self)@, *expr, answers) == (final(self)@, outcome(r)),
        decreases old(self).steps, 7nat, 0nat,
    {
        let r0 = self.evaluate(host, &expr.0);
        let ghost s1 = *self;
        let ghost o = outcome(r0);
        let left = match r0 {
            Ok(value) => value,
            Err(e) => {
                proof {
                    assert forall|answers: Seq<Datum>| self.hears(answers) implies eval_logical(old(self)@, *expr, answers) == (
                        self@,
                        Err::<Datum, Stop>(e@),
                    ) by {
                        assert(evaluate(old(self)@, *expr.0, answers) == (self@, o));
                    }
                }
                return Err(e);
            },
        };
        if Self::short_circuits(expr.1.token_type, &left) {
            proof {
                assert forall|answers: Seq<Datum>| self.hears(answers) implies eval_logical(old(self)@, *expr, answers) == (
                    self@,
                    Ok::<Datum, Stop>(left@),
                ) by {
                    assert(evaluate(old(self)@, *expr.0, answers) == (self@, o));
                }
            }
            return Ok(left);
        }
        let r = self.evaluate(host, &expr.2);
        proof {
            assert forall|answers: Seq<Datum>| self.hears(answers) implies eval_logical(old(self)@, *expr, answers) == (
                self@,
                outcome(r),
            ) by {
                lemma_hears(s1, *self, answers);
                assert(evaluate(old(self)@, *expr.0, answers) == (s1@, o));
                assert(evaluate(s1@, *expr.2, answers) == (self@, outcome(r)));
            }
        }
        r
    }

    pub fn visit_unary<H: Host>(&mut self, host: &mut H, expr: &Unary) -> (r: Result<
        Value,
        RuntimeBreak,
    >)
        requires
            old(self)@.well_formed(),
        ensures
            final(self)@.well_formed(),
            final(self).heard_after(*old(self)),
            final(self)@.extends(old(self)@),
            forall|answers: Seq<Datum>|
                final(self).hears(answers) ==> #[trigger] eval_unary(old(self)@, *expr, answers) == (final(self)@, outcome(r)),
        decreases old(self).steps, 7nat, 0nat,
    {
        let r0 = self.evaluate(host, &expr.1);
        let ghost o = outcome(r0);
        let r = match r0 {
            Ok(value) => Self::unary_operation(&expr.0, &value),
            Err(e) => Err(e),
        };
        proof {
            assert forall|answers: Seq<Datum>| self.hears(answers) implies eval_unary(old(self)@, *expr, answers) == (
                self@,
                outcome(r),
            ) by {
                assert(evaluate(old(self)@, *expr.1, answers) == (self@, o));
            }
        }
        r
    }

    pub fn visit_get<H: Host>(&mut self, host: &mut H, expr: &Get) -> (r: Result<
        Value,
        RuntimeBreak,
    >)
        requires
            old(self)@.well_formed(),
        ensures
            final(self)@.well_formed(),
            final(self).heard_after(*old(self)),
            final(self)@.extends(old(self)@),
            forall|answers: Seq<Datum>|
                final(self).hears(answers) ==> #[trigger] eval_get(old(self)@, *expr, answers) == (final(self)@, outcome(r)),
        decreases old(self).steps, 7nat, 0nat,
    {
        let r0 = self.evaluate(host, &expr.0);
        let ghost s1 = *self;
        let object = match r0 {
            Ok(value) => value,
            Err(e) => {
                proof {
                    assert forall|answers: Seq<Datum>| self.hears(answers) implies eval_get(old(self)@, *expr, answers) == (
                        self@,
                        Err::<Datum, Stop>(e@),
                    ) by {
                        assert(evaluate(old(self)@, *expr.0, answers) == (self@, outcome(r0)));
                    }
                }
                return Err(e);
            },
        };
        let r = self.get_property(&object, &expr.1);
        proof {
            assert forall|answers: Seq<Datum>| self.hears(answers) implies eval_get(old(self)@, *expr, answers) == (
                self@,
                outcome(r),
            ) by {
                assert(evaluate(old(self)@, *expr.0, answers) == (s1@, outcome(r0)));
            }
        }
        r
    }

    pub fn visit_set<H: Host>(&mut self, host: &mut H, expr: &SetField) -> (r: Result<
        Value,
        RuntimeBreak,
    >)
        requires
            old(self)@.well_formed(),
        ensures
            final(self)@.well_formed(),
            final(self).heard_after(*old(self)),
            final(self)@.extends(old(self)@),
            forall|answers: Seq<Datum>|
                final(self).hears(answers) ==> #[trigger] eval_set(old(self)@, *expr, answers) == (final(self)@, outcome(r)),
        decreases old(self).steps, 7nat, 0nat,
    {
        let r0 = self.evaluate(host, &expr.0);
        let ghost s1 = *self;
        let object = match r0 {
            Ok(value) => value,
            Err(e) => {
                proof {
                    assert forall|answers: Seq<Datum>| self.hears(answers) implies eval_set(old(self)@, *expr, answers) == (
                        self@,
                        Err::<Datum, Stop>(e@),
                    ) by {
                        assert(evaluate(old(self)@, *expr.0, answers) == (self@, outcome(r0)));
                    }
                }
                return Err(e);
            },
        };
        match object {
            Value::LoxInstance(instance) => {
                let r1 = self.evaluate(host, &expr.2);
                let ghost s2 = *self;
                let value = match r1 {
                    Ok(value) => value,
                    Err(e) => {
                        proof {
                            assert forall|answers: Seq<Datum>| self.hears(answers) implies eval_set(old(self)@, *expr, answers) == (
                                self@,
                                Err::<Datum, Stop>(e@),
                            ) by {
                                lemma_hears(s1, *self, answers);
                                assert(evaluate(old(self)@, *expr.0, answers) == (s1@, outcome(r0)));
                                assert(evaluate(s1@, *expr.2, answers) == (self@, outcome(r1)));
                            }
                        }
                        return Err(e);
                    },
                };
                let r = self.set_field(instance, &expr.1, value);
                proof {
                    assert forall|answers: Seq<Datum>| self.hears(answers) implies eval_set(old(self)@, *expr, answers) == (
                        self@,
                        outcome(r),
                    ) by {
                        lemma_hears(s1, s2, answers);
                        assert(evaluate(old(self)@, *expr.0, answers) == (s1@, outcome(r0)));
                        assert(evaluate(s1@, *expr.2, answers) == (s2@, outcome(r1)));
                    }
                }
                r
            },
            _ => {
                let r = Err(RuntimeBreak::error(&expr.1, "Only instances have fields."));
                proof {
                    assert forall|answers: Seq<Datum>| self.hears(answers) implies eval_set(old(self)@, *expr, answers) == (
                        self@,
                        outcome(r),
                    ) by {
                        assert(evaluate(old(self)@, *expr.0, answers) == (s1@, outcome(r0)));
                    }
                }
                r
            },
        }
    }

    #[verifier::loop_isolation(false)]
    pub fn visit_call<H: Host>(&mut self, host: &mut H, expr: &Call) -> (r: Result<
        Value,
        RuntimeBreak,
    >)
        requires
            old(self)@.well_formed(),
        ensures
            final(self)@.well_formed(),
            final(self).heard_after(*old(self)),
            final(self)@.extends(old(self)@),
            forall|answers: Seq<Datum>|
                final(self).hears(answers) ==> #[trigger] eval_call(old(self)@, *expr, answers) == (final(self)@, outcome(r)),
        decreases old(self).steps, 7nat, 0nat,
    {
        let r0 = self.evaluate(host, &expr.0);
        let ghost s1 = *self;
        let callee = match r0 {
            Ok(value) => value,
            Err(e) => {
                proof {
                    assert forall|answers: Seq<Datum>| self.hears(answers) implies eval_call(old(self)@, *expr, answers) == (
                        self@,
                        Err::<Datum, Stop>(e@),
                    ) by {
                        assert(evaluate(old(self)@, *expr.0, answers) == (self@, outcome(r0)));
                    }
                }
                return Err(e);
            },
        };
        let mut arguments: Vec<Value> = Vec::new();
        let mut i: usize = 0;
        proof {
            assert(expr.2@.skip(0) =~= expr.2@);
            assert(datums(arguments@) =~= Seq::<Datum>::empty());
        }
        while i < expr.2.len()
            invariant
                i <= expr.2@.len(),
                self@.well_formed(),
                self.heard_after(s1),
                self@.extends(s1@),
                forall|answers: Seq<Datum>|
                    self.hears(answers) ==> #[trigger] eval_arguments(
                        s1@,
                        expr.2@,
                        Seq::empty(),
                        answers,
                    ) == eval_arguments(
                        self@,
                        expr.2@.skip(i as int),
                        datums(arguments@),
                        answers,
                    ),
            decreases expr.2@.len() - i,
        {
            let ghost before = *self;
            let ghost done = arguments@;
            let a = self.evaluate(host, &expr.2[i]);
            proof {
                assert(expr.2@.skip(i as int)[0] == expr.2@[i as int]);
                assert(expr.2@.skip(i as int).skip(1) =~= expr.2@.skip(i + 1));
                assert forall|answers: Seq<Datum>| self.hears(answers) implies eval_arguments(
                    s1@,
                    expr.2@,
                    Seq::empty(),
                    answers,
                ) == (match a {
                    Ok(value) => eval_arguments(
                        self@,
                        expr.2@.skip(i + 1),
                        datums(done).push(value@),
                        answers,
                    ),
                    Err(e) => (self@, Err(e@)),
                }) by {
                    lemma_hears(before, *self, answers);
                    assert(eval_arguments(s1@, expr.2@, Seq::empty(), answers) == eval_arguments(
                        before@,
                        expr.2@.skip(i as int),
                        datums(done),
                        answers,
                    ));
                    assert(evaluate(before@, expr.2@[i as int], answers) == (self@, outcome(a)));
                }
            }
            match a {
                Ok(value) => {
                    proof {
                        lemma_datums_push(arguments@, value);
                    }
                    arguments.push(value);
                },
                Err(e) => {
                    proof {
                        assert forall|answers: Seq<Datum>| self.hears(answers) implies eval_call(
                            old(self)@,
                            *expr,
                            answers,
                        ) == (self@, Err::<Datum, Stop>(e@)) by {
                            lemma_hears(s1, *self, answers);
                            assert(evaluate(old(self)@, *expr.0, answers) == (s1@, outcome(r0)));
                            assert(eval_arguments(s1@, expr.2@, Seq::empty(), answers) == (
                                self@,
                                Err::<Seq<Datum>, Stop>(e@),
                            ));
                        }
                    }
                    return Err(e);
                },
            }
            i = i + 1;
        }
        let ghost s2 = *self;
        let r = self.invoke(host, &callee, &arguments, &expr.1);
        proof {
            assert(expr.2@.skip(i as int).len() == 0);
            assert forall|answers: Seq<Datum>| self.hears(answers) implies eval_call(
                old(self)@,
                *expr,
                answers,
            ) == (self@, outcome(r)) by {
                lemma_hears(s2, *self, answers);
                lemma_hears(s1, s2, answers);
                assert(evaluate(old(self)@, *expr.0, answers) == (s1@, outcome(r0)));
                assert(eval_arguments(s1@, expr.2@, Seq::empty(), answers) == eval_arguments(
                    s2@,
                    expr.2@.skip(i as int),
                    datums(arguments@),
                    answers,
                ));
                assert(eval_arguments(s1@, expr.2@, Seq::empty(), answers) == (
                    s2@,
                    Ok::<Seq<Datum>, Stop>(datums(arguments@)),
                ));
                assert(invoke(s2@, callee@, datums(arguments@), *expr.1, answers) == (
                    self@,
                    outcome(r),
                ));
            }
        }
        r
    }

    /// Calls a value with arguments. Only a function or a class can be
    /// called, and only with as many arguments as its arity.
    pub fn invoke<H: Host>(
        &mut self,
        host: &mut H,
        callee: &Value,
        arguments: &Vec<Value>,
        paren: &Token,
    ) -> (r: Result<Value, RuntimeBreak>)
        requires
            old(self)@.well_formed(),
        ensures
            final(self)@.well_formed(),
            final(self).heard_after(*old(self)),
            final(self)@.extends(old(self)@),
            forall|answers: Seq<Datum>|
                final(self).hears(answers) ==> #[trigger] invoke(
                    old(self)@,
                    callee@,
                    datums(arguments@),
                    *paren,
                    answers,
                ) == (final(self)@, outcome(r)),
        decreases old(self).steps, 5nat, 0nat,
    {
        match callee {
            Value::LoxFunction(function) => {
                match Self::check_arity(paren, function.arity(), arguments.len()) {
                    Ok(_) => {
                        let r = function.call(self, host, arguments);
                        proof {
                            assert forall|answers: Seq<Datum>| self.hears(answers) implies invoke(
                            old(self)@,
                            callee@,
                            datums(arguments@),
                            *paren,
                            answers,
                        ) == (
                                self@,
                                outcome(r),
                            ) by {
                                assert(call_function(old(self)@, *function, datums(arguments@), answers) == (
                                    self@,
                                    outcome(r),
                                ));
                            }
                        }
                        r
                    },
                    Err(e) => Err(e),
                }
            },
            Value::LoxClass(class) => {
                match Self::check_arity(paren, class.arity(&self.classes), arguments.len()) {
                    Ok(_) => {
                        let r = class.call(self, host, arguments);
                        proof {
                            assert forall|answers: Seq<Datum>| self.hears(answers) implies invoke(
                            old(self)@,
                            callee@,
                            datums(arguments@),
                            *paren,
                            answers,
                        ) == (
                                self@,
                                outcome(r),
                            ) by {
                                assert(call_class(old(self)@, *class, datums(arguments@), answers) == (
                                    self@,
                                    outcome(r),
                                ));
                            }
                        }
                        r
                    },
                    Err(e) => Err(e),
                }
            },
            _ => Err(RuntimeBreak::error(paren, "Can only call functions and classes.")),
        }
    }

    /// Asks the host to run a native function.
    pub fn ask_native<H: Host>(&mut self, host: &mut H, native: usize, arguments: &Vec<Value>) -> (r:
        Value)
        ensures
            final(self).host@ == old(self).host@.push(
                Exchange { question: Question::Native(native, datums(arguments@)), answer: r@ },
            ),
            final(self).globals == old(self).globals,
            final(self).environment == old(self).environment,
            final(self).locals == old(self).locals,
            final(self).scopes == old(self).scopes,
            final(self).classes == old(self).classes,
            final(self).output == old(self).output,
            final(self).steps == old(self).steps,
    {
        let literal = host.call_native(native, arguments);
        let r = literal.value();
        proof {
            self.host@ = self.host@.push(
                Exchange { question: Question::Native(native, datums(arguments@)), answer: r@ },
            );
        }
        r
    }
}

impl Function {
    /// Calls the function. A native is computed by the host. A declared
    /// function runs its body in a new scope that lies inside the
    /// function's closure, not inside the caller's scope, and that binds
    /// the parameters to the arguments.
    pub fn call<H: Host>(
        &self,
        interpreter: &mut Interpreter,
        host: &mut H,
        arguments: &Vec<Value>,
    ) -> (r: Result<Value, RuntimeBreak>)
        requires
            old(interpreter)@.well_formed(),
        ensures
            final(interpreter)@.well_formed(),
            final(interpreter).heard_after(*old(interpreter)),
            final(interpreter)@.extends(old(interpreter)@),
            forall|answers: Seq<Datum>|
                final(interpreter).hears(answers) ==> #[trigger] call_function(
                    old(interpreter)@,
                    *self,
                    datums(arguments@),
                    answers,
                ) == (final(interpreter)@, outcome(r)),
        decreases old(interpreter).steps, 3nat, 0nat,
    {
        match &self.body {
            FunctionBody::Native(native) => {
                let value = interpreter.ask_native(host, *native, arguments);
                proof {
                    assert forall|answers: Seq<Datum>|
                        interpreter.hears(answers) implies call_function(
                        old(interpreter)@,
                        *self,
                        datums(arguments@),
                        answers,
                    ) == (interpreter@, Ok::<Datum, Stop>(value@)) by {
                        lemma_asked(
                            *old(interpreter),
                            *interpreter,
                            Question::Native(*native, datums(arguments@)),
                            value@,
                            answers,
                        );
                    }
                }
                Ok(value)
            },
            FunctionBody::Declared { declaration, closure, is_initializer } => {
                let mut environment = Environment::new(*closure);
                let mut i: usize = 0;
                while i < declaration.1.len() && i < arguments.len()
                    invariant
                        i <= declaration.1@.len(),
                        i <= arguments@.len(),
                        environment@ == (Frame {
                            enclosing: *closure,
                            values: bound_first(declaration.1@, datums(arguments@), i as nat),
                        }),
                    decreases declaration.1@.len() - i,
                {
                    environment.define(declaration.1[i].lexeme.as_str(), arguments[i].clone());
                    i = i + 1;
                }
                assert(environment@ == call_frame(*declaration, *closure, datums(arguments@)));
                let ghost frame = environment@;
                let ended = interpreter.execute_block(host, &declaration.2, environment);
                let r = interpreter.finish_call(*closure, *is_initializer, ended);
                proof {
                    assert forall|answers: Seq<Datum>|
                        interpreter.hears(answers) implies call_function(
                        old(interpreter)@,
                        *self,
                        datums(arguments@),
                        answers,
                    ) == (interpreter@, outcome(r)) by {
                        assert(execute_block(old(interpreter)@, declaration.2@, frame, answers)
                            == (interpreter@, ending(ended)));
                    }
                }
                r
            },
        }
    }
}

impl Class {
    /// Calls the class: makes a new instance and, if the class has an
    /// initializer, runs it bound to the instance. The call yields the
    /// instance, whatever the initializer returns.
    pub fn call<H: Host>(
        &self,
        interpreter: &mut Interpreter,
        host: &mut H,
        arguments: &Vec<Value>,
    ) -> (r: Result<Value, RuntimeBreak>)
        requires
            old(interpreter)@.well_formed(),
        ensures
            final(interpreter)@.well_formed(),
            final(interpreter).heard_after(*old(interpreter)),
            final(interpreter)@.extends(old(interpreter)@),
            forall|answers: Seq<Datum>|
                final(interpreter).hears(answers) ==> #[trigger] call_class(
                    old(interpreter)@,
                    *self,
                    datums(arguments@),
                    answers,
                ) == (final(interpreter)@, outcome(r)),
        decreases old(interpreter).steps, 4nat, 0nat,
    {
        let instance = Instance::new(&mut interpreter.classes, *self);
        let key = String::from_str("init");
        let bound = match ClassCore::find_method(&interpreter.classes, self.core, &key) {
            Some(initializer) => Some(initializer.bind(&mut interpreter.scopes, instance)),
            None => None,
        };
        let ghost s1 = *interpreter;
        match bound {
            Some(initializer) => {
                let called = initializer.call(interpreter, host, arguments);
                let r = match called {
                    Ok(_) => Ok(Value::LoxInstance(instance)),
                    Err(e) => Err(e),
                };
                proof {
                    assert forall|answers: Seq<Datum>|
                        interpreter.hears(answers) implies call_class(
                        old(interpreter)@,
                        *self,
                        datums(arguments@),
                        answers,
                    ) == (interpreter@, outcome(r)) by {
                        assert(call_function(s1@, initializer, datums(arguments@), answers) == (
                            interpreter@,
                            outcome(called),
                        ));
                    }
                }
                r
            },
            None => Ok(Value::LoxInstance(instance)),
        }
    }
}

} // verus!
