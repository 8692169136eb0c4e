//! The rules of evaluation: what a program does to the state of an
//! interpreter, given what the host answers when it is asked.

use crate::class::{class_arity, class_name, method_of, with_class, Class, ClassModel};
use crate::environment::{bound, holder, holder_at, reading, writing, Frame};
use crate::errors::{error_at, undefined_variable, Stop};
use crate::expr::{Assign, Binary, Call, Expr, Get, Logical, SetField, Super, Unary};
use crate::function::{Function, FunctionBody};
use crate::instance::{property, with_field, with_instance, Instance};
use crate::number::{is_zero, number_le, number_lt, number_neg};
use crate::stmt::{Expression, Fun, If, Print, Return, Stmt, Var, While};
use crate::text::natural_text;
use crate::token::{Token, TokenType};
use crate::value::{literal_datum, Datum};
use std::rc::Rc;
use vstd::prelude::*;

verus! {

/// One entry of the distance table: a variable use and the number of
/// scopes between it and its binding.
pub struct Local {
    pub token: Token,
    pub depth: usize,
}

/// The distance recorded for the use site `token`: that of the latest
/// entry for the site.
pub open spec fn distance_of(locals: Seq<Local>, token: Token) -> Option<usize>
    decreases locals.len(),
{
    if locals.len() == 0 {
        None
    } else if locals.last().token.same_site(token) {
        Some(locals.last().depth)
    } else {
        distance_of(locals.drop_last(), token)
    }
}

/// What the evaluator asks of its host.
pub enum Question {
    /// The sum, difference, product or quotient of two doubles, by the
    /// operator's token type.
    Arithmetic(TokenType, u64, u64),
    /// How a double is printed.
    Spell(u64),
    /// The result of a native function on arguments.
    Native(usize, Seq<Datum>),
}

/// A question that was asked, with the host's answer.
pub struct Exchange {
    pub question: Question,
    pub answer: Datum,
}

/// What an interpreter is, as the rules of evaluation see it.
pub struct State {
    pub globals: usize,
    pub environment: usize,
    pub locals: Seq<Local>,
    pub scopes: Seq<Frame>,
    pub classes: Seq<ClassModel>,
    pub output: Seq<Seq<char>>,
    pub steps: u64,
    /// The questions asked of the host so far.
    pub asked: Seq<Question>,
}

pub type Evaluation = (State, Result<Datum, Stop>);

pub type Execution = (State, Result<(), Stop>);

pub open spec fn operand_text() -> Seq<char> {
    "Operand must be a number."@
}

pub open spec fn arity_text(arity: nat, count: nat) -> Seq<char> {
    "Expected "@ + natural_text(arity) + " arguments but got "@ + natural_text(count) + "."@
}

pub open spec fn undefined_method_text(name: Seq<char>) -> Seq<char> {
    "Undefined property '"@ + name + "'."@
}

/// Whether `t` is one of `>`, `>=`, `<`, `<=`.
pub open spec fn is_comparison(t: TokenType) -> bool {
    t == TokenType::GREATER || t == TokenType::GREATER_EQUAL || t == TokenType::LESS || t
        == TokenType::LESS_EQUAL
}

/// Whether the comparison `t` holds of the doubles `a` and `b`.
pub open spec fn comparison_holds(t: TokenType, a: u64, b: u64) -> bool {
    match t {
        TokenType::GREATER => number_lt(b, a),
        TokenType::GREATER_EQUAL => number_le(b, a),
        TokenType::LESS => number_lt(a, b),
        TokenType::LESS_EQUAL => number_le(a, b),
        _ => false,
    }
}

/// Whether a binary operation is one that the host computes: `+`, `-`,
/// `*` on two numbers, or `/` on two numbers of which the second is not
/// zero.
pub open spec fn asks_host(t: TokenType, left: Datum, right: Datum) -> bool {
    left is Number && right is Number && (t == TokenType::PLUS || t == TokenType::MINUS || t
        == TokenType::STAR || (t == TokenType::SLASH && !is_zero(right->Number_0)))
}

/// The result of a binary operation that the evaluator decides alone.
pub open spec fn binary_plain(operator: Token, left: Datum, right: Datum) -> Result<
    Datum,
    Stop,
> {
    let t = operator.token_type;
    if t == TokenType::EQUAL_EQUAL {
        Ok(Datum::Boolean(left.same(right)))
    } else if t == TokenType::BANG_EQUAL {
        Ok(Datum::Boolean(!left.same(right)))
    } else if t == TokenType::PLUS {
        match (left, right) {
            (Datum::Text(a), Datum::Text(b)) => Ok(Datum::Text(a + b)),
            _ => Err(error_at(operator, "Operands must be numbers or strings."@)),
        }
    } else if is_comparison(t) {
        match (left, right) {
            (Datum::Number(a), Datum::Number(b)) => Ok(Datum::Boolean(comparison_holds(t, a, b))),
            _ => Err(error_at(operator, operand_text())),
        }
    } else if t == TokenType::MINUS || t == TokenType::STAR || t == TokenType::SLASH {
        if left is Number && right is Number {
            Err(error_at(operator, "Devided by 0"@))
        } else {
            Err(error_at(operator, operand_text()))
        }
    } else {
        Err(error_at(operator, "Invalid binary operator."@))
    }
}

/// The result of a unary operation.
pub open spec fn unary(operator: Token, right: Datum) -> Result<Datum, Stop> {
    if operator.token_type == TokenType::BANG {
        Ok(Datum::Boolean(!right.truthy()))
    } else if operator.token_type == TokenType::MINUS {
        match right {
            Datum::Number(n) => Ok(Datum::Number(number_neg(n))),
            _ => Err(error_at(operator, operand_text())),
        }
    } else {
        Err(error_at(operator, "Invalid unary operator."@))
    }
}

/// Whether the left operand of a logical operator decides the result:
/// `or` yields a truthy left operand, `and` a falsy one.
pub open spec fn short_circuits(operator: TokenType, left: Datum) -> bool {
    (operator == TokenType::OR) == left.truthy()
}

/// Whether a call with `count` arguments fits a callee of the given
/// arity; the error names both numbers.
pub open spec fn arity_checked(paren: Token, arity: usize, count: nat) -> Result<(), Stop> {
    if arity == count {
        Ok(())
    } else {
        Err(error_at(paren, arity_text(arity as nat, count)))
    }
}

/// How a value other than a number is printed.
pub open spec fn datum_text(classes: Seq<ClassModel>, value: Datum) -> Seq<char> {
    match value {
        Datum::Nil => "nil"@,
        Datum::Boolean(b) => if b {
            "true"@
        } else {
            "false"@
        },
        Datum::Number(_) => ""@,
        Datum::Text(s) => s,
        Datum::Function(f) => "#<Function: "@ + f.name@ + ">"@,
        Datum::Class(c) => "#<Class: "@ + class_name(classes, c) + ">"@,
        Datum::Instance(i) => "#<Instance of "@ + class_name(classes, i.class) + ">"@,
    }
}

/// The bindings of the first `n` parameters to the first `n` arguments.
pub open spec fn bound_first(params: Seq<Token>, arguments: Seq<Datum>, n: nat) -> Map<
    Seq<char>,
    Datum,
>
    decreases n,
{
    if n == 0 || n > params.len() || n > arguments.len() {
        Map::empty()
    } else {
        bound_first(params, arguments, (n - 1) as nat).insert(
            params[n - 1].lexeme@,
            arguments[n - 1],
        )
    }
}

/// The scope of a call: the parameters bound to the arguments, inside the
/// function's closure.
pub open spec fn call_frame(
    declaration: Rc<Fun>,
    closure: Option<usize>,
    arguments: Seq<Datum>,
) -> Frame {
    let n = if declaration.1@.len() <= arguments.len() {
        declaration.1@.len()
    } else {
        arguments.len()
    };
    Frame { enclosing: closure, values: bound_first(declaration.1@, arguments, n) }
}

/// The instance that a bound method finds as `this` in its closure.
pub open spec fn this_of(scopes: Seq<Frame>, closure: Option<usize>) -> Datum {
    match closure {
        Some(scope) => if scope < scopes.len() && scopes[scope as int].values.contains_key(
            "this"@,
        ) {
            scopes[scope as int].values["this"@]
        } else {
            Datum::Nil
        },
        None => Datum::Nil,
    }
}

/// What a call of a declared function yields, given how its body ended:
/// the returned value, or nil at the end of the body; an initializer
/// yields the instance, `this`, either way. An error passes through.
pub open spec fn call_result(is_initializer: bool, ended: Result<(), Stop>, this: Datum) -> Result<
    Datum,
    Stop,
> {
    match ended {
        Ok(_) => Ok(
            if is_initializer {
                this
            } else {
                Datum::Nil
            },
        ),
        Err(Stop::Return { value }) => Ok(
            if is_initializer {
                this
            } else {
                value
            },
        ),
        Err(stop) => Err(stop),
    }
}

/// The function that a declaration makes where `scope` is current.
pub open spec fn declared_function(declaration: Rc<Fun>, scope: usize, is_initializer: bool) -> Function {
    Function {
        name: declaration.0.lexeme,
        arity_nr: declaration.1@.len() as usize,
        body: FunctionBody::Declared { declaration, closure: Some(scope), is_initializer },
    }
}

/// The method table of a class body whose methods close over `scope`; a
/// later method of a name replaces an earlier one, and the method named
/// `init` is the initializer. There is no table if the body holds
/// anything but functions.
pub open spec fn declared_methods(body: Seq<Stmt>, scope: usize) -> Option<
    Map<Seq<char>, Function>,
>
    decreases body.len(),
{
    if body.len() == 0 {
        Some(Map::empty())
    } else {
        match (declared_methods(body.drop_last(), scope), body.last()) {
            (Some(methods), Stmt::Fun_(declaration)) => Some(
                methods.insert(
                    declaration.0.lexeme@,
                    declared_function(declaration, scope, declaration.0.lexeme@ == "init"@),
                ),
            ),
            _ => None,
        }
    }
}

/// A body has no method table if a part of it from the start has none.
pub proof fn lemma_declared_methods_none(body: Seq<Stmt>, scope: usize, i: int)
    requires
        0 <= i <= body.len(),
        declared_methods(body.take(i), scope) is None,
    ensures
        declared_methods(body, scope) is None,
    decreases body.len() - i,
{
    if i == body.len() {
        assert(body.take(i) =~= body);
    } else {
        assert(body.drop_last().take(i) =~= body.take(i));
        lemma_declared_methods_none(body.drop_last(), scope, i);
    }
}

impl State {
    /// One step of the budget is spent.
    pub open spec fn tick(self) -> State {
        State { steps: (self.steps - 1) as u64, ..self }
    }

    pub open spec fn with_scopes(self, scopes: Seq<Frame>) -> State {
        State { scopes, ..self }
    }

    pub open spec fn with_classes(self, classes: Seq<ClassModel>) -> State {
        State { classes, ..self }
    }

    pub open spec fn within(self, environment: usize) -> State {
        State { environment, ..self }
    }

    /// A line is printed.
    pub open spec fn printed(self, line: Seq<char>) -> State {
        State { output: self.output.push(line), ..self }
    }

    /// The host is asked a question; its answer is the next of `answers`.
    pub open spec fn ask(self, question: Question, answers: Seq<Datum>) -> (State, Datum) {
        (
            State { asked: self.asked.push(question), ..self },
            if self.asked.len() < answers.len() {
                answers[self.asked.len() as int]
            } else {
                Datum::Nil
            },
        )
    }

    /// What evaluation may do to a state: `self` comes after `before`.
    /// The current scope is restored, the distance table is not touched,
    /// the budget does not grow, no scope changes its place in the chain,
    /// no class changes its declaration, no instance is lost, what was
    /// printed stays printed, and what was asked stays asked.
    pub open spec fn extends(self, before: State) -> bool {
        &&& self.globals == before.globals
        &&& self.environment == before.environment
        &&& self.locals == before.locals
        &&& self.steps <= before.steps
        &&& before.scopes.len() <= self.scopes.len()
        &&& forall|i: int|
            0 <= i < before.scopes.len() ==> (#[trigger] self.scopes[i]).enclosing
                == before.scopes[i].enclosing
        &&& before.classes.len() <= self.classes.len()
        &&& forall|c: int|
            0 <= c < before.classes.len() ==> {
                &&& (#[trigger] self.classes[c]).name == before.classes[c].name
                &&& self.classes[c].superclass == before.classes[c].superclass
                &&& self.classes[c].methods == before.classes[c].methods
                &&& before.classes[c].pool.len() <= self.classes[c].pool.len()
            }
        &&& before.output.len() <= self.output.len()
        &&& forall|i: int|
            0 <= i < before.output.len() ==> (#[trigger] self.output[i]) == before.output[i]
        &&& before.asked.len() <= self.asked.len()
        &&& forall|i: int|
            0 <= i < before.asked.len() ==> (#[trigger] self.asked[i]) == before.asked[i]
    }

    /// The current scope and the global scope exist.
    pub open spec fn well_formed(self) -> bool {
        self.environment < self.scopes.len() && self.globals < self.scopes.len()
    }

    /// The scope that the use site `name` refers to: the one at the
    /// recorded distance from the current scope, or, without a recorded
    /// distance, the global scope; none if that scope does not bind the
    /// name.
    pub open spec fn target(self, name: Token) -> Option<int> {
        match distance_of(self.locals, name) {
            Some(d) => holder_at(self.scopes, self.environment as int, d as nat, name.lexeme@),
            None => holder(self.scopes, self.globals as int, name.lexeme@),
        }
    }

    /// The value of the variable use `name`.
    pub open spec fn variable(self, name: Token) -> Result<Datum, Stop> {
        reading(self.scopes, self.target(name), name)
    }

    /// Writing the variable that the use site `name` refers to.
    pub open spec fn assigned(self, name: Token, value: Datum) -> Execution {
        let (scopes, r) = writing(self.scopes, self.target(name), name, value);
        (self.with_scopes(scopes), r)
    }

    /// Binding `name` in the current scope.
    pub open spec fn defined(self, name: Seq<char>, value: Datum) -> State {
        self.with_scopes(bound(self.scopes, self.environment as int, name, value))
    }

    /// Reading a property of a value. Only an instance has properties.
    pub open spec fn property(self, object: Datum, name: Token) -> Evaluation {
        match object {
            Datum::Instance(instance) => {
                let (scopes, r) = property(self.classes, self.scopes, instance, name);
                (self.with_scopes(scopes), r)
            },
            _ => (self, Err(error_at(name, "Only instances have properties."@))),
        }
    }

    /// Writing a field of an instance; the expression yields nil.
    pub open spec fn field_set(self, instance: Instance, name: Token, value: Datum) -> Evaluation {
        let (classes, r) = with_field(self.classes, instance, name, value);
        (
            self.with_classes(classes),
            match r {
                Ok(_) => Ok(Datum::Nil),
                Err(stop) => Err(stop),
            },
        )
    }

    /// A binary operation on two values. Arithmetic on numbers is asked
    /// of the host; everything else is decided here.
    pub open spec fn binary(self, operator: Token, left: Datum, right: Datum, answers: Seq<Datum>) -> Evaluation {
        if asks_host(operator.token_type, left, right) {
            let (s, answer) = self.ask(
                Question::Arithmetic(operator.token_type, left->Number_0, right->Number_0),
                answers,
            );
            (
                s,
                Ok(
                    Datum::Number(
                        match answer {
                            Datum::Number(n) => n,
                            _ => 0,
                        },
                    ),
                ),
            )
        } else {
            (self, binary_plain(operator, left, right))
        }
    }

    /// Printing a value. A number is spelled by the host.
    pub open spec fn emit(self, value: Datum, answers: Seq<Datum>) -> State {
        match value {
            Datum::Number(n) => {
                let (s, answer) = self.ask(Question::Spell(n), answers);
                s.printed(
                    match answer {
                        Datum::Text(text) => text,
                        _ => ""@,
                    },
                )
            },
            _ => self.printed(datum_text(self.classes, value)),
        }
    }

    /// `super.method`: `super` is read at its recorded distance and `this`
    /// one scope nearer; the method is looked up from the superclass on
    /// and bound to the instance that `this` names.
    pub open spec fn super_method(self, expr: Super) -> Evaluation {
        let keyword = *expr.0;
        let env = self.environment as int;
        match distance_of(self.locals, keyword) {
            None => (self, Err(undefined_variable(keyword))),
            Some(d) => match holder_at(self.scopes, env, d as nat, keyword.lexeme@) {
                None => (self, Err(undefined_variable(keyword))),
                Some(up) => if d == 0 {
                    (self, Err(error_at(keyword, "Undefined variable 'this'."@)))
                } else {
                    match holder_at(self.scopes, env, (d - 1) as nat, "this"@) {
                        None => (self, Err(error_at(keyword, "Undefined variable 'this'."@))),
                        Some(near) => match (
                            self.scopes[up].values[keyword.lexeme@],
                            self.scopes[near].values["this"@],
                        ) {
                            (Datum::Class(class), Datum::Instance(instance)) => match method_of(
                                self.classes,
                                class.core as int,
                                expr.1.lexeme@,
                            ) {
                                Some(method) => (
                                    self.with_scopes(method.binding(self.scopes, instance)),
                                    Ok(
                                        Datum::Function(
                                            method.bound_to(self.scopes.len() as usize),
                                        ),
                                    ),
                                ),
                                None => (
                                    self,
                                    Err(error_at(*expr.1, undefined_method_text(expr.1.lexeme@))),
                                ),
                            },
                            _ => (
                                self,
                                Err(
                                    error_at(
                                        keyword,
                                        "[BUG] Superclass isnt a Class || This isnt a instance."@,
                                    ),
                                ),
                            ),
                        },
                    }
                },
            },
        }
    }

    /// The declaration of a class with the given superclass. The methods
    /// close over the current scope, or, in a subclass, over a new scope
    /// inside it that binds `super`. The new class is the youngest, and
    /// the class's name is bound to it in the current scope. A body that
    /// holds anything but functions is an error, and nothing changes.
    pub open spec fn declares(self, stmt: crate::stmt::Class, superclass: Option<Class>) -> Execution {
        let scope = if superclass is Some {
            self.scopes.len() as usize
        } else {
            self.environment
        };
        match declared_methods(stmt.2@, scope) {
            None => (
                self,
                Err(error_at(*stmt.0, "[BUG] Included a stmt that is ot a function."@)),
            ),
            Some(methods) => {
                let scopes = match superclass {
                    Some(parent) => self.scopes.push(
                        Frame {
                            enclosing: Some(self.environment),
                            values: Map::<Seq<char>, Datum>::empty().insert(
                                "super"@,
                                Datum::Class(parent),
                            ),
                        },
                    ),
                    None => self.scopes,
                };
                (
                    State {
                        scopes: bound(
                            scopes,
                            self.environment as int,
                            stmt.0.lexeme@,
                            Datum::Class(Class { core: self.classes.len() as usize }),
                        ),
                        classes: with_class(self.classes, stmt.0.lexeme@, methods, superclass),
                        ..self
                    },
                    Ok(()),
                )
            },
        }
    }

    /// A class declaration: the superclass, if one is named, is the class
    /// that the name's variable holds.
    pub open spec fn class_declared(self, stmt: crate::stmt::Class) -> Execution {
        match stmt.1 {
            None => self.declares(stmt, None),
            Some(expr) => match *expr {
                Expr::Variable_(var) => match self.variable(*var.0) {
                    Ok(Datum::Class(parent)) => self.declares(stmt, Some(parent)),
                    Ok(_) => (self, Err(error_at(*var.0, "Superclass must be a class."@))),
                    Err(stop) => (self, Err(stop)),
                },
                _ => (self, Err(error_at(*stmt.0, "[BUG] Not a variable."@))),
            },
        }
    }

    /// A function declaration: the name is bound, in the current scope, to
    /// the function that closes over that very scope.
    pub open spec fn function_declared(self, declaration: Rc<Fun>) -> State {
        self.defined(
            declaration.0.lexeme@,
            Datum::Function(declared_function(declaration, self.environment, false)),
        )
    }
}

/// Evaluating an expression costs one step; without a step left,
/// evaluation stops.
pub open spec fn evaluate(st: State, expr: Expr, answers: Seq<Datum>) -> Evaluation
    decreases st.steps, 0nat, 0nat,
{
    if st.steps == 0 {
        (st, Err(Stop::StepLimit))
    } else {
        let s = st.tick();
        match expr {
            Expr::Assign_(e) => eval_assign(s, e, answers),
            Expr::Binary_(e) => eval_binary(s, e, answers),
            Expr::Call_(e) => eval_call(s, e, answers),
            Expr::Get_(e) => eval_get(s, e, answers),
            Expr::Grouping_(e) => evaluate(s, *e.0, answers),
            Expr::Literal_(e) => (s, Ok(literal_datum(*e.0))),
            Expr::Logical_(e) => eval_logical(s, e, answers),
            Expr::Set_(e) => eval_set(s, e, answers),
            Expr::Super_(e) => s.super_method(e),
            Expr::This_(e) => (s, s.variable(*e.0)),
            Expr::Unary_(e) => eval_unary(s, e, answers),
            Expr::Variable_(e) => (s, s.variable(*e.0)),
            Expr::Null => (s, Ok(Datum::Nil)),
        }
    }
}

/// An assignment yields the value assigned.
pub open spec fn eval_assign(st: State, expr: Assign, answers: Seq<Datum>) -> Evaluation
    decreases st.steps, 7nat, 0nat,
{
    let (s1, r) = evaluate(st, *expr.1, answers);
    match r {
        Err(stop) => (s1, Err(stop)),
        Ok(value) => {
            let (s2, done) = s1.assigned(*expr.0, value);
            match done {
                Ok(_) => (s2, Ok(value)),
                Err(stop) => (s2, Err(stop)),
            }
        },
    }
}

/// Both operands are evaluated, the left one first.
pub open spec fn eval_binary(st: State, expr: Binary, answers: Seq<Datum>) -> Evaluation
    decreases st.steps, 7nat, 0nat,
{
    let (s1, left) = evaluate(st, *expr.0, answers);
    match left {
        Err(stop) => (s1, Err(stop)),
        Ok(l) => if s1.steps <= st.steps {
            let (s2, right) = evaluate(s1, *expr.2, answers);
            match right {
                Err(stop) => (s2, Err(stop)),
                Ok(r) => s2.binary(*expr.1, l, r, answers),
            }
        } else {
            (s1, Err(Stop::StepLimit))
        },
    }
}

pub open spec fn eval_unary(st: State, expr: Unary, answers: Seq<Datum>) -> Evaluation
    decreases st.steps, 7nat, 0nat,
{
    let (s1, right) = evaluate(st, *expr.1, answers);
    match right {
        Err(stop) => (s1, Err(stop)),
        Ok(r) => (s1, unary(*expr.0, r)),
    }
}

/// The right operand is evaluated only if the left one does not decide.
pub open spec fn eval_logical(st: State, expr: Logical, answers: Seq<Datum>) -> Evaluation
    decreases st.steps, 7nat, 0nat,
{
    let (s1, left) = evaluate(st, *expr.0, answers);
    match left {
        Err(stop) => (s1, Err(stop)),
        Ok(l) => if short_circuits(expr.1.token_type, l) {
            (s1, Ok(l))
        } else if s1.steps <= st.steps {
            evaluate(s1, *expr.2, answers)
        } else {
            (s1, Err(Stop::StepLimit))
        },
    }
}

pub open spec fn eval_get(st: State, expr: Get, answers: Seq<Datum>) -> Evaluation
    decreases st.steps, 7nat, 0nat,
{
    let (s1, object) = evaluate(st, *expr.0, answers);
    match object {
        Err(stop) => (s1, Err(stop)),
        Ok(o) => s1.property(o, *expr.1),
    }
}

/// The value is evaluated only if the object is an instance.
pub open spec fn eval_set(st: State, expr: SetField, answers: Seq<Datum>) -> Evaluation
    decreases st.steps, 7nat, 0nat,
{
    let (s1, object) = evaluate(st, *expr.0, answers);
    match object {
        Err(stop) => (s1, Err(stop)),
        Ok(Datum::Instance(instance)) => if s1.steps <= st.steps {
            let (s2, value) = evaluate(s1, *expr.2, answers);
            match value {
                Err(stop) => (s2, Err(stop)),
                Ok(v) => s2.field_set(instance, *expr.1, v),
            }
        } else {
            (s1, Err(Stop::StepLimit))
        },
        Ok(_) => (s1, Err(error_at(*expr.1, "Only instances have fields."@))),
    }
}

/// The arguments, evaluated from left to right, after `done`.
pub open spec fn eval_arguments(
    st: State,
    exprs: Seq<Expr>,
    done: Seq<Datum>,
    answers: Seq<Datum>,
) -> (State, Result<Seq<Datum>, Stop>)
    decreases st.steps, 6nat, exprs.len(),
{
    if exprs.len() == 0 {
        (st, Ok(done))
    } else {
        let (s1, first) = evaluate(st, exprs[0], answers);
        match first {
            Err(stop) => (s1, Err(stop)),
            Ok(value) => if s1.steps <= st.steps {
                eval_arguments(s1, exprs.skip(1), done.push(value), answers)
            } else {
                (s1, Err(Stop::StepLimit))
            },
        }
    }
}

/// A call: the callee, then the arguments, then the invocation.
pub open spec fn eval_call(st: State, expr: Call, answers: Seq<Datum>) -> Evaluation
    decreases st.steps, 7nat, 0nat,
{
    let (s1, callee) = evaluate(st, *expr.0, answers);
    match callee {
        Err(stop) => (s1, Err(stop)),
        Ok(c) => if s1.steps <= st.steps {
            let (s2, arguments) = eval_arguments(s1, expr.2@, Seq::empty(), answers);
            match arguments {
                Err(stop) => (s2, Err(stop)),
                Ok(a) => if s2.steps <= st.steps {
                    invoke(s2, c, a, *expr.1, answers)
                } else {
                    (s2, Err(Stop::StepLimit))
                },
            }
        } else {
            (s1, Err(Stop::StepLimit))
        },
    }
}

/// Calling a value. Only a function or a class can be called, and only
/// with as many arguments as its arity.
pub open spec fn invoke(
    st: State,
    callee: Datum,
    arguments: Seq<Datum>,
    paren: Token,
    answers: Seq<Datum>,
) -> Evaluation
    decreases st.steps, 5nat, 0nat,
{
    match callee {
        Datum::Function(function) => match arity_checked(
            paren,
            function.arity_nr,
            arguments.len(),
        ) {
            Ok(_) => call_function(st, function, arguments, answers),
            Err(stop) => (st, Err(stop)),
        },
        Datum::Class(class) => match arity_checked(
            paren,
            class_arity(st.classes, class),
            arguments.len(),
        ) {
            Ok(_) => call_class(st, class, arguments, answers),
            Err(stop) => (st, Err(stop)),
        },
        _ => (st, Err(error_at(paren, "Can only call functions and classes."@))),
    }
}

/// Calling a function. A native is computed by the host. A declared
/// function runs its body in a new scope that lies inside the function's
/// closure, not inside the caller's scope.
pub open spec fn call_function(
    st: State,
    function: Function,
    arguments: Seq<Datum>,
    answers: Seq<Datum>,
) -> Evaluation
    decreases st.steps, 3nat, 0nat,
{
    match function.body {
        FunctionBody::Native(native) => {
            let (s, answer) = st.ask(Question::Native(native, arguments), answers);
            (s, Ok(answer))
        },
        FunctionBody::Declared { declaration, closure, is_initializer } => {
            let (s, ended) = execute_block(
                st,
                declaration.2@,
                call_frame(declaration, closure, arguments),
                answers,
            );
            (s, call_result(is_initializer, ended, this_of(s.scopes, closure)))
        },
    }
}

/// Calling a class: a new instance is made and, if the class has an
/// initializer, the initializer runs, bound to the instance. The call
/// yields the instance, whatever the initializer returns.
pub open spec fn call_class(st: State, class: Class, arguments: Seq<Datum>, answers: Seq<Datum>) -> Evaluation
    decreases st.steps, 4nat, 0nat,
{
    let (classes, instance) = with_instance(st.classes, class);
    let s0 = st.with_classes(classes);
    match method_of(s0.classes, class.core as int, "init"@) {
        Some(initializer) => {
            let s1 = s0.with_scopes(initializer.binding(s0.scopes, instance));
            let (s2, r) = call_function(
                s1,
                initializer.bound_to(s0.scopes.len() as usize),
                arguments,
                answers,
            );
            match r {
                Ok(_) => (s2, Ok(Datum::Instance(instance))),
                Err(stop) => (s2, Err(stop)),
            }
        },
        None => (s0, Ok(Datum::Instance(instance))),
    }
}

/// Running statements in `frame`, which becomes the youngest scope and
/// the current one for that time. The scope that was current before is
/// current again afterwards, however the statements end.
pub open spec fn execute_block(st: State, stmts: Seq<Stmt>, frame: Frame, answers: Seq<Datum>) -> Execution
    decreases st.steps, 2nat, 0nat,
{
    let inside = st.with_scopes(st.scopes.push(frame)).within(st.scopes.len() as usize);
    let (s, r) = execute_all(inside, stmts, answers);
    (s.within(st.environment), r)
}

/// Running statements in order, up to the first that does not end well.
pub open spec fn execute_all(st: State, stmts: Seq<Stmt>, answers: Seq<Datum>) -> Execution
    decreases st.steps, 1nat, stmts.len(),
{
    if stmts.len() == 0 {
        (st, Ok(()))
    } else {
        let (s1, first) = execute(st, stmts[0], answers);
        match first {
            Err(stop) => (s1, Err(stop)),
            Ok(_) => if s1.steps <= st.steps {
                execute_all(s1, stmts.skip(1), answers)
            } else {
                (s1, Err(Stop::StepLimit))
            },
        }
    }
}

/// Executing a statement costs one step; without a step left, execution
/// stops.
pub open spec fn execute(st: State, stmt: Stmt, answers: Seq<Datum>) -> Execution
    decreases st.steps, 0nat, 0nat,
{
    if st.steps == 0 {
        (st, Err(Stop::StepLimit))
    } else {
        let s = st.tick();
        match stmt {
            Stmt::Block_(b) => execute_block(
                s,
                b.0@,
                Frame { enclosing: Some(s.environment), values: Map::empty() },
                answers,
            ),
            Stmt::Class_(c) => s.class_declared(c),
            Stmt::Expression_(e) => exec_expression(s, e, answers),
            Stmt::Fun_(f) => (s.function_declared(f), Ok(())),
            Stmt::If_(i) => exec_if(s, i, answers),
            Stmt::Print_(p) => exec_print(s, p, answers),
            Stmt::Return_(r) => exec_return(s, r, answers),
            Stmt::Var_(v) => exec_var(s, v, answers),
            Stmt::While_(w) => exec_while(s, w, answers),
            Stmt::Null => (s, Ok(())),
        }
    }
}

pub open spec fn exec_expression(st: State, stmt: Expression, answers: Seq<Datum>) -> Execution
    decreases st.steps, 7nat, 0nat,
{
    let (s1, r) = evaluate(st, *stmt.0, answers);
    match r {
        Ok(_) => (s1, Ok(())),
        Err(stop) => (s1, Err(stop)),
    }
}

pub open spec fn exec_if(st: State, stmt: If, answers: Seq<Datum>) -> Execution
    decreases st.steps, 7nat, 0nat,
{
    let (s1, condition) = evaluate(st, *stmt.0, answers);
    match condition {
        Err(stop) => (s1, Err(stop)),
        Ok(c) => if s1.steps <= st.steps {
            if c.truthy() {
                execute(s1, *stmt.1, answers)
            } else {
                match stmt.2 {
                    Some(other) => execute(s1, *other, answers),
                    None => (s1, Ok(())),
                }
            }
        } else {
            (s1, Err(Stop::StepLimit))
        },
    }
}

pub open spec fn exec_print(st: State, stmt: Print, answers: Seq<Datum>) -> Execution
    decreases st.steps, 7nat, 0nat,
{
    let (s1, r) = evaluate(st, *stmt.0, answers);
    match r {
        Ok(value) => (s1.emit(value, answers), Ok(())),
        Err(stop) => (s1, Err(stop)),
    }
}

/// `return`: the value travels upward as a stop, never as success.
pub open spec fn exec_return(st: State, stmt: Return, answers: Seq<Datum>) -> Execution
    decreases st.steps, 7nat, 0nat,
{
    let (s1, r) = evaluate(st, *stmt.1, answers);
    match r {
        Ok(value) => (s1, Err(Stop::Return { value })),
        Err(stop) => (s1, Err(stop)),
    }
}

pub open spec fn exec_var(st: State, stmt: Var, answers: Seq<Datum>) -> Execution
    decreases st.steps, 7nat, 0nat,
{
    let (s1, r) = evaluate(st, *stmt.1, answers);
    match r {
        Ok(value) => (s1.defined(stmt.0.lexeme@, value), Ok(())),
        Err(stop) => (s1, Err(stop)),
    }
}

/// `while`: the condition, then the body, again and again until the
/// condition is falsy or something stops.
pub open spec fn exec_while(st: State, stmt: While, answers: Seq<Datum>) -> Execution
    decreases st.steps, 7nat, 0nat,
{
    let (s1, condition) = evaluate(st, *stmt.0, answers);
    match condition {
        Err(stop) => (s1, Err(stop)),
        Ok(c) => if !c.truthy() {
            (s1, Ok(()))
        } else if s1.steps < st.steps {
            let (s2, r) = execute(s1, *stmt.1, answers);
            match r {
                Err(stop) => (s2, Err(stop)),
                Ok(_) => if s2.steps < st.steps {
                    exec_while(s2, stmt, answers)
                } else {
                    (s2, Err(Stop::StepLimit))
                },
            }
        } else {
            (s1, Err(Stop::StepLimit))
        },
    }
}

} // verus!
