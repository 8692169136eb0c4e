//! Statement nodes of the syntax tree.

use crate::expr::{Expr, ExprP, TokenP};
use crate::token::Token;
use std::rc::Rc;
use vstd::prelude::*;

verus! {

pub type StmtP = Box<Stmt>;

pub type Statements = Vec<Stmt>;

#[derive(Debug)]
pub struct Block(pub Statements);

/// A class declaration: its name, the variable that names its superclass
/// if it has one, and its methods.
#[derive(Debug)]
pub struct Class(pub TokenP, pub Option<ExprP>, pub Statements);

#[derive(Debug)]
pub struct Expression(pub ExprP);

/// A function declaration: name, parameters, body.
#[derive(Debug)]
pub struct Fun(pub TokenP, pub Vec<Token>, pub Statements);

#[derive(Debug)]
pub struct If(pub ExprP, pub StmtP, pub Option<StmtP>);

#[derive(Debug)]
pub struct Print(pub ExprP);

/// `return value;` with the keyword for error positions. A bare `return;`
/// carries the literal `nil`.
#[derive(Debug)]
pub struct Return(pub TokenP, pub ExprP);

#[derive(Debug)]
pub struct Var(pub TokenP, pub ExprP);

#[derive(Debug)]
pub struct While(pub ExprP, pub StmtP);

#[derive(Debug)]
pub enum Stmt {
    Block_(Block),
    Class_(Class),
    Expression_(Expression),
    Fun_(Rc<Fun>),
    If_(If),
    Print_(Print),
    Return_(Return),
    Var_(Var),
    While_(While),
    /// The empty statement.
    Null,
}

/// `Rc::clone`: a second handle to the same declaration, which is equal to
/// the first.
#[verifier::external_body]
pub(crate) fn share(declaration: &Rc<Fun>) -> (r: Rc<Fun>)
    ensures
        r == *declaration,
{
    Rc::clone(declaration)
}

impl Stmt {
    pub fn block(statements: Vec<Self>) -> (r: Self)
        ensures
            r matches Stmt::Block_(s) && s.0 == statements,
    {
        Stmt::Block_(Block(statements))
    }

    pub fn class(name: Token, superclass: Option<Expr>, methods: Vec<Self>) -> (r: Self)
        ensures
            r matches Stmt::Class_(s) && *s.0 == name && s.2 == methods && match superclass {
                Some(e) => s.1 matches Some(b) && *b == e,
                None => s.1 is None,
            },
    {
        let superclass = match superclass {
            Some(e) => Some(Box::new(e)),
            None => None,
        };
        Stmt::Class_(Class(Box::new(name), superclass, methods))
    }

    pub fn expression(expr: Expr) -> (r: Self)
        ensures
            r matches Stmt::Expression_(s) && *s.0 == expr,
    {
        Stmt::Expression_(Expression(Box::new(expr)))
    }

    pub fn fun(name: Token, params: Vec<Token>, body: Statements) -> (r: Self)
        ensures
            r matches Stmt::Fun_(s) && *s.0 == name && s.1 == params && s.2 == body,
    {
        Stmt::Fun_(Rc::new(Fun(Box::new(name), params, body)))
    }

    pub fn if_stmt(condition: Expr, then_branch: Self, else_branch: Option<Self>) -> (r: Self)
        ensures
            r matches Stmt::If_(s) && *s.0 == condition && *s.1 == then_branch
                && match else_branch {
                Some(e) => s.2 matches Some(b) && *b == e,
                None => s.2 is None,
            },
    {
        let else_branch = match else_branch {
            Some(e) => Some(Box::new(e)),
            None => None,
        };
        Stmt::If_(If(Box::new(condition), Box::new(then_branch), else_branch))
    }

    pub fn print(expr: Expr) -> (r: Self)
        ensures
            r matches Stmt::Print_(s) && *s.0 == expr,
    {
        Stmt::Print_(Print(Box::new(expr)))
    }

    pub fn return_stmt(keyword: Token, value: Expr) -> (r: Self)
        ensures
            r matches Stmt::Return_(s) && *s.0 == keyword && *s.1 == value,
    {
        Stmt::Return_(Return(Box::new(keyword), Box::new(value)))
    }

    pub fn var(name: Token, initializer: Expr) -> (r: Self)
        ensures
            r matches Stmt::Var_(s) && *s.0 == name && *s.1 == initializer,
    {
        Stmt::Var_(Var(Box::new(name), Box::new(initializer)))
    }

    pub fn while_stmt(condition: Expr, body: Self) -> (r: Self)
        ensures
            r matches Stmt::While_(s) && *s.0 == condition && *s.1 == body,
    {
        Stmt::While_(While(Box::new(condition), Box::new(body)))
    }

    pub fn null() -> (r: Self)
        ensures
            r is Null,
    {
        Stmt::Null
    }
}

} // verus!
