//! Expression nodes of the syntax tree.

use crate::token::{Literal, Token};
use vstd::prelude::*;

verus! {

pub type ExprP = Box<Expr>;

pub type ExprV = Vec<Expr>;

pub type TokenP = Box<Token>;

pub type LiteralP = Box<Literal>;

/// `name = value`
#[derive(Debug)]
pub struct Assign(pub TokenP, pub ExprP);

/// `left operator right`
#[derive(Debug)]
pub struct Binary(pub ExprP, pub TokenP, pub ExprP);

/// `callee(arguments)`, with the closing parenthesis for error positions.
#[derive(Debug)]
pub struct Call(pub ExprP, pub TokenP, pub ExprV);

/// `object.name`
#[derive(Debug)]
pub struct Get(pub ExprP, pub TokenP);

#[derive(Debug)]
pub struct Grouping(pub ExprP);

#[derive(Debug)]
pub struct Lit(pub LiteralP);

/// `left and right`, `left or right`
#[derive(Debug)]
pub struct Logical(pub ExprP, pub TokenP, pub ExprP);

/// `object.name = value`
#[derive(Debug)]
pub struct SetField(pub ExprP, pub TokenP, pub ExprP);

/// `super.method`: the keyword and the method's name.
#[derive(Debug)]
pub struct Super(pub TokenP, pub TokenP);

#[derive(Debug)]
pub struct This(pub TokenP);

/// `operator right`
#[derive(Debug)]
pub struct Unary(pub TokenP, pub ExprP);

#[derive(Debug)]
pub struct Variable(pub TokenP);

#[derive(Debug)]
pub enum Expr {
    Assign_(Assign),
    Binary_(Binary),
    Call_(Call),
    Get_(Get),
    Grouping_(Grouping),
    Literal_(Lit),
    Logical_(Logical),
    Set_(SetField),
    Super_(Super),
    This_(This),
    Unary_(Unary),
    Variable_(Variable),
    /// The absent expression; it evaluates to nil.
    Null,
}

impl Expr {
    pub fn assign(name: Token, value: Self) -> (r: Self)
        ensures
            r matches Expr::Assign_(e) && *e.0 == name && *e.1 == value,
    {
        Expr::Assign_(Assign(Box::new(name), Box::new(value)))
    }

    pub fn binary(left: Self, operator: Token, right: Self) -> (r: Self)
        ensures
            r matches Expr::Binary_(e) && *e.0 == left && *e.1 == operator && *e.2 == right,
    {
        Expr::Binary_(Binary(Box::new(left), Box::new(operator), Box::new(right)))
    }

    pub fn call(callee: Self, paren: Token, arguments: Vec<Self>) -> (r: Self)
        ensures
            r matches Expr::Call_(e) && *e.0 == callee && *e.1 == paren && e.2 == arguments,
    {
        Expr::Call_(Call(Box::new(callee), Box::new(paren), arguments))
    }

    pub fn get(object: Self, name: Token) -> (r: Self)
        ensures
            r matches Expr::Get_(e) && *e.0 == object && *e.1 == name,
    {
        Expr::Get_(Get(Box::new(object), Box::new(name)))
    }

    pub fn grouping(expr: Self) -> (r: Self)
        ensures
            r matches Expr::Grouping_(e) && *e.0 == expr,
    {
        Expr::Grouping_(Grouping(Box::new(expr)))
    }

    pub fn literal(literal: Literal) -> (r: Self)
        ensures
            r matches Expr::Literal_(e) && *e.0 == literal,
    {
        Expr::Literal_(Lit(Box::new(literal)))
    }

    pub fn logical(left: Self, operator: Token, right: Self) -> (r: Self)
        ensures
            r matches Expr::Logical_(e) && *e.0 == left && *e.1 == operator && *e.2 == right,
    {
        Expr::Logical_(Logical(Box::new(left), Box::new(operator), Box::new(right)))
    }

    pub fn set(object: Self, name: Token, value: Self) -> (r: Self)
        ensures
            r matches Expr::Set_(e) && *e.0 == object && *e.1 == name && *e.2 == value,
    {
        Expr::Set_(SetField(Box::new(object), Box::new(name), Box::new(value)))
    }

    pub fn super_(keyword: Token, method: Token) -> (r: Self)
        ensures
            r matches Expr::Super_(e) && *e.0 == keyword && *e.1 == method,
    {
        Expr::Super_(Super(Box::new(keyword), Box::new(method)))
    }

    pub fn this(keyword: Token) -> (r: Self)
        ensures
            r matches Expr::This_(e) && *e.0 == keyword,
    {
        Expr::This_(This(Box::new(keyword)))
    }

    pub fn unary(operator: Token, right: Self) -> (r: Self)
        ensures
            r matches Expr::Unary_(e) && *e.0 == operator && *e.1 == right,
    {
        Expr::Unary_(Unary(Box::new(operator), Box::new(right)))
    }

    pub fn variable(name: Token) -> (r: Self)
        ensures
            r matches Expr::Variable_(e) && *e.0 == name,
    {
        Expr::Variable_(Variable(Box::new(name)))
    }

    pub fn null() -> (r: Self)
        ensures
            r is Null,
    {
        Expr::Null
    }

    /// Whether the expression is the literal `nil`, which also stands for
    /// an omitted initializer or return value.
    pub open spec fn is_nil_literal(self) -> bool {
        self matches Expr::Literal_(e) && *e.0 is Nil
    }

    pub fn nil_literal(&self) -> (r: bool)
        ensures
            r == self.is_nil_literal(),
    {
        match self {
            Expr::Literal_(e) => match &*e.0 {
                Literal::Nil => true,
                _ => false,
            },
            _ => false,
        }
    }
}

} // verus!
