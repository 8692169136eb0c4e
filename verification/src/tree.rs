//! Syntax trees as values of reasoning: what an expression or a statement
//! is, with lists as sequences.

use crate::expr::Expr;
use crate::stmt::Stmt;
use crate::token::{Literal, Token};
use vstd::prelude::*;

verus! {

pub enum ExprTree {
    Assign(Token, Box<ExprTree>),
    Binary(Box<ExprTree>, Token, Box<ExprTree>),
    Call(Box<ExprTree>, Token, Seq<ExprTree>),
    Get(Box<ExprTree>, Token),
    Grouping(Box<ExprTree>),
    Literal(Literal),
    Logical(Box<ExprTree>, Token, Box<ExprTree>),
    SetField(Box<ExprTree>, Token, Box<ExprTree>),
    Super(Token, Token),
    This(Token),
    Unary(Token, Box<ExprTree>),
    Variable(Token),
    Null,
}

pub enum StmtTree {
    Block(Seq<StmtTree>),
    Class(Token, Option<ExprTree>, Seq<StmtTree>),
    Expression(ExprTree),
    Fun(Token, Seq<Token>, Seq<StmtTree>),
    If(ExprTree, Box<StmtTree>, Option<Box<StmtTree>>),
    Print(ExprTree),
    Return(Token, ExprTree),
    Var(Token, ExprTree),
    While(ExprTree, Box<StmtTree>),
    Null,
}

/// What an expression is.
pub open spec fn expr_tree(expr: Expr) -> ExprTree
    decreases expr,
{
    match expr {
        Expr::Assign_(e) => ExprTree::Assign(*e.0, Box::new(expr_tree(*e.1))),
        Expr::Binary_(e) => ExprTree::Binary(
            Box::new(expr_tree(*e.0)),
            *e.1,
            Box::new(expr_tree(*e.2)),
        ),
        Expr::Call_(e) => ExprTree::Call(Box::new(expr_tree(*e.0)), *e.1, expr_trees(e.2@)),
        Expr::Get_(e) => ExprTree::Get(Box::new(expr_tree(*e.0)), *e.1),
        Expr::Grouping_(e) => ExprTree::Grouping(Box::new(expr_tree(*e.0))),
        Expr::Literal_(e) => ExprTree::Literal(*e.0),
        Expr::Logical_(e) => ExprTree::Logical(
            Box::new(expr_tree(*e.0)),
            *e.1,
            Box::new(expr_tree(*e.2)),
        ),
        Expr::Set_(e) => ExprTree::SetField(
            Box::new(expr_tree(*e.0)),
            *e.1,
            Box::new(expr_tree(*e.2)),
        ),
        Expr::Super_(e) => ExprTree::Super(*e.0, *e.1),
        Expr::This_(e) => ExprTree::This(*e.0),
        Expr::Unary_(e) => ExprTree::Unary(*e.0, Box::new(expr_tree(*e.1))),
        Expr::Variable_(e) => ExprTree::Variable(*e.0),
        Expr::Null => ExprTree::Null,
    }
}

/// What the expressions are.
pub open spec fn expr_trees(exprs: Seq<Expr>) -> Seq<ExprTree>
    decreases exprs,
{
    if exprs.len() == 0 {
        Seq::empty()
    } else {
        expr_trees(exprs.drop_last()).push(expr_tree(exprs.last()))
    }
}

/// What a statement is.
pub open spec fn stmt_tree(stmt: Stmt) -> StmtTree
    decreases stmt,
{
    match stmt {
        Stmt::Block_(s) => StmtTree::Block(stmt_trees(s.0@)),
        Stmt::Class_(s) => StmtTree::Class(
            *s.0,
            match s.1 {
                Some(parent) => Some(expr_tree(*parent)),
                None => None,
            },
            stmt_trees(s.2@),
        ),
        Stmt::Expression_(s) => StmtTree::Expression(expr_tree(*s.0)),
        Stmt::Fun_(s) => StmtTree::Fun(*s.0, s.1@, stmt_trees(s.2@)),
        Stmt::If_(s) => StmtTree::If(
            expr_tree(*s.0),
            Box::new(stmt_tree(*s.1)),
            match s.2 {
                Some(other) => Some(Box::new(stmt_tree(*other))),
                None => None,
            },
        ),
        Stmt::Print_(s) => StmtTree::Print(expr_tree(*s.0)),
        Stmt::Return_(s) => StmtTree::Return(*s.0, expr_tree(*s.1)),
        Stmt::Var_(s) => StmtTree::Var(*s.0, expr_tree(*s.1)),
        Stmt::While_(s) => StmtTree::While(expr_tree(*s.0), Box::new(stmt_tree(*s.1))),
        Stmt::Null => StmtTree::Null,
    }
}

/// What the statements are.
pub open spec fn stmt_trees(stmts: Seq<Stmt>) -> Seq<StmtTree>
    decreases stmts,
{
    if stmts.len() == 0 {
        Seq::empty()
    } else {
        stmt_trees(stmts.drop_last()).push(stmt_tree(stmts.last()))
    }
}

pub proof fn lemma_expr_trees_push(exprs: Seq<Expr>, expr: Expr)
    ensures
        expr_trees(exprs.push(expr)) == expr_trees(exprs).push(expr_tree(expr)),
{
    assert(exprs.push(expr).drop_last() =~= exprs);
}

/// There are as many trees as expressions.
pub proof fn lemma_expr_trees_len(exprs: Seq<Expr>)
    ensures
        expr_trees(exprs).len() == exprs.len(),
    decreases exprs.len(),
{
    if exprs.len() > 0 {
        lemma_expr_trees_len(exprs.drop_last());
    }
}

pub proof fn lemma_stmt_trees_push(stmts: Seq<Stmt>, stmt: Stmt)
    ensures
        stmt_trees(stmts.push(stmt)) == stmt_trees(stmts).push(stmt_tree(stmt)),
{
    assert(stmts.push(stmt).drop_last() =~= stmts);
}

/// The trees of two statements in a row.
pub proof fn lemma_stmt_trees_pair(first: Stmt, second: Stmt)
    ensures
        stmt_trees(seq![first, second]) == seq![stmt_tree(first), stmt_tree(second)],
{
    let one = Seq::<Stmt>::empty().push(first);
    assert(seq![first, second] =~= one.push(second));
    lemma_stmt_trees_push(Seq::<Stmt>::empty(), first);
    lemma_stmt_trees_push(one, second);
    assert(stmt_trees(Seq::<Stmt>::empty()) =~= Seq::<StmtTree>::empty());
    assert(seq![stmt_tree(first), stmt_tree(second)] =~= Seq::<StmtTree>::empty().push(
        stmt_tree(first),
    ).push(stmt_tree(second)));
}

} // verus!
