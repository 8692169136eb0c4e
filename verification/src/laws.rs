//! What holds of the rules of resolution and evaluation, for every
//! program and every state.

use crate::context::{occurrence_text, report_text};
use crate::errors::{error_at, Stop};
use crate::expr::Expr;
use crate::function::Function;
use crate::number::is_zero;
use crate::resolver::{
    hops, method_kind, resolve_class, resolve_class_head, resolve_expr, resolve_exprs,
    resolve_function, resolve_if, resolve_methods, resolve_stmt, resolve_stmts, resolve_var,
    ClassType,
    FunctionType, Resolution,
};
use crate::semantics::{
    arity_text, call_function, declared_function, distance_of, execute_block, invoke, Local,
    State,
};
use crate::stmt::{Fun, Stmt, Var};
use crate::text::starts_with;
use crate::token::{Token, TokenType};
use crate::value::Datum;
use std::rc::Rc;
use vstd::prelude::*;

verus! {

/// An entry of the distance table speaks of its own use site alone:
/// recording a distance for one site leaves what is recorded for every
/// other site as it was.
pub proof fn lemma_distance_of_its_own_site(locals: Seq<Local>, site: Token, depth: usize, other: Token)
    ensures
        distance_of(locals.push(Local { token: site, depth }), other) == if site.same_site(other) {
            Some(depth)
        } else {
            distance_of(locals, other)
        },
{
    assert(locals.push(Local { token: site, depth }).drop_last() =~= locals);
}

/// Two uses of one name at different places are resolved each on its own:
/// the distance recorded for the first is the number of scopes to the
/// innermost scope that declared the name where the first stood, whatever
/// scopes surround the second and whatever is recorded for it.
pub proof fn lemma_sites_resolve_independently(
    first: Resolution,
    second: Resolution,
    a: Token,
    b: Token,
)
    requires
        !b.same_site(a),
        second.locals == first.local(a).locals,
        hops(first.scopes, a.lexeme@) matches Some(d) && d <= usize::MAX,
    ensures
        distance_of(second.local(b).locals, a) == Some(
            hops(first.scopes, a.lexeme@)->Some_0 as usize,
        ),
{
    let d = hops(first.scopes, a.lexeme@)->Some_0 as usize;
    lemma_distance_of_its_own_site(first.locals, a, d, a);
    match hops(second.scopes, b.lexeme@) {
        Some(e) => {
            lemma_distance_of_its_own_site(second.locals, b, e as usize, a);
        },
        None => {},
    }
}

/// A variable that is read in its own initializer, inside a block or a
/// function, is an error: the declaration `var a = a;` reports it.
pub proof fn lemma_own_initializer(s: Resolution, stmt: Var)
    requires
        s.scopes.len() > 0,
        *stmt.1 matches Expr::Variable_(v) && v.0.lexeme@ == stmt.0.lexeme@,
    ensures
        resolve_var(s, stmt).had_error,
        resolve_var(s, stmt).reports.len() > 0,
        resolve_var(s, stmt).reports.last() == report_text(
            (*stmt.1)->Variable__0.0.line as int,
            occurrence_text(*(*stmt.1)->Variable__0.0),
            "Can't read local variable in its own initializer."@,
        ),
{
}

/// A function closes over the scope in which it is declared.
pub proof fn lemma_closure_is_where_declared(s: State, declaration: Rc<Fun>)
    requires
        s.well_formed(),
    ensures
        s.function_declared(declaration).scopes[s.environment as int].values[declaration.0.lexeme@]
            == Datum::Function(declared_function(declaration, s.environment, false)),
        declared_function(declaration, s.environment, false).closure() == Some(s.environment),
{
}

/// Scoping is lexical, not dynamic: what a call of a declared function
/// does and yields does not depend on the scope that is current where the
/// call is made. That scope is only restored afterwards.
pub proof fn lemma_call_ignores_the_callers_scope(
    s: State,
    function: Function,
    arguments: Seq<Datum>,
    answers: Seq<Datum>,
    caller: usize,
)
    requires
        function.body is Declared,
    ensures
        call_function(s.within(caller), function, arguments, answers) == (
            call_function(s, function, arguments, answers).0.within(caller),
            call_function(s, function, arguments, answers).1,
        ),
{
    let declaration = function.body->declaration;
    let closure = function.body->closure;
    let frame = crate::semantics::call_frame(declaration, closure, arguments);
    let inside = s.with_scopes(s.scopes.push(frame)).within(s.scopes.len() as usize);
    assert(s.within(caller).with_scopes(s.within(caller).scopes.push(frame)).within(
        s.within(caller).scopes.len() as usize,
    ) == inside);
    let here = execute_block(s, declaration.2@, frame, answers);
    let there = execute_block(s.within(caller), declaration.2@, frame, answers);
    assert(there.0 == here.0.within(caller));
    assert(there.1 == here.1);
}

/// Dividing by zero, positive or negative, is a runtime error, and the
/// host is not asked.
pub proof fn lemma_division_by_zero(s: State, operator: Token, a: u64, b: u64, answers: Seq<Datum>)
    requires
        operator.token_type == TokenType::SLASH,
        is_zero(b),
    ensures
        s.binary(operator, Datum::Number(a), Datum::Number(b), answers) == (
            s,
            Err::<Datum, Stop>(error_at(operator, "Devided by 0"@)),
        ),
{
}

/// Nothing is coerced: a number and a string are never equal, and their
/// sum is a runtime error.
pub proof fn lemma_no_coercion(s: State, operator: Token, n: u64, text: Seq<char>, answers: Seq<Datum>)
    ensures
        !Datum::Number(n).same(Datum::Text(text)),
        !Datum::Text(text).same(Datum::Number(n)),
        operator.token_type == TokenType::EQUAL_EQUAL ==> s.binary(
            operator,
            Datum::Number(n),
            Datum::Text(text),
            answers,
        ) == (s, Ok::<Datum, Stop>(Datum::Boolean(false))),
        operator.token_type == TokenType::PLUS ==> s.binary(
            operator,
            Datum::Text(text),
            Datum::Number(n),
            answers,
        ) == (s, Err::<Datum, Stop>(error_at(operator, "Operands must be numbers or strings."@))),
{
}

/// A call with a number of arguments other than the callee's arity is a
/// runtime error that names both numbers, and nothing is run.
pub proof fn lemma_wrong_argument_count(
    s: State,
    function: Function,
    arguments: Seq<Datum>,
    paren: Token,
    answers: Seq<Datum>,
)
    requires
        function.arity_nr != arguments.len(),
    ensures
        invoke(s, Datum::Function(function), arguments, paren, answers) == (
            s,
            Err::<Datum, Stop>(
                error_at(paren, arity_text(function.arity_nr as nat, arguments.len())),
            ),
        ),
{
}

} // verus!

verus! {

/// What resolving may do to what it has found: `after` comes after
/// `before`. No report and no recorded distance is dropped, and an error
/// once found stays found.
pub open spec fn keeps_findings(before: Resolution, after: Resolution) -> bool {
    &&& starts_with(after.reports, before.reports)
    &&& starts_with(after.locals, before.locals)
    &&& before.had_error ==> after.had_error
}

/// `after` keeps the findings of `before`, and the scopes and the kinds of
/// the function and class around are the same.
#[verifier::opaque]
pub open spec fn settled(before: Resolution, after: Resolution) -> bool {
    &&& keeps_findings(before, after)
    &&& after.scopes == before.scopes
    &&& after.function == before.function
    &&& after.class == before.class
}

proof fn lemma_settled_chain(a: Resolution, b: Resolution, c: Resolution)
    requires
        settled(a, b),
        settled(b, c),
    ensures
        settled(a, c),
{
    reveal(settled);
    assert forall|i: int| 0 <= i < a.reports.len() implies c.reports[i] == a.reports[i] by {
        assert(b.reports[i] == a.reports[i]);
    }
    assert forall|i: int| 0 <= i < a.locals.len() implies c.locals[i] == a.locals[i] by {
        assert(b.locals[i] == a.locals[i]);
    }
}

proof fn lemma_settled_steps(s: Resolution, name: Token, message: Seq<char>)
    ensures
        settled(s, s),
        settled(s, s.local(name)),
        settled(s, s.report(name, message)),
        settled(s, s.variable(name)),
        settled(s, s.this(name)),
        settled(s, s.super_(name)),
{
    reveal(settled);
    lemma_settled_local(s, name);
    lemma_settled_report(s, name, message);
    let checked = s.report(name, "Can't read local variable in its own initializer."@);
    lemma_settled_report(s, name, "Can't read local variable in its own initializer."@);
    lemma_settled_local(checked, name);
    lemma_settled_report(s, name, "Can't use 'this' outside of a class."@);
    lemma_settled_report(s, name, "Can't use 'super' outside of a class."@);
    lemma_settled_report(s, name, "Can't use 'super' in a class with no superclass."@);
    lemma_settled_local(s.report(name, "Can't use 'super' outside of a class."@), name);
    lemma_settled_local(
        s.report(name, "Can't use 'super' in a class with no superclass."@),
        name,
    );
    lemma_findings_chain(s, checked, checked.local(name));
    lemma_findings_chain(
        s,
        s.report(name, "Can't use 'super' outside of a class."@),
        s.report(name, "Can't use 'super' outside of a class."@).local(name),
    );
    lemma_findings_chain(
        s,
        s.report(name, "Can't use 'super' in a class with no superclass."@),
        s.report(name, "Can't use 'super' in a class with no superclass."@).local(name),
    );
}

proof fn lemma_findings_chain(a: Resolution, b: Resolution, c: Resolution)
    requires
        keeps_findings(a, b),
        keeps_findings(b, c),
    ensures
        keeps_findings(a, c),
{
    assert forall|i: int| 0 <= i < a.reports.len() implies c.reports[i] == a.reports[i] by {
        assert(b.reports[i] == a.reports[i]);
    }
    assert forall|i: int| 0 <= i < a.locals.len() implies c.locals[i] == a.locals[i] by {
        assert(b.locals[i] == a.locals[i]);
    }
}

proof fn lemma_settled_local(s: Resolution, name: Token)
    ensures
        keeps_findings(s, s.local(name)),
        s.local(name).scopes == s.scopes,
        s.local(name).function == s.function,
        s.local(name).class == s.class,
{
}

proof fn lemma_settled_report(s: Resolution, name: Token, message: Seq<char>)
    ensures
        keeps_findings(s, s.report(name, message)),
        s.report(name, message).scopes == s.scopes,
        s.report(name, message).function == s.function,
        s.report(name, message).class == s.class,
{
}

/// Resolving an expression keeps what was found, and leaves the scopes and
/// the kinds of the function and class around as they were.
pub proof fn lemma_expr_keeps_findings(s: Resolution, expr: Expr)
    ensures
        settled(s, resolve_expr(s, expr)),
    decreases expr,
{
    match expr {
        Expr::Assign_(e) => {
            let s1 = resolve_expr(s, *e.1);
            lemma_expr_keeps_findings(s, *e.1);
            lemma_settled_steps(s1, *e.0, ""@);
            lemma_settled_chain(s, s1, s1.local(*e.0));
        },
        Expr::Binary_(e) => {
            let s1 = resolve_expr(s, *e.0);
            lemma_expr_keeps_findings(s, *e.0);
            lemma_expr_keeps_findings(s1, *e.2);
            lemma_settled_chain(s, s1, resolve_expr(s1, *e.2));
        },
        Expr::Call_(e) => {
            let s1 = resolve_expr(s, *e.0);
            lemma_expr_keeps_findings(s, *e.0);
            lemma_exprs_keep_findings(s1, e.2@);
            lemma_settled_chain(s, s1, resolve_exprs(s1, e.2@));
        },
        Expr::Get_(e) => {
            lemma_expr_keeps_findings(s, *e.0);
        },
        Expr::Grouping_(e) => {
            lemma_expr_keeps_findings(s, *e.0);
        },
        Expr::Literal_(_) => {
            lemma_settled_steps(s, arbitrary(), ""@);
        },
        Expr::Logical_(e) => {
            let s1 = resolve_expr(s, *e.0);
            lemma_expr_keeps_findings(s, *e.0);
            lemma_expr_keeps_findings(s1, *e.2);
            lemma_settled_chain(s, s1, resolve_expr(s1, *e.2));
        },
        Expr::Set_(e) => {
            let s1 = resolve_expr(s, *e.2);
            lemma_expr_keeps_findings(s, *e.2);
            lemma_expr_keeps_findings(s1, *e.0);
            lemma_settled_chain(s, s1, resolve_expr(s1, *e.0));
        },
        Expr::Super_(e) => {
            lemma_settled_steps(s, *e.0, ""@);
        },
        Expr::This_(e) => {
            lemma_settled_steps(s, *e.0, ""@);
        },
        Expr::Unary_(e) => {
            lemma_expr_keeps_findings(s, *e.1);
        },
        Expr::Variable_(e) => {
            lemma_settled_steps(s, *e.0, ""@);
        },
        Expr::Null => {
            lemma_settled_steps(s, arbitrary(), ""@);
        },
    }
}

pub proof fn lemma_exprs_keep_findings(s: Resolution, exprs: Seq<Expr>)
    ensures
        settled(s, resolve_exprs(s, exprs)),
    decreases exprs,
{
    if exprs.len() > 0 {
        let s1 = resolve_exprs(s, exprs.drop_last());
        lemma_exprs_keep_findings(s, exprs.drop_last());
        lemma_expr_keeps_findings(s1, exprs.last());
        lemma_settled_chain(s, s1, resolve_expr(s1, exprs.last()));
    } else {
        lemma_settled_steps(s, arbitrary(), ""@);
    }
}

/// The name that a function declaration declares.
pub open spec fn declared_name(declaration: Rc<Fun>) -> Token {
    *declaration.0
}

/// `after` keeps the findings of `before`.
#[verifier::opaque]
pub open spec fn kept(before: Resolution, after: Resolution) -> bool {
    keeps_findings(before, after)
}

proof fn lemma_kept_chain(a: Resolution, b: Resolution, c: Resolution)
    requires
        kept(a, b),
        kept(b, c),
    ensures
        kept(a, c),
{
    reveal(kept);
    lemma_findings_chain(a, b, c);
}

proof fn lemma_kept_steps(s: Resolution, name: Token, kind: FunctionType, class: ClassType)
    ensures
        kept(s, s),
        kept(s, s.begin()),
        kept(s, s.end()),
        kept(s, s.declare(name)),
        kept(s, s.define(name)),
        kept(s, s.mark("this"@, true)),
        kept(s, s.mark("super"@, true)),
        kept(s, s.in_function(kind)),
        kept(s, s.in_class(class)),
        kept(s, s.report(name, "[BUG] Included a stmt that is ot a function."@)),
        kept(s, s.report(name, "A class can't inherit from itself."@)),
{
    reveal(kept);
}

proof fn lemma_kept_returning(s: Resolution, keyword: Token, value: Expr)
    ensures
        kept(s, s.returning(keyword, value)),
{
    reveal(kept);
    let checked = if s.function == FunctionType::TopLevel {
        s.report(keyword, "Can't return from top-level code."@)
    } else {
        s
    };
    lemma_settled_report(s, keyword, "Can't return from top-level code."@);
    lemma_settled_report(checked, keyword, "Can't return a value from an initializer."@);
    lemma_findings_chain(s, checked, s.returning(keyword, value));
}

proof fn lemma_kept_expr(s: Resolution, expr: Expr)
    ensures
        kept(s, resolve_expr(s, expr)),
{
    lemma_expr_keeps_findings(s, expr);
    reveal(settled);
    reveal(kept);
}

proof fn lemma_kept_parameters(s: Resolution, params: Seq<Token>)
    ensures
        kept(s, s.parameters(params)),
    decreases params.len(),
{
    if params.len() == 0 {
        lemma_kept_steps(s, arbitrary(), FunctionType::TopLevel, ClassType::NoClass);
    } else {
        let s1 = s.parameters(params.drop_last());
        lemma_kept_parameters(s, params.drop_last());
        lemma_kept_steps(s1, params.last(), FunctionType::TopLevel, ClassType::NoClass);
        let s2 = s1.declare(params.last());
        lemma_kept_steps(s2, params.last(), FunctionType::TopLevel, ClassType::NoClass);
        lemma_kept_chain(s, s1, s2);
        lemma_kept_chain(s, s2, s2.define(params.last()));
    }
}

proof fn lemma_block_keeps_findings(s: Resolution, block: crate::stmt::Block)
    ensures
        kept(s, resolve_stmts(s.begin(), block.0@).end()),
    decreases block, 0nat,
{
    let none = FunctionType::TopLevel;
    let no_class = ClassType::NoClass;
    let s1 = s.begin();
    let s2 = resolve_stmts(s1, block.0@);
    lemma_kept_steps(s, arbitrary(), none, no_class);
    lemma_stmts_keep_findings(s1, block.0@);
    lemma_kept_steps(s2, arbitrary(), none, no_class);
    lemma_kept_chain(s, s1, s2);
    lemma_kept_chain(s, s2, s2.end());
}

proof fn lemma_fun_keeps_findings(s: Resolution, f: Rc<Fun>)
    ensures
        kept(
            s,
            resolve_function(
                s.declare(declared_name(f)).define(declared_name(f)),
                f,
                FunctionType::Function,
            ),
        ),
    decreases f, 1nat,
{
    let none = FunctionType::TopLevel;
    let no_class = ClassType::NoClass;
    let name = declared_name(f);
    let s1 = s.declare(name);
    let s2 = s1.define(name);
    lemma_kept_steps(s, name, none, no_class);
    lemma_kept_steps(s1, name, none, no_class);
    lemma_kept_chain(s, s1, s2);
    lemma_function_keeps_findings(s2, f, FunctionType::Function);
    lemma_kept_chain(s, s2, resolve_function(s2, f, FunctionType::Function));
}

proof fn lemma_if_keeps_findings(s: Resolution, stmt: crate::stmt::If)
    ensures
        kept(s, resolve_if(s, stmt)),
    decreases stmt, 0nat,
{
    let s1 = resolve_expr(s, *stmt.0);
    let s2 = resolve_stmt(s1, *stmt.1);
    lemma_kept_expr(s, *stmt.0);
    lemma_stmt_keeps_findings(s1, *stmt.1);
    lemma_kept_chain(s, s1, s2);
    if stmt.2 is Some {
        let other = *stmt.2->Some_0;
        let s3 = resolve_stmt(s2, other);
        lemma_stmt_keeps_findings(s2, other);
        lemma_kept_chain(s, s2, s3);
        assert(resolve_if(s, stmt) == s3);
    } else {
        assert(resolve_if(s, stmt) == s2);
    }
}

proof fn lemma_var_keeps_findings(s: Resolution, stmt: crate::stmt::Var)
    ensures
        kept(s, resolve_var(s, stmt)),
{
    let none = FunctionType::TopLevel;
    let no_class = ClassType::NoClass;
    let s1 = s.declare(*stmt.0);
    lemma_kept_steps(s, *stmt.0, none, no_class);
    let s2 = if *stmt.1 is Null {
        s1
    } else {
        resolve_expr(s1, *stmt.1)
    };
    lemma_kept_expr(s1, *stmt.1);
    lemma_kept_steps(s1, *stmt.0, none, no_class);
    lemma_kept_chain(s, s1, s2);
    lemma_kept_steps(s2, *stmt.0, none, no_class);
    lemma_kept_chain(s, s2, s2.define(*stmt.0));
}

proof fn lemma_while_keeps_findings(s: Resolution, stmt: crate::stmt::While)
    ensures
        kept(s, resolve_stmt(resolve_expr(s, *stmt.0), *stmt.1)),
    decreases stmt, 0nat,
{
    let s1 = resolve_expr(s, *stmt.0);
    lemma_kept_expr(s, *stmt.0);
    lemma_stmt_keeps_findings(s1, *stmt.1);
    lemma_kept_chain(s, s1, resolve_stmt(s1, *stmt.1));
}

proof fn lemma_return_keeps_findings(s: Resolution, stmt: crate::stmt::Return)
    ensures
        kept(s, resolve_expr(s.returning(*stmt.0, *stmt.1), *stmt.1)),
{
    let s1 = s.returning(*stmt.0, *stmt.1);
    lemma_kept_returning(s, *stmt.0, *stmt.1);
    lemma_kept_expr(s1, *stmt.1);
    lemma_kept_chain(s, s1, resolve_expr(s1, *stmt.1));
}

/// Resolution goes on after an error and drops nothing: whatever was
/// reported or recorded before a statement is still there after it.
pub proof fn lemma_stmt_keeps_findings(s: Resolution, stmt: Stmt)
    ensures
        kept(s, resolve_stmt(s, stmt)),
    decreases stmt, 2nat,
{
    match stmt {
        Stmt::Block_(b) => {
            lemma_block_keeps_findings(s, b);
        },
        Stmt::Class_(c) => {
            lemma_class_keeps_findings(s, c);
        },
        Stmt::Expression_(e) => {
            lemma_kept_expr(s, *e.0);
        },
        Stmt::Fun_(f) => {
            lemma_fun_keeps_findings(s, f);
        },
        Stmt::If_(i) => {
            lemma_if_keeps_findings(s, i);
        },
        Stmt::Print_(p) => {
            lemma_kept_expr(s, *p.0);
        },
        Stmt::Return_(r) => {
            lemma_return_keeps_findings(s, r);
        },
        Stmt::Var_(v) => {
            lemma_var_keeps_findings(s, v);
        },
        Stmt::While_(w) => {
            lemma_while_keeps_findings(s, w);
        },
        Stmt::Null => {
            lemma_kept_steps(s, arbitrary(), FunctionType::TopLevel, ClassType::NoClass);
        },
    }
}

pub proof fn lemma_stmts_keep_findings(s: Resolution, stmts: Seq<Stmt>)
    ensures
        kept(s, resolve_stmts(s, stmts)),
    decreases stmts, 0nat,
{
    if stmts.len() > 0 {
        let s1 = resolve_stmts(s, stmts.drop_last());
        lemma_stmts_keep_findings(s, stmts.drop_last());
        lemma_stmt_keeps_findings(s1, stmts.last());
        lemma_kept_chain(s, s1, resolve_stmt(s1, stmts.last()));
    } else {
        lemma_kept_steps(s, arbitrary(), FunctionType::TopLevel, ClassType::NoClass);
    }
}

pub proof fn lemma_function_keeps_findings(s: Resolution, function: Rc<Fun>, kind: FunctionType)
    ensures
        kept(s, resolve_function(s, function, kind)),
    decreases function, 0nat,
{
    let none = FunctionType::TopLevel;
    let no_class = ClassType::NoClass;
    let s1 = s.in_function(kind);
    let s2 = s1.begin();
    let s3 = s2.parameters(function.1@);
    let s4 = resolve_stmts(s3, function.2@);
    let s5 = s4.end();
    lemma_kept_steps(s, arbitrary(), kind, no_class);
    lemma_kept_steps(s1, arbitrary(), none, no_class);
    lemma_kept_parameters(s2, function.1@);
    lemma_stmts_keep_findings(s3, function.2@);
    lemma_kept_steps(s4, arbitrary(), none, no_class);
    lemma_kept_steps(s5, arbitrary(), s.function, no_class);
    lemma_kept_chain(s, s1, s2);
    lemma_kept_chain(s, s2, s3);
    lemma_kept_chain(s, s3, s4);
    lemma_kept_chain(s, s4, s5);
    lemma_kept_chain(s, s5, s5.in_function(s.function));
}

pub proof fn lemma_methods_keep_findings(s: Resolution, body: Seq<Stmt>, class: Token)
    ensures
        kept(s, resolve_methods(s, body, class)),
    decreases body, 0nat,
{
    if body.len() > 0 {
        let s1 = resolve_methods(s, body.drop_last(), class);
        lemma_methods_keep_findings(s, body.drop_last(), class);
        match body.last() {
            Stmt::Fun_(method) => {
                lemma_function_keeps_findings(s1, method, method_kind(method.0.lexeme@));
            },
            _ => {
                lemma_kept_steps(s1, class, FunctionType::TopLevel, ClassType::NoClass);
            },
        }
        lemma_kept_chain(s, s1, resolve_methods(s, body, class));
    } else {
        lemma_kept_steps(s, arbitrary(), FunctionType::TopLevel, ClassType::NoClass);
    }
}

proof fn lemma_class_head_keeps_findings(s: Resolution, class: crate::stmt::Class)
    ensures
        kept(s, resolve_class_head(s, class)),
{
    let none = FunctionType::TopLevel;
    let s1 = s.in_class(ClassType::Class);
    let s2 = s1.declare(*class.0);
    let named = s2.define(*class.0);
    lemma_kept_steps(s, *class.0, none, ClassType::Class);
    lemma_kept_steps(s1, *class.0, none, ClassType::Class);
    lemma_kept_steps(s2, *class.0, none, ClassType::Class);
    lemma_kept_chain(s, s1, s2);
    lemma_kept_chain(s, s2, named);
    match class.1 {
        Some(parent) => {
            let sub = named.in_class(ClassType::SubClass);
            lemma_kept_steps(named, *class.0, none, ClassType::SubClass);
            lemma_kept_chain(s, named, sub);
            let checked = match *parent {
                Expr::Variable_(var) => if class.0.lexeme@ == var.0.lexeme@ {
                    sub.report(*var.0, "A class can't inherit from itself."@)
                } else {
                    sub
                },
                _ => sub,
            };
            match *parent {
                Expr::Variable_(var) => {
                    lemma_kept_steps(sub, *var.0, none, ClassType::SubClass);
                },
                _ => {
                    lemma_kept_steps(sub, *class.0, none, ClassType::SubClass);
                },
            }
            lemma_kept_chain(s, sub, checked);
            lemma_kept_expr(checked, *parent);
            lemma_kept_chain(s, checked, resolve_expr(checked, *parent));
        },
        None => {},
    }
}

pub proof fn lemma_class_keeps_findings(s: Resolution, class: crate::stmt::Class)
    ensures
        kept(resolve_class_head(s, class), resolve_class(s, class)),
        kept(s, resolve_class(s, class)),
    decreases class, 1nat,
{
    let none = FunctionType::TopLevel;
    let no_class = ClassType::NoClass;
    let head = resolve_class_head(s, class);
    lemma_class_head_keeps_findings(s, class);
    lemma_kept_steps(head, *class.0, none, no_class);
    let parented = if class.1 is Some {
        head.begin().mark("super"@, true)
    } else {
        head
    };
    lemma_kept_steps(head.begin(), *class.0, none, no_class);
    lemma_kept_chain(head, head.begin(), head.begin().mark("super"@, true));
    let s1 = parented.begin();
    let s2 = s1.mark("this"@, true);
    lemma_kept_steps(parented, *class.0, none, no_class);
    lemma_kept_steps(s1, *class.0, none, no_class);
    lemma_kept_chain(head, parented, s1);
    lemma_kept_chain(head, s1, s2);
    let s3 = resolve_methods(s2, class.2@, *class.0);
    lemma_methods_keep_findings(s2, class.2@, *class.0);
    lemma_kept_chain(head, s2, s3);
    let s4 = s3.end();
    lemma_kept_steps(s3, *class.0, none, no_class);
    lemma_kept_chain(head, s3, s4);
    let closed = if class.1 is Some {
        s4.end()
    } else {
        s4
    };
    lemma_kept_steps(s4, *class.0, none, no_class);
    lemma_kept_chain(head, s4, closed);
    lemma_kept_steps(closed, *class.0, none, s.class);
    lemma_kept_chain(head, closed, closed.in_class(s.class));
    lemma_kept_chain(s, head, resolve_class(s, class));
}

/// A class that names itself as its superclass is an error, whatever its
/// body holds.
pub proof fn lemma_self_inheritance(s: Resolution, class: crate::stmt::Class)
    requires
        class.1 matches Some(parent) && *parent matches Expr::Variable_(v) && v.0.lexeme@
            == class.0.lexeme@,
    ensures
        resolve_class(s, class).had_error,
        resolve_stmt(s, Stmt::Class_(class)).had_error,
{
    let parent = class.1->Some_0;
    let var = (*parent)->Variable__0;
    let named = s.in_class(ClassType::Class).declare(*class.0).define(*class.0);
    let checked = named.in_class(ClassType::SubClass).report(
        *var.0,
        "A class can't inherit from itself."@,
    );
    lemma_kept_expr(checked, *parent);
    lemma_class_keeps_findings(s, class);
    reveal(kept);
}

/// `return` with a value in an initializer is an error, and so is any
/// `return` outside all functions.
pub proof fn lemma_return_is_checked(s: Resolution, stmt: crate::stmt::Return)
    ensures
        s.function == FunctionType::Initializer && !stmt.1.is_nil_literal() ==> resolve_stmt(
            s,
            Stmt::Return_(stmt),
        ).had_error,
        s.function == FunctionType::TopLevel ==> resolve_stmt(s, Stmt::Return_(stmt)).had_error,
{
    lemma_kept_expr(s.returning(*stmt.0, *stmt.1), *stmt.1);
    reveal(kept);
}

} // verus!
