//! The resolver: one pass over the syntax tree before it runs. For every
//! use of a variable it finds how many scopes lie between the use and the
//! binding, and it reports what no scope structure allows.

use crate::context::{occurrence_text, report_text, Context};
use crate::expr::{
    Assign, Binary, Call, Expr, Get, Grouping, Lit, Logical, SetField, Super, This, Unary,
    Variable,
};
use crate::interpreter::Interpreter;
use crate::semantics::Local;
use crate::stmt::{Block, Expression, Fun, If, Print, Return, Stmt, Var, While};
use crate::table::Table;
use crate::text::texts;
use crate::token::{spells, Token};
use std::rc::Rc;
use vstd::prelude::*;

verus! {

/// The kind of function whose body is being resolved.
#[derive(Debug, PartialEq, Eq, Clone, Copy, Structural)]
pub enum FunctionType {
    TopLevel,
    Function,
    Initializer,
    Method,
}

/// The kind of class whose body is being resolved.
#[derive(Debug, PartialEq, Eq, Clone, Copy, Structural)]
pub enum ClassType {
    NoClass,
    Class,
    SubClass,
}

pub struct Resolver {
    /// The interpreter whose distance table is filled.
    pub interpreter: Interpreter,
    /// The scopes around the place being resolved, innermost last. A name
    /// maps to whether its initializer has been resolved.
    pub scopes: Vec<Table<bool>>,
    pub current_function: FunctionType,
    pub current_class: ClassType,
    /// Where the errors are reported.
    pub context: Context,
}

/// The state of a resolution, as the rules of resolution see it.
pub struct Resolution {
    /// The scopes around the place being resolved, innermost last.
    pub scopes: Seq<Map<Seq<char>, bool>>,
    pub function: FunctionType,
    pub class: ClassType,
    /// The distance table so far.
    pub locals: Seq<Local>,
    /// The errors reported so far.
    pub reports: Seq<Seq<char>>,
    pub had_error: bool,
}

/// The number of scopes between a use of `name` and the innermost scope
/// that declares it, given the scopes around the use, innermost last.
/// There is none if no scope declares the name: it is then global.
pub open spec fn hops(scopes: Seq<Map<Seq<char>, bool>>, name: Seq<char>) -> Option<nat>
    decreases scopes.len(),
{
    if scopes.len() == 0 {
        None
    } else if scopes.last().contains_key(name) {
        Some(0)
    } else {
        match hops(scopes.drop_last(), name) {
            Some(d) => Some(d + 1),
            None => None,
        }
    }
}

/// `hops` finds the innermost declaring scope: the scope at that distance
/// declares the name and no scope nearer to the use does. It finds none
/// only if no scope declares the name.
pub proof fn lemma_hops(scopes: Seq<Map<Seq<char>, bool>>, name: Seq<char>)
    ensures
        match hops(scopes, name) {
            Some(d) => {
                &&& d < scopes.len()
                &&& scopes[scopes.len() - 1 - d].contains_key(name)
                &&& forall|j: int|
                    0 <= j < d ==> !(#[trigger] scopes[scopes.len() - 1 - j]).contains_key(name)
            },
            None => forall|i: int|
                0 <= i < scopes.len() ==> !(#[trigger] scopes[i]).contains_key(name),
        },
    decreases scopes.len(),
{
    if scopes.len() > 0 && !scopes.last().contains_key(name) {
        let outer = scopes.drop_last();
        lemma_hops(outer, name);
        match hops(outer, name) {
            Some(d) => {
                assert(outer[outer.len() - 1 - d] == scopes[scopes.len() - 1 - (d + 1)]);
                assert forall|j: int| 0 <= j < d + 1 implies !(#[trigger] scopes[scopes.len() - 1
                    - j]).contains_key(name) by {
                    if j > 0 {
                        assert(outer[outer.len() - 1 - (j - 1)] == scopes[scopes.len() - 1 - j]);
                    }
                }
            },
            None => {
                assert forall|i: int| 0 <= i < scopes.len() implies !(#[trigger] scopes[i]).contains_key(
                    name,
                ) by {
                    if i < outer.len() {
                        assert(outer[i] == scopes[i]);
                    }
                }
            },
        }
    }
}

impl Resolution {
    /// Entering a block, a function or a class body opens a scope.
    pub open spec fn begin(self) -> Resolution {
        Resolution { scopes: self.scopes.push(Map::empty()), ..self }
    }

    /// Leaving it closes the innermost scope.
    pub open spec fn end(self) -> Resolution {
        if self.scopes.len() > 0 {
            Resolution { scopes: self.scopes.drop_last(), ..self }
        } else {
            self
        }
    }

    /// Marks `name` in the innermost scope. At the top level, outside all
    /// scopes, nothing is recorded.
    pub open spec fn mark(self, name: Seq<char>, ready: bool) -> Resolution {
        if self.scopes.len() > 0 {
            Resolution {
                scopes: self.scopes.update(
                    self.scopes.len() - 1,
                    self.scopes.last().insert(name, ready),
                ),
                ..self
            }
        } else {
            self
        }
    }

    /// Reports an error at `token`.
    pub open spec fn report(self, token: Token, message: Seq<char>) -> Resolution {
        Resolution {
            reports: self.reports.push(
                report_text(token.line as int, occurrence_text(token), message),
            ),
            had_error: true,
            ..self
        }
    }

    /// Declares `name`, not yet ready for use. Declaring a name twice in
    /// one scope is an error.
    pub open spec fn declare(self, name: Token) -> Resolution {
        let marked = self.mark(name.lexeme@, false);
        if self.scopes.len() > 0 && self.scopes.last().contains_key(name.lexeme@) {
            marked.report(name, "Already a variable with this name in this scope."@)
        } else {
            marked
        }
    }

    /// Marks `name` as ready for use.
    pub open spec fn define(self, name: Token) -> Resolution {
        self.mark(name.lexeme@, true)
    }

    /// Records the distance of the use site `name`, unless the name is
    /// global.
    pub open spec fn local(self, name: Token) -> Resolution {
        match hops(self.scopes, name.lexeme@) {
            Some(d) => Resolution {
                locals: self.locals.push(Local { token: name, depth: d as usize }),
                ..self
            },
            None => self,
        }
    }

    pub open spec fn in_function(self, kind: FunctionType) -> Resolution {
        Resolution { function: kind, ..self }
    }

    pub open spec fn in_class(self, kind: ClassType) -> Resolution {
        Resolution { class: kind, ..self }
    }

    /// A use of a variable: reading a name that the innermost scope has
    /// declared but not yet made ready is reading a variable in its own
    /// initializer.
    pub open spec fn variable(self, name: Token) -> Resolution {
        let checked = if self.scopes.len() > 0 && self.scopes.last().contains_key(name.lexeme@)
            && !self.scopes.last()[name.lexeme@] {
            self.report(name, "Can't read local variable in its own initializer."@)
        } else {
            self
        };
        checked.local(name)
    }

    /// A use of `this`, which is an error outside a class.
    pub open spec fn this(self, keyword: Token) -> Resolution {
        if self.class == ClassType::NoClass {
            self.report(keyword, "Can't use 'this' outside of a class."@)
        } else {
            self.local(keyword)
        }
    }

    /// A use of `super`, which is an error outside a class and in a class
    /// without a superclass.
    pub open spec fn super_(self, keyword: Token) -> Resolution {
        let checked = match self.class {
            ClassType::NoClass => self.report(keyword, "Can't use 'super' outside of a class."@),
            ClassType::Class => self.report(
                keyword,
                "Can't use 'super' in a class with no superclass."@,
            ),
            ClassType::SubClass => self,
        };
        checked.local(keyword)
    }

    /// A `return`, which is an error outside all functions, and in an
    /// initializer if it returns a value.
    pub open spec fn returning(self, keyword: Token, value: Expr) -> Resolution {
        let checked = if self.function == FunctionType::TopLevel {
            self.report(keyword, "Can't return from top-level code."@)
        } else {
            self
        };
        if self.function == FunctionType::Initializer && !value.is_nil_literal() {
            checked.report(keyword, "Can't return a value from an initializer."@)
        } else {
            checked
        }
    }

    /// The parameters of a function, each declared and ready.
    pub open spec fn parameters(self, params: Seq<Token>) -> Resolution
        decreases params.len(),
    {
        if params.len() == 0 {
            self
        } else {
            self.parameters(params.drop_last()).declare(params.last()).define(params.last())
        }
    }
}

/// The kind of function that a method of the given name is.
pub open spec fn method_kind(name: Seq<char>) -> FunctionType {
    if name == "init"@ {
        FunctionType::Initializer
    } else {
        FunctionType::Method
    }
}

/// Resolving an expression.
pub open spec fn resolve_expr(s: Resolution, expr: Expr) -> Resolution
    decreases expr,
{
    match expr {
        Expr::Assign_(e) => resolve_expr(s, *e.1).local(*e.0),
        Expr::Binary_(e) => resolve_expr(resolve_expr(s, *e.0), *e.2),
        Expr::Call_(e) => resolve_exprs(resolve_expr(s, *e.0), e.2@),
        Expr::Get_(e) => resolve_expr(s, *e.0),
        Expr::Grouping_(e) => resolve_expr(s, *e.0),
        Expr::Literal_(_) => s,
        Expr::Logical_(e) => resolve_expr(resolve_expr(s, *e.0), *e.2),
        Expr::Set_(e) => resolve_expr(resolve_expr(s, *e.2), *e.0),
        Expr::Super_(e) => s.super_(*e.0),
        Expr::This_(e) => s.this(*e.0),
        Expr::Unary_(e) => resolve_expr(s, *e.1),
        Expr::Variable_(e) => s.variable(*e.0),
        Expr::Null => s,
    }
}

/// Resolving expressions in order.
pub open spec fn resolve_exprs(s: Resolution, exprs: Seq<Expr>) -> Resolution
    decreases exprs,
{
    if exprs.len() == 0 {
        s
    } else {
        resolve_expr(resolve_exprs(s, exprs.drop_last()), exprs.last())
    }
}

/// Resolving a function: its parameters and body in a scope of their
/// own, under the function's kind.
pub open spec fn resolve_function(s: Resolution, function: Rc<Fun>, kind: FunctionType) -> Resolution
    decreases function,
{
    let inner = s.in_function(kind).begin().parameters(function.1@);
    resolve_stmts(inner, function.2@).end().in_function(s.function)
}

/// Resolving the methods of a class body; anything but a function in it
/// is an error at the class's name.
pub open spec fn resolve_methods(s: Resolution, body: Seq<Stmt>, class: Token) -> Resolution
    decreases body,
{
    if body.len() == 0 {
        s
    } else {
        let before = resolve_methods(s, body.drop_last(), class);
        match body.last() {
            Stmt::Fun_(method) => resolve_function(before, method, method_kind(method.0.lexeme@)),
            _ => before.report(class, "[BUG] Included a stmt that is ot a function."@),
        }
    }
}

/// The head of a class declaration: the name is declared where the class
/// stands, and the superclass, if there is one, is resolved. A class that
/// names itself as its superclass is an error.
pub open spec fn resolve_class_head(s: Resolution, class: crate::stmt::Class) -> Resolution
    decreases class, 0nat,
{
    let named = s.in_class(ClassType::Class).declare(*class.0).define(*class.0);
    match class.1 {
        Some(parent) => {
            let sub = named.in_class(ClassType::SubClass);
            let checked = match *parent {
                Expr::Variable_(var) => if class.0.lexeme@ == var.0.lexeme@ {
                    sub.report(*var.0, "A class can't inherit from itself."@)
                } else {
                    sub
                },
                _ => sub,
            };
            resolve_expr(checked, *parent)
        },
        None => named,
    }
}

/// Resolving a class declaration. The methods see a scope that binds
/// `this` and, in a subclass, around it one that binds `super`.
pub open spec fn resolve_class(s: Resolution, class: crate::stmt::Class) -> Resolution
    decreases class, 1nat,
{
    let head = resolve_class_head(s, class);
    let parented = if class.1 is Some {
        head.begin().mark("super"@, true)
    } else {
        head
    };
    let methods = resolve_methods(parented.begin().mark("this"@, true), class.2@, *class.0).end();
    let closed = if class.1 is Some {
        methods.end()
    } else {
        methods
    };
    closed.in_class(s.class)
}

/// Resolving a statement.
pub open spec fn resolve_stmt(s: Resolution, stmt: Stmt) -> Resolution
    decreases stmt,
{
    match stmt {
        Stmt::Block_(b) => resolve_stmts(s.begin(), b.0@).end(),
        Stmt::Class_(c) => resolve_class(s, c),
        Stmt::Expression_(e) => resolve_expr(s, *e.0),
        Stmt::Fun_(f) => resolve_function(
            s.declare(*f.0).define(*f.0),
            f,
            FunctionType::Function,
        ),
        Stmt::If_(i) => resolve_if(s, i),
        Stmt::Print_(p) => resolve_expr(s, *p.0),
        Stmt::Return_(r) => resolve_expr(s.returning(*r.0, *r.1), *r.1),
        Stmt::Var_(v) => resolve_var(s, v),
        Stmt::While_(w) => resolve_stmt(resolve_expr(s, *w.0), *w.1),
        Stmt::Null => s,
    }
}

/// Resolving a conditional: the condition, then the branches.
pub open spec fn resolve_if(s: Resolution, stmt: If) -> Resolution
    decreases stmt,
{
    let then = resolve_stmt(resolve_expr(s, *stmt.0), *stmt.1);
    match stmt.2 {
        Some(other) => resolve_stmt(then, *other),
        None => then,
    }
}

/// Resolving a variable declaration: the name is declared before its
/// initializer is resolved and made ready after.
pub open spec fn resolve_var(s: Resolution, stmt: Var) -> Resolution
    decreases stmt,
{
    let declared = s.declare(*stmt.0);
    let initialized = if *stmt.1 is Null {
        declared
    } else {
        resolve_expr(declared, *stmt.1)
    };
    initialized.define(*stmt.0)
}

/// Resolving statements in order.
pub open spec fn resolve_stmts(s: Resolution, stmts: Seq<Stmt>) -> Resolution
    decreases stmts,
{
    if stmts.len() == 0 {
        s
    } else {
        resolve_stmt(resolve_stmts(s, stmts.drop_last()), stmts.last())
    }
}

} // verus!

verus! {

/// What each scope declares.
pub open spec fn scope_maps(scopes: Seq<Table<bool>>) -> Seq<Map<Seq<char>, bool>> {
    Seq::new(scopes.len(), |i: int| scopes[i]@)
}

impl View for Resolver {
    type V = Resolution;

    open spec fn view(&self) -> Resolution {
        Resolution {
            scopes: scope_maps(self.scopes@),
            function: self.current_function,
            class: self.current_class,
            locals: self.interpreter.locals@,
            reports: texts(self.context.reports@),
            had_error: self.context.had_error,
        }
    }
}

impl Resolver {
    pub fn new(interpreter: Interpreter, context: Context) -> (r: Self)
        ensures
            r.interpreter == interpreter,
            r.context == context,
            r.scopes@.len() == 0,
            r.current_function == FunctionType::TopLevel,
            r.current_class == ClassType::NoClass,
    {
        Resolver {
            interpreter,
            scopes: Vec::new(),
            current_function: FunctionType::TopLevel,
            current_class: ClassType::NoClass,
            context,
        }
    }

    /// Resolving touches nothing of the interpreter but its distance
    /// table.
    pub open spec fn keeps(self, before: Resolver) -> bool {
        &&& self.interpreter.globals == before.interpreter.globals
        &&& self.interpreter.environment == before.interpreter.environment
        &&& self.interpreter.scopes == before.interpreter.scopes
        &&& self.interpreter.classes == before.interpreter.classes
        &&& self.interpreter.output == before.interpreter.output
        &&& self.interpreter.steps == before.interpreter.steps
        &&& self.interpreter.host == before.interpreter.host
    }

    pub fn begin_scope(&mut self)
        ensures
            final(self)@ == old(self)@.begin(),
            final(self).keeps(*old(self)),
    {
        self.scopes.push(Table::new());
        assert(scope_maps(self.scopes@) =~= scope_maps(old(self).scopes@).push(Map::empty()));
    }

    pub fn end_scope(&mut self)
        ensures
            final(self)@ == old(self)@.end(),
            final(self).keeps(*old(self)),
    {
        self.scopes.pop();
        proof {
            if old(self).scopes@.len() > 0 {
                assert(scope_maps(self.scopes@) =~= scope_maps(old(self).scopes@).drop_last());
            }
        }
    }

    /// Marks `name` in the innermost scope.
    pub fn mark(&mut self, name: &String, ready: bool)
        ensures
            final(self)@ == old(self)@.mark(name@, ready),
            final(self).keeps(*old(self)),
    {
        let n = self.scopes.len();
        if n > 0 {
            let scope = &mut self.scopes[n - 1];
            scope.insert(name.clone(), ready);
            assert(scope_maps(self.scopes@) =~= scope_maps(old(self).scopes@).update(
                n - 1,
                scope_maps(old(self).scopes@).last().insert(name@, ready),
            ));
        }
    }

    pub fn declare(&mut self, name: &Token)
        ensures
            final(self)@ == old(self)@.declare(*name),
            final(self).keeps(*old(self)),
    {
        let n = self.scopes.len();
        let had_error = n > 0 && self.scopes[n - 1].contains_key(&name.lexeme);
        self.mark(&name.lexeme, false);
        if had_error {
            self.error(name, "Already a variable with this name in this scope.");
        }
    }

    pub fn define(&mut self, name: &Token)
        ensures
            final(self)@ == old(self)@.define(*name),
            final(self).keeps(*old(self)),
    {
        self.mark(&name.lexeme, true);
    }

    /// Records for the use site `name` the distance to the innermost
    /// scope that declares the name. A name that no scope declares is
    /// global and gets no entry.
    pub fn resolve_local(&mut self, name: &Token)
        ensures
            final(self)@ == old(self)@.local(*name),
            final(self).keeps(*old(self)),
    {
        let len = self.scopes.len();
        let mut i: usize = len;
        let ghost maps = scope_maps(self.scopes@);
        assert(maps.take(len as int) =~= maps);
        while i > 0
            invariant
                i <= len,
                len == self.scopes@.len(),
                *self == *old(self),
                maps == scope_maps(self.scopes@),
                match hops(maps.take(i as int), name.lexeme@) {
                    Some(d) => hops(maps, name.lexeme@) == Some((d + (len - i)) as nat),
                    None => hops(maps, name.lexeme@) is None,
                },
            decreases i,
        {
            i = i - 1;
            proof {
                assert(maps.take(i + 1).drop_last() =~= maps.take(i as int));
                assert(maps.take(i + 1).last() == maps[i as int]);
            }
            if self.scopes[i].contains_key(&name.lexeme) {
                self.interpreter.resolve(name.clone(), len - 1 - i);
                return ;
            }
        }
    }

    /// Reports an error at `token`.
    pub fn error(&mut self, token: &Token, message: &str)
        ensures
            final(self)@ == old(self)@.report(*token, message@),
            final(self).keeps(*old(self)),
    {
        self.context.error_on(token, message);
        assert(texts(self.context.reports@) =~= texts(old(self).context.reports@).push(
            report_text(token.line as int, occurrence_text(*token), message@),
        )) by {
            assert(self.context.reports@.drop_last() == old(self).context.reports@);
            assert forall|i: int| 0 <= i < old(self).context.reports@.len() implies texts(
                self.context.reports@,
            )[i] == texts(old(self).context.reports@)[i] by {
                assert(self.context.reports@.drop_last()[i] == self.context.reports@[i]);
            }
        }
    }

    /// Resolves a program: its statements in order.
    #[verifier::loop_isolation(false)]
    pub fn resolve(&mut self, statements: &Vec<Stmt>)
        ensures
            final(self)@ == resolve_stmts(old(self)@, statements@),
            final(self).keeps(*old(self)),
        decreases *statements, 0nat,
    {
        let mut i: usize = 0;
        assert(statements@.take(0) =~= Seq::<Stmt>::empty());
        while i < statements.len()
            invariant
                i <= statements@.len(),
                self@ == resolve_stmts(old(self)@, statements@.take(i as int)),
                self.keeps(*old(self)),
            decreases statements@.len() - i,
        {
            proof {
                assert(statements@.take(i + 1).drop_last() =~= statements@.take(i as int));
                assert(statements@.take(i + 1).last() == statements@[i as int]);
            }
            self.resolve_stmt(&statements[i]);
            i = i + 1;
        }
        assert(statements@.take(i as int) =~= statements@);
    }

    #[verifier::loop_isolation(false)]
    pub fn resolve_function(&mut self, function: &Rc<Fun>, funtype: FunctionType)
        ensures
            final(self)@ == resolve_function(old(self)@, *function, funtype),
            final(self).keeps(*old(self)),
        decreases *function, 0nat,
    {
        let enclosing_function = self.current_function;
        self.current_function = funtype;
        self.begin_scope();
        let ghost start = self@;
        let mut i: usize = 0;
        assert(function.1@.take(0) =~= Seq::<Token>::empty());
        while i < function.1.len()
            invariant
                i <= function.1@.len(),
                self@ == start.parameters(function.1@.take(i as int)),
                self.keeps(*old(self)),
            decreases function.1@.len() - i,
        {
            proof {
                assert(function.1@.take(i + 1).drop_last() =~= function.1@.take(i as int));
                assert(function.1@.take(i + 1).last() == function.1@[i as int]);
            }
            self.declare(&function.1[i]);
            self.define(&function.1[i]);
            i = i + 1;
        }
        assert(function.1@.take(i as int) =~= function.1@);
        self.resolve(&function.2);
        self.end_scope();
        self.current_function = enclosing_function;
    }

    pub fn resolve_stmt(&mut self, stmt: &Stmt)
        ensures
            final(self)@ == resolve_stmt(old(self)@, *stmt),
            final(self).keeps(*old(self)),
        decreases *stmt, 0nat,
    {
        match stmt {
            Stmt::Block_(s) => self.visit_block(s),
            Stmt::Class_(s) => self.visit_class(s),
            Stmt::Expression_(s) => self.visit_expression(s),
            Stmt::Fun_(s) => self.visit_fun(s),
            Stmt::If_(s) => self.visit_if(s),
            Stmt::Print_(s) => self.visit_print(s),
            Stmt::Return_(s) => self.visit_return(s),
            Stmt::Var_(s) => self.visit_var(s),
            Stmt::While_(s) => self.visit_while(s),
            Stmt::Null => {},
        }
    }

    pub fn resolve_expr(&mut self, expr: &Expr)
        ensures
            final(self)@ == resolve_expr(old(self)@, *expr),
            final(self).keeps(*old(self)),
        decreases *expr, 0nat,
    {
        match expr {
            Expr::Assign_(e) => self.visit_assign(e),
            Expr::Binary_(e) => self.visit_binary(e),
            Expr::Call_(e) => self.visit_call(e),
            Expr::Get_(e) => self.visit_get(e),
            Expr::Grouping_(e) => self.visit_grouping(e),
            Expr::Literal_(e) => self.visit_literal(e),
            Expr::Logical_(e) => self.visit_logical(e),
            Expr::Set_(e) => self.visit_set(e),
            Expr::Super_(e) => self.visit_super(e),
            Expr::This_(e) => self.visit_this(e),
            Expr::Unary_(e) => self.visit_unary(e),
            Expr::Variable_(e) => self.visit_variable(e),
            Expr::Null => {},
        }
    }

    pub fn visit_block(&mut self, stmt: &Block)
        ensures
            final(self)@ == resolve_stmts(old(self)@.begin(), stmt.0@).end(),
            final(self).keeps(*old(self)),
        decreases *stmt, 0nat,
    {
        self.begin_scope();
        self.resolve(&stmt.0);
        self.end_scope();
    }

    #[verifier::loop_isolation(false)]
    pub fn visit_class(&mut self, stmt: &crate::stmt::Class)
        ensures
            final(self)@ == resolve_class(old(self)@, *stmt),
            final(self).keeps(*old(self)),
        decreases *stmt, 0nat,
    {
        let enclosing_class = self.current_class;
        self.current_class = ClassType::Class;
        self.declare(&stmt.0);
        self.define(&stmt.0);
        match &stmt.1 {
            Some(superclass) => {
                self.current_class = ClassType::SubClass;
                match &**superclass {
                    Expr::Variable_(var) => {
                        if stmt.0.lexeme == var.0.lexeme {
                            self.error(&var.0, "A class can't inherit from itself.");
                        }
                    },
                    _ => {},
                }
                self.resolve_expr(superclass);
                self.begin_scope();
                self.mark(&String::from_str("super"), true);
            },
            None => {},
        }
        self.begin_scope();
        self.mark(&String::from_str("this"), true);
        let ghost start = self@;
        let mut i: usize = 0;
        assert(stmt.2@.take(0) =~= Seq::<Stmt>::empty());
        while i < stmt.2.len()
            invariant
                i <= stmt.2@.len(),
                self@ == resolve_methods(start, stmt.2@.take(i as int), *stmt.0),
                self.keeps(*old(self)),
            decreases stmt.2@.len() - i,
        {
            proof {
                assert(stmt.2@.take(i + 1).drop_last() =~= stmt.2@.take(i as int));
                assert(stmt.2@.take(i + 1).last() == stmt.2@[i as int]);
            }
            match &stmt.2[i] {
                Stmt::Fun_(method) => {
                    let declaration = if spells(&method.0.lexeme, "init") {
                        FunctionType::Initializer
                    } else {
                        FunctionType::Method
                    };
                    self.resolve_function(method, declaration);
                },
                _ => {
                    self.error(&stmt.0, "[BUG] Included a stmt that is ot a function.");
                },
            }
            i = i + 1;
        }
        assert(stmt.2@.take(i as int) =~= stmt.2@);
        self.end_scope();
        if stmt.1.is_some() {
            self.end_scope();
        }
        self.current_class = enclosing_class;
    }

    pub fn visit_expression(&mut self, stmt: &Expression)
        ensures
            final(self)@ == resolve_expr(old(self)@, *stmt.0),
            final(self).keeps(*old(self)),
        decreases *stmt, 0nat,
    {
        self.resolve_expr(&stmt.0)
    }

    pub fn visit_fun(&mut self, stmt: &Rc<Fun>)
        ensures
            final(self)@ == resolve_function(
                old(self)@.declare(*stmt.0).define(*stmt.0),
                *stmt,
                FunctionType::Function,
            ),
            final(self).keeps(*old(self)),
        decreases *stmt, 1nat,
    {
        self.declare(&stmt.0);
        self.define(&stmt.0);
        self.resolve_function(stmt, FunctionType::Function);
    }

    pub fn visit_if(&mut self, stmt: &If)
        ensures
            final(self)@ == resolve_if(old(self)@, *stmt),
            final(self).keeps(*old(self)),
        decreases *stmt, 0nat,
    {
        self.resolve_expr(&stmt.0);
        self.resolve_stmt(&stmt.1);
        match &stmt.2 {
            Some(other) => {
                self.resolve_stmt(other);
            },
            None => {},
        }
    }

    pub fn visit_print(&mut self, stmt: &Print)
        ensures
            final(self)@ == resolve_expr(old(self)@, *stmt.0),
            final(self).keeps(*old(self)),
        decreases *stmt, 0nat,
    {
        self.resolve_expr(&stmt.0)
    }

    pub fn visit_return(&mut self, stmt: &Return)
        ensures
            final(self)@ == resolve_expr(old(self)@.returning(*stmt.0, *stmt.1), *stmt.1),
            final(self).keeps(*old(self)),
        decreases *stmt, 0nat,
    {
        if self.current_function == FunctionType::TopLevel {
            self.error(&stmt.0, "Can't return from top-level code.");
        }
        if self.current_function == FunctionType::Initializer && !stmt.1.nil_literal() {
            self.error(&stmt.0, "Can't return a value from an initializer.");
        }
        self.resolve_expr(&stmt.1);
    }

    pub fn visit_var(&mut self, stmt: &Var)
        ensures
            final(self)@ == resolve_var(old(self)@, *stmt),
            final(self).keeps(*old(self)),
        decreases *stmt, 0nat,
    {
        self.declare(&stmt.0);
        match &*stmt.1 {
            Expr::Null => {},
            initializer => {
                self.resolve_expr(initializer);
            },
        }
        self.define(&stmt.0);
    }

    pub fn visit_while(&mut self, stmt: &While)
        ensures
            final(self)@ == resolve_stmt(resolve_expr(old(self)@, *stmt.0), *stmt.1),
            final(self).keeps(*old(self)),
        decreases *stmt, 0nat,
    {
        self.resolve_expr(&stmt.0);
        self.resolve_stmt(&stmt.1);
    }

    pub fn visit_assign(&mut self, expr: &Assign)
        ensures
            final(self)@ == resolve_expr(old(self)@, *expr.1).local(*expr.0),
            final(self).keeps(*old(self)),
        decreases *expr, 0nat,
    {
        self.resolve_expr(&expr.1);
        self.resolve_local(&expr.0);
    }

    pub fn visit_binary(&mut self, expr: &Binary)
        ensures
            final(self)@ == resolve_expr(resolve_expr(old(self)@, *expr.0), *expr.2),
            final(self).keeps(*old(self)),
        decreases *expr, 0nat,
    {
        self.resolve_expr(&expr.0);
        self.resolve_expr(&expr.2);
    }

    #[verifier::loop_isolation(false)]
    pub fn visit_call(&mut self, expr: &Call)
        ensures
            final(self)@ == resolve_exprs(resolve_expr(old(self)@, *expr.0), expr.2@),
            final(self).keeps(*old(self)),
        decreases *expr, 0nat,
    {
        self.resolve_expr(&expr.0);
        let ghost start = self@;
        let mut i: usize = 0;
        assert(expr.2@.take(0) =~= Seq::<Expr>::empty());
        while i < expr.2.len()
            invariant
                i <= expr.2@.len(),
                self@ == resolve_exprs(start, expr.2@.take(i as int)),
                self.keeps(*old(self)),
            decreases expr.2@.len() - i,
        {
            proof {
                assert(expr.2@.take(i + 1).drop_last() =~= expr.2@.take(i as int));
                assert(expr.2@.take(i + 1).last() == expr.2@[i as int]);
            }
            self.resolve_expr(&expr.2[i]);
            i = i + 1;
        }
        assert(expr.2@.take(i as int) =~= expr.2@);
    }

    pub fn visit_get(&mut self, expr: &Get)
        ensures
            final(self)@ == resolve_expr(old(self)@, *expr.0),
            final(self).keeps(*old(self)),
        decreases *expr, 0nat,
    {
        self.resolve_expr(&expr.0);
    }

    pub fn visit_grouping(&mut self, expr: &Grouping)
        ensures
            final(self)@ == resolve_expr(old(self)@, *expr.0),
            final(self).keeps(*old(self)),
        decreases *expr, 0nat,
    {
        self.resolve_expr(&expr.0);
    }

    pub fn visit_literal(&mut self, expr: &Lit)
        ensures
            *final(self) == *old(self),
    {
    }

    pub fn visit_logical(&mut self, expr: &Logical)
        ensures
            final(self)@ == resolve_expr(resolve_expr(old(self)@, *expr.0), *expr.2),
            final(self).keeps(*old(self)),
        decreases *expr, 0nat,
    {
        self.resolve_expr(&expr.0);
        self.resolve_expr(&expr.2);
    }

    pub fn visit_set(&mut self, expr: &SetField)
        ensures
            final(self)@ == resolve_expr(resolve_expr(old(self)@, *expr.2), *expr.0),
            final(self).keeps(*old(self)),
        decreases *expr, 0nat,
    {
        self.resolve_expr(&expr.2);
        self.resolve_expr(&expr.0);
    }

    pub fn visit_super(&mut self, expr: &Super)
        ensures
            final(self)@ == old(self)@.super_(*expr.0),
            final(self).keeps(*old(self)),
    {
        match self.current_class {
            ClassType::NoClass => self.error(&expr.0, "Can't use 'super' outside of a class."),
            ClassType::Class => self.error(
                &expr.0,
                "Can't use 'super' in a class with no superclass.",
            ),
            ClassType::SubClass => {},
        }
        self.resolve_local(&expr.0);
    }

    pub fn visit_this(&mut self, expr: &This)
        ensures
            final(self)@ == old(self)@.this(*expr.0),
            final(self).keeps(*old(self)),
    {
        match self.current_class {
            ClassType::NoClass => self.error(&expr.0, "Can't use 'this' outside of a class."),
            _ => self.resolve_local(&expr.0),
        }
    }

    pub fn visit_unary(&mut self, expr: &Unary)
        ensures
            final(self)@ == resolve_expr(old(self)@, *expr.1),
            final(self).keeps(*old(self)),
        decreases *expr, 0nat,
    {
        self.resolve_expr(&expr.1);
    }

    pub fn visit_variable(&mut self, expr: &Variable)
        ensures
            final(self)@ == old(self)@.variable(*expr.0),
            final(self).keeps(*old(self)),
    {
        let n = self.scopes.len();
        if n > 0 {
            match self.scopes[n - 1].get(&expr.0.lexeme) {
                Some(ready) => {
                    if !*ready {
                        self.error(
                            &expr.0,
                            "Can't read local variable in its own initializer.",
                        );
                    }
                },
                None => {},
            }
        }
        self.resolve_local(&expr.0);
    }
}

} // verus!
