//! The grammar: which tokens make which syntax tree, and what is reported
//! where the tokens make none.

use crate::context::{occurrence_text, report_text};
use crate::errors::ParseError;
use crate::token::{Literal, Token, TokenType};
use crate::tree::{ExprTree, StmtTree};
use vstd::prelude::*;

verus! {

/// How far a parse has come.
pub struct Parse {
    pub tokens: Seq<Token>,
    /// The place of the next token.
    pub current: int,
    /// The errors reported so far.
    pub reports: Seq<Seq<char>>,
    pub had_error: bool,
}

pub type Parsed<T> = (Parse, Result<T, ParseError>);

/// The kinds of function that a declaration can declare.
#[derive(Clone, Copy, PartialEq, Eq, Structural)]
pub enum FunctionKind {
    Function,
    Method,
}

pub open spec fn kind_text(kind: FunctionKind) -> Seq<char> {
    match kind {
        FunctionKind::Function => "function"@,
        FunctionKind::Method => "method"@,
    }
}

/// Whether a statement begins with a token of this type; after an error
/// the parser skips to the next such token.
pub open spec fn begins_statement(t: TokenType) -> bool {
    t == TokenType::CLASS || t == TokenType::FUN || t == TokenType::VAR || t == TokenType::FOR
        || t == TokenType::IF || t == TokenType::WHILE || t == TokenType::PRINT || t
        == TokenType::RETURN
}

/// The operators of the binary level `level`: factors are joined by `/`
/// and `*`, terms by `-` and `+`, comparisons by the four order signs,
/// equalities by `!=` and `==`.
pub open spec fn joins(level: nat, t: TokenType) -> bool {
    if level == 1 {
        t == TokenType::SLASH || t == TokenType::STAR
    } else if level == 2 {
        t == TokenType::MINUS || t == TokenType::PLUS
    } else if level == 3 {
        t == TokenType::GREATER || t == TokenType::GREATER_EQUAL || t == TokenType::LESS || t
            == TokenType::LESS_EQUAL
    } else if level == 4 {
        t == TokenType::BANG_EQUAL || t == TokenType::EQUAL_EQUAL
    } else {
        false
    }
}

impl Parse {
    /// The tokens end with the end-of-file token, and the place is among
    /// them.
    pub open spec fn well_formed(self) -> bool {
        &&& self.tokens.len() > 0
        &&& self.tokens.last().token_type == TokenType::EOF
        &&& 0 <= self.current < self.tokens.len()
    }

    /// The number of tokens from the place on.
    pub open spec fn left(self) -> nat {
        if 0 <= self.current <= self.tokens.len() {
            (self.tokens.len() - self.current) as nat
        } else {
            0
        }
    }

    /// `after` is a later state of this parse, further on in the tokens.
    pub open spec fn moved(self, after: Parse) -> bool {
        after.tokens == self.tokens && 0 <= self.current < after.current <= self.tokens.len()
    }

    /// `after` is a later state of this parse, not further back.
    pub open spec fn held(self, after: Parse) -> bool {
        after.tokens == self.tokens && 0 <= self.current <= after.current <= self.tokens.len()
    }

    pub open spec fn peek(self) -> Token {
        self.tokens[self.current]
    }

    pub open spec fn previous(self) -> Token {
        self.tokens[self.current - 1]
    }

    pub open spec fn at_end(self) -> bool {
        self.peek().token_type == TokenType::EOF
    }

    /// Whether the next token is of the type `t`.
    pub open spec fn check(self, t: TokenType) -> bool {
        !self.at_end() && self.peek().token_type == t
    }

    /// Past the next token, unless it is the end.
    pub open spec fn advance(self) -> Parse {
        if self.at_end() {
            self
        } else {
            Parse { current: self.current + 1, ..self }
        }
    }

    pub open spec fn error(self, token: Token, message: Seq<char>) -> Parse {
        Parse {
            reports: self.reports.push(
                report_text(token.line as int, occurrence_text(token), message),
            ),
            had_error: true,
            ..self
        }
    }

    /// The next token if it is of the type `t`; else an error at it.
    pub open spec fn consume(self, t: TokenType, message: Seq<char>) -> Parsed<Token> {
        if self.check(t) {
            (self.advance(), Ok(self.peek()))
        } else {
            (self.error(self.peek(), message), Err(ParseError {  }))
        }
    }

    /// After an error: on to where a statement may begin, which is behind
    /// a semicolon or before a keyword that begins a statement.
    pub open spec fn synchronize(self) -> Parse {
        self.advance().resume()
    }

    pub open spec fn resume(self) -> Parse
        decreases self.left(),
    {
        if !self.well_formed() || self.current < 1 || self.at_end() {
            self
        } else if self.previous().token_type == TokenType::SEMICOLON {
            self
        } else if begins_statement(self.peek().token_type) {
            self
        } else {
            self.advance().resume()
        }
    }
}

pub open spec fn failed<T>(s: Parse) -> Parsed<T> {
    (s, Err(ParseError {  }))
}

/// A literal, a grouping, `super.method`, `this` or a variable.
pub open spec fn primary(s: Parse) -> Parsed<ExprTree>
    decreases s.left(), 0nat,
{
    let next = s.advance();
    if s.check(TokenType::FALSE) {
        (next, Ok(ExprTree::Literal(Literal::Bool(false))))
    } else if s.check(TokenType::TRUE) {
        (next, Ok(ExprTree::Literal(Literal::Bool(true))))
    } else if s.check(TokenType::NIL) {
        (next, Ok(ExprTree::Literal(Literal::Nil)))
    } else if s.check(TokenType::NUMBER) || s.check(TokenType::STRING) {
        (next, Ok(ExprTree::Literal(s.peek().literal)))
    } else if s.check(TokenType::LEFT_PAREN) {
        if s.moved(next) {
            let (s1, inner) = expression(next);
            match inner {
                Err(e) => (s1, Err(e)),
                Ok(tree) => {
                    let (s2, close) = s1.consume(
                        TokenType::RIGHT_PAREN,
                        "Expect ')' after expression."@,
                    );
                    match close {
                        Err(e) => (s2, Err(e)),
                        Ok(_) => (s2, Ok(ExprTree::Grouping(Box::new(tree)))),
                    }
                },
            }
        } else {
            failed(s)
        }
    } else if s.check(TokenType::SUPER) {
        let (s1, dot) = next.consume(TokenType::DOT, "Expect '.' after 'super'."@);
        match dot {
            Err(e) => (s1, Err(e)),
            Ok(_) => {
                let (s2, method) = s1.consume(
                    TokenType::IDENTIFIER,
                    "Expect superclass method name."@,
                );
                match method {
                    Err(e) => (s2, Err(e)),
                    Ok(name) => (s2, Ok(ExprTree::Super(s.peek(), name))),
                }
            },
        }
    } else if s.check(TokenType::THIS) {
        (next, Ok(ExprTree::This(s.peek())))
    } else if s.check(TokenType::IDENTIFIER) {
        (next, Ok(ExprTree::Variable(s.peek())))
    } else {
        (s.error(s.peek(), "Expect expression."@), Err(ParseError {  }))
    }
}

/// The arguments of a call, after those in `done`: expressions with
/// commas between them, at most 255.
pub open spec fn arguments(s: Parse, done: Seq<ExprTree>) -> Parsed<Seq<ExprTree>>
    decreases s.left(), 23nat,
{
    if done.len() >= 255 {
        (s.error(s.peek(), "Can't have more than 255 arguments."@), Err(ParseError {  }))
    } else {
        let (s1, argument) = expression(s);
        match argument {
            Err(e) => (s1, Err(e)),
            Ok(tree) => if s1.check(TokenType::COMMA) {
                if s.moved(s1.advance()) {
                    arguments(s1.advance(), done.push(tree))
                } else {
                    failed(s1)
                }
            } else {
                (s1, Ok(done.push(tree)))
            },
        }
    }
}

/// A call, from behind its opening parenthesis on.
pub open spec fn finish_call(s: Parse, callee: ExprTree) -> Parsed<ExprTree>
    decreases s.left(), 24nat,
{
    let (s1, listed) = if s.check(TokenType::RIGHT_PAREN) {
        (s, Ok(Seq::empty()))
    } else {
        arguments(s, Seq::empty())
    };
    match listed {
        Err(e) => (s1, Err(e)),
        Ok(list) => {
            let (s2, close) = s1.consume(TokenType::RIGHT_PAREN, "Expect ')' after arguments."@);
            match close {
                Err(e) => (s2, Err(e)),
                Ok(paren) => (s2, Ok(ExprTree::Call(Box::new(callee), paren, list))),
            }
        },
    }
}

/// What follows a callee: calls and property reads, as many as come.
pub open spec fn call_rest(s: Parse, callee: ExprTree) -> Parsed<ExprTree>
    decreases s.left(), 1nat,
{
    if s.check(TokenType::LEFT_PAREN) {
        if s.moved(s.advance()) {
            let (s1, called) = finish_call(s.advance(), callee);
            match called {
                Err(e) => (s1, Err(e)),
                Ok(tree) => if s.moved(s1) {
                    call_rest(s1, tree)
                } else {
                    failed(s1)
                },
            }
        } else {
            failed(s)
        }
    } else if s.check(TokenType::DOT) {
        let (s1, name) = s.advance().consume(
            TokenType::IDENTIFIER,
            "Expect property name after '.'."@,
        );
        match name {
            Err(e) => (s1, Err(e)),
            Ok(property) => if s.moved(s1) {
                call_rest(s1, ExprTree::Get(Box::new(callee), property))
            } else {
                failed(s1)
            },
        }
    } else {
        (s, Ok(callee))
    }
}

pub open spec fn call(s: Parse) -> Parsed<ExprTree>
    decreases s.left(), 2nat,
{
    let (s1, callee) = primary(s);
    match callee {
        Err(e) => (s1, Err(e)),
        Ok(tree) => if s.held(s1) {
            call_rest(s1, tree)
        } else {
            failed(s1)
        },
    }
}

/// `!` or `-` before a unary expression, or a call.
pub open spec fn unary(s: Parse) -> Parsed<ExprTree>
    decreases s.left(), 3nat,
{
    if s.check(TokenType::BANG) || s.check(TokenType::MINUS) {
        if s.moved(s.advance()) {
            let (s1, right) = unary(s.advance());
            match right {
                Err(e) => (s1, Err(e)),
                Ok(tree) => (s1, Ok(ExprTree::Unary(s.peek(), Box::new(tree)))),
            }
        } else {
            failed(s)
        }
    } else {
        call(s)
    }
}

/// The operands of a binary level are of the level below; those of the
/// lowest level are unary expressions.
pub open spec fn operand(s: Parse, level: nat) -> Parsed<ExprTree>
    decreases s.left(), 4 + 3 * level,
{
    if level <= 1 {
        unary(s)
    } else {
        binary(s, (level - 1) as nat)
    }
}

/// What follows the left operand of a binary level: operators of the
/// level, each with a right operand, joined to the left.
pub open spec fn binary_rest(s: Parse, left: ExprTree, level: nat) -> Parsed<ExprTree>
    decreases s.left(), 5 + 3 * level,
{
    if !s.at_end() && joins(level, s.peek().token_type) {
        if s.moved(s.advance()) {
            let (s1, right) = operand(s.advance(), level);
            match right {
                Err(e) => (s1, Err(e)),
                Ok(tree) => if s.moved(s1) {
                    binary_rest(
                        s1,
                        ExprTree::Binary(Box::new(left), s.peek(), Box::new(tree)),
                        level,
                    )
                } else {
                    failed(s1)
                },
            }
        } else {
            failed(s)
        }
    } else {
        (s, Ok(left))
    }
}

/// An expression of a binary level: factor, term, comparison, equality.
pub open spec fn binary(s: Parse, level: nat) -> Parsed<ExprTree>
    decreases s.left(), 6 + 3 * level,
{
    let (s1, left) = operand(s, level);
    match left {
        Err(e) => (s1, Err(e)),
        Ok(tree) => if s.held(s1) {
            binary_rest(s1, tree, level)
        } else {
            failed(s1)
        },
    }
}

/// An equality, or two joined by `and`.
pub open spec fn and(s: Parse) -> Parsed<ExprTree>
    decreases s.left(), 19nat,
{
    let (s1, left) = binary(s, 4);
    match left {
        Err(e) => (s1, Err(e)),
        Ok(tree) => if s1.check(TokenType::AND) {
            if s.moved(s1.advance()) {
                let (s2, right) = binary(s1.advance(), 4);
                match right {
                    Err(e) => (s2, Err(e)),
                    Ok(other) => (
                        s2,
                        Ok(ExprTree::Logical(Box::new(tree), s1.peek(), Box::new(other))),
                    ),
                }
            } else {
                failed(s1)
            }
        } else {
            (s1, Ok(tree))
        },
    }
}

/// A conjunction, or two joined by `or`.
pub open spec fn or(s: Parse) -> Parsed<ExprTree>
    decreases s.left(), 20nat,
{
    let (s1, left) = and(s);
    match left {
        Err(e) => (s1, Err(e)),
        Ok(tree) => if s1.check(TokenType::OR) {
            if s.moved(s1.advance()) {
                let (s2, right) = and(s1.advance());
                match right {
                    Err(e) => (s2, Err(e)),
                    Ok(other) => (
                        s2,
                        Ok(ExprTree::Logical(Box::new(tree), s1.peek(), Box::new(other))),
                    ),
                }
            } else {
                failed(s1)
            }
        } else {
            (s1, Ok(tree))
        },
    }
}

/// What an assignment to `target` is: to a variable or to a property;
/// nothing else can be assigned to.
pub open spec fn assigned(target: ExprTree, value: ExprTree) -> Option<ExprTree> {
    match target {
        ExprTree::Variable(name) => Some(ExprTree::Assign(name, Box::new(value))),
        ExprTree::Get(object, name) => Some(ExprTree::SetField(object, name, Box::new(value))),
        _ => None,
    }
}

pub open spec fn assignment(s: Parse) -> Parsed<ExprTree>
    decreases s.left(), 21nat,
{
    let (s1, left) = or(s);
    match left {
        Err(e) => (s1, Err(e)),
        Ok(target) => if s1.check(TokenType::EQUAL) {
            if s.moved(s1.advance()) {
                let (s2, right) = assignment(s1.advance());
                match right {
                    Err(e) => (s2, Err(e)),
                    Ok(value) => match assigned(target, value) {
                        Some(tree) => (s2, Ok(tree)),
                        None => (
                            s2.error(s1.peek(), "Invalid assignment target."@),
                            Err(ParseError {  }),
                        ),
                    },
                }
            } else {
                failed(s1)
            }
        } else {
            (s1, Ok(target))
        },
    }
}

pub open spec fn expression(s: Parse) -> Parsed<ExprTree>
    decreases s.left(), 22nat,
{
    assignment(s)
}

/// An expression and, behind it, the token `t`.
#[verifier::opaque]
pub open spec fn expression_then(s: Parse, t: TokenType, message: Seq<char>) -> Parsed<ExprTree>
    decreases s.left(), 25nat,
{
    let (s1, value) = expression(s);
    match value {
        Err(e) => (s1, Err(e)),
        Ok(tree) => {
            let (s2, end) = s1.consume(t, message);
            match end {
                Err(e) => (s2, Err(e)),
                Ok(_) => (s2, Ok(tree)),
            }
        },
    }
}

#[verifier::opaque]
pub open spec fn expression_statement(s: Parse) -> Parsed<StmtTree>
    decreases s.left(), 26nat,
{
    let (s1, value) = expression_then(s, TokenType::SEMICOLON, "Expect ';' after expression."@);
    match value {
        Err(e) => (s1, Err(e)),
        Ok(tree) => (s1, Ok(StmtTree::Expression(tree))),
    }
}

#[verifier::opaque]
pub open spec fn print_statement(s: Parse) -> Parsed<StmtTree>
    decreases s.left(), 26nat,
{
    let (s1, value) = expression_then(s, TokenType::SEMICOLON, "Expect ';' after value."@);
    match value {
        Err(e) => (s1, Err(e)),
        Ok(tree) => (s1, Ok(StmtTree::Print(tree))),
    }
}

/// A `return`, from behind the keyword on. Without a value it returns the
/// literal nil.
#[verifier::opaque]
pub open spec fn return_statement(s: Parse) -> Parsed<StmtTree>
    decreases s.left(), 26nat,
{
    let keyword = s.previous();
    if s.check(TokenType::SEMICOLON) {
        (s.advance(), Ok(StmtTree::Return(keyword, ExprTree::Literal(Literal::Nil))))
    } else {
        let (s1, value) = expression_then(
            s,
            TokenType::SEMICOLON,
            "Expect ';' after return value."@,
        );
        match value {
            Err(e) => (s1, Err(e)),
            Ok(tree) => (s1, Ok(StmtTree::Return(keyword, tree))),
        }
    }
}

/// A variable declaration, from behind `var` on. Without an initializer
/// the variable is nil.
#[verifier::opaque]
pub open spec fn var_declaration(s: Parse) -> Parsed<StmtTree>
    decreases s.left(), 26nat,
{
    let (s1, name) = s.consume(TokenType::IDENTIFIER, "Expect variable name."@);
    match name {
        Err(e) => (s1, Err(e)),
        Ok(token) => if s1.check(TokenType::EQUAL) {
            if s.moved(s1.advance()) {
                let (s2, value) = expression_then(
                    s1.advance(),
                    TokenType::SEMICOLON,
                    "Expect ';' after variable declaration."@,
                );
                match value {
                    Err(e) => (s2, Err(e)),
                    Ok(tree) => (s2, Ok(StmtTree::Var(token, tree))),
                }
            } else {
                failed(s1)
            }
        } else {
            let (s2, end) = s1.consume(
                TokenType::SEMICOLON,
                "Expect ';' after variable declaration."@,
            );
            match end {
                Err(e) => (s2, Err(e)),
                Ok(_) => (s2, Ok(StmtTree::Var(token, ExprTree::Literal(Literal::Nil)))),
            }
        },
    }
}

/// A condition in parentheses, from the opening parenthesis on.
#[verifier::opaque]
pub open spec fn condition(s: Parse, open: Seq<char>, close: Seq<char>) -> Parsed<ExprTree>
    decreases s.left(), 26nat,
{
    let (s1, paren) = s.consume(TokenType::LEFT_PAREN, open);
    match paren {
        Err(e) => (s1, Err(e)),
        Ok(_) => if s.moved(s1) {
            expression_then(s1, TokenType::RIGHT_PAREN, close)
        } else {
            failed(s1)
        },
    }
}

/// An `if`, from behind the keyword on.
pub open spec fn if_statement(s: Parse) -> Parsed<StmtTree>
    decreases s.left(), 27nat,
{
    let (s1, test) = condition(s, "Expect '(' after if."@, "Expect ')' after if cond."@);
    match test {
        Err(e) => (s1, Err(e)),
        Ok(tree) => if s.moved(s1) {
            let (s2, then) = statement(s1);
            match then {
                Err(e) => (s2, Err(e)),
                Ok(first) => if s2.check(TokenType::ELSE) {
                    if s.moved(s2.advance()) {
                        let (s3, other) = statement(s2.advance());
                        match other {
                            Err(e) => (s3, Err(e)),
                            Ok(second) => (
                                s3,
                                Ok(
                                    StmtTree::If(
                                        tree,
                                        Box::new(first),
                                        Some(Box::new(second)),
                                    ),
                                ),
                            ),
                        }
                    } else {
                        failed(s2)
                    }
                } else {
                    (s2, Ok(StmtTree::If(tree, Box::new(first), None)))
                },
            }
        } else {
            failed(s1)
        },
    }
}

/// A `while`, from behind the keyword on.
pub open spec fn while_statement(s: Parse) -> Parsed<StmtTree>
    decreases s.left(), 27nat,
{
    let (s1, test) = condition(s, "Expect '(' after while."@, "Expect ')' after while cond."@);
    match test {
        Err(e) => (s1, Err(e)),
        Ok(tree) => if s.moved(s1) {
            let (s2, body) = statement(s1);
            match body {
                Err(e) => (s2, Err(e)),
                Ok(inner) => (s2, Ok(StmtTree::While(tree, Box::new(inner)))),
            }
        } else {
            failed(s1)
        },
    }
}

/// The loop that a `for` stands for: the body and the increment in a
/// block, repeated while the condition holds, behind the initializer.
pub open spec fn for_loop(
    initializer: StmtTree,
    test: ExprTree,
    increment: ExprTree,
    body: StmtTree,
) -> StmtTree {
    let stepped = if increment is Null {
        body
    } else {
        StmtTree::Block(seq![body, StmtTree::Expression(increment)])
    };
    let repeated = StmtTree::While(test, Box::new(stepped));
    if initializer is Null {
        repeated
    } else {
        StmtTree::Block(seq![initializer, repeated])
    }
}

/// The initializer of a `for`: nothing, a variable declaration or an
/// expression statement.
#[verifier::opaque]
pub open spec fn for_initializer(s: Parse) -> Parsed<StmtTree>
    decreases s.left(), 27nat,
{
    if s.check(TokenType::SEMICOLON) {
        (s.advance(), Ok(StmtTree::Null))
    } else if s.check(TokenType::VAR) {
        if s.moved(s.advance()) {
            var_declaration(s.advance())
        } else {
            failed(s)
        }
    } else {
        expression_statement(s)
    }
}

/// The condition of a `for`, which is `true` if there is none, and the
/// increment, which may be missing.
#[verifier::opaque]
pub open spec fn for_clauses(s: Parse) -> Parsed<(ExprTree, ExprTree)>
    decreases s.left(), 27nat,
{
    let (s1, test) = if s.check(TokenType::SEMICOLON) {
        (s.advance(), Ok(ExprTree::Literal(Literal::Bool(true))))
    } else {
        expression_then(s, TokenType::SEMICOLON, "Expect ';' after loop cond."@)
    };
    match test {
        Err(e) => (s1, Err(e)),
        Ok(tree) => if s1.check(TokenType::RIGHT_PAREN) {
            (s1.advance(), Ok((tree, ExprTree::Null)))
        } else if s.held(s1) {
            let (s2, increment) = expression_then(
                s1,
                TokenType::RIGHT_PAREN,
                "Expect '}' after loop incr."@,
            );
            match increment {
                Err(e) => (s2, Err(e)),
                Ok(step) => (s2, Ok((tree, step))),
            }
        } else {
            failed(s1)
        },
    }
}

/// A `for`, from behind the keyword on.
pub open spec fn for_statement(s: Parse) -> Parsed<StmtTree>
    decreases s.left(), 28nat,
{
    let (s1, paren) = s.consume(TokenType::LEFT_PAREN, "Expect '(' after for."@);
    match paren {
        Err(e) => (s1, Err(e)),
        Ok(_) => if s.moved(s1) {
            let (s2, first) = for_initializer(s1);
            match first {
                Err(e) => (s2, Err(e)),
                Ok(initializer) => if s.moved(s2) {
                    let (s3, clauses) = for_clauses(s2);
                    match clauses {
                        Err(e) => (s3, Err(e)),
                        Ok((test, increment)) => if s.moved(s3) {
                            let (s4, inner) = statement(s3);
                            match inner {
                                Err(e) => (s4, Err(e)),
                                Ok(body) => (
                                    s4,
                                    Ok(for_loop(initializer, test, increment, body)),
                                ),
                            }
                        } else {
                            failed(s3)
                        },
                    }
                } else {
                    failed(s2)
                },
            }
        } else {
            failed(s1)
        },
    }
}

/// The declarations of a block after those in `done`, up to the closing
/// brace.
pub open spec fn block_rest(s: Parse, done: Seq<StmtTree>) -> Parsed<Seq<StmtTree>>
    decreases s.left(), 35nat,
{
    if !s.check(TokenType::RIGHT_BRACE) && !s.at_end() {
        let (s1, next) = declaration(s);
        if s.moved(s1) {
            block_rest(s1, done.push(next))
        } else {
            failed(s1)
        }
    } else {
        let (s1, close) = s.consume(TokenType::RIGHT_BRACE, "Expect '}' after block."@);
        match close {
            Err(e) => (s1, Err(e)),
            Ok(_) => (s1, Ok(done)),
        }
    }
}

/// A block, from behind its opening brace on.
pub open spec fn block(s: Parse) -> Parsed<Seq<StmtTree>>
    decreases s.left(), 36nat,
{
    block_rest(s, Seq::empty())
}

pub open spec fn statement(s: Parse) -> Parsed<StmtTree>
    decreases s.left(), 29nat,
{
    let next = s.advance();
    if s.check(TokenType::FOR) {
        if s.moved(next) {
            for_statement(next)
        } else {
            failed(s)
        }
    } else if s.check(TokenType::IF) {
        if s.moved(next) {
            if_statement(next)
        } else {
            failed(s)
        }
    } else if s.check(TokenType::PRINT) {
        if s.moved(next) {
            print_statement(next)
        } else {
            failed(s)
        }
    } else if s.check(TokenType::RETURN) {
        if s.moved(next) {
            return_statement(next)
        } else {
            failed(s)
        }
    } else if s.check(TokenType::WHILE) {
        if s.moved(next) {
            while_statement(next)
        } else {
            failed(s)
        }
    } else if s.check(TokenType::LEFT_BRACE) {
        if s.moved(next) {
            let (s1, inner) = block(next);
            match inner {
                Err(e) => (s1, Err(e)),
                Ok(list) => (s1, Ok(StmtTree::Block(list))),
            }
        } else {
            failed(s)
        }
    } else {
        expression_statement(s)
    }
}

/// The parameters of a function after those in `done`: names with commas
/// between them, at most 255.
pub open spec fn parameters(s: Parse, done: Seq<Token>) -> Parsed<Seq<Token>>
    decreases s.left(), 0nat,
{
    if done.len() >= 255 {
        (s.error(s.peek(), "Can't have more than 255 arguments."@), Err(ParseError {  }))
    } else {
        let (s1, name) = s.consume(TokenType::IDENTIFIER, "Expect parameter name."@);
        match name {
            Err(e) => (s1, Err(e)),
            Ok(token) => if s1.check(TokenType::COMMA) {
                if s.moved(s1.advance()) {
                    parameters(s1.advance(), done.push(token))
                } else {
                    failed(s1)
                }
            } else {
                (s1, Ok(done.push(token)))
            },
        }
    }
}

/// The name and the parameters of a function, up to the brace that opens
/// its body.
#[verifier::opaque]
pub open spec fn signature(s: Parse, kind: FunctionKind) -> Parsed<(Token, Seq<Token>)> {
    let (s1, name) = s.consume(TokenType::IDENTIFIER, "Expect "@ + kind_text(kind) + " name."@);
    match name {
        Err(e) => (s1, Err(e)),
        Ok(token) => {
            let (s2, open) = s1.consume(
                TokenType::LEFT_PAREN,
                "Expect '(' after "@ + kind_text(kind) + " name."@,
            );
            match open {
                Err(e) => (s2, Err(e)),
                Ok(_) => {
                    let (s3, listed) = if s2.check(TokenType::RIGHT_PAREN) {
                        (s2, Ok(Seq::empty()))
                    } else {
                        parameters(s2, Seq::empty())
                    };
                    match listed {
                        Err(e) => (s3, Err(e)),
                        Ok(params) => {
                            let (s4, close) = s3.consume(
                                TokenType::RIGHT_PAREN,
                                "Expect ')' after arguments."@,
                            );
                            match close {
                                Err(e) => (s4, Err(e)),
                                Ok(_) => {
                                    let (s5, brace) = s4.consume(
                                        TokenType::LEFT_BRACE,
                                        "Expect { before "@ + kind_text(kind) + " body."@,
                                    );
                                    match brace {
                                        Err(e) => (s5, Err(e)),
                                        Ok(_) => (s5, Ok((token, params))),
                                    }
                                },
                            }
                        },
                    }
                },
            }
        },
    }
}

/// A function or a method, from its name on.
pub open spec fn function(s: Parse, kind: FunctionKind) -> Parsed<StmtTree>
    decreases s.left(), 30nat,
{
    let (s1, head) = signature(s, kind);
    match head {
        Err(e) => (s1, Err(e)),
        Ok((name, params)) => if s.moved(s1) {
            let (s2, body) = block(s1);
            match body {
                Err(e) => (s2, Err(e)),
                Ok(list) => (s2, Ok(StmtTree::Fun(name, params, list))),
            }
        } else {
            failed(s1)
        },
    }
}

/// The methods of a class after those in `done`, up to the closing brace.
pub open spec fn methods(s: Parse, done: Seq<StmtTree>) -> Parsed<Seq<StmtTree>>
    decreases s.left(), 31nat,
{
    if !s.check(TokenType::RIGHT_BRACE) && !s.at_end() {
        let (s1, method) = function(s, FunctionKind::Method);
        match method {
            Err(e) => (s1, Err(e)),
            Ok(tree) => if s.moved(s1) {
                methods(s1, done.push(tree))
            } else {
                failed(s1)
            },
        }
    } else {
        let (s1, close) = s.consume(TokenType::RIGHT_BRACE, "Expect '}' after class body."@);
        match close {
            Err(e) => (s1, Err(e)),
            Ok(_) => (s1, Ok(done)),
        }
    }
}

/// The name of a class and, behind `<`, that of its superclass, up to the
/// brace that opens the body.
#[verifier::opaque]
pub open spec fn class_head(s: Parse) -> Parsed<(Token, Option<ExprTree>)> {
    let (s1, name) = s.consume(TokenType::IDENTIFIER, "Expect class name."@);
    match name {
        Err(e) => (s1, Err(e)),
        Ok(token) => {
            let (s2, parent) = if s1.check(TokenType::LESS) {
                let (s3, named) = s1.advance().consume(
                    TokenType::IDENTIFIER,
                    "Expect superclass name."@,
                );
                match named {
                    Err(e) => (s3, Err(e)),
                    Ok(up) => (s3, Ok(Some(ExprTree::Variable(up)))),
                }
            } else {
                (s1, Ok(None))
            };
            match parent {
                Err(e) => (s2, Err(e)),
                Ok(superclass) => {
                    let (s4, brace) = s2.consume(
                        TokenType::LEFT_BRACE,
                        "Expect '{' before class body."@,
                    );
                    match brace {
                        Err(e) => (s4, Err(e)),
                        Ok(_) => (s4, Ok((token, superclass))),
                    }
                },
            }
        },
    }
}

/// A class declaration, from behind `class` on.
pub open spec fn class_declaration(s: Parse) -> Parsed<StmtTree>
    decreases s.left(), 32nat,
{
    let (s1, head) = class_head(s);
    match head {
        Err(e) => (s1, Err(e)),
        Ok((name, superclass)) => if s.moved(s1) {
            let (s2, body) = methods(s1, Seq::empty());
            match body {
                Err(e) => (s2, Err(e)),
                Ok(list) => (s2, Ok(StmtTree::Class(name, superclass, list))),
            }
        } else {
            failed(s1)
        },
    }
}

/// A class, a function, a variable or a statement.
pub open spec fn declared(s: Parse) -> Parsed<StmtTree>
    decreases s.left(), 33nat,
{
    let next = s.advance();
    if s.check(TokenType::CLASS) {
        if s.moved(next) {
            class_declaration(next)
        } else {
            failed(s)
        }
    } else if s.check(TokenType::FUN) {
        if s.moved(next) {
            function(next, FunctionKind::Function)
        } else {
            failed(s)
        }
    } else if s.check(TokenType::VAR) {
        if s.moved(next) {
            var_declaration(next)
        } else {
            failed(s)
        }
    } else {
        statement(s)
    }
}

/// A declaration. Where the tokens make none, the error is reported, the
/// parser skips to where a statement may begin, and the declaration is
/// the empty statement.
pub open spec fn declaration(s: Parse) -> (Parse, StmtTree)
    decreases s.left(), 34nat,
{
    let (s1, r) = declared(s);
    match r {
        Ok(tree) => (s1, tree),
        Err(_) => (s1.synchronize(), StmtTree::Null),
    }
}

/// The declarations of a program after those in `done`, up to the end.
pub open spec fn program(s: Parse, done: Seq<StmtTree>) -> (Parse, Seq<StmtTree>)
    decreases s.left(), 37nat,
{
    if !s.at_end() {
        let (s1, next) = declaration(s);
        if s.moved(s1) {
            program(s1, done.push(next))
        } else {
            (s1, done)
        }
    } else {
        (s, done)
    }
}

} // verus!
