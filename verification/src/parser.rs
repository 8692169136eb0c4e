//! The parser: from tokens to syntax trees, by the grammar.

use crate::context::{occurrence_text, report_text, Context};
use crate::errors::ParseError;
use crate::expr::Expr;
use crate::grammar::{
    and, arguments, assigned, assignment, binary, binary_rest, block, block_rest, call, call_rest,
    class_declaration, class_head, condition, declaration, expression, expression_statement,
    expression_then, finish_call, for_clauses, for_initializer, for_loop, for_statement, function,
    if_statement, joins, kind_text, methods, operand, or, parameters, primary, print_statement,
    program, return_statement, signature, statement, unary, var_declaration, while_statement,
    FunctionKind, Parse,
};
use crate::stmt::Stmt;
use crate::text::{join3, texts};
use crate::token::{Literal, Token, TokenType};
use crate::tree::{
    expr_tree, expr_trees, lemma_expr_trees_len, lemma_expr_trees_push, lemma_stmt_trees_pair, lemma_stmt_trees_push,
    stmt_tree, stmt_trees, ExprTree, StmtTree,
};
use vstd::prelude::*;

verus! {

pub struct Parser {
    pub tokens: Vec<Token>,
    /// The place of the next token.
    pub current: usize,
    /// Where the errors are reported.
    pub context: Context,
}

impl View for Parser {
    type V = Parse;

    open spec fn view(&self) -> Parse {
        Parse {
            tokens: self.tokens@,
            current: self.current as int,
            reports: texts(self.context.reports@),
            had_error: self.context.had_error,
        }
    }
}

/// What a parsed expression is.
pub open spec fn parsed_expr(r: Result<Expr, ParseError>) -> Result<ExprTree, ParseError> {
    match r {
        Ok(expr) => Ok(expr_tree(expr)),
        Err(e) => Err(e),
    }
}

/// What a parsed statement is.
pub open spec fn parsed_stmt(r: Result<Stmt, ParseError>) -> Result<StmtTree, ParseError> {
    match r {
        Ok(stmt) => Ok(stmt_tree(stmt)),
        Err(e) => Err(e),
    }
}

/// What parsed statements are.
pub open spec fn parsed_stmts(r: Result<Vec<Stmt>, ParseError>) -> Result<
    Seq<StmtTree>,
    ParseError,
> {
    match r {
        Ok(list) => Ok(stmt_trees(list@)),
        Err(e) => Err(e),
    }
}

impl Parser {
    /// A parser at the first of `tokens`. Tokens that do not end with the
    /// end-of-file token get one.
    pub fn new(tokens: Vec<Token>, context: Context) -> (r: Self)
        ensures
            r@.well_formed(),
            r.current == 0,
            r.context == context,
            tokens@.len() > 0 && tokens@.last().token_type == TokenType::EOF ==> r.tokens
                == tokens,
            !(tokens@.len() > 0 && tokens@.last().token_type == TokenType::EOF) ==> {
                &&& r.tokens@.len() == tokens@.len() + 1
                &&& r.tokens@.drop_last() == tokens@
                &&& r.tokens@.last().lexeme@ == ""@
                &&& r.tokens@.last().line == (if tokens@.len() > 0 {
                    tokens@.last().line
                } else {
                    1
                })
            },
    {
        let ghost given = tokens@;
        let mut tokens = tokens;
        let n = tokens.len();
        if n == 0 {
            tokens.push(Token::new(1, TokenType::EOF, "", Literal::Nil, 1));
        } else if tokens[n - 1].token_type != TokenType::EOF {
            let line = tokens[n - 1].line;
            let index = if n < usize::MAX {
                n + 1
            } else {
                n
            };
            tokens.push(Token::new(index, TokenType::EOF, "", Literal::Nil, line));
        }
        proof {
            if !(given.len() > 0 && given.last().token_type == TokenType::EOF) {
                assert(tokens@.drop_last() =~= given);
            }
        }
        Parser { tokens, current: 0, context }
    }

    pub fn peek(&self) -> (r: &Token)
        requires
            self@.well_formed(),
        ensures
            *r == self@.peek(),
    {
        &self.tokens[self.current]
    }

    pub fn previous(&self) -> (r: &Token)
        requires
            self@.well_formed(),
            self.current >= 1,
        ensures
            *r == self@.previous(),
    {
        &self.tokens[self.current - 1]
    }

    pub fn is_at_end(&self) -> (r: bool)
        requires
            self@.well_formed(),
        ensures
            r == self@.at_end(),
    {
        self.tokens[self.current].token_type == TokenType::EOF
    }

    pub fn check(&self, tt: TokenType) -> (r: bool)
        requires
            self@.well_formed(),
        ensures
            r == self@.check(tt),
    {
        !self.is_at_end() && self.tokens[self.current].token_type == tt
    }

    /// Steps past the next token, unless it is the end.
    pub fn advance(&mut self)
        requires
            old(self)@.well_formed(),
        ensures
            final(self)@.well_formed(),
            final(self)@ == old(self)@.advance(),
            old(self)@.held(final(self)@),
            !old(self)@.at_end() ==> old(self)@.moved(final(self)@),
    {
        let n = self.tokens.len();
        if !self.is_at_end() {
            self.current = self.current + 1;
        }
    }

    /// Steps past the next token if it is of the type `tt`.
    pub fn matching(&mut self, tt: TokenType) -> (r: bool)
        requires
            old(self)@.well_formed(),
        ensures
            final(self)@.well_formed(),
            r == old(self)@.check(tt),
            r ==> final(self)@ == old(self)@.advance() && old(self)@.moved(final(self)@),
            !r ==> *final(self) == *old(self),
    {
        if self.check(tt) {
            self.advance();
            true
        } else {
            false
        }
    }

    /// Reports an error at `token`.
    pub fn error(&mut self, token: &Token, message: &str) -> (r: ParseError)
        ensures
            final(self)@ == old(self)@.error(*token, message@),
    {
        self.context.error_on(token, message);
        proof {
            assert(texts(self.context.reports@) =~= texts(old(self).context.reports@).push(
                report_text(token.line as int, occurrence_text(*token), message@),
            )) by {
                assert(self.context.reports@.drop_last() == old(self).context.reports@);
                assert forall|i: int| 0 <= i < old(self).context.reports@.len() implies texts(
                    self.context.reports@,
                )[i] == texts(old(self).context.reports@)[i] by {
                    assert(self.context.reports@.drop_last()[i] == self.context.reports@[i]);
                }
            }
        }
        ParseError::raise()
    }

    /// Reports an error at the next token.
    pub fn error_here(&mut self, message: &str) -> (r: ParseError)
        requires
            old(self)@.well_formed(),
        ensures
            final(self)@.well_formed(),
            final(self)@ == old(self)@.error(old(self)@.peek(), message@),
            old(self)@.held(final(self)@),
    {
        let token = self.tokens[self.current].clone();
        self.error(&token, message)
    }

    /// Takes the next token if it is of the type `tt`; else reports an
    /// error at it.
    pub fn consume(&mut self, tt: TokenType, message: &str) -> (r: Result<Token, ParseError>)
        requires
            old(self)@.well_formed(),
        ensures
            final(self)@.well_formed(),
            (final(self)@, r) == old(self)@.consume(tt, message@),
            old(self)@.held(final(self)@),
            r is Ok ==> old(self)@.moved(final(self)@),
    {
        if self.check(tt) {
            let token = self.tokens[self.current].clone();
            self.advance();
            Ok(token)
        } else {
            Err(self.error_here(message))
        }
    }

    /// After an error: skips to where a statement may begin.
    #[verifier::loop_isolation(false)]
    pub fn synchronize(&mut self)
        requires
            old(self)@.well_formed(),
        ensures
            final(self)@.well_formed(),
            final(self)@ == old(self)@.synchronize(),
            old(self)@.held(final(self)@),
            !old(self)@.at_end() ==> old(self)@.moved(final(self)@),
    {
        self.advance();
        while !self.is_at_end()
            invariant
                self@.well_formed(),
                old(self)@.held(self@),
                !old(self)@.at_end() ==> old(self)@.moved(self@),
                old(self)@.synchronize() == self@.resume(),
            decreases self@.left(),
        {
            if self.current >= 1 && self.tokens[self.current - 1].token_type
                == TokenType::SEMICOLON {
                return ;
            }
            if self.current < 1 {
                return ;
            }
            match self.tokens[self.current].token_type {
                TokenType::CLASS
                | TokenType::FUN
                | TokenType::VAR
                | TokenType::FOR
                | TokenType::IF
                | TokenType::WHILE
                | TokenType::PRINT
                | TokenType::RETURN => {
                    return ;
                },
                _ => {},
            }
            self.advance();
        }
    }

    /// Whether an operator of the binary level `level` comes next.
    fn joins_next(&self, level: u8) -> (r: bool)
        requires
            self@.well_formed(),
        ensures
            r == (!self@.at_end() && joins(level as nat, self@.peek().token_type)),
    {
        let t = self.tokens[self.current].token_type;
        if level == 1 {
            t == TokenType::SLASH || t == TokenType::STAR
        } else if level == 2 {
            t == TokenType::MINUS || t == TokenType::PLUS
        } else if level == 3 {
            t == TokenType::GREATER || t == TokenType::GREATER_EQUAL || t == TokenType::LESS || t
                == TokenType::LESS_EQUAL
        } else if level == 4 {
            t == TokenType::BANG_EQUAL || t == TokenType::EQUAL_EQUAL
        } else {
            false
        }
    }

    /// Parses a program: its declarations up to the end of the tokens.
    #[verifier::loop_isolation(false)]
    pub fn parse(&mut self) -> (r: Vec<Stmt>)
        requires
            old(self)@.well_formed(),
        ensures
            final(self)@.well_formed(),
            old(self)@.held(final(self)@),
            (final(self)@, stmt_trees(r@)) == program(old(self)@, Seq::empty()),
    {
        let mut statements: Vec<Stmt> = Vec::new();
        while !self.is_at_end()
            invariant
                self@.well_formed(),
                old(self)@.held(self@),
                program(old(self)@, Seq::empty()) == program(self@, stmt_trees(statements@)),
            decreases self@.left(),
        {
            let next = self.declaration();
            proof {
                lemma_stmt_trees_push(statements@, next);
            }
            statements.push(next);
        }
        statements
    }

    pub fn declaration(&mut self) -> (r: Stmt)
        requires
            old(self)@.well_formed(),
        ensures
            final(self)@.well_formed(),
            old(self)@.held(final(self)@),
            !old(self)@.at_end() ==> old(self)@.moved(final(self)@),
            (final(self)@, stmt_tree(r)) == declaration(old(self)@),
        decreases old(self)@.left(), 34nat,
    {
        let r = if self.matching(TokenType::CLASS) {
            self.class_declaration()
        } else if self.matching(TokenType::FUN) {
            self.function(FunctionKind::Function)
        } else if self.matching(TokenType::VAR) {
            self.var_declaration()
        } else {
            self.statement()
        };
        match r {
            Ok(s) => s,
            Err(_) => {
                self.synchronize();
                Stmt::null()
            },
        }
    }

    fn kind_name(kind: FunctionKind) -> (r: &'static str)
        ensures
            r@ == kind_text(kind),
    {
        match kind {
            FunctionKind::Function => "function",
            FunctionKind::Method => "method",
        }
    }

    /// The name and the parameters of a function, up to the brace that
    /// opens its body.
    #[verifier::loop_isolation(false)]
    pub fn signature(&mut self, kind: FunctionKind) -> (r: Result<(Token, Vec<Token>), ParseError>)
        requires
            old(self)@.well_formed(),
        ensures
            final(self)@.well_formed(),
            old(self)@.held(final(self)@),
            r is Ok ==> old(self)@.moved(final(self)@),
            (
                final(self)@,
                match r {
                    Ok((name, params)) => Ok((name, params@)),
                    Err(e) => Err(e),
                },
            ) == signature(old(self)@, kind),
    {
        reveal(signature);
        let kind_name = Self::kind_name(kind);
        let expect_name = join3("Expect ", kind_name, " name.");
        let name = match self.consume(TokenType::IDENTIFIER, expect_name.as_str()) {
            Ok(name) => name,
            Err(e) => {
                return Err(e);
            },
        };
        let expect_paren = join3("Expect '(' after ", kind_name, " name.");
        match self.consume(TokenType::LEFT_PAREN, expect_paren.as_str()) {
            Ok(_) => {},
            Err(e) => {
                return Err(e);
            },
        }
        let ghost start = self@;
        let mut params: Vec<Token> = Vec::new();
        let mut more = !self.check(TokenType::RIGHT_PAREN);
        while more
            invariant
                self@.well_formed(),
                start.held(self@),
                if more {
                    !start.check(TokenType::RIGHT_PAREN) && parameters(start, Seq::empty())
                        == parameters(self@, params@)
                } else {
                    (self@, Ok::<Seq<Token>, ParseError>(params@)) == (if start.check(
                        TokenType::RIGHT_PAREN,
                    ) {
                        (start, Ok(Seq::empty()))
                    } else {
                        parameters(start, Seq::empty())
                    })
                },
            decreases self@.left() + (if more { 1nat } else { 0nat }),
        {
            if params.len() >= 255 {
                return Err(self.error_here("Can't have more than 255 arguments."));
            }
            match self.consume(TokenType::IDENTIFIER, "Expect parameter name.") {
                Ok(param) => {
                    params.push(param);
                },
                Err(e) => {
                    return Err(e);
                },
            }
            more = self.matching(TokenType::COMMA);
        }
        match self.consume(TokenType::RIGHT_PAREN, "Expect ')' after arguments.") {
            Ok(_) => {},
            Err(e) => {
                return Err(e);
            },
        }
        let expect_body = join3("Expect { before ", kind_name, " body.");
        match self.consume(TokenType::LEFT_BRACE, expect_body.as_str()) {
            Ok(_) => {},
            Err(e) => {
                return Err(e);
            },
        }
        Ok((name, params))
    }

    /// Parses a function or a method, from its name on.
    pub fn function(&mut self, kind: FunctionKind) -> (r: Result<Stmt, ParseError>)
        requires
            old(self)@.well_formed(),
        ensures
            final(self)@.well_formed(),
            old(self)@.held(final(self)@),
            r is Ok ==> old(self)@.moved(final(self)@),
            (final(self)@, parsed_stmt(r)) == function(old(self)@, kind),
        decreases old(self)@.left(), 30nat,
    {
        let (name, params) = match self.signature(kind) {
            Ok(head) => head,
            Err(e) => {
                return Err(e);
            },
        };
        let body = match self.block() {
            Ok(body) => body,
            Err(e) => {
                return Err(e);
            },
        };
        Ok(Stmt::fun(name, params, body))
    }

    /// The name of a class and, behind `<`, that of its superclass, up to
    /// the brace that opens the body.
    pub fn class_head(&mut self) -> (r: Result<(Token, Option<Expr>), ParseError>)
        requires
            old(self)@.well_formed(),
        ensures
            final(self)@.well_formed(),
            old(self)@.held(final(self)@),
            r is Ok ==> old(self)@.moved(final(self)@),
            (
                final(self)@,
                match r {
                    Ok((name, parent)) => Ok(
                        (
                            name,
                            match parent {
                                Some(expr) => Some(expr_tree(expr)),
                                None => None,
                            },
                        ),
                    ),
                    Err(e) => Err(e),
                },
            ) == class_head(old(self)@),
    {
        reveal(class_head);
        let name = match self.consume(TokenType::IDENTIFIER, "Expect class name.") {
            Ok(name) => name,
            Err(e) => {
                return Err(e);
            },
        };
        let mut superclass: Option<Expr> = None;
        if self.matching(TokenType::LESS) {
            match self.consume(TokenType::IDENTIFIER, "Expect superclass name.") {
                Ok(up) => {
                    superclass = Some(Expr::variable(up));
                },
                Err(e) => {
                    return Err(e);
                },
            }
        }
        match self.consume(TokenType::LEFT_BRACE, "Expect '{' before class body.") {
            Ok(_) => {},
            Err(e) => {
                return Err(e);
            },
        }
        Ok((name, superclass))
    }

    /// Parses a class declaration, from behind `class` on.
    #[verifier::loop_isolation(false)]
    pub fn class_declaration(&mut self) -> (r: Result<Stmt, ParseError>)
        requires
            old(self)@.well_formed(),
        ensures
            final(self)@.well_formed(),
            old(self)@.held(final(self)@),
            r is Ok ==> old(self)@.moved(final(self)@),
            (final(self)@, parsed_stmt(r)) == class_declaration(old(self)@),
        decreases old(self)@.left(), 32nat,
    {
        let (name, superclass) = match self.class_head() {
            Ok(head) => head,
            Err(e) => {
                return Err(e);
            },
        };
        let ghost start = self@;
        let mut list: Vec<Stmt> = Vec::new();
        while !self.check(TokenType::RIGHT_BRACE) && !self.is_at_end()
            invariant
                self@.well_formed(),
                start.held(self@),
                old(self)@.moved(start),
                methods(start, Seq::empty()) == methods(self@, stmt_trees(list@)),
            decreases self@.left(),
        {
            match self.function(FunctionKind::Method) {
                Ok(method) => {
                    proof {
                        lemma_stmt_trees_push(list@, method);
                    }
                    list.push(method);
                },
                Err(e) => {
                    return Err(e);
                },
            }
        }
        match self.consume(TokenType::RIGHT_BRACE, "Expect '}' after class body.") {
            Ok(_) => {},
            Err(e) => {
                return Err(e);
            },
        }
        Ok(Stmt::class(name, superclass, list))
    }

    /// Parses a variable declaration, from behind `var` on.
    pub fn var_declaration(&mut self) -> (r: Result<Stmt, ParseError>)
        requires
            old(self)@.well_formed(),
        ensures
            final(self)@.well_formed(),
            old(self)@.held(final(self)@),
            r is Ok ==> old(self)@.moved(final(self)@),
            (final(self)@, parsed_stmt(r)) == var_declaration(old(self)@),
        decreases old(self)@.left(), 26nat,
    {
        reveal(var_declaration);
        let name = match self.consume(TokenType::IDENTIFIER, "Expect variable name.") {
            Ok(name) => name,
            Err(e) => {
                return Err(e);
            },
        };
        if self.matching(TokenType::EQUAL) {
            match self.expression_then(
                TokenType::SEMICOLON,
                "Expect ';' after variable declaration.",
            ) {
                Ok(initializer) => Ok(Stmt::var(name, initializer)),
                Err(e) => Err(e),
            }
        } else {
            match self.consume(TokenType::SEMICOLON, "Expect ';' after variable declaration.") {
                Ok(_) => Ok(Stmt::var(name, Expr::literal(Literal::Nil))),
                Err(e) => Err(e),
            }
        }
    }

    pub fn statement(&mut self) -> (r: Result<Stmt, ParseError>)
        requires
            old(self)@.well_formed(),
        ensures
            final(self)@.well_formed(),
            old(self)@.held(final(self)@),
            r is Ok ==> old(self)@.moved(final(self)@),
            (final(self)@, parsed_stmt(r)) == statement(old(self)@),
        decreases old(self)@.left(), 29nat,
    {
        if self.matching(TokenType::FOR) {
            return self.for_statement();
        }
        if self.matching(TokenType::IF) {
            return self.if_statement();
        }
        if self.matching(TokenType::PRINT) {
            return self.print_statement();
        }
        if self.matching(TokenType::RETURN) {
            return self.return_statement();
        }
        if self.matching(TokenType::WHILE) {
            return self.while_statement();
        }
        if self.matching(TokenType::LEFT_BRACE) {
            return match self.block() {
                Ok(list) => Ok(Stmt::block(list)),
                Err(e) => Err(e),
            };
        }
        self.expression_statement()
    }

    /// Parses a block, from behind its opening brace on.
    #[verifier::loop_isolation(false)]
    pub fn block(&mut self) -> (r: Result<Vec<Stmt>, ParseError>)
        requires
            old(self)@.well_formed(),
        ensures
            final(self)@.well_formed(),
            old(self)@.held(final(self)@),
            r is Ok ==> old(self)@.moved(final(self)@),
            (final(self)@, parsed_stmts(r)) == block(old(self)@),
        decreases old(self)@.left(), 36nat,
    {
        let mut list: Vec<Stmt> = Vec::new();
        while !self.check(TokenType::RIGHT_BRACE) && !self.is_at_end()
            invariant
                self@.well_formed(),
                old(self)@.held(self@),
                block_rest(old(self)@, Seq::empty()) == block_rest(self@, stmt_trees(list@)),
            decreases self@.left(),
        {
            let next = self.declaration();
            proof {
                lemma_stmt_trees_push(list@, next);
            }
            list.push(next);
        }
        match self.consume(TokenType::RIGHT_BRACE, "Expect '}' after block.") {
            Ok(_) => Ok(list),
            Err(e) => Err(e),
        }
    }

    /// Parses an expression and, behind it, the token `tt`.
    pub fn expression_then(&mut self, tt: TokenType, message: &str) -> (r: Result<
        Expr,
        ParseError,
    >)
        requires
            old(self)@.well_formed(),
        ensures
            final(self)@.well_formed(),
            old(self)@.held(final(self)@),
            r is Ok ==> old(self)@.moved(final(self)@),
            (final(self)@, parsed_expr(r)) == expression_then(old(self)@, tt, message@),
        decreases old(self)@.left(), 25nat,
    {
        reveal(expression_then);
        let value = match self.expression() {
            Ok(value) => value,
            Err(e) => {
                return Err(e);
            },
        };
        match self.consume(tt, message) {
            Ok(_) => Ok(value),
            Err(e) => Err(e),
        }
    }

    pub fn expression_statement(&mut self) -> (r: Result<Stmt, ParseError>)
        requires
            old(self)@.well_formed(),
        ensures
            final(self)@.well_formed(),
            old(self)@.held(final(self)@),
            r is Ok ==> old(self)@.moved(final(self)@),
            (final(self)@, parsed_stmt(r)) == expression_statement(old(self)@),
        decreases old(self)@.left(), 26nat,
    {
        reveal(expression_statement);
        match self.expression_then(TokenType::SEMICOLON, "Expect ';' after expression.") {
            Ok(value) => Ok(Stmt::expression(value)),
            Err(e) => Err(e),
        }
    }

    pub fn print_statement(&mut self) -> (r: Result<Stmt, ParseError>)
        requires
            old(self)@.well_formed(),
        ensures
            final(self)@.well_formed(),
            old(self)@.held(final(self)@),
            r is Ok ==> old(self)@.moved(final(self)@),
            (final(self)@, parsed_stmt(r)) == print_statement(old(self)@),
        decreases old(self)@.left(), 26nat,
    {
        reveal(print_statement);
        match self.expression_then(TokenType::SEMICOLON, "Expect ';' after value.") {
            Ok(value) => Ok(Stmt::print(value)),
            Err(e) => Err(e),
        }
    }

    /// Parses a `return`, from behind the keyword on.
    pub fn return_statement(&mut self) -> (r: Result<Stmt, ParseError>)
        requires
            old(self)@.well_formed(),
            old(self).current >= 1,
        ensures
            final(self)@.well_formed(),
            old(self)@.held(final(self)@),
            r is Ok ==> old(self)@.moved(final(self)@),
            (final(self)@, parsed_stmt(r)) == return_statement(old(self)@),
        decreases old(self)@.left(), 26nat,
    {
        reveal(return_statement);
        let keyword = self.previous().clone();
        if self.matching(TokenType::SEMICOLON) {
            Ok(Stmt::return_stmt(keyword, Expr::literal(Literal::Nil)))
        } else {
            match self.expression_then(TokenType::SEMICOLON, "Expect ';' after return value.") {
                Ok(value) => Ok(Stmt::return_stmt(keyword, value)),
                Err(e) => Err(e),
            }
        }
    }

    /// Parses a condition in parentheses.
    pub fn condition(&mut self, open: &str, close: &str) -> (r: Result<Expr, ParseError>)
        requires
            old(self)@.well_formed(),
        ensures
            final(self)@.well_formed(),
            old(self)@.held(final(self)@),
            r is Ok ==> old(self)@.moved(final(self)@),
            (final(self)@, parsed_expr(r)) == condition(old(self)@, open@, close@),
        decreases old(self)@.left(), 26nat,
    {
        reveal(condition);
        match self.consume(TokenType::LEFT_PAREN, open) {
            Ok(_) => {},
            Err(e) => {
                return Err(e);
            },
        }
        self.expression_then(TokenType::RIGHT_PAREN, close)
    }

    /// Parses an `if`, from behind the keyword on.
    pub fn if_statement(&mut self) -> (r: Result<Stmt, ParseError>)
        requires
            old(self)@.well_formed(),
        ensures
            final(self)@.well_formed(),
            old(self)@.held(final(self)@),
            r is Ok ==> old(self)@.moved(final(self)@),
            (final(self)@, parsed_stmt(r)) == if_statement(old(self)@),
        decreases old(self)@.left(), 27nat,
    {
        let test = match self.condition("Expect '(' after if.", "Expect ')' after if cond.") {
            Ok(test) => test,
            Err(e) => {
                return Err(e);
            },
        };
        let then_stmt = match self.statement() {
            Ok(stmt) => stmt,
            Err(e) => {
                return Err(e);
            },
        };
        if self.matching(TokenType::ELSE) {
            match self.statement() {
                Ok(other) => Ok(Stmt::if_stmt(test, then_stmt, Some(other))),
                Err(e) => Err(e),
            }
        } else {
            Ok(Stmt::if_stmt(test, then_stmt, None))
        }
    }

    /// Parses a `while`, from behind the keyword on.
    pub fn while_statement(&mut self) -> (r: Result<Stmt, ParseError>)
        requires
            old(self)@.well_formed(),
        ensures
            final(self)@.well_formed(),
            old(self)@.held(final(self)@),
            r is Ok ==> old(self)@.moved(final(self)@),
            (final(self)@, parsed_stmt(r)) == while_statement(old(self)@),
        decreases old(self)@.left(), 27nat,
    {
        let test = match self.condition(
            "Expect '(' after while.",
            "Expect ')' after while cond.",
        ) {
            Ok(test) => test,
            Err(e) => {
                return Err(e);
            },
        };
        match self.statement() {
            Ok(body) => Ok(Stmt::while_stmt(test, body)),
            Err(e) => Err(e),
        }
    }

    /// The initializer of a `for`.
    pub fn for_initializer(&mut self) -> (r: Result<Stmt, ParseError>)
        requires
            old(self)@.well_formed(),
        ensures
            final(self)@.well_formed(),
            old(self)@.held(final(self)@),
            r is Ok ==> old(self)@.moved(final(self)@),
            (final(self)@, parsed_stmt(r)) == for_initializer(old(self)@),
        decreases old(self)@.left(), 27nat,
    {
        reveal(for_initializer);
        if self.matching(TokenType::SEMICOLON) {
            Ok(Stmt::null())
        } else if self.matching(TokenType::VAR) {
            self.var_declaration()
        } else {
            self.expression_statement()
        }
    }

    /// The condition and the increment of a `for`.
    pub fn for_clauses(&mut self) -> (r: Result<(Expr, Expr), ParseError>)
        requires
            old(self)@.well_formed(),
        ensures
            final(self)@.well_formed(),
            old(self)@.held(final(self)@),
            r is Ok ==> old(self)@.moved(final(self)@),
            (
                final(self)@,
                match r {
                    Ok((test, increment)) => Ok((expr_tree(test), expr_tree(increment))),
                    Err(e) => Err(e),
                },
            ) == for_clauses(old(self)@),
        decreases old(self)@.left(), 27nat,
    {
        reveal(for_clauses);
        let test = if self.matching(TokenType::SEMICOLON) {
            Expr::literal(Literal::Bool(true))
        } else {
            match self.expression_then(TokenType::SEMICOLON, "Expect ';' after loop cond.") {
                Ok(test) => test,
                Err(e) => {
                    return Err(e);
                },
            }
        };
        if self.matching(TokenType::RIGHT_PAREN) {
            Ok((test, Expr::null()))
        } else {
            match self.expression_then(TokenType::RIGHT_PAREN, "Expect '}' after loop incr.") {
                Ok(increment) => Ok((test, increment)),
                Err(e) => Err(e),
            }
        }
    }

    /// The loop that a `for` stands for.
    pub fn for_loop(initializer: Stmt, test: Expr, increment: Expr, body: Stmt) -> (r: Stmt)
        ensures
            stmt_tree(r) == for_loop(
                stmt_tree(initializer),
                expr_tree(test),
                expr_tree(increment),
                stmt_tree(body),
            ),
    {
        let ghost init_tree = stmt_tree(initializer);
        let ghost test_tree = expr_tree(test);
        let ghost step_tree = expr_tree(increment);
        let ghost body_tree = stmt_tree(body);
        let stepped = match increment {
            Expr::Null => body,
            increment => {
                let step = Stmt::expression(increment);
                let ghost pair = seq![body, step];
                proof {
                    lemma_stmt_trees_pair(body, step);
                    assert(stmt_tree(step) == StmtTree::Expression(step_tree));
                }
                let list = vec![body, step];
                assert(list@ =~= pair);
                let block = Stmt::block(list);
                assert(stmt_tree(block) == StmtTree::Block(
                    seq![body_tree, StmtTree::Expression(step_tree)],
                ));
                block
            },
        };
        assert(stmt_tree(stepped) == (if step_tree is Null {
            body_tree
        } else {
            StmtTree::Block(seq![body_tree, StmtTree::Expression(step_tree)])
        }));
        let repeated = Stmt::while_stmt(test, stepped);
        assert(stmt_tree(repeated) == StmtTree::While(test_tree, Box::new(stmt_tree(stepped))));
        match initializer {
            Stmt::Null => repeated,
            initializer => {
                let ghost pair = seq![initializer, repeated];
                proof {
                    lemma_stmt_trees_pair(initializer, repeated);
                }
                let list = vec![initializer, repeated];
                assert(list@ =~= pair);
                let block = Stmt::block(list);
                assert(stmt_tree(block) == StmtTree::Block(seq![init_tree, stmt_tree(repeated)]));
                block
            },
        }
    }

    /// Parses a `for`, from behind the keyword on.
    pub fn for_statement(&mut self) -> (r: Result<Stmt, ParseError>)
        requires
            old(self)@.well_formed(),
        ensures
            final(self)@.well_formed(),
            old(self)@.held(final(self)@),
            r is Ok ==> old(self)@.moved(final(self)@),
            (final(self)@, parsed_stmt(r)) == for_statement(old(self)@),
        decreases old(self)@.left(), 28nat,
    {
        match self.consume(TokenType::LEFT_PAREN, "Expect '(' after for.") {
            Ok(_) => {},
            Err(e) => {
                return Err(e);
            },
        }
        let initializer = match self.for_initializer() {
            Ok(stmt) => stmt,
            Err(e) => {
                return Err(e);
            },
        };
        let (test, increment) = match self.for_clauses() {
            Ok(clauses) => clauses,
            Err(e) => {
                return Err(e);
            },
        };
        let body = match self.statement() {
            Ok(stmt) => stmt,
            Err(e) => {
                return Err(e);
            },
        };
        Ok(Self::for_loop(initializer, test, increment, body))
    }

    pub fn expression(&mut self) -> (r: Result<Expr, ParseError>)
        requires
            old(self)@.well_formed(),
        ensures
            final(self)@.well_formed(),
            old(self)@.held(final(self)@),
            r is Ok ==> old(self)@.moved(final(self)@),
            (final(self)@, parsed_expr(r)) == expression(old(self)@),
        decreases old(self)@.left(), 22nat,
    {
        self.assignment()
    }

    /// The assignment of `value` to `target`, if `target` can be assigned
    /// to.
    pub fn assign_to(target: Expr, value: Expr) -> (r: Option<Expr>)
        ensures
            match assigned(expr_tree(target), expr_tree(value)) {
                Some(tree) => r matches Some(expr) && expr_tree(expr) == tree,
                None => r is None,
            },
    {
        match target {
            Expr::Variable_(variable) => {
                let name: Token = *variable.0;
                Some(Expr::assign(name, value))
            },
            Expr::Get_(get) => {
                let object: Expr = *get.0;
                let name: Token = *get.1;
                Some(Expr::set(object, name, value))
            },
            _ => None,
        }
    }

    pub fn assignment(&mut self) -> (r: Result<Expr, ParseError>)
        requires
            old(self)@.well_formed(),
        ensures
            final(self)@.well_formed(),
            old(self)@.held(final(self)@),
            r is Ok ==> old(self)@.moved(final(self)@),
            (final(self)@, parsed_expr(r)) == assignment(old(self)@),
        decreases old(self)@.left(), 21nat,
    {
        let target = match self.or() {
            Ok(expr) => expr,
            Err(e) => {
                return Err(e);
            },
        };
        if self.check(TokenType::EQUAL) {
            let equals = self.peek().clone();
            self.advance();
            let value = match self.assignment() {
                Ok(value) => value,
                Err(e) => {
                    return Err(e);
                },
            };
            match Self::assign_to(target, value) {
                Some(expr) => Ok(expr),
                None => Err(self.error(&equals, "Invalid assignment target.")),
            }
        } else {
            Ok(target)
        }
    }

    pub fn or(&mut self) -> (r: Result<Expr, ParseError>)
        requires
            old(self)@.well_formed(),
        ensures
            final(self)@.well_formed(),
            old(self)@.held(final(self)@),
            r is Ok ==> old(self)@.moved(final(self)@),
            (final(self)@, parsed_expr(r)) == or(old(self)@),
        decreases old(self)@.left(), 20nat,
    {
        let left = match self.and() {
            Ok(expr) => expr,
            Err(e) => {
                return Err(e);
            },
        };
        if self.check(TokenType::OR) {
            let operator = self.peek().clone();
            self.advance();
            match self.and() {
                Ok(right) => Ok(Expr::logical(left, operator, right)),
                Err(e) => Err(e),
            }
        } else {
            Ok(left)
        }
    }

    pub fn and(&mut self) -> (r: Result<Expr, ParseError>)
        requires
            old(self)@.well_formed(),
        ensures
            final(self)@.well_formed(),
            old(self)@.held(final(self)@),
            r is Ok ==> old(self)@.moved(final(self)@),
            (final(self)@, parsed_expr(r)) == and(old(self)@),
        decreases old(self)@.left(), 19nat,
    {
        let left = match self.equality() {
            Ok(expr) => expr,
            Err(e) => {
                return Err(e);
            },
        };
        if self.check(TokenType::AND) {
            let operator = self.peek().clone();
            self.advance();
            match self.equality() {
                Ok(right) => Ok(Expr::logical(left, operator, right)),
                Err(e) => Err(e),
            }
        } else {
            Ok(left)
        }
    }

    pub fn equality(&mut self) -> (r: Result<Expr, ParseError>)
        requires
            old(self)@.well_formed(),
        ensures
            final(self)@.well_formed(),
            old(self)@.held(final(self)@),
            r is Ok ==> old(self)@.moved(final(self)@),
            (final(self)@, parsed_expr(r)) == binary(old(self)@, 4),
        decreases old(self)@.left(), 18nat, 1nat,
    {
        self.binary(4)
    }

    pub fn comparison(&mut self) -> (r: Result<Expr, ParseError>)
        requires
            old(self)@.well_formed(),
        ensures
            final(self)@.well_formed(),
            old(self)@.held(final(self)@),
            r is Ok ==> old(self)@.moved(final(self)@),
            (final(self)@, parsed_expr(r)) == binary(old(self)@, 3),
        decreases old(self)@.left(), 15nat, 1nat,
    {
        self.binary(3)
    }

    pub fn term(&mut self) -> (r: Result<Expr, ParseError>)
        requires
            old(self)@.well_formed(),
        ensures
            final(self)@.well_formed(),
            old(self)@.held(final(self)@),
            r is Ok ==> old(self)@.moved(final(self)@),
            (final(self)@, parsed_expr(r)) == binary(old(self)@, 2),
        decreases old(self)@.left(), 12nat, 1nat,
    {
        self.binary(2)
    }

    pub fn factor(&mut self) -> (r: Result<Expr, ParseError>)
        requires
            old(self)@.well_formed(),
        ensures
            final(self)@.well_formed(),
            old(self)@.held(final(self)@),
            r is Ok ==> old(self)@.moved(final(self)@),
            (final(self)@, parsed_expr(r)) == binary(old(self)@, 1),
        decreases old(self)@.left(), 9nat, 1nat,
    {
        self.binary(1)
    }

    /// Parses an operand of the binary level `level`.
    pub fn operand(&mut self, level: u8) -> (r: Result<Expr, ParseError>)
        requires
            old(self)@.well_formed(),
            level <= 4,
        ensures
            final(self)@.well_formed(),
            old(self)@.held(final(self)@),
            r is Ok ==> old(self)@.moved(final(self)@),
            (final(self)@, parsed_expr(r)) == operand(old(self)@, level as nat),
        decreases old(self)@.left(), 4 + 3 * level, 0nat,
    {
        if level <= 1 {
            self.unary()
        } else {
            self.binary(level - 1)
        }
    }

    /// Parses an expression of the binary level `level`: its operands of
    /// the level below, joined by the level's operators from left to right.
    #[verifier::loop_isolation(false)]
    pub fn binary(&mut self, level: u8) -> (r: Result<Expr, ParseError>)
        requires
            old(self)@.well_formed(),
            level <= 4,
        ensures
            final(self)@.well_formed(),
            old(self)@.held(final(self)@),
            r is Ok ==> old(self)@.moved(final(self)@),
            (final(self)@, parsed_expr(r)) == binary(old(self)@, level as nat),
        decreases old(self)@.left(), 6 + 3 * level, 0nat,
    {
        let mut expr = match self.operand(level) {
            Ok(expr) => expr,
            Err(e) => {
                return Err(e);
            },
        };
        let ghost start = self@;
        let ghost first = expr_tree(expr);
        while self.joins_next(level)
            invariant
                self@.well_formed(),
                level <= 4,
                start.held(self@),
                old(self)@.moved(start),
                binary_rest(start, first, level as nat) == binary_rest(
                    self@,
                    expr_tree(expr),
                    level as nat,
                ),
            decreases self@.left(),
        {
            let operator = self.peek().clone();
            self.advance();
            let right = match self.operand(level) {
                Ok(right) => right,
                Err(e) => {
                    return Err(e);
                },
            };
            expr = Expr::binary(expr, operator, right);
        }
        Ok(expr)
    }

    pub fn unary(&mut self) -> (r: Result<Expr, ParseError>)
        requires
            old(self)@.well_formed(),
        ensures
            final(self)@.well_formed(),
            old(self)@.held(final(self)@),
            r is Ok ==> old(self)@.moved(final(self)@),
            (final(self)@, parsed_expr(r)) == unary(old(self)@),
        decreases old(self)@.left(), 3nat, 0nat,
    {
        if self.check(TokenType::BANG) || self.check(TokenType::MINUS) {
            let operator = self.peek().clone();
            self.advance();
            match self.unary() {
                Ok(right) => Ok(Expr::unary(operator, right)),
                Err(e) => Err(e),
            }
        } else {
            self.call()
        }
    }

    #[verifier::rlimit(100)]
    #[verifier::loop_isolation(false)]
    pub fn call(&mut self) -> (r: Result<Expr, ParseError>)
        requires
            old(self)@.well_formed(),
        ensures
            final(self)@.well_formed(),
            old(self)@.held(final(self)@),
            r is Ok ==> old(self)@.moved(final(self)@),
            (final(self)@, parsed_expr(r)) == call(old(self)@),
        decreases old(self)@.left(), 2nat, 0nat,
    {
        let mut expr = match self.primary() {
            Ok(expr) => expr,
            Err(e) => {
                return Err(e);
            },
        };
        let ghost start = self@;
        let ghost first = expr_tree(expr);
        let mut more = true;
        while more
            invariant
                self@.well_formed(),
                start.held(self@),
                old(self)@.moved(start),
                if more {
                    call_rest(start, first) == call_rest(self@, expr_tree(expr))
                } else {
                    call_rest(start, first) == (self@, Ok::<ExprTree, ParseError>(expr_tree(expr)))
                },
            decreases self@.left() + (if more { 1nat } else { 0nat }),
        {
            if self.matching(TokenType::LEFT_PAREN) {
                expr = match self.finish_call(expr) {
                    Ok(called) => called,
                    Err(e) => {
                        return Err(e);
                    },
                };
            } else if self.matching(TokenType::DOT) {
                match self.consume(TokenType::IDENTIFIER, "Expect property name after '.'.") {
                    Ok(name) => {
                        expr = Expr::get(expr, name);
                    },
                    Err(e) => {
                        return Err(e);
                    },
                }
            } else {
                more = false;
            }
        }
        Ok(expr)
    }

    /// Parses a call, from behind its opening parenthesis on.
    #[verifier::rlimit(100)]
    #[verifier::loop_isolation(false)]
    pub fn finish_call(&mut self, callee: Expr) -> (r: Result<Expr, ParseError>)
        requires
            old(self)@.well_formed(),
        ensures
            final(self)@.well_formed(),
            old(self)@.held(final(self)@),
            r is Ok ==> old(self)@.moved(final(self)@),
            (final(self)@, parsed_expr(r)) == finish_call(old(self)@, expr_tree(callee)),
        decreases old(self)@.left(), 24nat, 0nat,
    {
        let mut list: Vec<Expr> = Vec::new();
        let mut more = !self.check(TokenType::RIGHT_PAREN);
        while more
            invariant
                self@.well_formed(),
                old(self)@.held(self@),
                if more {
                    !old(self)@.check(TokenType::RIGHT_PAREN) && arguments(
                        old(self)@,
                        Seq::empty(),
                    ) == arguments(self@, expr_trees(list@))
                } else {
                    (self@, Ok::<Seq<ExprTree>, ParseError>(expr_trees(list@))) == (if old(
                        self,
                    )@.check(TokenType::RIGHT_PAREN) {
                        (old(self)@, Ok(Seq::empty()))
                    } else {
                        arguments(old(self)@, Seq::empty())
                    })
                },
            decreases self@.left() + (if more { 1nat } else { 0nat }),
        {
            proof {
                lemma_expr_trees_len(list@);
            }
            if list.len() >= 255 {
                return Err(self.error_here("Can't have more than 255 arguments."));
            }
            match self.expression() {
                Ok(argument) => {
                    proof {
                        lemma_expr_trees_push(list@, argument);
                    }
                    list.push(argument);
                },
                Err(e) => {
                    return Err(e);
                },
            }
            more = self.matching(TokenType::COMMA);
        }
        match self.consume(TokenType::RIGHT_PAREN, "Expect ')' after arguments.") {
            Ok(paren) => Ok(Expr::call(callee, paren, list)),
            Err(e) => Err(e),
        }
    }

    pub fn primary(&mut self) -> (r: Result<Expr, ParseError>)
        requires
            old(self)@.well_formed(),
        ensures
            final(self)@.well_formed(),
            old(self)@.held(final(self)@),
            r is Ok ==> old(self)@.moved(final(self)@),
            (final(self)@, parsed_expr(r)) == primary(old(self)@),
        decreases old(self)@.left(), 0nat, 0nat,
    {
        reveal(expression_then);
        if self.matching(TokenType::FALSE) {
            return Ok(Expr::literal(Literal::Bool(false)));
        }
        if self.matching(TokenType::TRUE) {
            return Ok(Expr::literal(Literal::Bool(true)));
        }
        if self.matching(TokenType::NIL) {
            return Ok(Expr::literal(Literal::Nil));
        }
        if self.check(TokenType::NUMBER) || self.check(TokenType::STRING) {
            let literal = self.peek().literal.clone();
            self.advance();
            return Ok(Expr::literal(literal));
        }
        if self.matching(TokenType::LEFT_PAREN) {
            return match self.expression_then(
                TokenType::RIGHT_PAREN,
                "Expect ')' after expression.",
            ) {
                Ok(inner) => Ok(Expr::grouping(inner)),
                Err(e) => Err(e),
            };
        }
        if self.check(TokenType::SUPER) {
            let keyword = self.peek().clone();
            self.advance();
            match self.consume(TokenType::DOT, "Expect '.' after 'super'.") {
                Ok(_) => {},
                Err(e) => {
                    return Err(e);
                },
            }
            return match self.consume(TokenType::IDENTIFIER, "Expect superclass method name.") {
                Ok(method) => Ok(Expr::super_(keyword, method)),
                Err(e) => Err(e),
            };
        }
        if self.check(TokenType::THIS) {
            let keyword = self.peek().clone();
            self.advance();
            return Ok(Expr::this(keyword));
        }
        if self.check(TokenType::IDENTIFIER) {
            let name = self.peek().clone();
            self.advance();
            return Ok(Expr::variable(name));
        }
        Err(self.error_here("Expect expression."))
    }
}

} // verus!
