//! A tree-walking interpreter for the Lox language: a scanner, a parser, a
//! static resolution pass that computes how many scopes lie between each
//! variable use and its binding, and an evaluator with closures,
//! first-class functions and single-inheritance classes. Scopes, classes
//! and instance state live in arenas addressed by index, so that sharing
//! is explicit. Each pass does what its rules say; the rules are functions
//! of the program and, for evaluation, of what the host answers.

pub mod callable;
pub mod class;
pub mod context;
pub mod environment;
pub mod errors;
pub mod expr;
pub mod function;
pub mod grammar;
pub mod instance;
pub mod interpreter;
pub mod laws;
pub mod number;
pub mod parser;
pub mod resolver;
pub mod scanner;
pub mod semantics;
pub mod stmt;
pub mod table;
pub mod text;
pub mod token;
pub mod tree;
pub mod value;

use crate::callable::Host;
use crate::context::{report_text, Context};
use crate::errors::{ending, ParseError, RuntimeBreak, ScanError, SemanticError, Stop};
use crate::grammar::{program, Parse};
use crate::interpreter::{initial, Interpreter};
use crate::parser::Parser;
use crate::resolver::{resolve_stmts, ClassType, FunctionType, Resolution, Resolver};
use crate::scanner::{scan, Scanner};
use crate::semantics::{execute_all, State};
use crate::stmt::Stmt;
use crate::text::texts;
use crate::token::{lexemes, Lexeme, Token, TokenType};
use crate::tree::stmt_trees;
use crate::value::Datum;
use vstd::prelude::*;

verus! {

/// Why a program did not run to its end.
#[derive(Debug)]
pub enum Failure {
    Scan(ScanError),
    Parse(ParseError),
    Semantic(SemanticError),
    Runtime(RuntimeBreak),
}

/// A run of a program: what each pass made of it.
pub struct Run {
    /// The tokens of the program, with their numbers read.
    pub tokens: Vec<Token>,
    /// The statements of the program.
    pub statements: Vec<Stmt>,
    /// The interpreter after the run, with what was printed.
    pub interpreter: Interpreter,
    /// The errors that the scanner, the parser or the resolver reported.
    pub reports: Vec<String>,
    /// How the run ended.
    pub outcome: Result<(), Failure>,
}

/// The tokens are the scanned ones with the numbers read: every `NUMBER`
/// token has a number as its literal, and nothing else differs.
pub open spec fn numbered(scanned: Seq<Lexeme>, tokens: Seq<Token>) -> bool {
    &&& tokens.len() == scanned.len()
    &&& forall|i: int|
        0 <= i < scanned.len() ==> {
            &&& (#[trigger] tokens[i])@.index == scanned[i].index
            &&& tokens[i]@.token_type == scanned[i].token_type
            &&& tokens[i]@.lexeme == scanned[i].lexeme
            &&& tokens[i]@.line == scanned[i].line
            &&& if scanned[i].token_type == TokenType::NUMBER {
                tokens[i].literal is Num
            } else {
                tokens[i]@.literal == scanned[i].literal
            }
        }
}

/// Where parsing begins.
pub open spec fn parse_start(tokens: Seq<Token>) -> Parse {
    Parse { tokens, current: 0, reports: Seq::empty(), had_error: false }
}

/// Where resolution begins.
pub open spec fn resolution_start() -> Resolution {
    Resolution {
        scopes: Seq::empty(),
        function: FunctionType::TopLevel,
        class: ClassType::NoClass,
        locals: Seq::empty(),
        reports: Seq::empty(),
        had_error: false,
    }
}

/// How a run ended, as the rules see it.
pub open spec fn run_ending(outcome: Result<(), Failure>) -> Result<(), Stop> {
    match outcome {
        Ok(_) => Ok(()),
        Err(Failure::Runtime(stop)) => Err(stop@),
        Err(_) => Err(Stop::StepLimit),
    }
}

/// What a run of `source` is, pass by pass. A fault of the scanner ends
/// the run before anything is parsed; an error of the parser, before
/// anything is resolved; an error of the resolver, before anything is
/// evaluated. Otherwise the program is evaluated by a new interpreter
/// that has the resolver's distance table.
pub open spec fn ran(source: Seq<char>, r: Run) -> bool {
    match scan(source) {
        Err(fault) => {
            &&& r.outcome matches Err(Failure::Scan(_))
            &&& texts(r.reports@) == seq![report_text(fault.line as int, ""@, fault.message)]
            &&& r.tokens@.len() == 0
            &&& r.statements@.len() == 0
            &&& initial(r.interpreter@)
        },
        Ok(scanned) => {
            let parsed = program(parse_start(r.tokens@), Seq::empty());
            let resolved = resolve_stmts(resolution_start(), r.statements@);
            &&& numbered(scanned, r.tokens@)
            &&& stmt_trees(r.statements@) == parsed.1
            &&& if parsed.0.had_error {
                &&& r.outcome matches Err(Failure::Parse(_))
                &&& texts(r.reports@) == parsed.0.reports
                &&& initial(r.interpreter@)
            } else if resolved.had_error {
                &&& r.outcome matches Err(Failure::Semantic(_))
                &&& texts(r.reports@) == resolved.reports
                &&& exists|first: State| initial(first) && r.interpreter@ == (State {
                    locals: resolved.locals,
                    ..first
                })
            } else {
                &&& texts(r.reports@) == resolved.reports
                &&& !(r.outcome matches Err(Failure::Scan(_)))
                &&& !(r.outcome matches Err(Failure::Parse(_)))
                &&& !(r.outcome matches Err(Failure::Semantic(_)))
                &&& exists|first: State|
                    initial(first) && forall|answers: Seq<Datum>|
                        r.interpreter.hears(answers) ==> #[trigger] execute_all(
                            State { locals: resolved.locals, ..first },
                            r.statements@,
                            answers,
                        ) == (r.interpreter@, run_ending(r.outcome))
            }
        },
    }
}

/// Runs a program: scans it, has the host read its numbers, parses it,
/// resolves it and evaluates it, as far as no pass finds fault with it.
pub fn run<H: Host>(source: &str, host: &mut H) -> (r: Run)
    ensures
        ran(source@, r),
{
    let mut scanner = Scanner::new(source, Context::new());
    let scanned = scanner.scan_tokens();
    match scanned {
        Ok(_) => {},
        Err(e) => {
            let r = Run {
                tokens: Vec::new(),
                statements: Vec::new(),
                interpreter: Interpreter::new(),
                reports: scanner.context.reports,
                outcome: Err(Failure::Scan(e)),
            };
            proof {
                let fault = scan(source@)->Err_0;
                assert(texts(r.reports@) =~= seq![
                    report_text(fault.line as int, ""@, fault.message),
                ]);
            }
            return r;
        },
    }
    let mut tokens = scanner.tokens;
    let ghost scanned_tokens = lexemes(tokens@);
    Scanner::read_numbers(&mut tokens, host);
    let mut parser = Parser::new(tokens, Context::new());
    proof {
        assert(scanned_tokens.len() > 0 && scanned_tokens.last().token_type == TokenType::EOF) by {
            crate::scanner::lemma_scan_ends(
                source@,
                crate::scanner::Scan { position: 0, line: 1, index: 0, tokens: Seq::empty() },
            );
        }
        assert(parser.tokens@.last()@.token_type == scanned_tokens.last().token_type);
        assert(parser@ == parse_start(parser.tokens@)) by {
            assert(texts(parser.context.reports@) =~= Seq::<Seq<char>>::empty());
        }
    }
    let ghost tokens_view = parser.tokens@;
    let statements = parser.parse();
    if parser.context.had_error {
        return Run {
            tokens: parser.tokens,
            statements,
            interpreter: Interpreter::new(),
            reports: parser.context.reports,
            outcome: Err(Failure::Parse(ParseError::raise())),
        };
    }
    let interpreter = Interpreter::new();
    let ghost first = interpreter@;
    let mut resolver = Resolver::new(interpreter, Context::new());
    proof {
        assert(resolver@ == resolution_start()) by {
            assert(texts(resolver.context.reports@) =~= Seq::<Seq<char>>::empty());
            assert(crate::resolver::scope_maps(resolver.scopes@) =~= Seq::<
                Map<Seq<char>, bool>,
            >::empty());
            assert(resolver.interpreter.locals@ =~= Seq::empty());
        }
    }
    resolver.resolve(&statements);
    if resolver.context.had_error {
        let r = Run {
            tokens: parser.tokens,
            statements,
            interpreter: resolver.interpreter,
            reports: resolver.context.reports,
            outcome: Err(Failure::Semantic(SemanticError::raise())),
        };
        proof {
            let resolved = resolve_stmts(resolution_start(), r.statements@);
            assert(r.interpreter@ == (State { locals: resolved.locals, ..first }));
        }
        return r;
    }
    let mut interpreter = resolver.interpreter;
    let ghost start = interpreter;
    let outcome = interpreter.interpret(host, &statements);
    let r = Run {
        tokens: parser.tokens,
        statements,
        interpreter,
        reports: resolver.context.reports,
        outcome: match outcome {
            Ok(_) => Ok(()),
            Err(stop) => Err(Failure::Runtime(stop)),
        },
    };
    proof {
        let resolved = resolve_stmts(resolution_start(), r.statements@);
        assert(start@ == (State { locals: resolved.locals, ..first }));
        assert(run_ending(r.outcome) == ending(outcome));
        assert forall|answers: Seq<Datum>| r.interpreter.hears(answers) implies execute_all(
            State { locals: resolved.locals, ..first },
            r.statements@,
            answers,
        ) == (r.interpreter@, run_ending(r.outcome)) by {
            assert(execute_all(start@, r.statements@, answers) == (
                r.interpreter@,
                ending(outcome),
            ));
        }
    }
    r
}

} // verus!
