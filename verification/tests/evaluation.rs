use rlox::callable::Host;
use rlox::context::Context;
use rlox::errors::RuntimeBreak;
use rlox::expr::Expr;
use rlox::interpreter::Interpreter;
use rlox::resolver::Resolver;
use rlox::stmt::Stmt;
use rlox::token::{Literal, Token, TokenType};
use rlox::value::Value;

/// A host that computes with the machine's doubles.
struct Machine {
    clock: u64,
}

impl Host for Machine {
    fn add(&mut self, left: u64, right: u64) -> u64 {
        (f64::from_bits(left) + f64::from_bits(right)).to_bits()
    }

    fn subtract(&mut self, left: u64, right: u64) -> u64 {
        (f64::from_bits(left) - f64::from_bits(right)).to_bits()
    }

    fn multiply(&mut self, left: u64, right: u64) -> u64 {
        (f64::from_bits(left) * f64::from_bits(right)).to_bits()
    }

    fn divide(&mut self, left: u64, right: u64) -> u64 {
        (f64::from_bits(left) / f64::from_bits(right)).to_bits()
    }

    fn number_text(&mut self, number: u64) -> String {
        format!("{}", f64::from_bits(number))
    }

    fn number_of(&mut self, numeral: &str) -> u64 {
        numeral.parse::<f64>().unwrap().to_bits()
    }

    fn call_native(&mut self, _native: usize, _arguments: &Vec<Value>) -> Literal {
        self.clock += 1;
        Literal::Num((self.clock as f64).to_bits())
    }
}

/// Builds tokens with distinct positions.
struct Source {
    next: usize,
}

impl Source {
    fn new() -> Self {
        Source { next: 1 }
    }

    fn token(&mut self, token_type: TokenType, lexeme: &str) -> Token {
        self.next += 1;
        Token::new(self.next, token_type, lexeme, Literal::Nil, 1)
    }

    fn name(&mut self, lexeme: &str) -> Token {
        self.token(TokenType::IDENTIFIER, lexeme)
    }

    fn var(&mut self, lexeme: &str) -> Expr {
        let token = self.name(lexeme);
        Expr::variable(token)
    }

    fn binary(&mut self, left: Expr, token_type: TokenType, lexeme: &str, right: Expr) -> Expr {
        let operator = self.token(token_type, lexeme);
        Expr::binary(left, operator, right)
    }

    fn call(&mut self, callee: Expr, arguments: Vec<Expr>) -> Expr {
        let paren = self.token(TokenType::RIGHT_PAREN, ")");
        Expr::call(callee, paren, arguments)
    }

    fn get(&mut self, object: Expr, name: &str) -> Expr {
        let name = self.name(name);
        Expr::get(object, name)
    }

    fn set(&mut self, object: Expr, name: &str, value: Expr) -> Expr {
        let name = self.name(name);
        Expr::set(object, name, value)
    }

    fn declare(&mut self, name: &str, initializer: Expr) -> Stmt {
        let name = self.name(name);
        Stmt::var(name, initializer)
    }

    fn fun(&mut self, name: &str, params: &[&str], body: Vec<Stmt>) -> Stmt {
        let name = self.name(name);
        let params = params.iter().map(|p| self.name(p)).collect();
        Stmt::fun(name, params, body)
    }

    fn class(&mut self, name: &str, superclass: Option<&str>, methods: Vec<Stmt>) -> Stmt {
        let name = self.name(name);
        let superclass = superclass.map(|s| self.var(s));
        Stmt::class(name, superclass, methods)
    }

    fn ret(&mut self, value: Expr) -> Stmt {
        let keyword = self.token(TokenType::RETURN, "return");
        Stmt::return_stmt(keyword, value)
    }
}

fn num(n: f64) -> Expr {
    Expr::literal(Literal::Num(n.to_bits()))
}

fn text(s: &str) -> Expr {
    Expr::literal(Literal::Str(s.to_string()))
}

/// Resolves and runs a program; gives the reports of the resolver, the
/// outcome and the lines printed.
fn run(program: &Vec<Stmt>) -> (Vec<String>, Option<Result<(), RuntimeBreak>>, Vec<String>) {
    let mut resolver = Resolver::new(Interpreter::new(), Context::new());
    resolver.resolve(program);
    let reports = resolver.context.reports;
    let mut interpreter = resolver.interpreter;
    if resolver.context.had_error {
        return (reports, None, Vec::new());
    }
    let mut host = Machine { clock: 0 };
    let outcome = interpreter.interpret(&mut host, program);
    (reports, Some(outcome), interpreter.output)
}

fn printed(program: &Vec<Stmt>) -> Vec<String> {
    let (reports, outcome, output) = run(program);
    assert!(reports.is_empty(), "{:?}", reports);
    match outcome {
        Some(Ok(())) => output,
        other => panic!("{:?}", other),
    }
}

fn runtime_error(program: &Vec<Stmt>) -> String {
    let (reports, outcome, _) = run(program);
    assert!(reports.is_empty(), "{:?}", reports);
    match outcome {
        Some(Err(RuntimeBreak::RuntimeError { message, .. })) => message,
        other => panic!("{:?}", other),
    }
}

#[test]
fn built_arithmetic_follows_the_host() {
    let mut s = Source::new();
    let sum = s.binary(num(1.5), TokenType::PLUS, "+", num(2.25));
    let product = s.binary(sum, TokenType::STAR, "*", num(2.0));
    let program = vec![Stmt::print(product)];
    assert_eq!(printed(&program), vec!["7.5".to_string()]);
}

#[test]
fn built_division_by_zero_is_a_runtime_error() {
    let mut s = Source::new();
    let quotient = s.binary(num(1.0), TokenType::SLASH, "/", num(0.0));
    let program = vec![Stmt::print(quotient)];
    assert_eq!(runtime_error(&program), "Devided by 0");
    let mut s = Source::new();
    let quotient = s.binary(num(1.0), TokenType::SLASH, "/", num(-0.0));
    assert_eq!(runtime_error(&vec![Stmt::print(quotient)]), "Devided by 0");
}

#[test]
fn built_adding_a_string_and_a_number_is_a_typed_error() {
    let mut s = Source::new();
    let sum = s.binary(text("a"), TokenType::PLUS, "+", num(1.0));
    assert_eq!(
        runtime_error(&vec![Stmt::print(sum)]),
        "Operands must be numbers or strings."
    );
}

#[test]
fn built_a_number_never_equals_a_string() {
    let mut s = Source::new();
    let equal = s.binary(num(1.0), TokenType::EQUAL_EQUAL, "==", text("1"));
    assert_eq!(printed(&vec![Stmt::print(equal)]), vec!["false".to_string()]);
}

#[test]
fn built_a_closure_sees_the_scope_of_its_declaration() {
    // fun make() { var a = "captured"; fun get() { return a; } return get; }
    // var a = "global"; var f = make(); { var a = "caller"; print f(); }
    let mut s = Source::new();
    let inner_body = vec![{
        let a = s.var("a");
        s.ret(a)
    }];
    let make_body = vec![
        s.declare("a", text("captured")),
        s.fun("get", &[], inner_body),
        {
            let get = s.var("get");
            s.ret(get)
        },
    ];
    let program = vec![
        s.fun("make", &[], make_body),
        s.declare("a", text("global")),
        {
            let make = s.var("make");
            let call = s.call(make, vec![]);
            s.declare("f", call)
        },
        Stmt::block(vec![s.declare("a", text("caller")), {
            let f = s.var("f");
            Stmt::print(s.call(f, vec![]))
        }]),
    ];
    assert_eq!(printed(&program), vec!["captured".to_string()]);
}

#[test]
fn built_super_calls_the_method_of_the_superclass() {
    // class A { greet() { return "A"; } }
    // class B < A { greet() { return super.greet() + "B"; } }
    // print B().greet();
    let mut s = Source::new();
    let a_greet = {
        let body = vec![s.ret(text("A"))];
        s.fun("greet", &[], body)
    };
    let b_greet = {
        let keyword = s.token(TokenType::SUPER, "super");
        let method = s.name("greet");
        let up = Expr::super_(keyword, method);
        let call = s.call(up, vec![]);
        let sum = s.binary(call, TokenType::PLUS, "+", text("B"));
        let body = vec![s.ret(sum)];
        s.fun("greet", &[], body)
    };
    let program = vec![
        s.class("A", None, vec![a_greet]),
        s.class("B", Some("A"), vec![b_greet]),
        {
            let b = s.var("B");
            let instance = s.call(b, vec![]);
            let greet = s.get(instance, "greet");
            Stmt::print(s.call(greet, vec![]))
        },
    ];
    assert_eq!(printed(&program), vec!["AB".to_string()]);
}

#[test]
fn built_instances_have_fields_of_their_own() {
    // class Foo {} var x = Foo(); var y = Foo(); x.f = 1; y.f = 2; print x.f; print y.f;
    let mut s = Source::new();
    let program = vec![
        s.class("Foo", None, vec![]),
        {
            let foo = s.var("Foo");
            let call = s.call(foo, vec![]);
            s.declare("x", call)
        },
        {
            let foo = s.var("Foo");
            let call = s.call(foo, vec![]);
            s.declare("y", call)
        },
        {
            let x = s.var("x");
            Stmt::expression(s.set(x, "f", num(1.0)))
        },
        {
            let y = s.var("y");
            Stmt::expression(s.set(y, "f", num(2.0)))
        },
        {
            let x = s.var("x");
            Stmt::print(s.get(x, "f"))
        },
        {
            let y = s.var("y");
            Stmt::print(s.get(y, "f"))
        },
    ];
    assert_eq!(printed(&program), vec!["1".to_string(), "2".to_string()]);
}

#[test]
fn built_a_copied_instance_shares_its_fields() {
    // class Foo {} var x = Foo(); var y = x; y.f = 3; print x.f;
    let mut s = Source::new();
    let program = vec![
        s.class("Foo", None, vec![]),
        {
            let foo = s.var("Foo");
            let call = s.call(foo, vec![]);
            s.declare("x", call)
        },
        {
            let x = s.var("x");
            s.declare("y", x)
        },
        {
            let y = s.var("y");
            Stmt::expression(s.set(y, "f", num(3.0)))
        },
        {
            let x = s.var("x");
            Stmt::print(s.get(x, "f"))
        },
    ];
    assert_eq!(printed(&program), vec!["3".to_string()]);
}

#[test]
fn built_a_wrong_argument_count_names_both_counts() {
    // fun f(a, b) {} f(1);
    let mut s = Source::new();
    let program = vec![s.fun("f", &["a", "b"], vec![]), {
        let f = s.var("f");
        Stmt::expression(s.call(f, vec![num(1.0)]))
    }];
    assert_eq!(runtime_error(&program), "Expected 2 arguments but got 1.");
}
