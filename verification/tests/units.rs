use std::rc::Rc;

use rlox::callable::{Callable, Host};
use rlox::class::{Class, ClassCore};
use rlox::context::Context;
use rlox::environment::Environment;
use rlox::errors::{ParseError, RuntimeBreak, ScanError, SemanticError};
use rlox::expr::Expr;
use rlox::function::{Function, FunctionBody};
use rlox::instance::Instance;
use rlox::interpreter::{Interpreter, CLOCK};
use rlox::number;
use rlox::parser::Parser;
use rlox::resolver::Resolver;
use rlox::scanner::{characters, Scanner};
use rlox::stmt::{Fun, Stmt};
use rlox::table::Table;
use rlox::text;
use rlox::token::{spells, Literal, Token, TokenType};
use rlox::value::Value;
use rlox::{run, Failure};

struct Machine;

impl Host for Machine {
    fn add(&mut self, left: u64, right: u64) -> u64 {
        (f64::from_bits(left) + f64::from_bits(right)).to_bits()
    }

    fn subtract(&mut self, left: u64, right: u64) -> u64 {
        (f64::from_bits(left) - f64::from_bits(right)).to_bits()
    }

    fn multiply(&mut self, left: u64, right: u64) -> u64 {
        (f64::from_bits(left) * f64::from_bits(right)).to_bits()
    }

    fn divide(&mut self, left: u64, right: u64) -> u64 {
        (f64::from_bits(left) / f64::from_bits(right)).to_bits()
    }

    fn number_text(&mut self, number: u64) -> String {
        format!("{}", f64::from_bits(number))
    }

    fn number_of(&mut self, numeral: &str) -> u64 {
        numeral.parse::<f64>().unwrap().to_bits()
    }

    fn call_native(&mut self, native: usize, arguments: &Vec<Value>) -> Literal {
        Literal::Num(((native * 10 + arguments.len()) as f64).to_bits())
    }
}

fn bits(n: f64) -> u64 {
    n.to_bits()
}

fn samples() -> Vec<f64> {
    vec![
        0.0,
        -0.0,
        1.0,
        -1.0,
        0.1,
        -0.1,
        2.5,
        1e300,
        -1e300,
        5e-324,
        -5e-324,
        f64::MAX,
        f64::MIN,
        f64::INFINITY,
        f64::NEG_INFINITY,
        f64::NAN,
        -f64::NAN,
    ]
}

#[test]
fn number_order_is_that_of_the_doubles() {
    for a in samples() {
        for b in samples() {
            assert_eq!(number::less(bits(a), bits(b)), a < b, "{} < {}", a, b);
            assert_eq!(number::less_equal(bits(a), bits(b)), a <= b, "{} <= {}", a, b);
            assert_eq!(number::equal(bits(a), bits(b)), a == b, "{} == {}", a, b);
        }
    }
}

#[test]
fn number_signs_and_zeros() {
    for a in samples() {
        assert_eq!(number::negate(bits(a)), bits(-a));
        assert_eq!(number::zero(bits(a)), a == 0.0);
        assert_eq!(number::not_a_number(bits(a)), a.is_nan());
    }
    assert_eq!(number::negate(bits(1.5)), bits(-1.5));
    assert!(number::zero(bits(-0.0)));
}

#[test]
fn numerals_are_decimal() {
    assert_eq!(text::natural(0), "0");
    assert_eq!(text::natural(7), "7");
    assert_eq!(text::natural(10), "10");
    assert_eq!(text::natural(255), "255");
    assert_eq!(text::natural(u64::MAX), "18446744073709551615");
    assert_eq!(text::integer(0), "0");
    assert_eq!(text::integer(-1), "-1");
    assert_eq!(text::integer(42), "42");
    assert_eq!(text::integer(i64::MAX), "9223372036854775807");
    assert_eq!(text::integer(i64::MIN), "-9223372036854775808");
    assert_eq!(text::join3("a", "bc", "d"), "abcd");
}

#[test]
fn a_table_holds_the_latest_binding_of_a_name() {
    let mut table: Table<u64> = Table::new();
    let a = "a".to_string();
    let b = "b".to_string();
    assert!(table.get(&a).is_none());
    assert!(!table.contains_key(&a));
    assert!(table.position(&a).is_none());
    table.insert(a.clone(), 1);
    table.insert(b.clone(), 2);
    assert_eq!(table.get(&a), Some(&1));
    assert_eq!(table.get(&b), Some(&2));
    table.insert(a.clone(), 3);
    assert_eq!(table.get(&a), Some(&3));
    assert_eq!(table.get(&b), Some(&2));
    assert_eq!(table.entries.len(), 2);
    assert_eq!(table.position(&b), Some(1));
    assert!(table.contains_key(&b));
}

#[test]
fn keywords_are_told_from_identifiers() {
    let keywords = [
        ("and", TokenType::AND),
        ("class", TokenType::CLASS),
        ("else", TokenType::ELSE),
        ("false", TokenType::FALSE),
        ("for", TokenType::FOR),
        ("fun", TokenType::FUN),
        ("if", TokenType::IF),
        ("nil", TokenType::NIL),
        ("or", TokenType::OR),
        ("print", TokenType::PRINT),
        ("return", TokenType::RETURN),
        ("super", TokenType::SUPER),
        ("this", TokenType::THIS),
        ("true", TokenType::TRUE),
        ("var", TokenType::VAR),
        ("while", TokenType::WHILE),
    ];
    for (word, token_type) in keywords {
        assert_eq!(TokenType::reserved_or_ident(word), token_type);
    }
    for word in ["", "And", "classes", "x", "_", "nil2", "printf"] {
        assert_eq!(TokenType::reserved_or_ident(word), TokenType::IDENTIFIER);
    }
    assert!(spells(&"init".to_string(), "init"));
    assert!(!spells(&"init".to_string(), "inits"));
}

#[test]
fn tokens_are_told_apart_by_their_place() {
    let a = Token::new(3, TokenType::IDENTIFIER, "a", Literal::Nil, 1);
    let same = Token::new(3, TokenType::IDENTIFIER, "a", Literal::Num(7), 1);
    let later = Token::new(9, TokenType::IDENTIFIER, "a", Literal::Nil, 1);
    let other_line = Token::new(3, TokenType::IDENTIFIER, "a", Literal::Nil, 2);
    let other_name = Token::new(3, TokenType::IDENTIFIER, "b", Literal::Nil, 1);
    assert!(a.is_same_site(&same));
    assert!(a == same && a != later && a != other_name);
    assert!(!a.is_same_site(&later));
    assert!(!a.is_same_site(&other_line));
    assert!(!a.is_same_site(&other_name));
    let this = Token::this();
    assert_eq!(this.lexeme, "this");
    assert_eq!(this.token_type, TokenType::THIS);
    assert_eq!(this.index, 0);
    let copy = a.clone();
    assert_eq!(copy.lexeme, "a");
    assert_eq!(copy.index, 3);
}

#[test]
fn reports_say_where_and_what() {
    let mut context = Context::new();
    assert!(!context.had_error);
    context.error(3, "Unexpected character.");
    assert!(context.had_error);
    let name = Token::new(1, TokenType::IDENTIFIER, "x", Literal::Nil, 12);
    context.error_on(&name, "Expect expression.");
    let end = Token::new(2, TokenType::EOF, "", Literal::Nil, -4);
    context.error_on(&end, "Expect ';' after value.");
    context.report(0, " somewhere", "Something.");
    assert_eq!(
        context.reports,
        vec![
            "[line: 3] Error: Unexpected character.",
            "[line: 12] Error at 'x': Expect expression.",
            "[line: -4] Error at end: Expect ';' after value.",
            "[line: 0] Error somewhere: Something.",
        ]
    );
}

#[test]
fn errors_describe_themselves() {
    assert_eq!(ScanError::raise().describe(), "ScanError.");
    assert_eq!(ParseError::raise().describe(), "ParseError.");
    assert_eq!(SemanticError::raise().describe(), "SemanticError.");
    let token = Token::new(1, TokenType::PLUS, "+", Literal::Nil, 5);
    let interpreter = Interpreter::new();
    let mut host = Machine;
    let error = RuntimeBreak::error(&token, "Operand must be a number.");
    assert_eq!(
        interpreter.describe(&mut host, &error),
        "RuntimeError: Operand must be a number.\n[line 5]"
    );
    assert_eq!(
        interpreter.describe(&mut host, &RuntimeBreak::StepLimit),
        "RuntimeError: Step limit reached."
    );
    assert_eq!(
        interpreter.describe(&mut host, &RuntimeBreak::ret(Value::Number(bits(2.5)))),
        "Return: 2.5"
    );
    assert_eq!(
        interpreter.describe(&mut host, &RuntimeBreak::ret(Value::Nil)),
        "Return: nil"
    );
    match RuntimeBreak::undefined_variable(&token) {
        RuntimeBreak::RuntimeError { message, token } => {
            assert_eq!(message, "Undefined variable '+'.");
            assert_eq!(token.line, 5);
        }
        other => panic!("{:?}", other),
    }
    match RuntimeBreak::raise(token, "m".to_string()) {
        RuntimeBreak::RuntimeError { message, .. } => assert_eq!(message, "m"),
        other => panic!("{:?}", other),
    }
}

fn name(lexeme: &str) -> Token {
    Token::new(1, TokenType::IDENTIFIER, lexeme, Literal::Nil, 1)
}

fn number_of(value: Result<Value, RuntimeBreak>) -> f64 {
    match value {
        Ok(Value::Number(n)) => f64::from_bits(n),
        other => panic!("{:?}", other),
    }
}

fn message_of<T: std::fmt::Debug>(value: Result<T, RuntimeBreak>) -> String {
    match value {
        Err(RuntimeBreak::RuntimeError { message, .. }) => message,
        other => panic!("{:?}", other),
    }
}

/// Three scopes: 0 holds a and b, 1 inside 0 holds b, 2 inside 1 holds c.
fn scopes() -> Vec<Environment> {
    let mut outer = Environment::new(None);
    outer.define("a", Value::Number(bits(1.0)));
    outer.define("b", Value::Number(bits(2.0)));
    let mut middle = Environment::new(Some(0));
    middle.define("b", Value::Number(bits(20.0)));
    let mut inner = Environment::new(Some(1));
    inner.define("c", Value::Number(bits(300.0)));
    vec![outer, middle, inner]
}

#[test]
fn reading_searches_outward() {
    let scopes = scopes();
    assert_eq!(number_of(Environment::get(&scopes, 2, &name("a"))), 1.0);
    assert_eq!(number_of(Environment::get(&scopes, 2, &name("b"))), 20.0);
    assert_eq!(number_of(Environment::get(&scopes, 2, &name("c"))), 300.0);
    assert_eq!(number_of(Environment::get(&scopes, 0, &name("b"))), 2.0);
    assert_eq!(message_of(Environment::get(&scopes, 1, &name("c"))), "Undefined variable 'c'.");
    assert_eq!(message_of(Environment::get(&scopes, 9, &name("a"))), "Undefined variable 'a'.");
    assert_eq!(Environment::find_holder(&scopes, 2, &"b".to_string()), Some(1));
    assert_eq!(Environment::find_holder(&scopes, 2, &"z".to_string()), None);
}

#[test]
fn reading_at_a_distance_does_not_search() {
    let scopes = scopes();
    assert_eq!(number_of(Environment::get_at(&scopes, 2, 0, &name("c"))), 300.0);
    assert_eq!(number_of(Environment::get_at(&scopes, 2, 1, &name("b"))), 20.0);
    assert_eq!(number_of(Environment::get_at(&scopes, 2, 2, &name("b"))), 2.0);
    assert_eq!(
        message_of(Environment::get_at(&scopes, 2, 1, &name("a"))),
        "Undefined variable 'a'."
    );
    assert_eq!(
        message_of(Environment::get_at(&scopes, 2, 3, &name("a"))),
        "Undefined variable 'a'."
    );
    assert_eq!(Environment::ancestor(&scopes, 2, 0), Some(2));
    assert_eq!(Environment::ancestor(&scopes, 2, 2), Some(0));
    assert_eq!(Environment::ancestor(&scopes, 2, 3), None);
    assert_eq!(Environment::ancestor(&scopes, 7, 0), None);
    assert_eq!(Environment::find_holder_at(&scopes, 2, 1, &"b".to_string()), Some(1));
    assert_eq!(Environment::find_holder_at(&scopes, 2, 1, &"c".to_string()), None);
}

#[test]
fn writing_changes_the_scope_that_binds_the_name() {
    let mut scopes = scopes();
    assert!(Environment::assign(&mut scopes, 2, &name("b"), Value::Nil).is_ok());
    assert!(matches!(Environment::get(&scopes, 1, &name("b")), Ok(Value::Nil)));
    assert_eq!(number_of(Environment::get(&scopes, 0, &name("b"))), 2.0);
    assert_eq!(
        message_of(Environment::assign(&mut scopes, 1, &name("c"), Value::Nil)),
        "Undefined variable 'c'."
    );
    assert_eq!(number_of(Environment::get(&scopes, 2, &name("c"))), 300.0);
    assert!(Environment::assign_at(&mut scopes, 2, 2, &name("b"), Value::Boolean(true)).is_ok());
    assert!(matches!(Environment::get(&scopes, 0, &name("b")), Ok(Value::Boolean(true))));
    assert_eq!(
        message_of(Environment::assign_at(&mut scopes, 2, 0, &name("a"), Value::Nil)),
        "Undefined variable 'a'."
    );
    assert_eq!(number_of(Environment::get(&scopes, 0, &name("a"))), 1.0);
    Environment::define_in(&mut scopes, 2, "a", Value::Number(bits(5.0)));
    assert_eq!(number_of(Environment::get(&scopes, 2, &name("a"))), 5.0);
    assert_eq!(number_of(Environment::get(&scopes, 1, &name("a"))), 1.0);
    assert_eq!(Environment::push(&mut scopes, Environment::new(Some(2))), 3);
    assert_eq!(scopes.len(), 4);
}

#[test]
fn taking_the_enclosing_scope_leaves_an_empty_one() {
    let mut scopes = scopes();
    let taken = Environment::take_enclosing(&mut scopes, 2).unwrap();
    assert_eq!(taken.enclosing, Some(0));
    assert!(taken.values.contains_key(&"b".to_string()));
    assert_eq!(scopes.len(), 3);
    assert_eq!(scopes[1].enclosing, None);
    assert!(!scopes[1].values.contains_key(&"b".to_string()));
    assert!(Environment::take_enclosing(&mut scopes, 0).is_none());
    assert!(Environment::take_enclosing(&mut scopes, 5).is_none());
}

fn declaration(name: &str, params: &[&str]) -> Rc<Fun> {
    let params = params
        .iter()
        .map(|p| Token::new(2, TokenType::IDENTIFIER, p, Literal::Nil, 1))
        .collect();
    Rc::new(Fun(
        Box::new(Token::new(1, TokenType::IDENTIFIER, name, Literal::Nil, 1)),
        params,
        vec![],
    ))
}

#[test]
fn functions_know_their_name_and_arity() {
    let native = Function::new_native("clock", 0, CLOCK);
    assert_eq!(native.name, "clock");
    assert_eq!(native.arity(), 0);
    assert!(matches!(native.body, FunctionBody::Native(0)));
    let f = Function::new_lox(declaration("f", &["a", "b"]), Some(4), true);
    assert_eq!(f.name, "f");
    assert_eq!(f.arity(), 2);
    match &f.body {
        FunctionBody::Declared { closure, is_initializer, .. } => {
            assert_eq!(*closure, Some(4));
            assert!(*is_initializer);
        }
        other => panic!("{:?}", other),
    }
    let copy = f.clone();
    assert_eq!(copy.name, "f");
    assert_eq!(copy.arity_nr, 2);
}

#[test]
fn binding_makes_a_scope_that_holds_this() {
    let mut scopes = scopes();
    let instance = Instance { class: Class { core: 0 }, id: 7 };
    let method = Function::new_lox(declaration("m", &[]), Some(1), false);
    let bound = method.bind(&mut scopes, instance);
    assert_eq!(scopes.len(), 4);
    assert_eq!(scopes[3].enclosing, Some(1));
    assert!(matches!(
        scopes[3].values.get(&"this".to_string()),
        Some(Value::LoxInstance(i)) if *i == instance
    ));
    assert_eq!(scopes[3].values.entries.len(), 1);
    match &bound.body {
        FunctionBody::Declared { closure, .. } => assert_eq!(*closure, Some(3)),
        other => panic!("{:?}", other),
    }
    match &method.body {
        FunctionBody::Declared { closure, .. } => assert_eq!(*closure, Some(1)),
        other => panic!("{:?}", other),
    }
    let native = Function::new_native("n", 1, 5);
    let same = native.bind(&mut scopes, instance);
    assert_eq!(scopes.len(), 4);
    assert!(matches!(same.body, FunctionBody::Native(5)));
}

fn methods(names: &[&str], scope: usize) -> Table<Function> {
    let mut table = Table::new();
    for n in names {
        table.insert(n.to_string(), Function::new_lox(declaration(n, &["x"]), Some(scope), *n == "init"));
    }
    table
}

#[test]
fn methods_are_looked_up_along_the_chain() {
    let mut classes: Vec<ClassCore> = Vec::new();
    let a = Class::new(&mut classes, "A", methods(&["init", "f"], 0), None);
    let b = Class::new(&mut classes, "B", methods(&["g"], 1), Some(a));
    let c = Class::new(&mut classes, "C", methods(&["f"], 2), Some(b));
    assert_eq!((a.core, b.core, c.core), (0, 1, 2));
    assert_eq!(a.name(&classes).unwrap(), "A");
    assert!(Class { core: 9 }.name(&classes).is_none());
    let closure_of = |f: Option<&Function>| match f.map(|f| &f.body) {
        Some(FunctionBody::Declared { closure, .. }) => *closure,
        _ => None,
    };
    assert_eq!(closure_of(c.find_method(&classes, &"f".to_string())), Some(2));
    assert_eq!(closure_of(b.find_method(&classes, &"f".to_string())), Some(0));
    assert_eq!(closure_of(c.find_method(&classes, &"g".to_string())), Some(1));
    assert_eq!(closure_of(c.find_method(&classes, &"init".to_string())), Some(0));
    assert!(c.find_method(&classes, &"h".to_string()).is_none());
    assert!(a.find_method(&classes, &"g".to_string()).is_none());
    assert!(ClassCore::find_method(&classes, 9, &"f".to_string()).is_none());
    assert_eq!(c.arity(&classes), 1);
    let d = Class::new(&mut classes, "D", methods(&[], 0), None);
    assert_eq!(d.arity(&classes), 0);
}

#[test]
fn instances_keep_their_fields_with_their_class() {
    let mut classes: Vec<ClassCore> = Vec::new();
    let mut scopes = scopes();
    let a = Class::new(&mut classes, "A", methods(&["f"], 0), None);
    let x = Instance::new(&mut classes, a);
    let y = Instance::new(&mut classes, a);
    assert_eq!((x.id, y.id), (0, 1));
    assert_eq!(x.get_class(), a);
    assert_ne!(x, y);
    assert!(x.set(&mut classes, &name("v"), Value::Number(bits(1.0))).is_ok());
    assert!(y.set(&mut classes, &name("v"), Value::Number(bits(2.0))).is_ok());
    assert_eq!(number_of(x.get(&classes, &mut scopes, &name("v"))), 1.0);
    assert_eq!(number_of(y.get(&classes, &mut scopes, &name("v"))), 2.0);
    let alias = x;
    assert!(alias.set(&mut classes, &name("v"), Value::Number(bits(3.0))).is_ok());
    assert_eq!(number_of(x.get(&classes, &mut scopes, &name("v"))), 3.0);
    assert_eq!(scopes.len(), 3);
    assert!(matches!(x.get(&classes, &mut scopes, &name("f")), Ok(Value::LoxFunction(_))));
    assert_eq!(scopes.len(), 4);
    assert_eq!(
        message_of(x.get(&classes, &mut scopes, &name("missing"))),
        "Undefined property 'missing'"
    );
    let stray = Instance { class: a, id: 5 };
    assert_eq!(
        message_of(stray.get(&classes, &mut scopes, &name("v"))),
        "Uninitialized instance"
    );
    assert_eq!(
        message_of(stray.set(&mut classes, &name("v"), Value::Nil)),
        "Uninitialized instance"
    );
    let nowhere = Instance::new(&mut classes, Class { core: 9 });
    assert_eq!(nowhere.id, 0);
    assert_eq!(classes[0].pool.len(), 2);
}

#[test]
fn values_are_equal_by_content_or_by_handle() {
    let f = Value::LoxFunction(Function::new_native("f", 0, 1));
    let a = Value::LoxClass(Class { core: 0 });
    let b = Value::LoxClass(Class { core: 1 });
    let i = Value::LoxInstance(Instance { class: Class { core: 0 }, id: 0 });
    let j = Value::LoxInstance(Instance { class: Class { core: 0 }, id: 1 });
    let one = Value::Number(bits(1.0));
    let text = Value::LoxString("1".to_string());
    assert!(Value::Nil.equals(&Value::Nil));
    assert!(Value::Nil == Value::Nil && one != text && f != f && a == a && i != j);
    assert!(Value::Boolean(true).equals(&Value::Boolean(true)));
    assert!(!Value::Boolean(true).equals(&Value::Boolean(false)));
    assert!(one.equals(&Value::Number(bits(1.0))));
    assert!(Value::Number(bits(0.0)).equals(&Value::Number(bits(-0.0))));
    assert!(!Value::Number(bits(f64::NAN)).equals(&Value::Number(bits(f64::NAN))));
    assert!(!one.equals(&text));
    assert!(text.equals(&Value::LoxString("1".to_string())));
    assert!(!f.equals(&f));
    assert!(a.equals(&a) && !a.equals(&b));
    assert!(i.equals(&i.clone()) && !i.equals(&j));
    assert!(!Value::Nil.equals(&Value::Boolean(false)));
    assert!(!Value::Nil.is_truthy() && !Value::Boolean(false).is_truthy());
    assert!(Value::Number(bits(0.0)).is_truthy() && Value::LoxString(String::new()).is_truthy());
    assert!(Interpreter::is_truthy(&f));
    assert_eq!(one.as_number(), Some(bits(1.0)));
    assert_eq!(text.as_number(), None);
}

#[test]
fn literals_denote_values_and_numbers_can_be_mapped() {
    assert!(matches!(Literal::Nil.value(), Value::Nil));
    assert!(matches!(Literal::Bool(true).value(), Value::Boolean(true)));
    assert!(matches!(Literal::Num(5).value(), Value::Number(5)));
    assert!(matches!(Literal::Str("s".to_string()).value(), Value::LoxString(s) if s == "s"));
    let doubled = Value::Number(bits(2.0)).map_number(|n| bits(f64::from_bits(n) * 2.0));
    assert!(matches!(doubled, Some(Value::Number(n)) if n == bits(4.0)));
    assert!(Value::Nil.map_number(|n| n).is_none());
}

fn operator(token_type: TokenType, lexeme: &str) -> Token {
    Token::new(1, token_type, lexeme, Literal::Nil, 3)
}

#[test]
fn unary_operations() {
    let minus = operator(TokenType::MINUS, "-");
    let bang = operator(TokenType::BANG, "!");
    assert_eq!(number_of(Interpreter::unary_operation(&minus, &Value::Number(bits(2.0)))), -2.0);
    assert!(number_of(Interpreter::unary_operation(&minus, &Value::Number(bits(0.0)))).is_sign_negative());
    assert!(matches!(
        Interpreter::unary_operation(&bang, &Value::Nil),
        Ok(Value::Boolean(true))
    ));
    assert!(matches!(
        Interpreter::unary_operation(&bang, &Value::Number(bits(0.0))),
        Ok(Value::Boolean(false))
    ));
    assert_eq!(
        message_of(Interpreter::unary_operation(&minus, &Value::Nil)),
        "Operand must be a number."
    );
    assert_eq!(
        message_of(Interpreter::unary_operation(&operator(TokenType::PLUS, "+"), &Value::Nil)),
        "Invalid unary operator."
    );
    assert_eq!(Interpreter::check_number_operand(&minus, &Value::Number(7)).unwrap(), 7);
    assert_eq!(
        Interpreter::check_number_operands(&minus, &Value::Number(7), &Value::Number(8)).unwrap(),
        (7, 8)
    );
    assert_eq!(
        message_of(Interpreter::check_number_operands(&minus, &Value::Number(7), &Value::Nil)),
        "Operand must be a number."
    );
}

#[test]
fn binary_operations_ask_the_host_only_for_arithmetic() {
    let mut interpreter = Interpreter::new();
    let mut host = Machine;
    let two = Value::Number(bits(2.0));
    let three = Value::Number(bits(3.0));
    let zero = Value::Number(bits(0.0));
    let cases = [
        (TokenType::PLUS, "+", 5.0),
        (TokenType::MINUS, "-", -1.0),
        (TokenType::STAR, "*", 6.0),
        (TokenType::SLASH, "/", 2.0 / 3.0),
    ];
    for (token_type, lexeme, expected) in cases {
        let op = operator(token_type, lexeme);
        assert!(Interpreter::needs_host(token_type, &two, &three));
        assert_eq!(
            number_of(interpreter.binary_operation(&mut host, &op, &two, &three)),
            expected
        );
        assert_eq!(interpreter.ask_arithmetic(&mut host, token_type, bits(2.0), bits(3.0)), bits(expected));
    }
    let slash = operator(TokenType::SLASH, "/");
    assert!(!Interpreter::needs_host(TokenType::SLASH, &two, &zero));
    assert_eq!(message_of(Interpreter::binary_result(&slash, &two, &zero)), "Devided by 0");
    assert_eq!(
        message_of(interpreter.binary_operation(&mut host, &slash, &two, &Value::Nil)),
        "Operand must be a number."
    );
    let plus = operator(TokenType::PLUS, "+");
    let a = Value::LoxString("a".to_string());
    assert!(matches!(
        Interpreter::binary_result(&plus, &a, &Value::LoxString("b".to_string())),
        Ok(Value::LoxString(s)) if s == "ab"
    ));
    assert_eq!(
        message_of(Interpreter::binary_result(&plus, &a, &two)),
        "Operands must be numbers or strings."
    );
    assert!(matches!(
        Interpreter::binary_result(&operator(TokenType::EQUAL_EQUAL, "=="), &two, &a),
        Ok(Value::Boolean(false))
    ));
    assert!(matches!(
        Interpreter::binary_result(&operator(TokenType::BANG_EQUAL, "!="), &two, &a),
        Ok(Value::Boolean(true))
    ));
    assert!(matches!(
        Interpreter::binary_result(&operator(TokenType::LESS, "<"), &two, &three),
        Ok(Value::Boolean(true))
    ));
    assert!(matches!(
        Interpreter::binary_result(&operator(TokenType::GREATER_EQUAL, ">="), &two, &three),
        Ok(Value::Boolean(false))
    ));
    assert_eq!(
        message_of(Interpreter::binary_result(&operator(TokenType::DOT, "."), &two, &a)),
        "Invalid binary operator."
    );
    assert!(Interpreter::short_circuits(TokenType::OR, &two));
    assert!(!Interpreter::short_circuits(TokenType::AND, &two));
    assert!(Interpreter::short_circuits(TokenType::AND, &Value::Nil));
}

#[test]
fn arity_is_checked_before_a_call() {
    let paren = operator(TokenType::RIGHT_PAREN, ")");
    assert!(Interpreter::check_arity(&paren, 2, 2).is_ok());
    assert_eq!(
        message_of(Interpreter::check_arity(&paren, 0, 12)),
        "Expected 0 arguments but got 12."
    );
    let mut interpreter = Interpreter::new();
    let mut host = Machine;
    let f = Value::LoxFunction(Function::new_native("n", 2, 4));
    let arguments = vec![Value::Nil, Value::Nil];
    assert_eq!(number_of(interpreter.invoke(&mut host, &f, &arguments, &paren)), 42.0);
    assert_eq!(
        message_of(interpreter.invoke(&mut host, &f, &vec![], &paren)),
        "Expected 2 arguments but got 0."
    );
    assert_eq!(
        message_of(interpreter.invoke(&mut host, &Value::Nil, &vec![], &paren)),
        "Can only call functions and classes."
    );
}

#[test]
fn callables_are_called_alike() {
    let mut interpreter = Interpreter::new();
    let mut host = Machine;
    let native = Function::new_native("n", 1, 3);
    assert_eq!(Callable::arity(&native, &interpreter), 1);
    assert_eq!(number_of(Callable::call(&native, &mut interpreter, &mut host, &vec![Value::Nil])), 31.0);
    let class = Class::new(&mut interpreter.classes, "A", methods(&[], 0), None);
    assert_eq!(Callable::arity(&class, &interpreter), 0);
    match Callable::call(&class, &mut interpreter, &mut host, &vec![]) {
        Ok(Value::LoxInstance(instance)) => {
            assert_eq!(instance.class, class);
            assert_eq!(instance.id, 0);
        }
        other => panic!("{:?}", other),
    }
    assert_eq!(interpreter.classes[0].pool.len(), 1);
}

#[test]
fn a_new_interpreter_knows_the_clock() {
    let mut interpreter = Interpreter::new();
    assert_eq!(interpreter.globals, 0);
    assert_eq!(interpreter.environment, 0);
    assert_eq!(interpreter.scopes.len(), 1);
    assert_eq!(interpreter.steps, u64::MAX);
    assert!(interpreter.output.is_empty() && interpreter.locals.is_empty());
    match interpreter.lookup_variable(&name("clock")) {
        Ok(Value::LoxFunction(f)) => {
            assert_eq!(f.name, "clock");
            assert_eq!(f.arity(), 0);
        }
        other => panic!("{:?}", other),
    }
    interpreter.define_native("now", 2, 9);
    assert!(matches!(
        interpreter.lookup_variable(&name("now")),
        Ok(Value::LoxFunction(f)) if f.arity() == 2
    ));
    interpreter.set_budget(5);
    assert_eq!(interpreter.steps, 5);
    interpreter.define("x", Value::Number(1));
    assert!(interpreter.assign_variable(&name("x"), Value::Number(2)).is_ok());
    assert!(matches!(interpreter.lookup_variable(&name("x")), Ok(Value::Number(2))));
    assert_eq!(
        message_of(interpreter.assign_variable(&name("y"), Value::Nil)),
        "Undefined variable 'y'."
    );
}

#[test]
fn recorded_distances_are_kept_by_site() {
    let mut interpreter = Interpreter::new();
    let first = Token::new(4, TokenType::IDENTIFIER, "a", Literal::Nil, 1);
    let second = Token::new(8, TokenType::IDENTIFIER, "a", Literal::Nil, 1);
    assert_eq!(interpreter.distance(&first), None);
    interpreter.resolve(first.clone(), 2);
    interpreter.resolve(second.clone(), 0);
    assert_eq!(interpreter.distance(&first), Some(2));
    assert_eq!(interpreter.distance(&second), Some(0));
    interpreter.resolve(first.clone(), 1);
    assert_eq!(interpreter.distance(&first), Some(1));
    assert_eq!(interpreter.distance(&second), Some(0));
}

#[test]
fn printing_appends_a_line() {
    let mut interpreter = Interpreter::new();
    let mut host = Machine;
    interpreter.emit(&mut host, &Value::LoxString("x".to_string()));
    interpreter.emit(&mut host, &Value::Number(bits(0.5)));
    interpreter.emit(&mut host, &Value::LoxClass(Class { core: 3 }));
    assert_eq!(interpreter.output, vec!["x", "0.5", "#<Class: >"]);
    assert_eq!(interpreter.stringify(&Value::Boolean(false)), "false");
    assert_eq!(interpreter.text_of(&mut host, &Value::Number(bits(-1.0))), "-1");
}

fn scanned(source: &str) -> Vec<Token> {
    let mut scanner = Scanner::new(source, Context::new());
    let count = scanner.scan_tokens().unwrap();
    assert_eq!(count, scanner.tokens.len());
    scanner.tokens
}

#[test]
fn the_scanner_finds_the_tokens() {
    assert_eq!(characters("aé\n"), vec!['a', 'é', '\n']);
    let tokens = scanned("var x1 = 3.25;\n// note\nprint \"a\nb\" != x1; (){},.-+*/ ! < <= > >= == =");
    let seen: Vec<(TokenType, &str, i64)> =
        tokens.iter().map(|t| (t.token_type, t.lexeme.as_str(), t.line)).collect();
    assert_eq!(
        seen,
        vec![
            (TokenType::VAR, "var", 1),
            (TokenType::IDENTIFIER, "x1", 1),
            (TokenType::EQUAL, "=", 1),
            (TokenType::NUMBER, "3.25", 1),
            (TokenType::SEMICOLON, ";", 1),
            (TokenType::PRINT, "print", 3),
            (TokenType::STRING, "\"a\nb\"", 4),
            (TokenType::BANG_EQUAL, "!=", 4),
            (TokenType::IDENTIFIER, "x1", 4),
            (TokenType::SEMICOLON, ";", 4),
            (TokenType::LEFT_PAREN, "(", 4),
            (TokenType::RIGHT_PAREN, ")", 4),
            (TokenType::LEFT_BRACE, "{", 4),
            (TokenType::RIGHT_BRACE, "}", 4),
            (TokenType::COMMA, ",", 4),
            (TokenType::DOT, ".", 4),
            (TokenType::MINUS, "-", 4),
            (TokenType::PLUS, "+", 4),
            (TokenType::STAR, "*", 4),
            (TokenType::SLASH, "/", 4),
            (TokenType::BANG, "!", 4),
            (TokenType::LESS, "<", 4),
            (TokenType::LESS_EQUAL, "<=", 4),
            (TokenType::GREATER, ">", 4),
            (TokenType::GREATER_EQUAL, ">=", 4),
            (TokenType::EQUAL_EQUAL, "==", 4),
            (TokenType::EQUAL, "=", 4),
            (TokenType::EOF, "", 4),
        ]
    );
    let indexes: Vec<usize> = tokens.iter().map(|t| t.index).collect();
    assert_eq!(indexes, (1..=tokens.len()).collect::<Vec<usize>>());
    assert!(matches!(&tokens[6].literal, Literal::Str(s) if s == "a\nb"));
    assert!(matches!(tokens[3].literal, Literal::Nil));
}

#[test]
fn numbers_end_where_their_digits_end() {
    let lexemes = |source: &str| -> Vec<String> {
        scanned(source).iter().map(|t| t.lexeme.clone()).collect()
    };
    assert_eq!(lexemes("12.5.x"), vec!["12.5", ".", "x", ""]);
    assert_eq!(lexemes("7."), vec!["7", ".", ""]);
    assert_eq!(lexemes("1.2.3"), vec!["1.2", ".", "3", ""]);
    assert_eq!(lexemes("a_b9 _ x"), vec!["a_b9", "_", "x", ""]);
    assert_eq!(lexemes(""), vec![""]);
    assert!(Scanner::is_digit('7') && !Scanner::is_digit('a'));
    assert!(Scanner::is_alpha('_') && Scanner::is_alpha('Z') && !Scanner::is_alpha('1'));
    assert!(Scanner::is_alphanumeric('1') && !Scanner::is_alphanumeric('-'));
}

#[test]
fn the_host_reads_the_numbers() {
    let mut tokens = scanned("1.5 + x \"2\"");
    Scanner::read_numbers(&mut tokens, &mut Machine);
    assert!(matches!(tokens[0].literal, Literal::Num(n) if n == bits(1.5)));
    assert!(matches!(tokens[1].literal, Literal::Nil));
    assert!(matches!(&tokens[3].literal, Literal::Str(s) if s == "2"));
    assert_eq!(tokens[0].lexeme, "1.5");
}

fn parsed(source: &str) -> (Vec<Stmt>, Vec<String>) {
    let mut tokens = scanned(source);
    Scanner::read_numbers(&mut tokens, &mut Machine);
    let mut parser = Parser::new(tokens, Context::new());
    let statements = parser.parse();
    (statements, parser.context.reports)
}

/// A tree in brackets, with a token as its lexeme.
fn shape(expr: &Expr) -> String {
    match expr {
        Expr::Assign_(e) => format!("(= {} {})", e.0.lexeme, shape(&e.1)),
        Expr::Binary_(e) => format!("({} {} {})", e.1.lexeme, shape(&e.0), shape(&e.2)),
        Expr::Call_(e) => {
            let arguments: Vec<String> = e.2.iter().map(shape).collect();
            format!("(call {} [{}])", shape(&e.0), arguments.join(" "))
        }
        Expr::Get_(e) => format!("(. {} {})", shape(&e.0), e.1.lexeme),
        Expr::Grouping_(e) => format!("(group {})", shape(&e.0)),
        Expr::Literal_(e) => match &*e.0 {
            Literal::Num(n) => format!("{}", f64::from_bits(*n)),
            Literal::Str(s) => format!("{:?}", s),
            Literal::Bool(b) => format!("{}", b),
            Literal::Nil => "nil".to_string(),
        },
        Expr::Logical_(e) => format!("({} {} {})", e.1.lexeme, shape(&e.0), shape(&e.2)),
        Expr::Set_(e) => format!("(.= {} {} {})", shape(&e.0), e.1.lexeme, shape(&e.2)),
        Expr::Super_(e) => format!("(super {})", e.1.lexeme),
        Expr::This_(_) => "this".to_string(),
        Expr::Unary_(e) => format!("({} {})", e.0.lexeme, shape(&e.1)),
        Expr::Variable_(e) => e.0.lexeme.clone(),
        Expr::Null => "null".to_string(),
    }
}

fn form(stmt: &Stmt) -> String {
    let list = |stmts: &Vec<Stmt>| stmts.iter().map(form).collect::<Vec<String>>().join(" ");
    match stmt {
        Stmt::Block_(s) => format!("{{{}}}", list(&s.0)),
        Stmt::Class_(s) => format!(
            "(class {} < {} {{{}}})",
            s.0.lexeme,
            s.1.as_ref().map(|e| shape(e)).unwrap_or("-".to_string()),
            list(&s.2)
        ),
        Stmt::Expression_(s) => format!("{};", shape(&s.0)),
        Stmt::Fun_(s) => {
            let params: Vec<&str> = s.1.iter().map(|p| p.lexeme.as_str()).collect();
            format!("(fun {} [{}] {{{}}})", s.0.lexeme, params.join(" "), list(&s.2))
        }
        Stmt::If_(s) => format!(
            "(if {} {} {})",
            shape(&s.0),
            form(&s.1),
            s.2.as_ref().map(|e| form(e)).unwrap_or("-".to_string())
        ),
        Stmt::Print_(s) => format!("(print {})", shape(&s.0)),
        Stmt::Return_(s) => format!("(return {})", shape(&s.1)),
        Stmt::Var_(s) => format!("(var {} {})", s.0.lexeme, shape(&s.1)),
        Stmt::While_(s) => format!("(while {} {})", shape(&s.0), form(&s.1)),
        Stmt::Null => "null".to_string(),
    }
}

fn forms(source: &str) -> Vec<String> {
    let (statements, reports) = parsed(source);
    assert!(reports.is_empty(), "{:?}", reports);
    statements.iter().map(form).collect()
}

#[test]
fn expressions_parse_by_precedence() {
    assert_eq!(forms("1 + 2 * 3 - 4;"), vec!["(- (+ 1 (* 2 3)) 4);"]);
    assert_eq!(forms("1 < 2 == 3 >= 4;"), vec!["(== (< 1 2) (>= 3 4));"]);
    assert_eq!(forms("-!x;"), vec!["(- (! x));"]);
    assert_eq!(forms("a = b = c or d and e;"), vec!["(= a (= b (or c (and d e))));"]);
    assert_eq!(forms("(1 + 2) / 3;"), vec!["(/ (group (+ 1 2)) 3);"]);
    assert_eq!(forms("a.b(1, \"s\").c = nil;"), vec!["(.= (call (. a b) [1 \"s\"]) c nil);"]);
    assert_eq!(forms("f()();"), vec!["(call (call f []) []);"]);
    assert_eq!(forms("this.x; super.m; true; false;"), vec!["(. this x);", "(super m);", "true;", "false;"]);
}

#[test]
fn statements_parse() {
    assert_eq!(forms("var a; var b = 1;"), vec!["(var a nil)", "(var b 1)"]);
    assert_eq!(forms("print 1; { print 2; }"), vec!["(print 1)", "{(print 2)}"]);
    assert_eq!(
        forms("if (a) b; else c; if (d) e;"),
        vec!["(if a b; c;)", "(if d e; -)"]
    );
    assert_eq!(forms("while (a) b;"), vec!["(while a b;)"]);
    assert_eq!(
        forms("fun f(a, b) { return; return a; }"),
        vec!["(fun f [a b] {(return nil) (return a)})"]
    );
    assert_eq!(
        forms("class A < B { m() {} init(x) {} } class C {}"),
        vec!["(class A < B {(fun m [] {}) (fun init [x] {})})", "(class C < - {})"]
    );
}

#[test]
fn a_for_loop_is_a_while_loop() {
    assert_eq!(
        forms("for (var i = 0; i < 3; i = i + 1) print i;"),
        vec!["{(var i 0) (while (< i 3) {(print i) (= i (+ i 1));})}"]
    );
    assert_eq!(forms("for (;;) print 1;"), vec!["(while true (print 1))"]);
    assert_eq!(forms("for (i = 0;;) {}"), vec!["{(= i 0); (while true {})}"]);
    assert_eq!(forms("for (; a; b) c;"), vec!["(while a {c; b;})"]);
}

#[test]
fn the_parser_recovers_at_the_next_statement() {
    let (statements, reports) = parsed("print (1; print 2; var = 3; print 4;");
    assert_eq!(
        reports,
        vec![
            "[line: 1] Error at ';': Expect ')' after expression.",
            "[line: 1] Error at '=': Expect variable name.",
        ]
    );
    let seen: Vec<String> = statements.iter().map(form).collect();
    assert_eq!(seen, vec!["null", "(print 2)", "null", "(print 4)"]);
    let (_, reports) = parsed("f(;");
    assert_eq!(reports, vec!["[line: 1] Error at ';': Expect expression."]);
    let (_, reports) = parsed("{ print 1;");
    assert_eq!(reports, vec!["[line: 1] Error at end: Expect '}' after block."]);
    let (_, reports) = parsed("a.1;");
    assert_eq!(reports, vec!["[line: 1] Error at '1': Expect property name after '.'."]);
    let (_, reports) = parsed("super;");
    assert_eq!(reports, vec!["[line: 1] Error at ';': Expect '.' after 'super'."]);
    let (_, reports) = parsed("class A < 1 {}");
    assert_eq!(reports, vec!["[line: 1] Error at '1': Expect superclass name."]);
    let (_, reports) = parsed("fun f(a {}");
    assert_eq!(reports, vec!["[line: 1] Error at '{': Expect ')' after arguments."]);
    let (_, reports) = parsed("fun f() 1");
    assert_eq!(reports, vec!["[line: 1] Error at '1': Expect { before function body."]);
}

#[test]
fn a_call_takes_at_most_255_arguments() {
    let arguments = vec!["1"; 255].join(", ");
    let (_, reports) = parsed(&format!("f({});", arguments));
    assert!(reports.is_empty());
    let arguments = vec!["1"; 256].join(", ");
    let (_, reports) = parsed(&format!("f({});", arguments));
    assert_eq!(reports, vec!["[line: 1] Error at '1': Can't have more than 255 arguments."]);
    let params: Vec<String> = (0..256).map(|i| format!("p{}", i)).collect();
    let (_, reports) = parsed(&format!("fun f({}) {{}}", params.join(", ")));
    assert_eq!(reports, vec!["[line: 1] Error at 'p255': Can't have more than 255 arguments."]);
}

#[test]
fn a_parser_gets_its_end_of_file() {
    let parser = Parser::new(vec![], Context::new());
    assert_eq!(parser.tokens.len(), 1);
    assert_eq!(parser.tokens[0].token_type, TokenType::EOF);
    let mut parser = Parser::new(vec![name("x")], Context::new());
    assert_eq!(parser.tokens.len(), 2);
    assert!(!parser.is_at_end());
    assert!(parser.check(TokenType::IDENTIFIER));
    assert_eq!(parser.peek().lexeme, "x");
    assert!(!parser.matching(TokenType::NUMBER));
    assert!(parser.matching(TokenType::IDENTIFIER));
    assert_eq!(parser.previous().lexeme, "x");
    assert!(parser.is_at_end());
    parser.advance();
    assert_eq!(parser.current, 1);
    assert!(parser.consume(TokenType::SEMICOLON, "Expect ';'.").is_err());
    assert_eq!(parser.context.reports, vec!["[line: 1] Error at end: Expect ';'."]);
}

fn resolved(source: &str) -> (Resolver, Vec<Stmt>) {
    let (statements, reports) = parsed(source);
    assert!(reports.is_empty(), "{:?}", reports);
    let mut resolver = Resolver::new(Interpreter::new(), Context::new());
    resolver.resolve(&statements);
    (resolver, statements)
}

#[test]
fn the_resolver_records_the_distance_of_each_use() {
    let (resolver, _) = resolved("var g; { var a; { var b; a; b; g; { a; } } fun f(p) { p; a; } }");
    assert!(resolver.context.reports.is_empty());
    assert!(resolver.scopes.is_empty());
    let seen: Vec<(&str, usize)> = resolver
        .interpreter
        .locals
        .iter()
        .map(|l| (l.token.lexeme.as_str(), l.depth))
        .collect();
    assert_eq!(seen, vec![("a", 1), ("b", 0), ("a", 2), ("p", 0), ("a", 1)]);
}

#[test]
fn this_and_super_have_scopes_of_their_own() {
    let (resolver, _) = resolved("class A { m() { this; } } class B < A { m() { this; super.m; } }");
    assert!(resolver.context.reports.is_empty());
    let seen: Vec<(&str, usize)> = resolver
        .interpreter
        .locals
        .iter()
        .map(|l| (l.token.lexeme.as_str(), l.depth))
        .collect();
    assert_eq!(seen, vec![("this", 1), ("this", 1), ("super", 2)]);
}

#[test]
fn resolver_scopes_open_and_close() {
    let mut resolver = Resolver::new(Interpreter::new(), Context::new());
    let a = name("a");
    resolver.declare(&a);
    assert!(resolver.scopes.is_empty());
    resolver.begin_scope();
    resolver.declare(&a);
    assert_eq!(resolver.scopes[0].get(&"a".to_string()), Some(&false));
    resolver.define(&a);
    assert_eq!(resolver.scopes[0].get(&"a".to_string()), Some(&true));
    resolver.begin_scope();
    resolver.resolve_local(&a);
    resolver.resolve_local(&name("b"));
    assert_eq!(resolver.interpreter.locals.len(), 1);
    assert_eq!(resolver.interpreter.locals[0].depth, 1);
    resolver.end_scope();
    resolver.end_scope();
    resolver.end_scope();
    assert!(resolver.scopes.is_empty());
    assert!(!resolver.context.had_error);
    resolver.error(&a, "Wrong.");
    assert_eq!(resolver.context.reports, vec!["[line: 1] Error at 'a': Wrong."]);
}

#[test]
fn a_run_ends_at_the_first_pass_that_finds_fault() {
    let mut host = Machine;
    let scan = run("print #;", &mut host);
    assert!(matches!(scan.outcome, Err(Failure::Scan(_))));
    assert_eq!(scan.reports, vec!["[line: 1] Error: Unexpected character."]);
    assert!(scan.tokens.is_empty() && scan.statements.is_empty());
    let parse = run("print ;", &mut host);
    assert!(matches!(parse.outcome, Err(Failure::Parse(_))));
    assert_eq!(parse.reports, vec!["[line: 1] Error at ';': Expect expression."]);
    assert!(parse.interpreter.output.is_empty());
    let resolve = run("print 1; return;", &mut host);
    assert!(matches!(resolve.outcome, Err(Failure::Semantic(_))));
    assert_eq!(resolve.reports, vec!["[line: 1] Error at 'return': Can't return from top-level code."]);
    assert!(resolve.interpreter.output.is_empty());
    let runtime = run("print 1; print nil + 1; print 2;", &mut host);
    assert!(matches!(
        runtime.outcome,
        Err(Failure::Runtime(RuntimeBreak::RuntimeError { .. }))
    ));
    assert_eq!(runtime.interpreter.output, vec!["1"]);
    let fine = run("var a = 2; { var b = a * 21; print b; }", &mut host);
    assert!(fine.outcome.is_ok());
    assert!(fine.reports.is_empty());
    assert_eq!(fine.interpreter.output, vec!["42"]);
    assert_eq!(fine.statements.len(), 2);
    assert_eq!(fine.tokens.last().unwrap().token_type, TokenType::EOF);
    assert_eq!(fine.interpreter.environment, fine.interpreter.globals);
}
