use rlox::callable::Host;
use rlox::context::Context;
use rlox::errors::RuntimeBreak;
use rlox::interpreter::Interpreter;
use rlox::parser::Parser;
use rlox::resolver::Resolver;
use rlox::scanner::Scanner;
use rlox::token::Literal;
use rlox::value::Value;

/// A host that computes with the machine's doubles.
struct Machine {
    clock: u64,
}

impl Host for Machine {
    fn add(&mut self, left: u64, right: u64) -> u64 {
        (f64::from_bits(left) + f64::from_bits(right)).to_bits()
    }

    fn subtract(&mut self, left: u64, right: u64) -> u64 {
        (f64::from_bits(left) - f64::from_bits(right)).to_bits()
    }

    fn multiply(&mut self, left: u64, right: u64) -> u64 {
        (f64::from_bits(left) * f64::from_bits(right)).to_bits()
    }

    fn divide(&mut self, left: u64, right: u64) -> u64 {
        (f64::from_bits(left) / f64::from_bits(right)).to_bits()
    }

    fn number_text(&mut self, number: u64) -> String {
        format!("{}", f64::from_bits(number))
    }

    fn number_of(&mut self, numeral: &str) -> u64 {
        numeral.parse::<f64>().unwrap().to_bits()
    }

    fn call_native(&mut self, _native: usize, _arguments: &Vec<Value>) -> Literal {
        self.clock += 1000;
        Literal::Num((self.clock as f64).to_bits())
    }
}

/// How a program ended.
#[derive(Debug)]
enum Ended {
    ScanFailed(Vec<String>),
    ParseFailed(Vec<String>),
    ResolveFailed(Vec<String>),
    Ran(Result<(), RuntimeBreak>, Vec<String>),
}

fn run_with_budget(source: &str, budget: Option<u64>) -> Ended {
    let mut host = Machine { clock: 0 };
    let mut scanner = Scanner::new(source, Context::new());
    if scanner.scan_tokens().is_err() {
        return Ended::ScanFailed(scanner.context.reports);
    }
    let mut tokens = scanner.tokens;
    Scanner::read_numbers(&mut tokens, &mut host);
    let mut parser = Parser::new(tokens, scanner.context);
    let statements = parser.parse();
    if parser.context.had_error {
        return Ended::ParseFailed(parser.context.reports);
    }
    let mut interpreter = Interpreter::new();
    if let Some(steps) = budget {
        interpreter.set_budget(steps);
    }
    let mut resolver = Resolver::new(interpreter, parser.context);
    resolver.resolve(&statements);
    if resolver.context.had_error {
        return Ended::ResolveFailed(resolver.context.reports);
    }
    let mut interpreter = resolver.interpreter;
    let outcome = interpreter.interpret(&mut host, &statements);
    Ended::Ran(outcome, interpreter.output)
}

fn run(source: &str) -> Ended {
    run_with_budget(source, None)
}

fn printed(source: &str) -> Vec<String> {
    match run(source) {
        Ended::Ran(Ok(()), output) => output,
        other => panic!("{:?}", other),
    }
}

fn runtime_error(source: &str) -> (String, i64) {
    match run(source) {
        Ended::Ran(Err(RuntimeBreak::RuntimeError { token, message }), _) => (message, token.line),
        other => panic!("{:?}", other),
    }
}

fn resolve_errors(source: &str) -> Vec<String> {
    match run(source) {
        Ended::ResolveFailed(reports) => reports,
        other => panic!("{:?}", other),
    }
}

fn parse_errors(source: &str) -> Vec<String> {
    match run(source) {
        Ended::ParseFailed(reports) => reports,
        other => panic!("{:?}", other),
    }
}

fn lines(expected: &[&str]) -> Vec<String> {
    expected.iter().map(|s| s.to_string()).collect()
}

#[test]
fn shadowed_uses_resolve_each_to_its_own_binding() {
    let source = "
        var a = \"global\";
        {
            fun show() { print a; }
            show();
            var a = \"block\";
            show();
            print a;
        }
        print a;";
    assert_eq!(printed(source), lines(&["global", "global", "block", "global"]));
}

#[test]
fn reading_a_variable_in_its_own_initializer_is_a_resolution_error() {
    let reports = resolve_errors("{ var a = a; }");
    assert_eq!(
        reports,
        lines(&["[line: 1] Error at 'a': Can't read local variable in its own initializer."])
    );
}

#[test]
fn a_global_may_be_read_in_its_own_initializer_and_fails_at_runtime() {
    assert_eq!(
        runtime_error("var a = a;"),
        ("Undefined variable 'a'.".to_string(), 1)
    );
}

#[test]
fn declaring_twice_in_one_scope_is_a_resolution_error_but_not_at_top_level() {
    assert_eq!(
        resolve_errors("{ var a = 1; var a = 2; }"),
        lines(&["[line: 1] Error at 'a': Already a variable with this name in this scope."])
    );
    assert_eq!(printed("var a = 1; var a = 2; print a;"), lines(&["2"]));
}

#[test]
fn a_returned_closure_keeps_its_variable() {
    let source = "
        fun counter() {
            var n = 0;
            fun next() { n = n + 1; return n; }
            return next;
        }
        var c = counter();
        var d = counter();
        print c(); print c(); print d();";
    assert_eq!(printed(source), lines(&["1", "2", "1"]));
}

#[test]
fn scoping_is_lexical_not_dynamic() {
    let source = "
        var x = \"outer\";
        fun show() { print x; }
        fun caller() { var x = \"inner\"; show(); }
        caller();";
    assert_eq!(printed(source), lines(&["outer"]));
}

#[test]
fn a_class_cannot_inherit_from_itself() {
    assert_eq!(
        resolve_errors("class A < A {}"),
        lines(&["[line: 1] Error at 'A': A class can't inherit from itself."])
    );
}

#[test]
fn an_initializer_cannot_return_a_value() {
    assert_eq!(
        resolve_errors("class B { init() { return 1; } }"),
        lines(&["[line: 1] Error at 'return': Can't return a value from an initializer."])
    );
}

#[test]
fn an_initializer_may_return_without_a_value_and_yields_the_instance() {
    let source = "
        class P { init(x) { this.x = x; return; } }
        var p = P(7);
        print p.x;
        print p.init(8).x;";
    assert_eq!(printed(source), lines(&["7", "8"]));
}

#[test]
fn return_outside_a_function_is_a_resolution_error() {
    assert_eq!(
        resolve_errors("return 1;"),
        lines(&["[line: 1] Error at 'return': Can't return from top-level code."])
    );
}

#[test]
fn this_and_super_are_errors_where_they_mean_nothing() {
    assert_eq!(
        resolve_errors("print this;"),
        lines(&["[line: 1] Error at 'this': Can't use 'this' outside of a class."])
    );
    assert_eq!(
        resolve_errors("fun f() { super.g(); }"),
        lines(&["[line: 1] Error at 'super': Can't use 'super' outside of a class."])
    );
    assert_eq!(
        resolve_errors("class A { f() { super.g(); } }"),
        lines(&["[line: 1] Error at 'super': Can't use 'super' in a class with no superclass."])
    );
}

#[test]
fn resolution_goes_on_after_an_error() {
    let reports = resolve_errors("return 1;\nprint this;");
    assert_eq!(reports.len(), 2);
    assert_eq!(reports[1], "[line: 2] Error at 'this': Can't use 'this' outside of a class.");
}

#[test]
fn super_reaches_the_method_of_the_superclass() {
    let source = "
        class A { greet() { return \"A\"; } }
        class B < A { greet() { return super.greet() + \"B\"; } }
        print B().greet();";
    assert_eq!(printed(source), lines(&["AB"]));
}

#[test]
fn super_binds_the_current_instance() {
    let source = "
        class A { name() { return this.n; } }
        class B < A { name() { return \"B:\" + super.name(); } }
        class C < B {}
        var c = C();
        c.n = \"c\";
        print c.name();";
    assert_eq!(printed(source), lines(&["B:c"]));
}

#[test]
fn methods_are_found_along_the_superclass_chain() {
    let source = "
        class A { a() { return \"a\"; } both() { return \"A\"; } }
        class B < A { both() { return \"B\"; } }
        var b = B();
        print b.a();
        print b.both();";
    assert_eq!(printed(source), lines(&["a", "B"]));
}

#[test]
fn two_instances_have_fields_of_their_own() {
    let source = "
        class Foo {}
        var x = Foo(); var y = Foo();
        x.f = 1; y.f = 2;
        print x.f; print y.f;";
    assert_eq!(printed(source), lines(&["1", "2"]));
}

#[test]
fn a_copy_of_an_instance_names_the_same_fields() {
    let source = "
        class Foo {}
        var x = Foo(); var y = x;
        y.f = 3;
        print x.f;
        print x == y;
        print x == Foo();";
    assert_eq!(printed(source), lines(&["3", "true", "false"]));
}

#[test]
fn a_field_shadows_a_method() {
    let source = "
        class Foo { f() { return \"method\"; } }
        var x = Foo();
        print x.f();
        x.f = \"field\";
        print x.f;";
    assert_eq!(printed(source), lines(&["method", "field"]));
}

#[test]
fn division_by_zero_is_a_runtime_error() {
    assert_eq!(runtime_error("print 1 / 0;"), ("Devided by 0".to_string(), 1));
    assert_eq!(runtime_error("print 1 / -0;").0, "Devided by 0");
    assert_eq!(printed("print 1 / 4;"), lines(&["0.25"]));
}

#[test]
fn a_string_and_a_number_do_not_add() {
    assert_eq!(
        runtime_error("\n\nprint \"a\" + 1;"),
        ("Operands must be numbers or strings.".to_string(), 3)
    );
    assert_eq!(printed("print \"a\" + \"b\";"), lines(&["ab"]));
    assert_eq!(printed("print 1 + 2;"), lines(&["3"]));
}

#[test]
fn nothing_is_coerced_in_equality() {
    assert_eq!(
        printed("print 1 == \"1\"; print 1 != \"1\"; print nil == false; print 0 == -0;"),
        lines(&["false", "true", "false", "true"])
    );
}

#[test]
fn functions_are_never_equal() {
    assert_eq!(printed("fun f() {} print f == f; var g = f; print f == g;"), lines(&["false", "false"]));
}

#[test]
fn classes_are_equal_to_themselves() {
    assert_eq!(printed("class A {} class B {} print A == A; print A == B;"), lines(&["true", "false"]));
}

#[test]
fn comparisons_need_numbers() {
    assert_eq!(
        printed("print 1 < 2; print 2 <= 2; print 3 > 4; print 4 >= 5; print -1 < 0;"),
        lines(&["true", "true", "false", "false", "true"])
    );
    assert_eq!(runtime_error("print 1 < \"2\";").0, "Operand must be a number.");
    assert_eq!(runtime_error("print -\"a\";").0, "Operand must be a number.");
    assert_eq!(runtime_error("print nil * 2;").0, "Operand must be a number.");
}

#[test]
fn only_nil_and_false_are_falsy() {
    let source = "
        if (0) print \"zero\";
        if (\"\") print \"empty\";
        if (nil) print \"nil\"; else print \"not nil\";
        if (false) print \"false\"; else print \"not false\";
        print !0; print !nil;";
    assert_eq!(
        printed(source),
        lines(&["zero", "empty", "not nil", "not false", "false", "true"])
    );
}

#[test]
fn logical_operators_short_circuit() {
    let source = "
        fun loud(v) { print \"evaluated\"; return v; }
        print false and loud(1);
        print true or loud(2);
        print nil or loud(3);
        print 1 and loud(4);";
    assert_eq!(
        printed(source),
        lines(&["false", "true", "evaluated", "3", "evaluated", "4"])
    );
}

#[test]
fn a_wrong_argument_count_names_both_counts() {
    assert_eq!(
        runtime_error("fun f(a, b) {} f(1);"),
        ("Expected 2 arguments but got 1.".to_string(), 1)
    );
    assert_eq!(
        runtime_error("class A { init(a) {} } A();").0,
        "Expected 1 arguments but got 0."
    );
    assert_eq!(runtime_error("class A {} A(1, 2, 3);").0, "Expected 0 arguments but got 3.");
    assert_eq!(runtime_error("clock(1);").0, "Expected 0 arguments but got 1.");
}

#[test]
fn only_functions_and_classes_can_be_called() {
    assert_eq!(runtime_error("\"text\"();").0, "Can only call functions and classes.");
    assert_eq!(runtime_error("var x = 1; x();").0, "Can only call functions and classes.");
}

#[test]
fn properties_belong_to_instances() {
    assert_eq!(runtime_error("var x = 1; print x.f;").0, "Only instances have properties.");
    assert_eq!(runtime_error("var x = 1; x.f = 2;").0, "Only instances have fields.");
    assert_eq!(runtime_error("class A {} print A().f;").0, "Undefined property 'f'");
    assert_eq!(
        runtime_error("class A {} class B < A { f() { return super.g(); } } B().f();").0,
        "Undefined property 'g'."
    );
}

#[test]
fn a_superclass_must_be_a_class() {
    assert_eq!(runtime_error("var A = 1; class B < A {}").0, "Superclass must be a class.");
    assert_eq!(runtime_error("class B < Missing {}").0, "Undefined variable 'Missing'.");
}

#[test]
fn assignment_needs_a_binding() {
    assert_eq!(runtime_error("a = 1;").0, "Undefined variable 'a'.");
    assert_eq!(printed("var a = 1; a = 2; print a; print a = 3;"), lines(&["2", "3"]));
}

#[test]
fn return_ends_the_function_not_only_the_block() {
    let source = "
        fun find() {
            var i = 0;
            while (true) {
                i = i + 1;
                if (i == 3) { { return i; } }
            }
            print \"never\";
        }
        print find();
        fun nothing() {}
        print nothing();";
    assert_eq!(printed(source), lines(&["3", "nil"]));
}

#[test]
fn blocks_restore_the_scope_after_an_error() {
    let mut host = Machine { clock: 0 };
    let mut scanner = Scanner::new("{ var a = 1; { print 1 / 0; } }", Context::new());
    scanner.scan_tokens().unwrap();
    let mut tokens = scanner.tokens;
    Scanner::read_numbers(&mut tokens, &mut host);
    let mut parser = Parser::new(tokens, Context::new());
    let statements = parser.parse();
    let mut resolver = Resolver::new(Interpreter::new(), Context::new());
    resolver.resolve(&statements);
    let mut interpreter = resolver.interpreter;
    let before = interpreter.environment;
    assert!(interpreter.interpret(&mut host, &statements).is_err());
    assert_eq!(interpreter.environment, before);
    assert_eq!(interpreter.environment, interpreter.globals);
    assert_eq!(interpreter.scopes.len(), 3);
}

#[test]
fn loops_run_while_their_condition_holds() {
    let source = "
        var sum = 0;
        for (var i = 1; i <= 4; i = i + 1) sum = sum + i;
        print sum;
        var n = 3;
        while (n > 0) { print n; n = n - 1; }";
    assert_eq!(printed(source), lines(&["10", "3", "2", "1"]));
}

#[test]
fn recursion_works() {
    let source = "
        fun fib(n) { if (n < 2) return n; return fib(n - 1) + fib(n - 2); }
        print fib(15);";
    assert_eq!(printed(source), lines(&["610"]));
}

#[test]
fn the_step_budget_ends_a_program_that_would_not_end() {
    match run_with_budget("var i = 0; while (true) { i = i + 1; print i; }", Some(50)) {
        Ended::Ran(Err(RuntimeBreak::StepLimit), output) => {
            assert!(!output.is_empty());
            assert_eq!(output[0], "1");
        }
        other => panic!("{:?}", other),
    }
    match run_with_budget("print 1;", Some(0)) {
        Ended::Ran(Err(RuntimeBreak::StepLimit), output) => assert!(output.is_empty()),
        other => panic!("{:?}", other),
    }
    match run_with_budget("print 1;", Some(2)) {
        Ended::Ran(Ok(()), output) => assert_eq!(output, lines(&["1"])),
        other => panic!("{:?}", other),
    }
    match run_with_budget("print 1;", Some(1)) {
        Ended::Ran(Err(RuntimeBreak::StepLimit), _) => {}
        other => panic!("{:?}", other),
    }
}

#[test]
fn values_print_as_they_should() {
    let source = "
        class Foo {}
        fun f() {}
        print nil; print true; print 1.5; print \"s\"; print f; print Foo; print Foo(); print clock;";
    assert_eq!(
        printed(source),
        lines(&[
            "nil",
            "true",
            "1.5",
            "s",
            "#<Function: f>",
            "#<Class: Foo>",
            "#<Instance of Foo>",
            "#<Function: clock>"
        ])
    );
}

#[test]
fn the_native_clock_is_asked_of_the_host() {
    assert_eq!(printed("print clock(); print clock();"), lines(&["1000", "2000"]));
}

#[test]
fn scan_faults_are_reported_with_their_line() {
    match run("var a = 1;\nvar b = @;") {
        Ended::ScanFailed(reports) => {
            assert_eq!(reports, lines(&["[line: 2] Error: Unexpected character."]))
        }
        other => panic!("{:?}", other),
    }
    match run("print \"open\nstill open") {
        Ended::ScanFailed(reports) => {
            assert_eq!(reports, lines(&["[line: 2] Error: Unterminated string."]))
        }
        other => panic!("{:?}", other),
    }
}

#[test]
fn parse_errors_are_reported_and_parsing_goes_on() {
    assert_eq!(
        parse_errors("print 1"),
        lines(&["[line: 1] Error at end: Expect ';' after value."])
    );
    assert_eq!(
        parse_errors("var 1 = 2;\nprint (3;\nprint 4;"),
        lines(&[
            "[line: 1] Error at '1': Expect variable name.",
            "[line: 2] Error at ';': Expect ')' after expression."
        ])
    );
    assert_eq!(
        parse_errors("1 = 2;"),
        lines(&["[line: 1] Error at '=': Invalid assignment target."])
    );
    assert_eq!(
        parse_errors("fun () {}"),
        lines(&["[line: 1] Error at '(': Expect function name."])
    );
    assert_eq!(
        parse_errors("class A { 1 }"),
        lines(&["[line: 1] Error at '1': Expect method name."])
    );
}

#[test]
fn comments_and_blank_space_are_skipped() {
    let source = "// a comment\nprint 1; // another\n\n\t print 2;\n// the end";
    assert_eq!(printed(source), lines(&["1", "2"]));
}

#[test]
fn operators_bind_as_the_grammar_says() {
    assert_eq!(
        printed("print 1 + 2 * 3; print (1 + 2) * 3; print 10 - 4 - 3; print -2 * 3; print !true == false; print 1 < 2 == true;"),
        lines(&["7", "9", "3", "-6", "true", "true"])
    );
}
