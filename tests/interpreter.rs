use lox::ast_printer::AstPrinter;
use lox::environment::Environment;
use lox::error::{decimal_text, error};
use lox::expr::{Binary, Grouping, Literal, Unary};
use lox::interpreter::{binary_op, is_equal, short_circuits, unary_op, Interpreter, RuntimeException};
use lox::object::{Numeric, Object};
use lox::parser::Parser;
use lox::resolver::{FaultKind, Resolver};
use lox::scanner::Scanner;
use lox::token::{Literals, Token, TokenType};
use lox::{run, RunOutcome};

#[derive(Clone, Copy, Debug)]
struct F(f64);

impl Numeric for F {
    fn from_literal(text: &String) -> Self {
        F(text.parse().unwrap_or(0.0))
    }
    fn plus(self, other: Self) -> Self {
        F(self.0 + other.0)
    }
    fn minus(self, other: Self) -> Self {
        F(self.0 - other.0)
    }
    fn times(self, other: Self) -> Self {
        F(self.0 * other.0)
    }
    fn divide(self, other: Self) -> Self {
        F(self.0 / other.0)
    }
    fn negate(self) -> Self {
        F(-self.0)
    }
    fn greater(self, other: Self) -> bool {
        self.0 > other.0
    }
    fn greater_equal(self, other: Self) -> bool {
        self.0 >= other.0
    }
    fn less(self, other: Self) -> bool {
        self.0 < other.0
    }
    fn less_equal(self, other: Self) -> bool {
        self.0 <= other.0
    }
    fn approx_eq(self, other: Self) -> bool {
        (self.0 - other.0).abs() < f64::EPSILON
    }
    fn text(self) -> String {
        format!("{}", self.0)
    }
}

fn exec(source: &str) -> RunOutcome {
    run::<F>(&source.to_string())
}

fn lines(outcome: &RunOutcome) -> Vec<&str> {
    outcome.output.iter().map(|s| s.as_str()).collect()
}

fn error_text(outcome: &RunOutcome) -> String {
    outcome.error.clone().unwrap_or_default()
}

fn token(id: usize, token_type: TokenType, lexeme: &str) -> Token {
    Token::new(id, token_type, lexeme.to_string(), None, 1)
}

#[test]
fn test_print_ast() {
    let minus = token(0, TokenType::MINUS, "-");
    let star = token(1, TokenType::STAR, "*");
    let num1 = Literals::NUMBER("123".to_string());
    let num2 = Literals::NUMBER("45.67".to_string());
    let expression = Binary::new(
        Unary::new(minus, Literal::new(num1)),
        star,
        Grouping::new(Literal::new(num2)),
    );
    let printer = AstPrinter {};
    let text = printer.print(&expression);
    println!("{}", text);
    assert_eq!(text, "(* (- 123) (group 45.67))");
}

#[test]
fn shadowed_variable_restored_after_block() {
    let out = exec("var a = \"outer\"; { var a = \"inner\"; print a; } print a;");
    assert_eq!(out.error, None);
    assert_eq!(lines(&out), vec!["inner", "outer"]);
}

#[test]
fn shadowing_in_nested_functions() {
    let out = exec(
        "var a = 1; fun f() { var a = 2; { var a = 3; print a; } print a; } f(); print a;",
    );
    assert_eq!(out.error, None);
    assert_eq!(lines(&out), vec!["3", "2", "1"]);
}

#[test]
fn closures_in_loop_capture_fresh_frames() {
    let out = exec(
        "var f0; var f1; var f2;
         for (var i = 0; i < 3; i = i + 1) {
           var j = i;
           fun g() { return j; }
           if (i == 0) f0 = g;
           if (i == 1) f1 = g;
           if (i == 2) f2 = g;
         }
         print f0(); print f1(); print f2();",
    );
    assert_eq!(out.error, None);
    assert_eq!(lines(&out), vec!["0", "1", "2"]);
}

#[test]
fn arity_mismatch_is_reported() {
    let out = exec("fun f() { return 1; } f(1);");
    assert!(error_text(&out).contains("Expected 0 arguments but got 1."));
    let out = exec("fun f() { return 1; } print f();");
    assert_eq!(out.error, None);
    assert_eq!(lines(&out), vec!["1"]);
}

#[test]
fn class_round_trip() {
    let out = exec(
        "class C { init(x) { this.x = x; } }
         var new_instance = C(5);
         print new_instance.x;
         new_instance.x();",
    );
    assert_eq!(lines(&out), vec!["5"]);
    assert!(error_text(&out).contains("Can only call functions and classes."));
}

#[test]
fn recursive_factorial() {
    let out = exec("fun fact(n) { if (n <= 1) return 1; return n * fact(n - 1); } print fact(5);");
    assert_eq!(out.error, None);
    assert_eq!(lines(&out), vec!["120"]);
}

#[test]
fn assignment_to_undeclared_global_fails() {
    let out = exec("x = 1;");
    assert!(error_text(&out).contains("Undefined variable 'x'."));
}

#[test]
fn assignment_to_undeclared_local_fails() {
    let out = exec("{ y = 2; }");
    assert!(error_text(&out).contains("Undefined variable 'y'."));
}

#[test]
fn assignment_after_declaration() {
    let out = exec("var z = 1; z = 2; print z; { var w; w = 3; print w; }");
    assert_eq!(out.error, None);
    assert_eq!(lines(&out), vec!["2", "3"]);
}

#[test]
fn read_of_undeclared_variable_fails() {
    let out = exec("print 1; print q;");
    assert_eq!(lines(&out), vec!["1"]);
    assert!(error_text(&out).contains("Undefined variable 'q'."));
}

#[test]
fn top_level_return_is_static_error() {
    let out = exec("print 1; return 1;");
    assert!(out.output.is_empty());
    assert!(error_text(&out).contains("Cannot return from top-level code."));
}

#[test]
fn own_initializer_is_static_error() {
    let out = exec("var a = 1; { var a = a; }");
    assert!(error_text(&out).contains("Cannot read local variable in its own initializer."));
}

#[test]
fn redeclaration_is_static_error() {
    let out = exec("{ var a = 1; var a = 2; }");
    assert!(error_text(&out).contains("already declared in this scope"));
    let out = exec("var a = 1; var a = 2; print a;");
    assert_eq!(out.error, None);
    assert_eq!(lines(&out), vec!["2"]);
}

#[test]
fn this_outside_class_is_static_error() {
    let out = exec("print this;");
    assert!(error_text(&out).contains("Cannot use 'this' outside of a class."));
}

#[test]
fn value_return_from_initializer_is_static_error() {
    let out = exec("class A { init() { return 1; } }");
    assert!(error_text(&out).contains("Can not return a value from an initializer."));
    let out = exec("class A { init() { return; } } print A();");
    assert_eq!(out.error, None);
    assert_eq!(lines(&out), vec!["A instance"]);
}

#[test]
fn initializer_returns_this() {
    let out = exec("class P { init() { this.v = 1; } } var p = P(); print p.init().v;");
    assert_eq!(out.error, None);
    assert_eq!(lines(&out), vec!["1"]);
}

#[test]
fn methods_bind_this() {
    let out = exec(
        "class Counter { init() { this.n = 0; } inc() { this.n = this.n + 1; return this.n; } }
         var c = Counter(); c.inc(); c.inc(); print c.inc(); print c.n;",
    );
    assert_eq!(out.error, None);
    assert_eq!(lines(&out), vec!["3", "3"]);
}

#[test]
fn instances_are_shared() {
    let out = exec("class A {} var a = A(); var b = a; b.x = 7; print a.x;");
    assert_eq!(out.error, None);
    assert_eq!(lines(&out), vec!["7"]);
}

#[test]
fn class_arity_comes_from_init() {
    let out = exec("class A { init(a, b) {} } A(1);");
    assert!(error_text(&out).contains("Expected 2 arguments but got 1."));
    let out = exec("class B {} B(1);");
    assert!(error_text(&out).contains("Expected 0 arguments but got 1."));
}

#[test]
fn property_errors() {
    let out = exec("var a = 1; print a.x;");
    assert!(error_text(&out).contains("Only instances have properties."));
    let out = exec("class A {} print A().y;");
    assert!(error_text(&out).contains("Undefined property 'y'."));
}

#[test]
fn operator_type_errors() {
    let out = exec("print \"1\" + 2;");
    assert!(error_text(&out).contains("Operands must be two numbers or two strings."));
    let out = exec("print -\"a\";");
    assert!(error_text(&out).contains("Operands must be numbers."));
    let out = exec("print 1 < \"a\";");
    assert!(error_text(&out).contains("Operands must be numbers."));
}

#[test]
fn arithmetic_and_comparison() {
    let out = exec("print 1 + 2 * 3; print (1 + 2) * 3; print 7 / 2; print 3 - 5; print 2 >= 2; print 2 > 2; print -4;");
    assert_eq!(out.error, None);
    assert_eq!(lines(&out), vec!["7", "9", "3.5", "-2", "true", "false", "-4"]);
}

#[test]
fn string_concatenation_and_equality() {
    let out = exec("print \"a\" + \"b\"; print \"a\" == \"a\"; print \"a\" != \"b\";");
    assert_eq!(out.error, None);
    assert_eq!(lines(&out), vec!["ab", "true", "true"]);
}

#[test]
fn equality_across_kinds() {
    let out = exec(
        "print nil == nil; print nil == 1; print 1 == nil; print 1 == 1; print 0.1 + 0.2 == 0.3; print true == true; print 1 == \"1\";",
    );
    assert_eq!(out.error, None);
    assert_eq!(lines(&out), vec!["true", "false", "false", "true", "true", "true", "false"]);
}

#[test]
fn truthiness_and_logic() {
    let out = exec(
        "print !nil; print !0; print !\"\"; print nil or \"x\"; print 1 and 2; print false and 1; print 0 or 5;",
    );
    assert_eq!(out.error, None);
    assert_eq!(lines(&out), vec!["true", "false", "false", "x", "2", "false", "0"]);
}

#[test]
fn control_flow() {
    let out = exec(
        "var i = 0; var s = 0; while (i < 4) { s = s + i; i = i + 1; } print s;
         if (s > 5) print \"big\"; else print \"small\";
         if (nil) print \"no\"; else print \"nil is falsy\";",
    );
    assert_eq!(out.error, None);
    assert_eq!(lines(&out), vec!["6", "big", "nil is falsy"]);
}

#[test]
fn closure_counter_keeps_state() {
    let out = exec(
        "fun make() { var n = 0; fun inc() { n = n + 1; return n; } return inc; }
         var c = make(); c(); c(); print c();",
    );
    assert_eq!(out.error, None);
    assert_eq!(lines(&out), vec!["3"]);
}

#[test]
fn runtime_error_keeps_earlier_output() {
    let out = exec("print \"before\"; print 1 + nil; print \"after\";");
    assert_eq!(lines(&out), vec!["before"]);
    assert!(error_text(&out).starts_with("[line 1] Error at '+': "));
}

#[test]
fn calling_non_callable_fails() {
    let out = exec("\"text\"();");
    assert!(error_text(&out).contains("Can only call functions and classes."));
}

#[test]
fn printing_values() {
    let out = exec("fun f() {} class K {} print f; print K; print K(); print nil; print 2.5;");
    assert_eq!(out.error, None);
    assert_eq!(lines(&out), vec!["<fn f>", "K", "K instance", "nil", "2.5"]);
}

#[test]
fn scanner_reports_unexpected_character() {
    let out = exec("print 1; @");
    assert_eq!(error_text(&out), "[line 1] Error: Unexpected character.");
}

#[test]
fn scanner_reports_unterminated_string() {
    let out = exec("print \"abc");
    assert_eq!(error_text(&out), "[line 1] Error: Unterminated string.");
}

#[test]
fn scanner_tokens_are_numbered() {
    let source = "var x = 12.5; // note\nprint \"hi\" or x;".to_string();
    let mut scanner = Scanner::new(&source);
    let tokens = scanner.scan_tokens();
    let types: Vec<TokenType> = tokens.iter().map(|t| t.token_type).collect();
    assert_eq!(
        types,
        vec![
            TokenType::VAR,
            TokenType::IDENTIFIER,
            TokenType::EQUAL,
            TokenType::NUMBER,
            TokenType::SEMICOLON,
            TokenType::PRINT,
            TokenType::STRING,
            TokenType::OR,
            TokenType::IDENTIFIER,
            TokenType::SEMICOLON,
            TokenType::EOF,
        ]
    );
    for (i, t) in tokens.iter().enumerate() {
        assert_eq!(t.id, i);
    }
    assert_eq!(tokens[6].line, 2);
    assert_eq!(tokens[3].lexeme, "12.5");
    assert!(matches!(&tokens[6].literal, Some(Literals::STRING(s)) if s == "hi"));
}

#[test]
fn identifiers_starting_with_o() {
    let out = exec("var one = 1; var order = 2; print one + order;");
    assert_eq!(out.error, None);
    assert_eq!(lines(&out), vec!["3"]);
}

#[test]
fn parser_reports_missing_expression() {
    let out = exec("print 1 +;");
    assert_eq!(error_text(&out), "[line 1] Error at ';': Expect expression.");
}

#[test]
fn parser_reports_invalid_assignment_target() {
    let out = exec("1 = 2;");
    assert!(error_text(&out).contains("Invalid assignment target."));
}

#[test]
fn parser_reports_every_error() {
    let source = "print ;\nvar = 1;".to_string();
    let mut scanner = Scanner::new(&source);
    let tokens = scanner.scan_tokens();
    let mut parser = Parser::new(tokens);
    let report = parser.parse().err().unwrap();
    assert_eq!(
        report,
        "[line 1] Error at ';': Expect expression.\n[line 2] Error at '=': Expect variable name."
    );
}

#[test]
fn parser_limits_arguments() {
    let out = exec("fun f() {} f(1, 2, 3, 4, 5, 6, 7, 8, 9);");
    assert!(error_text(&out).contains("Cannot have more than 8 arguments."));
}

#[test]
fn resolver_fault_kinds() {
    let source = "{ var a = 1; var a = 2; }".to_string();
    let mut scanner = Scanner::new(&source);
    let tokens = scanner.scan_tokens();
    let statements = Parser::new(tokens).parse().ok().unwrap();
    let mut interpreter: Interpreter<F> = Interpreter::new();
    let e = Resolver::new().resolves(&mut interpreter, &statements).err().unwrap();
    assert_eq!(e.kind, FaultKind::Redeclared);
    assert_eq!(e.token.lexeme, "a");
}

#[test]
fn resolver_records_distances() {
    let source = "{ var a = 1; { print a; } }".to_string();
    let mut scanner = Scanner::new(&source);
    let tokens = scanner.scan_tokens();
    let statements = Parser::new(tokens).parse().ok().unwrap();
    let mut interpreter: Interpreter<F> = Interpreter::new();
    Resolver::new().resolves(&mut interpreter, &statements).ok().unwrap();
    let use_of_a = tokens.iter().filter(|t| t.lexeme == "a").last().unwrap();
    assert_eq!(interpreter.locals.get(&use_of_a.id), Some(&1));
}

#[test]
fn resolving_twice_gives_the_same_table() {
    let source = "var g = 1; fun f(x) { var y = x; { print y + g; } } class C { m() { return this; } }"
        .to_string();
    let mut scanner = Scanner::new(&source);
    let tokens = scanner.scan_tokens();
    let statements = Parser::new(tokens).parse().ok().unwrap();
    let mut first: Interpreter<F> = Interpreter::new();
    Resolver::new().resolves(&mut first, &statements).ok().unwrap();
    let mut second: Interpreter<F> = Interpreter::new();
    Resolver::new().resolves(&mut second, &statements).ok().unwrap();
    assert_eq!(first.locals, second.locals);
    let before = first.locals.clone();
    Resolver::new().resolves(&mut first, &statements).ok().unwrap();
    assert_eq!(first.locals, before);
}

#[test]
fn step_budget_stops_endless_loop() {
    let source = "var n = 0; while (true) { n = n + 1; }".to_string();
    let mut scanner = Scanner::new(&source);
    let tokens = scanner.scan_tokens();
    let statements = Parser::new(tokens).parse().ok().unwrap();
    let mut interpreter: Interpreter<F> = Interpreter::with_budget(10);
    Resolver::new().resolves(&mut interpreter, &statements).ok().unwrap();
    let e = interpreter.interpret(&statements).err().unwrap();
    assert_eq!(e.message, "Step budget exhausted.");
}

#[test]
fn environment_define_get_assign() {
    let mut env: Environment<F> = Environment::new();
    let name = token(0, TokenType::IDENTIFIER, "a");
    assert!(env.get(0, &name).is_err());
    assert!(env.assign(0, &name, Object::BOOL(true)).is_err());
    env.define(0, "a".to_string(), Object::STRING("x".to_string()));
    let child = env.from_env(0);
    assert!(matches!(env.get(child, &name), Ok(Object::STRING(s)) if s == "x"));
    assert!(env.get_at(child, 0, &name).is_err());
    assert!(matches!(env.get_at(child, 1, &name), Ok(Object::STRING(s)) if s == "x"));
    env.define(child, "a".to_string(), Object::BOOL(false));
    assert!(matches!(env.get(child, &name), Ok(Object::BOOL(false))));
    assert!(matches!(env.get(0, &name), Ok(Object::STRING(s)) if s == "x"));
    assert!(env.assign_at(child, 1, &name, Object::NIL).is_ok());
    assert!(matches!(env.get(0, &name), Ok(Object::NIL)));
    assert!(env.assign_at(child, 5, &name, Object::NIL).is_err());
    assert_eq!(env.get_enclosing(child), Some(0));
    assert_eq!(env.get_enclosing(0), None);
}

#[test]
fn binary_op_on_values() {
    let plus = token(0, TokenType::PLUS, "+");
    let r = binary_op::<F>(&plus, Object::STRING("a".to_string()), Object::STRING("b".to_string()));
    assert!(matches!(r, Ok(Object::STRING(s)) if s == "ab"));
    let r = binary_op::<F>(&plus, Object::NUMBER(F(1.0)), Object::NIL);
    match r {
        Err(RuntimeException::ERROR(e)) => {
            assert_eq!(e.message, "Operands must be two numbers or two strings.")
        }
        _ => panic!("expected an error"),
    }
}

#[test]
fn report_formats() {
    assert_eq!(decimal_text(0), "0");
    assert_eq!(decimal_text(120), "120");
    assert_eq!(error(3, "m"), "[line 3] Error: m");
}

#[test]
fn empty_program_prints_nothing() {
    let out = exec("");
    assert_eq!(out.error, None);
    assert!(out.output.is_empty());
}

#[test]
fn return_from_inside_loop() {
    let out = exec(
        "fun first(n) { var i = 0; while (true) { if (i >= n) return i; i = i + 1; } }
         print first(4);",
    );
    assert_eq!(out.error, None);
    assert_eq!(lines(&out), vec!["4"]);
}

#[test]
fn function_without_return_gives_nil() {
    let out = exec("fun f() { var a = 1; } print f();");
    assert_eq!(out.error, None);
    assert_eq!(lines(&out), vec!["nil"]);
}

#[test]
fn extracted_method_keeps_this() {
    let out = exec(
        "class A { init(v) { this.v = v; } get() { return this.v; } }
         var m = A(9).get; print m();",
    );
    assert_eq!(out.error, None);
    assert_eq!(lines(&out), vec!["9"]);
}

#[test]
fn fields_shadow_methods() {
    let out = exec("class A { m() { return 1; } } var a = A(); a.m = 2; print a.m;");
    assert_eq!(out.error, None);
    assert_eq!(lines(&out), vec!["2"]);
}

#[test]
fn later_method_declaration_wins() {
    let out = exec("class A { m() { return 1; } m() { return 2; } } print A().m();");
    assert_eq!(out.error, None);
    assert_eq!(lines(&out), vec!["2"]);
}

#[test]
fn parser_limits_parameters() {
    let out = exec("fun f(a, b, c, d, e, f, g, h, i) {}");
    assert!(error_text(&out).contains("Cannot have more than 8 parameters."));
}

#[test]
fn duplicate_parameter_is_static_error() {
    let out = exec("fun f(a, a) {}");
    assert!(error_text(&out).contains("already declared in this scope"));
}

#[test]
fn recursion_through_closure_scope() {
    let out = exec(
        "fun outer() { fun fib(n) { if (n < 2) return n; return fib(n - 1) + fib(n - 2); } return fib(10); }
         print outer();",
    );
    assert_eq!(out.error, None);
    assert_eq!(lines(&out), vec!["55"]);
}

#[test]
fn loop_frames_are_reclaimed() {
    let source = "var i = 0; while (i < 100) { var t = i; i = i + 1; }".to_string();
    let mut scanner = Scanner::new(&source);
    let tokens = scanner.scan_tokens();
    let statements = Parser::new(tokens).parse().ok().unwrap();
    let mut interpreter: Interpreter<F> = Interpreter::new();
    Resolver::new().resolves(&mut interpreter, &statements).ok().unwrap();
    interpreter.interpret(&statements).ok().unwrap();
    assert_eq!(interpreter.frames.frames.len(), 1);
}

#[test]
fn captured_frames_are_kept() {
    let source = "var f; { var x = 1; fun g() { return x; } f = g; } print f();".to_string();
    let mut scanner = Scanner::new(&source);
    let tokens = scanner.scan_tokens();
    let statements = Parser::new(tokens).parse().ok().unwrap();
    let mut interpreter: Interpreter<F> = Interpreter::new();
    Resolver::new().resolves(&mut interpreter, &statements).ok().unwrap();
    interpreter.interpret(&statements).ok().unwrap();
    assert_eq!(interpreter.output, vec!["1".to_string()]);
    assert_eq!(interpreter.frames.frames.len(), 2);
}

#[test]
fn logic_and_unary_on_values() {
    assert!(short_circuits::<F>(TokenType::OR, &Object::BOOL(true)));
    assert!(!short_circuits::<F>(TokenType::OR, &Object::NIL));
    assert!(short_circuits::<F>(TokenType::AND, &Object::NIL));
    assert!(!short_circuits::<F>(TokenType::AND, &Object::NUMBER(F(0.0))));
    let bang = token(0, TokenType::BANG, "!");
    assert!(matches!(unary_op::<F>(&bang, Object::NIL), Ok(Object::BOOL(true))));
    assert!(matches!(unary_op::<F>(&bang, Object::STRING(String::new())), Ok(Object::BOOL(false))));
    let minus = token(1, TokenType::MINUS, "-");
    assert!(matches!(unary_op::<F>(&minus, Object::NUMBER(F(2.0))), Ok(Object::NUMBER(F(x))) if x == -2.0));
    assert!(is_equal::<F>(&Object::Instance(3), &Object::Instance(3)));
    assert!(!is_equal::<F>(&Object::Instance(3), &Object::Instance(4)));
    assert!(!is_equal::<F>(&Object::BOOL(true), &Object::NIL));
}

#[test]
fn classes_compare_by_identity() {
    let out = exec(
        "fun make() { class A {} return A; } var a = make(); var b = make(); print a == b; print a == a;
         class C {} var c = C; print c == C;",
    );
    assert_eq!(out.error, None);
    assert_eq!(lines(&out), vec!["false", "true", "true"]);
}
