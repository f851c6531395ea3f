use rustlox::environment::Environment;
use rustlox::error::{ErrorKind, LoxError};
use rustlox::expression::Expr;
use rustlox::float::{Arithmetic, FloatHost};
use rustlox::interpreter::Interpreter;
use rustlox::parser::Parser;
use rustlox::scanner::Scanner;
use rustlox::statement::Statement;
use rustlox::token::Token;
use rustlox::token_type::{text_of, Literal, TokenType};

fn host() -> FloatHost<
    impl Fn(String) -> u64,
    impl Fn(Arithmetic, u64, u64) -> u64,
    impl Fn(u64) -> String,
> {
    FloatHost {
        parse: |text: String| text.parse::<f64>().unwrap().to_bits(),
        apply: |op: Arithmetic, a: u64, b: u64| {
            let (x, y) = (f64::from_bits(a), f64::from_bits(b));
            match op {
                Arithmetic::Add => (x + y).to_bits(),
                Arithmetic::Subtract => (x - y).to_bits(),
                Arithmetic::Multiply => (x * y).to_bits(),
                Arithmetic::Divide => (x / y).to_bits(),
            }
        },
        render: |bits: u64| f64::from_bits(bits).to_string(),
    }
}

fn run(source: &str) -> (Vec<String>, Result<(), LoxError>) {
    let mut interpreter = Interpreter::new();
    let result = interpreter.run(source.to_string(), &host());
    (interpreter.output().clone(), result)
}

fn printed(source: &str) -> Vec<String> {
    let (output, result) = run(source);
    result.unwrap();
    output
}

fn value(source: &str) -> Literal {
    let tokens = Scanner::new(source.to_string()).scan(&host()).unwrap();
    let expr = Parser::new(tokens).expression().unwrap();
    Interpreter::new().evaluate(&expr, &host()).unwrap()
}

fn float(value: f64) -> Literal {
    Literal::Float(value.to_bits())
}

fn name(lexeme: &str) -> Token {
    Token::new(TokenType::Identifier, lexeme.to_string(), Literal::Nil, 1)
}

#[test]
fn precedence_shows_in_the_value() {
    assert_eq!(value("1 + 2 * 3"), Literal::Integer(7));
    assert_eq!(value("(1 + 2) * 3"), Literal::Integer(9));
    assert_eq!(printed("print 1 + 2 * 3;"), vec!["7"]);
}

#[test]
fn print_concatenated_strings() {
    assert_eq!(printed("print \"a\" + \"b\";"), vec!["ab"]);
}

#[test]
fn redeclaring_a_variable_overwrites_it() {
    assert_eq!(printed("var x = 5; var x = x + 1; print x;"), vec!["6"]);
}

#[test]
fn assignment_replaces_the_value_of_a_variable() {
    let x = || name("x");
    let plus = Token::new(TokenType::Plus, "+".to_string(), Literal::Nil, 1);
    let program = vec![
        Statement::Var(x(), Some(Expr::Literal(Literal::Integer(5)))),
        Statement::Expression(Box::new(Expr::Assign(
            x(),
            Box::new(Expr::Binary(
                Box::new(Expr::Variable(x())),
                plus,
                Box::new(Expr::Literal(Literal::Integer(1))),
            )),
        ))),
        Statement::Print(Box::new(Expr::Variable(x()))),
    ];
    let mut interpreter = Interpreter::new();
    interpreter.interpret(&program, &host()).unwrap();
    assert_eq!(interpreter.output(), &vec!["6".to_string()]);
    assert_eq!(interpreter.environment().get(&x()).unwrap(), Literal::Integer(6));
}

#[test]
fn an_assignment_has_the_value_it_assigns() {
    let mut interpreter = Interpreter::new();
    interpreter.run("var x;".to_string(), &host()).unwrap();
    let assignment = Expr::Assign(name("x"), Box::new(Expr::Literal(Literal::Bool(true))));
    assert_eq!(interpreter.evaluate(&assignment, &host()).unwrap(), Literal::Bool(true));
    assert_eq!(interpreter.environment().get(&name("x")).unwrap(), Literal::Bool(true));
}

#[test]
fn assignment_to_an_undefined_variable_is_an_error() {
    let mut interpreter = Interpreter::new();
    let assignment = Expr::Assign(name("x"), Box::new(Expr::Literal(Literal::Integer(1))));
    let error = interpreter.evaluate(&assignment, &host()).unwrap_err();
    assert_eq!(error.kind, ErrorKind::UndefinedVariable("x".to_string()));
    assert!(interpreter.environment().get(&name("x")).is_err());
}

#[test]
fn undefined_variable_is_a_runtime_error() {
    let (output, result) = run("print x;");
    let error = result.unwrap_err();
    assert_eq!(error.kind, ErrorKind::UndefinedVariable("x".to_string()));
    assert_eq!(error.line, 1);
    assert_eq!(error.at, Some("x".to_string()));
    assert_eq!(error.message, "Undefined variable 'x'.");
    assert_eq!(error.render(), "[line 1] Error 'x': Undefined variable 'x'.");
    assert_eq!(output, Vec::<String>::new());
}

#[test]
fn a_runtime_error_keeps_what_was_printed_before_it() {
    let (output, result) = run("print 1;\nprint 2 + y;\nprint 3;");
    let error = result.unwrap_err();
    assert_eq!(error.kind, ErrorKind::UndefinedVariable("y".to_string()));
    assert_eq!(error.line, 2);
    assert_eq!(output, vec!["1"]);
}

#[test]
fn a_runtime_error_keeps_the_variables_defined_before_it() {
    let mut interpreter = Interpreter::new();
    assert!(interpreter.run("var a = 1; var b = c; var d = 2;".to_string(), &host()).is_err());
    assert_eq!(interpreter.environment().get(&name("a")).unwrap(), Literal::Integer(1));
    assert!(interpreter.environment().get(&name("b")).is_err());
    assert!(interpreter.environment().get(&name("d")).is_err());
}

#[test]
fn nothing_runs_when_the_text_does_not_parse() {
    let (output, result) = run("print 1; print ;");
    assert_eq!(result.unwrap_err().kind, ErrorKind::ExpectedExpression);
    assert_eq!(output, Vec::<String>::new());
    let (output, result) = run("print 1; (1 + 2;");
    assert_eq!(result.unwrap_err().kind, ErrorKind::ExpectedToken(")".to_string()));
    assert_eq!(output, Vec::<String>::new());
}

#[test]
fn nothing_runs_when_the_text_does_not_scan() {
    let (output, result) = run("print 1; \"unterminated");
    assert_eq!(result.unwrap_err().kind, ErrorKind::UnterminatedString);
    assert_eq!(output, Vec::<String>::new());
    let (_, result) = run("print 1 ? 2;");
    assert_eq!(result.unwrap_err().kind, ErrorKind::UnexpectedCharacter);
}

#[test]
fn an_interpreter_keeps_its_variables_between_runs() {
    let mut interpreter = Interpreter::new();
    interpreter.run("var greeting = \"hi\";".to_string(), &host()).unwrap();
    interpreter.run("print greeting;".to_string(), &host()).unwrap();
    interpreter.run("print greeting + \"!\";".to_string(), &host()).unwrap();
    assert_eq!(interpreter.output(), &vec!["hi".to_string(), "hi!".to_string()]);
}

#[test]
fn a_new_interpreter_has_printed_nothing_and_binds_nothing() {
    let interpreter = Interpreter::new();
    assert!(interpreter.output().is_empty());
    assert!(interpreter.environment().get(&name("x")).is_err());
}

#[test]
fn mismatched_operands_give_nil() {
    assert_eq!(value("1 + \"a\""), Literal::Nil);
    assert_eq!(value("\"a\" + 1"), Literal::Nil);
    assert_eq!(value("1 + 1.0"), Literal::Nil);
    assert_eq!(value("1.0 - 1"), Literal::Nil);
    assert_eq!(value("true * false"), Literal::Nil);
    assert_eq!(value("nil / nil"), Literal::Nil);
    assert_eq!(value("\"a\" - \"b\""), Literal::Nil);
    assert_eq!(value("\"a\" * \"b\""), Literal::Nil);
    assert_eq!(value("\"a\" / \"b\""), Literal::Nil);
    assert_eq!(value("1 < 1.0"), Literal::Nil);
    assert_eq!(value("\"a\" < \"b\""), Literal::Nil);
    assert_eq!(value("true >= false"), Literal::Nil);
    assert_eq!(printed("1 + \"a\"; print 1 + \"a\";"), vec!["none"]);
}

#[test]
fn an_integer_is_not_equal_to_a_float() {
    assert_eq!(value("1 == 1.0"), Literal::Bool(false));
    assert_eq!(value("1 != 1.0"), Literal::Bool(true));
    assert_eq!(value("1.0 == 1"), Literal::Bool(false));
}

#[test]
fn equality_compares_variant_and_value() {
    assert_eq!(value("1 == 1"), Literal::Bool(true));
    assert_eq!(value("1 == 2"), Literal::Bool(false));
    assert_eq!(value("1 != 2"), Literal::Bool(true));
    assert_eq!(value("1.5 == 1.5"), Literal::Bool(true));
    assert_eq!(value("1.5 != 1.5"), Literal::Bool(false));
    assert_eq!(value("\"a\" == \"a\""), Literal::Bool(true));
    assert_eq!(value("\"a\" == \"b\""), Literal::Bool(false));
    assert_eq!(value("true == true"), Literal::Bool(true));
    assert_eq!(value("true != false"), Literal::Bool(true));
    assert_eq!(value("\"1\" == 1"), Literal::Bool(false));
    assert_eq!(value("true == 1"), Literal::Bool(false));
    assert_eq!(value("nil == false"), Literal::Bool(false));
    assert_eq!(value("nil != 0"), Literal::Bool(true));
}

#[test]
fn nil_is_equal_to_nothing() {
    assert_eq!(value("nil == nil"), Literal::Bool(false));
    assert_eq!(value("nil != nil"), Literal::Bool(true));
}

#[test]
fn floats_are_equal_as_numbers() {
    assert_eq!(value("0.0 == -0.0"), Literal::Bool(true));
    assert_eq!(value("0.0 / 0.0 == 0.0 / 0.0"), Literal::Bool(false));
    assert_eq!(value("0.0 / 0.0 != 0.0 / 0.0"), Literal::Bool(true));
    assert_eq!(value("0.1 + 0.2 == 0.3"), Literal::Bool(false));
    assert_eq!(value("0.5 + 0.25 == 0.75"), Literal::Bool(true));
}

#[test]
fn integer_arithmetic() {
    assert_eq!(value("7 + 5"), Literal::Integer(12));
    assert_eq!(value("7 - 9"), Literal::Integer(-2));
    assert_eq!(value("7 * 6"), Literal::Integer(42));
    assert_eq!(value("7 / 2"), Literal::Integer(3));
    assert_eq!(value("-7 / 2"), Literal::Integer(-3));
    assert_eq!(value("7 / -2"), Literal::Integer(-3));
    assert_eq!(value("-7 / -2"), Literal::Integer(3));
    assert_eq!(value("0 / 5"), Literal::Integer(0));
    assert_eq!(value("6 / 3"), Literal::Integer(2));
}

#[test]
fn integer_arithmetic_wraps_around() {
    assert_eq!(value("9223372036854775807 + 1"), Literal::Integer(i64::MIN));
    assert_eq!(value("-9223372036854775807 - 2"), Literal::Integer(i64::MAX));
    assert_eq!(
        value("9223372036854775807 * 2"),
        Literal::Integer(i64::MAX.wrapping_mul(2))
    );
    assert_eq!(
        value("3037000500 * 3037000500"),
        Literal::Integer(3037000500i64.wrapping_mul(3037000500))
    );
    assert_eq!(value("-(-9223372036854775807 - 1)"), Literal::Integer(i64::MIN));
}

#[test]
fn integer_division_without_a_quotient_gives_nil() {
    assert_eq!(value("1 / 0"), Literal::Nil);
    assert_eq!(value("0 / 0"), Literal::Nil);
    assert_eq!(value("(-9223372036854775807 - 1) / -1"), Literal::Nil);
    assert_eq!(value("(-9223372036854775807 - 1) / 1"), Literal::Integer(i64::MIN));
    assert_eq!(value("(-9223372036854775807 - 1) / 2"), Literal::Integer(i64::MIN / 2));
    assert_eq!(value("9223372036854775807 / -1"), Literal::Integer(-i64::MAX));
}

#[test]
fn float_arithmetic_is_the_hosts() {
    assert_eq!(value("1.5 + 2.25"), float(3.75));
    assert_eq!(value("1.5 - 2.25"), float(-0.75));
    assert_eq!(value("1.5 * 2.0"), float(3.0));
    assert_eq!(value("1.0 / 4.0"), float(0.25));
    assert_eq!(value("0.1 + 0.2"), float(0.1 + 0.2));
    assert_eq!(value("1.0 / 0.0"), float(f64::INFINITY));
    assert_eq!(printed("print 1.0 / 0.0; print 2.5 * 2.0; print 0.1 + 0.2;"), vec![
        "inf",
        "5",
        "0.30000000000000004"
    ]);
}

#[test]
fn float_arithmetic_asks_the_host_for_each_operation() {
    let fixed = FloatHost {
        parse: |_text: String| 1u64,
        apply: |op: Arithmetic, a: u64, b: u64| match op {
            Arithmetic::Add => 100 + a + b,
            Arithmetic::Subtract => 200 + a + b,
            Arithmetic::Multiply => 300 + a + b,
            Arithmetic::Divide => 400 + a + b,
        },
        render: |bits: u64| format!("<{}>", bits),
    };
    let mut interpreter = Interpreter::new();
    interpreter
        .run(
            "print 0.5 + 0.5; print 0.5 - 0.5; print 0.5 * 0.5; print 0.5 / 0.5; print 0.5;"
                .to_string(),
            &fixed,
        )
        .unwrap();
    assert_eq!(interpreter.output(), &vec!["<102>", "<202>", "<302>", "<402>", "<1>"]);
}

#[test]
fn ordering_of_integers() {
    assert_eq!(value("1 < 2"), Literal::Bool(true));
    assert_eq!(value("2 < 2"), Literal::Bool(false));
    assert_eq!(value("2 <= 2"), Literal::Bool(true));
    assert_eq!(value("3 <= 2"), Literal::Bool(false));
    assert_eq!(value("3 > 2"), Literal::Bool(true));
    assert_eq!(value("2 > 2"), Literal::Bool(false));
    assert_eq!(value("2 >= 2"), Literal::Bool(true));
    assert_eq!(value("-1 >= 2"), Literal::Bool(false));
    assert_eq!(value("-5 < -4"), Literal::Bool(true));
}

#[test]
fn ordering_of_floats() {
    assert_eq!(value("1.5 < 2.5"), Literal::Bool(true));
    assert_eq!(value("2.5 < 1.5"), Literal::Bool(false));
    assert_eq!(value("2.5 <= 2.5"), Literal::Bool(true));
    assert_eq!(value("2.5 > 1.5"), Literal::Bool(true));
    assert_eq!(value("1.5 >= 2.5"), Literal::Bool(false));
    assert_eq!(value("-1.5 < 0.5"), Literal::Bool(true));
    assert_eq!(value("-1.5 < -2.5"), Literal::Bool(false));
    assert_eq!(value("-0.0 < 0.0"), Literal::Bool(false));
    assert_eq!(value("-0.0 >= 0.0"), Literal::Bool(true));
    assert_eq!(value("1.0 / 0.0 > 1.0"), Literal::Bool(true));
    assert_eq!(value("0.0 / 0.0 < 1.0"), Literal::Bool(false));
    assert_eq!(value("0.0 / 0.0 >= 1.0"), Literal::Bool(false));
    assert_eq!(value("0.0 / 0.0 <= 0.0 / 0.0"), Literal::Bool(false));
}

#[test]
fn logical_not() {
    assert_eq!(value("!true"), Literal::Bool(false));
    assert_eq!(value("!false"), Literal::Bool(true));
    assert_eq!(value("!0"), Literal::Bool(true));
    assert_eq!(value("!1"), Literal::Bool(false));
    assert_eq!(value("!-3"), Literal::Bool(false));
    assert_eq!(value("!\"\""), Literal::Bool(true));
    assert_eq!(value("!\"a\""), Literal::Bool(false));
    assert_eq!(value("!0.0"), Literal::Bool(false));
    assert_eq!(value("!1.5"), Literal::Bool(false));
    assert_eq!(value("!nil"), Literal::Bool(false));
    assert_eq!(value("!!0"), Literal::Bool(false));
}

#[test]
fn negation() {
    assert_eq!(value("-5"), Literal::Integer(-5));
    assert_eq!(value("--5"), Literal::Integer(5));
    assert_eq!(value("-0"), Literal::Integer(0));
    assert_eq!(value("-2.5"), float(-2.5));
    assert_eq!(value("-0.0"), float(-0.0));
    assert_eq!(value("--2.5"), float(2.5));
    let minus = Token::new(TokenType::Minus, "-".to_string(), Literal::Nil, 1);
    let not_a_number = Expr::Unary(
        minus,
        Box::new(Expr::Literal(Literal::Float(0x7ff8_0000_0000_0001))),
    );
    assert_eq!(
        Interpreter::new().evaluate(&not_a_number, &host()).unwrap(),
        Literal::Float(0xfff8_0000_0000_0001)
    );
    assert_eq!(value("-\"a\""), Literal::Nil);
    assert_eq!(value("-true"), Literal::Nil);
    assert_eq!(value("-nil"), Literal::Nil);
}

#[test]
fn an_operator_that_is_not_one_gives_nil() {
    let comma = Token::new(TokenType::Comma, ",".to_string(), Literal::Nil, 1);
    let one = || Box::new(Expr::Literal(Literal::Integer(1)));
    let mut interpreter = Interpreter::new();
    let binary = Expr::Binary(one(), comma.clone(), one());
    assert_eq!(interpreter.evaluate(&binary, &host()).unwrap(), Literal::Nil);
    let unary = Expr::Unary(comma, one());
    assert_eq!(interpreter.evaluate(&unary, &host()).unwrap(), Literal::Nil);
    let plus = Token::new(TokenType::Plus, "+".to_string(), Literal::Nil, 1);
    let unary = Expr::Unary(plus, one());
    assert_eq!(interpreter.evaluate(&unary, &host()).unwrap(), Literal::Nil);
}

#[test]
fn grouping_and_literals_evaluate_to_themselves() {
    assert_eq!(value("(((3)))"), Literal::Integer(3));
    assert_eq!(value("\"s\""), Literal::String("s".to_string()));
    assert_eq!(value("nil"), Literal::Nil);
    assert_eq!(value("true"), Literal::Bool(true));
    assert_eq!(value("2.5"), float(2.5));
}

#[test]
fn operands_are_evaluated_from_left_to_right() {
    let (_, result) = run("print a + b;");
    assert_eq!(result.unwrap_err().kind, ErrorKind::UndefinedVariable("a".to_string()));
    let (_, result) = run("var a = 1; print a + b;");
    assert_eq!(result.unwrap_err().kind, ErrorKind::UndefinedVariable("b".to_string()));
    let (_, result) = run("print -(a);");
    assert_eq!(result.unwrap_err().kind, ErrorKind::UndefinedVariable("a".to_string()));
}

#[test]
fn print_shows_each_kind_of_value() {
    assert_eq!(
        printed("print true; print false; print nil; print 12; print -3; print 2.5; print \"s p\";"),
        vec!["true", "false", "none", "12", "-3", "2.5", "s p"]
    );
    assert_eq!(printed("print 0; print -9223372036854775807 - 1; print 9223372036854775807;"), vec![
        "0",
        "-9223372036854775808",
        "9223372036854775807"
    ]);
}

#[test]
fn stringify_writes_values_as_print_does() {
    assert_eq!(text_of(&Literal::Integer(-120), &host()), "-120");
    assert_eq!(text_of(&Literal::Integer(1000000), &host()), "1000000");
    assert_eq!(text_of(&Literal::Bool(true), &host()), "true");
    assert_eq!(text_of(&Literal::Nil, &host()), "none");
    assert_eq!(text_of(&float(1e21), &host()), 1e21f64.to_string());
    assert_eq!(text_of(&Literal::String("x".to_string()), &host()), "x");
}

#[test]
fn var_without_initializer_is_nil() {
    assert_eq!(printed("var a; print a;"), vec!["none"]);
    let mut interpreter = Interpreter::new();
    interpreter.run("var a;".to_string(), &host()).unwrap();
    assert_eq!(interpreter.environment().get(&name("a")).unwrap(), Literal::Nil);
}

#[test]
fn statements_see_the_variables_of_earlier_statements() {
    assert_eq!(
        printed("var a = 2; var b = a * 3; var c = a + b; print c; print a < b; print -c;"),
        vec!["8", "true", "-8"]
    );
}

#[test]
fn an_expression_statement_prints_nothing() {
    assert_eq!(printed("1 + 2; \"a\"; nil;"), Vec::<String>::new());
}

#[test]
fn interpret_runs_statements_written_by_hand() {
    let program = vec![
        Statement::Var(name("n"), None),
        Statement::Print(Box::new(Expr::Variable(name("n")))),
        Statement::Expression(Box::new(Expr::Variable(name("missing")))),
        Statement::Print(Box::new(Expr::Literal(Literal::Integer(1)))),
    ];
    let mut interpreter = Interpreter::new();
    let error = interpreter.interpret(&program, &host()).unwrap_err();
    assert_eq!(error.kind, ErrorKind::UndefinedVariable("missing".to_string()));
    assert_eq!(interpreter.output(), &vec!["none".to_string()]);
    interpreter.interpret(&Vec::new(), &host()).unwrap();
    assert_eq!(interpreter.output().len(), 1);
}

#[test]
fn environment_defines_and_gets() {
    let mut environment = Environment::new(None);
    assert!(environment.get(&name("a")).is_err());
    environment.define("a".to_string(), Literal::Integer(1));
    environment.define("b".to_string(), Literal::String("two".to_string()));
    assert_eq!(environment.get(&name("a")).unwrap(), Literal::Integer(1));
    assert_eq!(environment.get(&name("b")).unwrap(), Literal::String("two".to_string()));
    environment.define("a".to_string(), Literal::Bool(true));
    assert_eq!(environment.get(&name("a")).unwrap(), Literal::Bool(true));
    assert_eq!(environment.get(&name("b")).unwrap(), Literal::String("two".to_string()));
}

#[test]
fn environment_reports_an_undefined_name() {
    let environment = Environment::new(None);
    let token = Token::new(TokenType::Identifier, "ghost".to_string(), Literal::Nil, 7);
    let error = environment.get(&token).unwrap_err();
    assert_eq!(error.kind, ErrorKind::UndefinedVariable("ghost".to_string()));
    assert_eq!(error.line, 7);
    assert_eq!(error.at, Some("ghost".to_string()));
    assert_eq!(error.message, "Undefined variable 'ghost'.");
}

#[test]
fn environment_assigns_only_what_is_defined() {
    let mut environment = Environment::new(None);
    let error = environment.assign(&name("a"), Literal::Integer(1)).unwrap_err();
    assert_eq!(error.kind, ErrorKind::UndefinedVariable("a".to_string()));
    assert_eq!(error.message, "Undefined variable 'a'.");
    assert!(environment.get(&name("a")).is_err());
    environment.define("a".to_string(), Literal::Nil);
    environment.assign(&name("a"), Literal::Integer(2)).unwrap();
    assert_eq!(environment.get(&name("a")).unwrap(), Literal::Integer(2));
}

#[test]
fn environment_looks_through_enclosing_scopes() {
    let mut outer = Environment::new(None);
    outer.define("a".to_string(), Literal::Integer(1));
    outer.define("b".to_string(), Literal::Integer(2));
    let mut inner = Environment::new(Some(outer));
    inner.define("b".to_string(), Literal::Integer(20));
    assert_eq!(inner.get(&name("a")).unwrap(), Literal::Integer(1));
    assert_eq!(inner.get(&name("b")).unwrap(), Literal::Integer(20));
    assert!(inner.get(&name("c")).is_err());
}

#[test]
fn environment_assigns_in_the_nearest_scope_that_binds_the_name() {
    let mut outermost = Environment::new(None);
    outermost.define("a".to_string(), Literal::Integer(1));
    outermost.define("b".to_string(), Literal::Integer(2));
    let mut middle = Environment::new(Some(outermost));
    middle.define("b".to_string(), Literal::Integer(20));
    let mut inner = Environment::new(Some(middle));
    inner.assign(&name("a"), Literal::Integer(100)).unwrap();
    inner.assign(&name("b"), Literal::Integer(200)).unwrap();
    assert_eq!(inner.get(&name("a")).unwrap(), Literal::Integer(100));
    assert_eq!(inner.get(&name("b")).unwrap(), Literal::Integer(200));
    assert!(inner.assign(&name("c"), Literal::Nil).is_err());
    inner.define("a".to_string(), Literal::Integer(-1));
    inner.assign(&name("a"), Literal::Integer(-2)).unwrap();
    assert_eq!(inner.get(&name("a")).unwrap(), Literal::Integer(-2));
}
