use rustlox::error::{gen_error, ErrorKind, LoxError};
use rustlox::float::{equal, less, less_equal, negate};
use rustlox::text::{chars_of, push_i64, push_usize, string_of};
use rustlox::token::Token;
use rustlox::token_type::{Literal, TokenType};

#[test]
fn gen_error_without_a_lexeme() {
    assert_eq!(
        gen_error(1, None, "Unexpected character.".to_string()),
        "[line 1] Error : Unexpected character."
    );
}

#[test]
fn gen_error_with_a_lexeme() {
    assert_eq!(
        gen_error(12, Some(")".to_string()), "Expect expression.".to_string()),
        "[line 12] Error ')': Expect expression."
    );
    assert_eq!(gen_error(0, Some(String::new()), String::new()), "[line 0] Error '': ");
}

#[test]
fn gen_error_writes_the_line_in_decimal() {
    for line in [0usize, 7, 10, 99, 100, 1234567890, usize::MAX] {
        assert_eq!(
            gen_error(line, None, "m".to_string()),
            format!("[line {}] Error : m", line)
        );
    }
}

#[test]
fn new_error_keeps_its_parts() {
    let error = LoxError::new(3, Some("x".to_string()), "Something.");
    assert_eq!(error.kind, ErrorKind::Unclassified);
    assert_eq!(error.line, 3);
    assert_eq!(error.at, Some("x".to_string()));
    assert_eq!(error.message, "Something.");
    assert_eq!(error.render(), "[line 3] Error 'x': Something.");
    let error = LoxError::new(4, None, "Other.");
    assert_eq!(error.at, None);
    assert_eq!(error.render(), "[line 4] Error : Other.");
}

#[test]
fn error_with_kind_keeps_its_parts() {
    let error = LoxError::with_kind(
        ErrorKind::ExpectedToken(";".to_string()),
        9,
        Some("}".to_string()),
        "Expect ';' after value.",
    );
    assert_eq!(error.kind, ErrorKind::ExpectedToken(";".to_string()));
    assert_eq!(error.render(), "[line 9] Error '}': Expect ';' after value.");
    assert_eq!(error.kind.clone(), error.kind);
}

#[test]
fn new_token_keeps_its_parts() {
    let token = Token::new(TokenType::Number, "1.5".to_string(), Literal::Float(7), 2);
    assert_eq!(token.ttype, TokenType::Number);
    assert_eq!(token.lexeme, "1.5");
    assert_eq!(token.literal, Literal::Float(7));
    assert_eq!(token.line, 2);
    assert_eq!(token.clone(), token);
}

#[test]
fn literal_clone_is_equal() {
    for literal in [
        Literal::Float(1),
        Literal::Integer(-1),
        Literal::String("s".to_string()),
        Literal::Bool(true),
        Literal::Nil,
    ] {
        assert_eq!(literal.clone(), literal);
    }
}

#[test]
fn decimal_numerals() {
    for value in [0i64, 1, -1, 9, 10, -10, 12345, i64::MAX, i64::MIN] {
        let mut text = String::from("n=");
        push_i64(&mut text, value);
        assert_eq!(text, format!("n={}", value));
    }
    let mut text = String::new();
    push_usize(&mut text, 4096);
    assert_eq!(text, "4096");
}

#[test]
fn characters_and_strings() {
    assert_eq!(chars_of("a\u{e9}z"), vec!['a', '\u{e9}', 'z']);
    assert_eq!(chars_of(""), Vec::<char>::new());
    let chars = chars_of("hello");
    assert_eq!(string_of(&chars, 1, 4), "ell");
    assert_eq!(string_of(&chars, 2, 2), "");
    assert_eq!(string_of(&chars, 0, 5), "hello");
}

fn samples() -> Vec<f64> {
    vec![
        0.0,
        -0.0,
        1.0,
        -1.0,
        0.5,
        -0.5,
        2.5,
        1e300,
        -1e300,
        5e-324,
        -5e-324,
        f64::MIN_POSITIVE,
        f64::MAX,
        f64::MIN,
        f64::INFINITY,
        f64::NEG_INFINITY,
        f64::NAN,
        -f64::NAN,
        f64::from_bits(0x7ff0_0000_0000_0001),
        f64::from_bits(0xffff_ffff_ffff_ffff),
    ]
}

#[test]
fn float_order_on_bits_is_the_order_of_the_numbers() {
    for a in samples() {
        for b in samples() {
            assert_eq!(equal(a.to_bits(), b.to_bits()), a == b, "{} == {}", a, b);
            assert_eq!(less(a.to_bits(), b.to_bits()), a < b, "{} < {}", a, b);
            assert_eq!(less_equal(a.to_bits(), b.to_bits()), a <= b, "{} <= {}", a, b);
        }
    }
}

#[test]
fn float_negation_on_bits_is_the_negation_of_the_number() {
    for a in samples() {
        assert_eq!(negate(a.to_bits()), (-a).to_bits());
    }
    assert_eq!(negate(0), 0x8000_0000_0000_0000);
    assert_eq!(negate(0x8000_0000_0000_0000), 0);
}
