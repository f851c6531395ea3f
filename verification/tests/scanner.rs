use rustlox::error::{ErrorKind, LoxError};
use rustlox::float::{Arithmetic, FloatHost};
use rustlox::scanner::Scanner;
use rustlox::token::Token;
use rustlox::token_type::{Literal, TokenType};

fn host() -> FloatHost<
    impl Fn(String) -> u64,
    impl Fn(Arithmetic, u64, u64) -> u64,
    impl Fn(u64) -> String,
> {
    FloatHost {
        parse: |text: String| text.parse::<f64>().unwrap().to_bits(),
        apply: |op: Arithmetic, a: u64, b: u64| {
            let (x, y) = (f64::from_bits(a), f64::from_bits(b));
            match op {
                Arithmetic::Add => (x + y).to_bits(),
                Arithmetic::Subtract => (x - y).to_bits(),
                Arithmetic::Multiply => (x * y).to_bits(),
                Arithmetic::Divide => (x / y).to_bits(),
            }
        },
        render: |bits: u64| f64::from_bits(bits).to_string(),
    }
}

fn scan(source: &str) -> Result<Vec<Token>, LoxError> {
    Scanner::new(source.to_string()).scan(&host())
}

fn kinds(source: &str) -> Vec<TokenType> {
    scan(source).unwrap().iter().map(|token| token.ttype).collect()
}

fn token(ttype: TokenType, lexeme: &str, literal: Literal, line: usize) -> Token {
    Token::new(ttype, lexeme.to_string(), literal, line)
}

#[test]
fn empty_source_is_a_single_eof() {
    assert_eq!(scan("").unwrap(), vec![token(TokenType::Eof, "", Literal::Nil, 1)]);
}

#[test]
fn eof_is_last_and_appears_once() {
    for source in ["", "var x = 1;", "print \"a\" + \"b\";\n// done\n", "( ) { } , . - + ; * /"] {
        let tokens = scan(source).unwrap();
        let eofs = tokens.iter().filter(|token| token.ttype == TokenType::Eof).count();
        assert_eq!(eofs, 1);
        assert_eq!(tokens.last().unwrap().ttype, TokenType::Eof);
        assert_eq!(tokens.last().unwrap().lexeme, "");
    }
}

#[test]
fn single_character_tokens() {
    assert_eq!(
        kinds("(){},.-+;*/"),
        vec![
            TokenType::LeftParen,
            TokenType::RightParen,
            TokenType::LeftBrace,
            TokenType::RightBrace,
            TokenType::Comma,
            TokenType::Dot,
            TokenType::Minus,
            TokenType::Plus,
            TokenType::Semicolon,
            TokenType::Star,
            TokenType::Slash,
            TokenType::Eof,
        ]
    );
}

#[test]
fn one_or_two_character_operators() {
    assert_eq!(
        kinds("! != = == < <= > >="),
        vec![
            TokenType::Bang,
            TokenType::BangEqual,
            TokenType::Equal,
            TokenType::EqualEqual,
            TokenType::Less,
            TokenType::LessEqual,
            TokenType::Greater,
            TokenType::GreaterEqual,
            TokenType::Eof,
        ]
    );
}

#[test]
fn operators_take_the_longest_match_of_two_characters() {
    assert_eq!(
        kinds("==="),
        vec![TokenType::EqualEqual, TokenType::Equal, TokenType::Eof]
    );
    assert_eq!(kinds("!=="), vec![TokenType::BangEqual, TokenType::Equal, TokenType::Eof]);
    let tokens = scan("<=").unwrap();
    assert_eq!(tokens[0], token(TokenType::LessEqual, "<=", Literal::Nil, 1));
}

#[test]
fn keywords_have_their_own_kinds() {
    assert_eq!(
        kinds("and class else false for fun if nil or print return super this true var while"),
        vec![
            TokenType::And,
            TokenType::Class,
            TokenType::Else,
            TokenType::False,
            TokenType::For,
            TokenType::Fun,
            TokenType::If,
            TokenType::Nil,
            TokenType::Or,
            TokenType::Print,
            TokenType::Return,
            TokenType::Super,
            TokenType::This,
            TokenType::True,
            TokenType::Var,
            TokenType::While,
            TokenType::Eof,
        ]
    );
}

#[test]
fn other_words_are_identifiers() {
    let tokens = scan("none _x1 andy Var").unwrap();
    assert_eq!(
        tokens,
        vec![
            token(TokenType::Identifier, "none", Literal::Nil, 1),
            token(TokenType::Identifier, "_x1", Literal::Nil, 1),
            token(TokenType::Identifier, "andy", Literal::Nil, 1),
            token(TokenType::Identifier, "Var", Literal::Nil, 1),
            token(TokenType::Eof, "", Literal::Nil, 1),
        ]
    );
}

#[test]
fn digits_alone_are_one_integer() {
    assert_eq!(
        scan("12345").unwrap(),
        vec![
            token(TokenType::Number, "12345", Literal::Integer(12345), 1),
            token(TokenType::Eof, "", Literal::Nil, 1),
        ]
    );
    assert_eq!(scan("007").unwrap()[0], token(TokenType::Number, "007", Literal::Integer(7), 1));
    assert_eq!(scan("0").unwrap()[0].literal, Literal::Integer("0".parse::<i64>().unwrap()));
}

#[test]
fn digits_point_digits_are_one_float() {
    assert_eq!(
        scan("12.50").unwrap(),
        vec![
            token(TokenType::Number, "12.50", Literal::Float(12.5f64.to_bits()), 1),
            token(TokenType::Eof, "", Literal::Nil, 1),
        ]
    );
    for text in ["0.1", "3.14159", "1.0", "123456789.987654321", "0.000001"] {
        let tokens = scan(text).unwrap();
        assert_eq!(tokens.len(), 2);
        assert_eq!(tokens[0].ttype, TokenType::Number);
        assert_eq!(tokens[0].lexeme, text);
        assert_eq!(tokens[0].literal, Literal::Float(text.parse::<f64>().unwrap().to_bits()));
    }
}

#[test]
fn a_number_is_a_float_exactly_when_it_has_a_fraction() {
    assert!(matches!(scan("1").unwrap()[0].literal, Literal::Integer(1)));
    assert!(matches!(scan("1.0").unwrap()[0].literal, Literal::Float(_)));
}

#[test]
fn a_point_needs_a_digit_on_each_side() {
    assert_eq!(kinds("1."), vec![TokenType::Number, TokenType::Dot, TokenType::Eof]);
    assert_eq!(scan("1.").unwrap()[0].literal, Literal::Integer(1));
    assert_eq!(kinds(".5"), vec![TokenType::Dot, TokenType::Number, TokenType::Eof]);
    assert_eq!(
        kinds("1.2.3"),
        vec![TokenType::Number, TokenType::Dot, TokenType::Number, TokenType::Eof]
    );
    assert_eq!(scan("1.2.3").unwrap()[0].lexeme, "1.2");
}

#[test]
fn the_largest_integer_scans() {
    assert_eq!(
        scan("9223372036854775807").unwrap()[0].literal,
        Literal::Integer(i64::MAX)
    );
}

#[test]
fn an_integer_that_does_not_fit_is_malformed() {
    let error = scan("\n9223372036854775808").unwrap_err();
    assert_eq!(error.kind, ErrorKind::MalformedNumber);
    assert_eq!(error.line, 2);
    assert_eq!(error.at, None);
    assert_eq!(
        error.message,
        "Failed to parse the value(9223372036854775808) to integer. number too large to fit in target type"
    );
    assert_eq!(
        scan("99999999999999999999").unwrap_err().kind,
        ErrorKind::MalformedNumber
    );
}

#[test]
fn a_string_literal_holds_the_text_between_the_quotes() {
    assert_eq!(
        scan("\"hello world\"").unwrap(),
        vec![
            token(
                TokenType::String,
                "\"hello world\"",
                Literal::String("hello world".to_string()),
                1
            ),
            token(TokenType::Eof, "", Literal::Nil, 1),
        ]
    );
    assert_eq!(scan("\"\"").unwrap()[0].literal, Literal::String(String::new()));
}

#[test]
fn a_string_literal_keeps_backslashes_and_other_alphabets() {
    assert_eq!(
        scan("\"a\\nb\"").unwrap()[0].literal,
        Literal::String("a\\nb".to_string())
    );
    let tokens = scan("\"h\u{e9}llo \u{4e16}\" x").unwrap();
    assert_eq!(tokens[0].literal, Literal::String("h\u{e9}llo \u{4e16}".to_string()));
    assert_eq!(tokens[1], token(TokenType::Identifier, "x", Literal::Nil, 1));
}

#[test]
fn a_string_literal_counts_the_lines_inside_it() {
    let tokens = scan("\"a\nb\nc\" x").unwrap();
    assert_eq!(tokens[0].ttype, TokenType::String);
    assert_eq!(tokens[0].literal, Literal::String("a\nb\nc".to_string()));
    assert_eq!(tokens[0].line, 3);
    assert_eq!(tokens[1].line, 3);
}

#[test]
fn unterminated_string_is_an_error() {
    let error = scan("\"unterminated").unwrap_err();
    assert_eq!(error.kind, ErrorKind::UnterminatedString);
    assert_eq!(error.line, 1);
    assert_eq!(error.at, None);
    assert_eq!(error.message, "Unterminated string.");
    assert_eq!(error.render(), "[line 1] Error : Unterminated string.");
}

#[test]
fn unterminated_string_reports_the_last_line() {
    let error = scan("1;\n\"one\ntwo\n").unwrap_err();
    assert_eq!(error.kind, ErrorKind::UnterminatedString);
    assert_eq!(error.line, 4);
}

#[test]
fn unexpected_character_is_an_error() {
    let error = scan("var x;\n  @").unwrap_err();
    assert_eq!(error.kind, ErrorKind::UnexpectedCharacter);
    assert_eq!(error.line, 2);
    assert_eq!(error.at, None);
    assert_eq!(error.message, "Unexpected character.");
    assert_eq!(scan("#").unwrap_err().kind, ErrorKind::UnexpectedCharacter);
    assert_eq!(scan("\u{e9}").unwrap_err().kind, ErrorKind::UnexpectedCharacter);
}

#[test]
fn the_first_error_ends_the_scan() {
    let error = scan("@ \"open").unwrap_err();
    assert_eq!(error.kind, ErrorKind::UnexpectedCharacter);
    let error = scan("\"open @").unwrap_err();
    assert_eq!(error.kind, ErrorKind::UnterminatedString);
}

#[test]
fn blanks_are_skipped_and_lines_counted() {
    let tokens = scan(" \t\r\n1\n\n  x ").unwrap();
    assert_eq!(
        tokens,
        vec![
            token(TokenType::Number, "1", Literal::Integer(1), 2),
            token(TokenType::Identifier, "x", Literal::Nil, 4),
            token(TokenType::Eof, "", Literal::Nil, 4),
        ]
    );
}

#[test]
fn a_line_comment_runs_to_the_end_of_the_line() {
    let tokens = scan("1 // two 2 \"\n3 // the end").unwrap();
    assert_eq!(
        tokens,
        vec![
            token(TokenType::Number, "1", Literal::Integer(1), 1),
            token(TokenType::Number, "3", Literal::Integer(3), 2),
            token(TokenType::Eof, "", Literal::Nil, 2),
        ]
    );
}

#[test]
fn a_block_comment_opener_is_skipped_and_nothing_more() {
    assert_eq!(
        kinds("/* 1 */"),
        vec![TokenType::Number, TokenType::Star, TokenType::Slash, TokenType::Eof]
    );
    assert_eq!(kinds("/*"), vec![TokenType::Eof]);
}

#[test]
fn a_statement_scans_to_its_tokens() {
    assert_eq!(
        scan("var answer = 6 * 7;").unwrap(),
        vec![
            token(TokenType::Var, "var", Literal::Nil, 1),
            token(TokenType::Identifier, "answer", Literal::Nil, 1),
            token(TokenType::Equal, "=", Literal::Nil, 1),
            token(TokenType::Number, "6", Literal::Integer(6), 1),
            token(TokenType::Star, "*", Literal::Nil, 1),
            token(TokenType::Number, "7", Literal::Integer(7), 1),
            token(TokenType::Semicolon, ";", Literal::Nil, 1),
            token(TokenType::Eof, "", Literal::Nil, 1),
        ]
    );
}

#[test]
fn words_and_numbers_end_where_their_characters_end() {
    assert_eq!(
        kinds("abc123+x_1(9)"),
        vec![
            TokenType::Identifier,
            TokenType::Plus,
            TokenType::Identifier,
            TokenType::LeftParen,
            TokenType::Number,
            TokenType::RightParen,
            TokenType::Eof,
        ]
    );
    let tokens = scan("12ab").unwrap();
    assert_eq!(tokens[0], token(TokenType::Number, "12", Literal::Integer(12), 1));
    assert_eq!(tokens[1], token(TokenType::Identifier, "ab", Literal::Nil, 1));
}

#[test]
fn scanning_twice_gives_the_same_tokens() {
    let scanner = Scanner::new("print 1.5 + x; // twice".to_string());
    let first = scanner.scan(&host()).unwrap();
    let second = scanner.scan(&host()).unwrap();
    assert_eq!(first, second);
}

#[test]
fn the_value_of_a_float_literal_is_what_the_host_parses() {
    let constant = FloatHost {
        parse: |_text: String| 42u64,
        apply: |_op: Arithmetic, a: u64, _b: u64| a,
        render: |_bits: u64| String::new(),
    };
    let tokens = Scanner::new("1.5 2".to_string()).scan(&constant).unwrap();
    assert_eq!(tokens[0].literal, Literal::Float(42));
    assert_eq!(tokens[1].literal, Literal::Integer(2));
}
