//! The lexical structure of the language: which tokens a text holds.
//!
//! [`scan_spec`] gives the tokens of a text without the values they denote;
//! [`literal_of`] gives the value of a token from its kind and text. The
//! laws at the end of the module say what follows for numerals and for
//! `Eof`.

use vstd::prelude::*;
use crate::error::{SpecErrorKind, SpecLoxError};
use crate::float::{Arithmetic, FloatHost};
use crate::token::{SpecToken, Token};
use crate::token_type::{SpecLiteral, TokenType};

verus! {

/// Whether `c` is a decimal digit.
pub open spec fn is_digit(c: char) -> bool {
    '0' <= c && c <= '9'
}

/// Whether `c` may start a word: a letter of the Latin alphabet or `_`.
pub open spec fn is_alpha(c: char) -> bool {
    ('a' <= c && c <= 'z') || ('A' <= c && c <= 'Z') || c == '_'
}

/// Whether `c` may continue a word.
pub open spec fn is_alpha_numeric(c: char) -> bool {
    is_alpha(c) || is_digit(c)
}

/// The reserved words and their token kinds.
pub open spec fn keyword_map() -> Map<Seq<char>, TokenType> {
    Map::empty().insert("and"@, TokenType::And).insert("class"@, TokenType::Class).insert(
        "else"@,
        TokenType::Else,
    ).insert("false"@, TokenType::False).insert("for"@, TokenType::For).insert(
        "fun"@,
        TokenType::Fun,
    ).insert("if"@, TokenType::If).insert("nil"@, TokenType::Nil).insert(
        "or"@,
        TokenType::Or,
    ).insert("print"@, TokenType::Print).insert("return"@, TokenType::Return).insert(
        "super"@,
        TokenType::Super,
    ).insert("this"@, TokenType::This).insert("true"@, TokenType::True).insert(
        "var"@,
        TokenType::Var,
    ).insert("while"@, TokenType::While)
}

/// The kind of a word: the keyword's own kind, or `Identifier`.
pub open spec fn word_kind(word: Seq<char>) -> TokenType {
    if keyword_map().contains_key(word) {
        keyword_map()[word]
    } else {
        TokenType::Identifier
    }
}

/// The kinds of character runs that the scanner consumes greedily.
pub enum Run {
    /// Decimal digits.
    Digits,
    /// Letters, digits and underscores.
    Word,
    /// Everything up to the end of the line.
    Comment,
    /// Everything up to the next double quote.
    Quoted,
}

/// Whether `c` belongs to a run of the given kind.
pub open spec fn in_run(run: Run, c: char) -> bool {
    match run {
        Run::Digits => is_digit(c),
        Run::Word => is_alpha_numeric(c),
        Run::Comment => c != '\n',
        Run::Quoted => c != '"',
    }
}

/// Where the longest run of the given kind that starts at `pos` ends.
pub open spec fn run_end(chars: Seq<char>, pos: int, run: Run) -> int
    decreases chars.len() - pos,
{
    if 0 <= pos < chars.len() && in_run(run, chars[pos]) {
        run_end(chars, pos + 1, run)
    } else {
        pos
    }
}

/// The number of line breaks among the first `pos` characters.
pub open spec fn newlines_before(chars: Seq<char>, pos: int) -> nat
    decreases pos,
{
    if pos <= 0 {
        0
    } else {
        newlines_before(chars, pos - 1) + if chars[pos - 1] == '\n' {
            1nat
        } else {
            0nat
        }
    }
}

/// The line that the character at `pos` stands on; lines count from 1.
pub open spec fn line_at(chars: Seq<char>, pos: int) -> nat {
    1 + newlines_before(chars, pos)
}

/// The value of a decimal numeral.
pub open spec fn decimal_value(digits: Seq<char>) -> nat
    decreases digits.len(),
{
    if digits.len() == 0 {
        0
    } else {
        10 * decimal_value(digits.drop_last()) + (digits.last() as u32 - '0' as u32) as nat
    }
}

/// What the scanner finds at one position.
pub enum Found {
    /// A token of this kind.
    Token(TokenType),
    /// Blank space or a comment.
    Nothing,
    /// A lexical error of this kind.
    Fault(SpecErrorKind),
}

/// What the scanner finds at one position, and where it goes on.
pub struct Step {
    pub found: Found,
    pub end: int,
}

/// Where a number that starts at `pos` ends: after its digits, and after a
/// point and more digits if they follow.
pub open spec fn number_end(chars: Seq<char>, pos: int) -> int {
    let whole = run_end(chars, pos, Run::Digits);
    if whole + 1 < chars.len() && chars[whole] == '.' && is_digit(chars[whole + 1]) {
        run_end(chars, whole + 1, Run::Digits)
    } else {
        whole
    }
}

/// Whether a number literal has a fractional part.
pub open spec fn is_fraction(lexeme: Seq<char>) -> bool {
    lexeme.contains('.')
}

/// One step of scanning, at `pos < chars.len()`.
pub open spec fn scan_step(chars: Seq<char>, pos: int) -> Step {
    let c = chars[pos];
    let next = pos + 1;
    let then_equal = next < chars.len() && chars[next] == '=';
    let one = |ttype: TokenType| Step { found: Found::Token(ttype), end: next };
    let one_or_two = |short: TokenType, long: TokenType|
        if then_equal {
            Step { found: Found::Token(long), end: next + 1 }
        } else {
            Step { found: Found::Token(short), end: next }
        };
    if c == '(' {
        one(TokenType::LeftParen)
    } else if c == ')' {
        one(TokenType::RightParen)
    } else if c == '{' {
        one(TokenType::LeftBrace)
    } else if c == '}' {
        one(TokenType::RightBrace)
    } else if c == ',' {
        one(TokenType::Comma)
    } else if c == '.' {
        one(TokenType::Dot)
    } else if c == '-' {
        one(TokenType::Minus)
    } else if c == '+' {
        one(TokenType::Plus)
    } else if c == ';' {
        one(TokenType::Semicolon)
    } else if c == '*' {
        one(TokenType::Star)
    } else if c == '!' {
        one_or_two(TokenType::Bang, TokenType::BangEqual)
    } else if c == '=' {
        one_or_two(TokenType::Equal, TokenType::EqualEqual)
    } else if c == '<' {
        one_or_two(TokenType::Less, TokenType::LessEqual)
    } else if c == '>' {
        one_or_two(TokenType::Greater, TokenType::GreaterEqual)
    } else if c == '/' {
        if next < chars.len() && chars[next] == '/' {
            Step { found: Found::Nothing, end: run_end(chars, next + 1, Run::Comment) }
        } else if next < chars.len() && chars[next] == '*' {
            Step { found: Found::Nothing, end: next + 1 }
        } else {
            one(TokenType::Slash)
        }
    } else if c == ' ' || c == '\r' || c == '\t' || c == '\n' {
        Step { found: Found::Nothing, end: next }
    } else if c == '"' {
        let close = run_end(chars, next, Run::Quoted);
        if close >= chars.len() {
            Step { found: Found::Fault(SpecErrorKind::UnterminatedString), end: close }
        } else {
            Step { found: Found::Token(TokenType::String), end: close + 1 }
        }
    } else if is_digit(c) {
        let end = number_end(chars, pos);
        let lexeme = chars.subrange(pos, end);
        if !is_fraction(lexeme) && decimal_value(lexeme) > i64::MAX {
            Step { found: Found::Fault(SpecErrorKind::MalformedNumber), end }
        } else {
            Step { found: Found::Token(TokenType::Number), end }
        }
    } else if is_alpha(c) {
        let end = run_end(chars, pos, Run::Word);
        Step { found: Found::Token(word_kind(chars.subrange(pos, end))), end }
    } else {
        Step { found: Found::Fault(SpecErrorKind::UnexpectedCharacter), end: next }
    }
}

/// A token without the value it denotes.
pub struct Lexeme {
    pub ttype: TokenType,
    pub text: Seq<char>,
    pub line: nat,
}

/// The diagnostic for a lexical error that ends on `line`, found in `text`.
pub open spec fn lexical_error(kind: SpecErrorKind, line: nat, text: Seq<char>) -> SpecLoxError {
    SpecLoxError {
        kind,
        line,
        at: None,
        message: match kind {
            SpecErrorKind::UnterminatedString => "Unterminated string."@,
            SpecErrorKind::MalformedNumber => "Failed to parse the value("@ + text
                + ") to integer. number too large to fit in target type"@,
            _ => "Unexpected character."@,
        },
    }
}

/// The tokens of `chars` from `pos` on, closed by `Eof`; or the first
/// lexical error.
pub open spec fn scan_from(chars: Seq<char>, pos: int) -> Result<Seq<Lexeme>, SpecLoxError>
    decreases chars.len() - pos,
{
    if pos < 0 || pos >= chars.len() {
        Ok(
            seq![
                Lexeme {
                    ttype: TokenType::Eof,
                    text: Seq::empty(),
                    line: line_at(chars, chars.len() as int),
                },
            ],
        )
    } else {
        let step = scan_step(chars, pos);
        proof {
            lemma_step_advances(chars, pos);
        }
        let line = line_at(chars, step.end);
        let text = chars.subrange(pos, step.end);
        match step.found {
            Found::Fault(kind) => Err(lexical_error(kind, line, text)),
            Found::Nothing => scan_from(chars, step.end),
            Found::Token(ttype) => match scan_from(chars, step.end) {
                Ok(rest) => Ok(seq![Lexeme { ttype, text, line }] + rest),
                Err(error) => Err(error),
            },
        }
    }
}

/// The tokens of a whole text.
pub open spec fn scan_spec(chars: Seq<char>) -> Result<Seq<Lexeme>, SpecLoxError> {
    scan_from(chars, 0)
}

/// The value that a token of the given kind and text denotes, where
/// `float_bits` is the value of the numeral if it is fractional.
pub open spec fn literal_of(ttype: TokenType, lexeme: Seq<char>, float_bits: u64) -> SpecLiteral {
    if ttype == TokenType::String {
        SpecLiteral::String(lexeme.subrange(1, lexeme.len() - 1))
    } else if ttype == TokenType::Number {
        if is_fraction(lexeme) {
            SpecLiteral::Float(float_bits)
        } else {
            SpecLiteral::Integer(decimal_value(lexeme) as i64)
        }
    } else {
        SpecLiteral::Nil
    }
}

/// Whether a token carries the value that its kind and text denote: for a
/// fractional numeral, a value that the host's `parse` returns for the text.
pub open spec fn literal_matches<P, A, R>(host: FloatHost<P, A, R>, token: SpecToken) -> bool where
    P: Fn(String) -> u64,
    A: Fn(Arithmetic, u64, u64) -> u64,
    R: Fn(u64) -> String,
 {
    exists|bits: u64|
        {
            &&& token.literal == #[trigger] literal_of(token.ttype, token.lexeme, bits)
            &&& token.ttype == TokenType::Number && is_fraction(token.lexeme) ==> host.parses(
                token.lexeme,
                bits,
            )
        }
}

/// The token without its value.
pub open spec fn lexeme_of(token: SpecToken) -> Lexeme {
    Lexeme { ttype: token.ttype, text: token.lexeme, line: token.line }
}

/// Whether `tokens` are the given lexemes, each with the value it denotes.
pub open spec fn tokens_match<P, A, R>(
    host: FloatHost<P, A, R>,
    tokens: Seq<Token>,
    lexemes: Seq<Lexeme>,
) -> bool where P: Fn(String) -> u64, A: Fn(Arithmetic, u64, u64) -> u64, R: Fn(u64) -> String {
    &&& tokens.len() == lexemes.len()
    &&& forall|i: int|
        0 <= i < tokens.len() ==> lexeme_of(#[trigger] tokens[i]@) == lexemes[i] && literal_matches(
            host,
            tokens[i]@,
        )
}

/// The tokens without their values.
pub open spec fn lexemes_of(tokens: Seq<Token>) -> Seq<Lexeme> {
    tokens.map_values(|t: Token| lexeme_of(t@))
}

/// `found` followed by what the rest of the text holds.
pub open spec fn prepend(found: Seq<Lexeme>, rest: Result<Seq<Lexeme>, SpecLoxError>) -> Result<
    Seq<Lexeme>,
    SpecLoxError,
> {
    match rest {
        Ok(more) => Ok(found + more),
        Err(error) => Err(error),
    }
}

/// A run ends inside the text, holds only characters of its kind, and is
/// followed by none.
pub proof fn lemma_run_end_bounds(chars: Seq<char>, pos: int, run: Run)
    requires
        0 <= pos <= chars.len(),
    ensures
        pos <= run_end(chars, pos, run) <= chars.len(),
        forall|i: int| pos <= i < run_end(chars, pos, run) ==> in_run(run, #[trigger] chars[i]),
        run_end(chars, pos, run) < chars.len() ==> !in_run(
            run,
            chars[run_end(chars, pos, run)],
        ),
    decreases chars.len() - pos,
{
    if pos < chars.len() && in_run(run, chars[pos]) {
        lemma_run_end_bounds(chars, pos + 1, run);
    }
}

/// Every step consumes at least one character and stays inside the text.
pub proof fn lemma_step_advances(chars: Seq<char>, pos: int)
    requires
        0 <= pos < chars.len(),
    ensures
        pos < scan_step(chars, pos).end <= chars.len(),
{
    lemma_run_end_bounds(chars, pos + 1, Run::Quoted);
    lemma_run_end_bounds(chars, pos, Run::Word);
    lemma_run_end_bounds(chars, pos, Run::Digits);
    if pos + 2 <= chars.len() {
        lemma_run_end_bounds(chars, pos + 2, Run::Comment);
    }
    let whole = run_end(chars, pos, Run::Digits);
    if whole + 1 < chars.len() {
        lemma_run_end_bounds(chars, whole + 1, Run::Digits);
    }
}

/// A numeral is worth at least as much as each of its prefixes.
pub proof fn lemma_decimal_value_grows(chars: Seq<char>, from: int, mid: int, to: int)
    requires
        0 <= from <= mid <= to <= chars.len(),
        forall|i: int| from <= i < to ==> is_digit(#[trigger] chars[i]),
    ensures
        decimal_value(chars.subrange(from, mid)) <= decimal_value(chars.subrange(from, to)),
    decreases to - mid,
{
    if mid < to {
        lemma_decimal_value_grows(chars, from, mid, to - 1);
        assert(chars.subrange(from, to).drop_last() == chars.subrange(from, to - 1));
    }
}

/// Passing a character adds a line exactly when it is a line break.
pub proof fn lemma_line_step(chars: Seq<char>, pos: int)
    requires
        0 <= pos < chars.len(),
    ensures
        line_at(chars, pos + 1) == line_at(chars, pos) + if chars[pos] == '\n' {
            1nat
        } else {
            0nat
        },
{
}

/// There are no more lines than characters.
pub proof fn lemma_line_bound(chars: Seq<char>, pos: int)
    requires
        0 <= pos <= chars.len(),
    ensures
        line_at(chars, pos) <= pos + 1,
    decreases pos,
{
    if pos > 0 {
        lemma_line_bound(chars, pos - 1);
    }
}

/// No step finds an `Eof` token.
pub proof fn lemma_token_kinds(chars: Seq<char>, pos: int)
    requires
        0 <= pos < chars.len(),
    ensures
        scan_step(chars, pos).found != Found::Token(TokenType::Eof),
{
}

/// A run ends where its characters end.
pub proof fn lemma_run_end_is(chars: Seq<char>, from: int, to: int, run: Run)
    requires
        0 <= from <= to <= chars.len(),
        forall|i: int| from <= i < to ==> in_run(run, #[trigger] chars[i]),
        to < chars.len() ==> !in_run(run, chars[to]),
    ensures
        run_end(chars, from, run) == to,
    decreases to - from,
{
    if from < to {
        lemma_run_end_is(chars, from + 1, to, run);
    }
}

/// A text without line breaks is one line.
pub proof fn lemma_one_line(chars: Seq<char>, pos: int)
    requires
        0 <= pos <= chars.len(),
        forall|i: int| 0 <= i < pos ==> #[trigger] chars[i] != '\n',
    ensures
        line_at(chars, pos) == 1,
    decreases pos,
{
    if pos > 0 {
        lemma_one_line(chars, pos - 1);
    }
}

/// Whether `chars` is a numeral: one or more digits, alone (`whole` is the
/// length) or followed at `whole` by a point and one or more digits.
pub open spec fn is_numeral(chars: Seq<char>, whole: int) -> bool {
    &&& 0 < whole <= chars.len()
    &&& forall|i: int| 0 <= i < whole ==> is_digit(#[trigger] chars[i])
    &&& whole < chars.len() ==> {
        &&& chars[whole] == '.'
        &&& whole + 1 < chars.len()
        &&& forall|i: int| whole < i < chars.len() ==> is_digit(#[trigger] chars[i])
    }
}

/// A numeral scans to one `Number` token that spans the whole text, then
/// `Eof`. It denotes a `Float` exactly when it has a fractional part: then
/// its value is what the host parses the text to, and otherwise it is the
/// decimal value of the digits. A numeral without a fractional part must
/// be at most `i64::MAX`; a larger one is a lexical error.
pub proof fn lemma_numeral_scans<P, A, R>(
    host: FloatHost<P, A, R>,
    chars: Seq<char>,
    whole: int,
    tokens: Seq<Token>,
) where P: Fn(String) -> u64, A: Fn(Arithmetic, u64, u64) -> u64, R: Fn(u64) -> String
    requires
        is_numeral(chars, whole),
        whole == chars.len() ==> decimal_value(chars) <= i64::MAX,
        scan_spec(chars) matches Ok(lexemes) && tokens_match(host, tokens, lexemes),
    ensures
        tokens.len() == 2,
        tokens[0]@.ttype == TokenType::Number,
        tokens[0]@.lexeme == chars,
        tokens[0]@.line == 1,
        tokens[1]@.ttype == TokenType::Eof,
        whole == chars.len() ==> tokens[0]@.literal == SpecLiteral::Integer(
            decimal_value(chars) as i64,
        ),
        whole < chars.len() ==> (tokens[0]@.literal matches SpecLiteral::Float(bits)
            && host.parses(chars, bits)),
{
    let length = chars.len() as int;
    lemma_run_end_is(chars, 0, whole, Run::Digits);
    if whole < length {
        lemma_run_end_is(chars, whole + 1, length, Run::Digits);
        assert(chars.contains('.'));
    } else {
        assert forall|i: int| 0 <= i < length implies chars[i] != '.' by {
            assert(is_digit(chars[i]));
        }
    }
    assert(number_end(chars, 0) == length);
    assert(chars.subrange(0, length) == chars);
    assert forall|i: int| 0 <= i < length implies #[trigger] chars[i] != '\n' by {
        if i != whole {
            assert(is_digit(chars[i]));
        }
    }
    lemma_one_line(chars, length);
    let step = scan_step(chars, 0);
    assert(is_digit(chars[0]));
    assert(step == Step { found: Found::Token(TokenType::Number), end: length });
    let number = Lexeme { ttype: TokenType::Number, text: chars, line: 1 };
    let eof = Lexeme { ttype: TokenType::Eof, text: Seq::empty(), line: 1 };
    assert(scan_from(chars, length) == Ok::<Seq<Lexeme>, SpecLoxError>(seq![eof]));
    assert(scan_spec(chars) == Ok::<Seq<Lexeme>, SpecLoxError>(seq![number] + seq![eof]));
    let lexemes = seq![number] + seq![eof];
    assert(lexeme_of(tokens[0]@) == lexemes[0]);
    assert(lexeme_of(tokens[1]@) == lexemes[1]);
    assert(literal_matches(host, tokens[0]@));
}

/// `Eof` closes the tokens of every text that scans, and stands nowhere else
/// among them.
pub proof fn lemma_eof_last_and_once(chars: Seq<char>, pos: int)
    requires
        0 <= pos <= chars.len(),
        scan_from(chars, pos) is Ok,
    ensures
        ({
            let lexemes = scan_from(chars, pos)->Ok_0;
            &&& lexemes.len() > 0
            &&& forall|i: int|
                0 <= i < lexemes.len() ==> ((#[trigger] lexemes[i]).ttype == TokenType::Eof <==> i
                    == lexemes.len() - 1)
        }),
    decreases chars.len() - pos,
{
    if pos < chars.len() {
        lemma_step_advances(chars, pos);
        lemma_token_kinds(chars, pos);
        let step = scan_step(chars, pos);
        lemma_eof_last_and_once(chars, step.end);
        let rest = scan_from(chars, step.end)->Ok_0;
        if let Found::Token(ttype) = step.found {
            let lexemes = scan_from(chars, pos)->Ok_0;
            assert forall|i: int| 0 <= i < lexemes.len() implies ((#[trigger] lexemes[i]).ttype
                == TokenType::Eof <==> i == lexemes.len() - 1) by {
                if i > 0 {
                    assert(lexemes[i] == rest[i - 1]);
                }
            }
        }
    }
}

} // verus!
