//! The scanner: source text to tokens.
//!
//! [`Scanner::scan`] computes the tokens that the lexical structure of the
//! language gives a text. The value of a fractional number literal is
//! obtained from the [`FloatHost`]; everything else is fixed by the text
//! alone.

use vstd::prelude::*;
use vstd::string::*;
use vstd::hash_map::StringHashMap;
use crate::error::{ErrorKind, LoxError, SpecErrorKind, SpecLoxError};
use crate::float::{Arithmetic, FloatHost};
use crate::lexical::{
    decimal_value,
    in_run,
    is_alpha,
    is_alpha_numeric,
    is_digit,
    is_fraction,
    keyword_map,
    lemma_decimal_value_grows,
    lemma_eof_last_and_once,
    lemma_line_bound,
    lemma_line_step,
    lemma_run_end_bounds,
    lemma_step_advances,
    lexeme_of,
    lexemes_of,
    lexical_error,
    line_at,
    literal_matches,
    literal_of,
    number_end,
    prepend,
    run_end,
    scan_from,
    scan_spec,
    scan_step,
    tokens_match,
    word_kind,
    Found,
    Lexeme,
    Run,
};
use crate::text::{chars_of, string_of};
use crate::token::{SpecToken, Token};
use crate::token_type::{Literal, SpecLiteral, TokenType};

verus! {

/// The value of the numeral `digits[from..to]`, if an `i64` can hold it.
fn integer_value(digits: &Vec<char>, from: usize, to: usize) -> (value: Option<i64>)
    requires
        from <= to <= digits.len(),
        forall|i: int| from <= i < to ==> is_digit(#[trigger] digits[i]),
    ensures
        match value {
            Some(v) => v == decimal_value(digits@.subrange(from as int, to as int)),
            None => decimal_value(digits@.subrange(from as int, to as int)) > i64::MAX,
        },
{
    let mut acc: i64 = 0;
    let mut i: usize = from;
    while i < to
        invariant
            from <= i <= to <= digits.len(),
            forall|k: int| from <= k < to ==> is_digit(#[trigger] digits[k]),
            0 <= acc,
            acc == decimal_value(digits@.subrange(from as int, i as int)),
        decreases to - i,
    {
        let d: i64 = ((digits[i] as u32) - ('0' as u32)) as i64;
        proof {
            let longer = digits@.subrange(from as int, i + 1);
            assert(longer.drop_last() == digits@.subrange(from as int, i as int));
            assert(decimal_value(longer) == 10 * acc + d);
            lemma_decimal_value_grows(digits@, from as int, i + 1, to as int);
        }
        if acc > (i64::MAX - d) / 10 {
            return None;
        }
        acc = acc * 10 + d;
        i += 1;
    }
    Some(acc)
}

/// The state of one pass over the text: the tokens found so far, where the
/// lexeme being scanned starts, the next character to read, and its line.
struct Cursor {
    tokens: Vec<Token>,
    start: usize,
    current: usize,
    line: usize,
}

impl Cursor {
    /// The cursor is inside `chars`, and its line is that of its position.
    spec fn within(&self, chars: Seq<char>) -> bool {
        &&& self.start <= self.current <= chars.len()
        &&& self.line == line_at(chars, self.current as int)
    }

    /// The cursor has moved to `end`, on the same lexeme, and has found the
    /// same tokens as `before`.
    spec fn moved(&self, before: Cursor, end: int) -> bool {
        &&& self.start == before.start
        &&& self.current == end
        &&& self.tokens == before.tokens
    }

    /// The cursor stands where `before` stood, on the same line, and has
    /// found one more token, `token`.
    spec fn emitted(&self, before: Cursor, token: SpecToken) -> bool {
        &&& self.start == before.start
        &&& self.current == before.current
        &&& self.line == before.line
        &&& self.tokens@.len() == before.tokens@.len() + 1
        &&& self.tokens@.drop_last() == before.tokens@
        &&& self.tokens@.last()@ == token
    }
}

/// Turns source text into tokens.
pub struct Scanner {
    source_chars: Vec<char>,
    keywords: StringHashMap<TokenType>,
}

impl Scanner {
    #[verifier::type_invariant]
    spec fn well_formed(&self) -> bool {
        &&& self.keywords@ == keyword_map()
        &&& self.source_chars.len() < usize::MAX
    }

    /// The text that this scanner reads.
    pub closed spec fn source(&self) -> Seq<char> {
        self.source_chars@
    }

    /// A scanner for `source`. The text must leave room to count its lines.
    pub fn new(source: String) -> (scanner: Self)
        requires
            source@.len() < usize::MAX,
        ensures
            scanner.source() == source@,
    {
        Scanner { source_chars: chars_of(source.as_str()), keywords: Self::init_keywords() }
    }

    fn init_keywords() -> (keywords: StringHashMap<TokenType>)
        ensures
            keywords@ == keyword_map(),
    {
        let mut keywords: StringHashMap<TokenType> = StringHashMap::new();
        keywords.insert(String::from_str("and"), TokenType::And);
        keywords.insert(String::from_str("class"), TokenType::Class);
        keywords.insert(String::from_str("else"), TokenType::Else);
        keywords.insert(String::from_str("false"), TokenType::False);
        keywords.insert(String::from_str("for"), TokenType::For);
        keywords.insert(String::from_str("fun"), TokenType::Fun);
        keywords.insert(String::from_str("if"), TokenType::If);
        keywords.insert(String::from_str("nil"), TokenType::Nil);
        keywords.insert(String::from_str("or"), TokenType::Or);
        keywords.insert(String::from_str("print"), TokenType::Print);
        keywords.insert(String::from_str("return"), TokenType::Return);
        keywords.insert(String::from_str("super"), TokenType::Super);
        keywords.insert(String::from_str("this"), TokenType::This);
        keywords.insert(String::from_str("true"), TokenType::True);
        keywords.insert(String::from_str("var"), TokenType::Var);
        keywords.insert(String::from_str("while"), TokenType::While);
        keywords
    }

    /// Scans the whole text.
    ///
    /// On success the tokens are exactly those of [`scan_spec`], each with the
    /// value it denotes, so `Eof` comes last and nowhere else. On failure the
    /// error is the first lexical error of the text.
    pub fn scan<P, A, R>(&self, host: &FloatHost<P, A, R>) -> (result: Result<
        Vec<Token>,
        LoxError,
    >) where P: Fn(String) -> u64, A: Fn(Arithmetic, u64, u64) -> u64, R: Fn(u64) -> String
        requires
            host.can_parse(),
        ensures
            match result {
                Ok(tokens) => {
                    &&& scan_spec(self.source()) matches Ok(lexemes)
                    &&& tokens_match(*host, tokens@, lexemes)
                    &&& tokens.len() > 0
                    &&& forall|i: int|
                        0 <= i < tokens.len() ==> ((#[trigger] tokens[i]).ttype == TokenType::Eof
                            <==> i == tokens.len() - 1)
                },
                Err(error) => scan_spec(self.source()) == Err::<Seq<Lexeme>, SpecLoxError>(
                    error@,
                ),
            },
    {
        let mut cursor = Cursor { tokens: Vec::new(), start: 0, current: 0, line: 1 };
        let ghost chars = self.source();
        while !self.end_of_source(&cursor)
            invariant
                chars == self.source(),
                host.can_parse(),
                cursor.within(chars),
                scan_spec(chars) == prepend(
                    lexemes_of(cursor.tokens@),
                    scan_from(chars, cursor.current as int),
                ),
                forall|i: int|
                    0 <= i < cursor.tokens.len() ==> literal_matches(
                        *host,
                        #[trigger] cursor.tokens[i]@,
                    ),
            decreases chars.len() - cursor.current,
        {
            cursor.start = cursor.current;
            let ghost before = cursor;
            let ghost step = scan_step(chars, cursor.start as int);
            proof {
                lemma_step_advances(chars, cursor.start as int);
            }
            self.scan_token(&mut cursor, host)?;
            proof {
                if step.found is Token {
                    let lexeme = lexeme_of(cursor.tokens@.last()@);
                    assert(lexemes_of(cursor.tokens@) == lexemes_of(before.tokens@).push(lexeme));
                    if let Ok(rest) = scan_from(chars, step.end) {
                        assert(lexemes_of(before.tokens@) + (seq![lexeme] + rest) == lexemes_of(
                            cursor.tokens@,
                        ) + rest);
                    }
                    assert forall|i: int| 0 <= i < cursor.tokens.len() implies literal_matches(
                        *host,
                        #[trigger] cursor.tokens[i]@,
                    ) by {
                        if i < before.tokens.len() {
                            assert(cursor.tokens[i] == cursor.tokens@.drop_last()[i]);
                        }
                    }
                } else {
                    assert(cursor.tokens@ == before.tokens@);
                }
            }
        }
        let ghost body = cursor.tokens@;
        let eof = Token::new(TokenType::Eof, String::from_str(""), Literal::Nil, cursor.line);
        proof {
            reveal_strlit("");
            assert(eof@.lexeme == Seq::<char>::empty());
            assert(eof@.literal == literal_of(eof@.ttype, eof@.lexeme, 0));
        }
        cursor.tokens.push(eof);
        proof {
            let lexemes = scan_spec(chars)->Ok_0;
            assert(lexemes_of(cursor.tokens@) == lexemes_of(body).push(lexeme_of(eof@)));
            assert(lexemes == lexemes_of(cursor.tokens@));
            assert forall|i: int| 0 <= i < cursor.tokens.len() implies lexeme_of(
                #[trigger] cursor.tokens[i]@,
            ) == lexemes[i] && literal_matches(*host, cursor.tokens[i]@) by {
                if i < body.len() {
                    assert(cursor.tokens[i] == body[i]);
                }
            }
            lemma_eof_last_and_once(chars, 0);
            assert forall|i: int| 0 <= i < cursor.tokens.len() implies (
                (#[trigger] cursor.tokens[i]).ttype == TokenType::Eof <==> i
                    == cursor.tokens.len() - 1
            ) by {
                assert(lexeme_of(cursor.tokens[i]@) == lexemes[i]);
            }
        }
        Ok(cursor.tokens)
    }

    /// What [`Scanner::scan_token`] does to the cursor: the step that
    /// [`scan_step`] describes.
    spec fn stepped<P, A, R>(
        &self,
        before: Cursor,
        after: Cursor,
        host: FloatHost<P, A, R>,
        result: Result<(), LoxError>,
    ) -> bool where P: Fn(String) -> u64, A: Fn(Arithmetic, u64, u64) -> u64, R: Fn(u64) -> String {
        let chars = self.source();
        let step = scan_step(chars, before.start as int);
        let line = line_at(chars, step.end);
        let text = chars.subrange(before.start as int, step.end);
        match step.found {
            Found::Fault(kind) => result matches Err(error) && error@ == lexical_error(
                kind,
                line,
                text,
            ),
            Found::Nothing => {
                &&& result is Ok
                &&& after.within(chars)
                &&& after.moved(before, step.end)
            },
            Found::Token(ttype) => {
                &&& result is Ok
                &&& after.within(chars)
                &&& after.current == step.end
                &&& after.tokens@.len() == before.tokens@.len() + 1
                &&& after.tokens@.drop_last() == before.tokens@
                &&& lexeme_of(after.tokens@.last()@) == Lexeme { ttype, text, line }
                &&& literal_matches(host, after.tokens@.last()@)
            },
        }
    }

    /// Scans one token, comment or blank at the cursor.
    fn scan_token<P, A, R>(&self, cursor: &mut Cursor, host: &FloatHost<P, A, R>) -> (result:
        Result<(), LoxError>) where
        P: Fn(String) -> u64,
        A: Fn(Arithmetic, u64, u64) -> u64,
        R: Fn(u64) -> String,

        requires
            host.can_parse(),
            old(cursor).within(self.source()),
            old(cursor).start == old(cursor).current < self.source().len(),
        ensures
            self.stepped(*old(cursor), *final(cursor), *host, result),
    {
        proof {
            use_type_invariant(self);
            lemma_step_advances(self.source(), cursor.start as int);
            lemma_line_bound(self.source(), cursor.start as int);
        }
        let ghost chars = self.source();
        let ghost start = cursor.start as int;
        let c = self.advance(cursor);
        let result = match c {
            '(' => self.put_token(cursor, TokenType::LeftParen),
            ')' => self.put_token(cursor, TokenType::RightParen),
            '{' => self.put_token(cursor, TokenType::LeftBrace),
            '}' => self.put_token(cursor, TokenType::RightBrace),
            ',' => self.put_token(cursor, TokenType::Comma),
            '.' => self.put_token(cursor, TokenType::Dot),
            '-' => self.put_token(cursor, TokenType::Minus),
            '+' => self.put_token(cursor, TokenType::Plus),
            ';' => self.put_token(cursor, TokenType::Semicolon),
            '*' => self.put_token(cursor, TokenType::Star),
            '!' => {
                let ttype = if self.next_match(cursor, '=') {
                    TokenType::BangEqual
                } else {
                    TokenType::Bang
                };
                self.put_token(cursor, ttype)
            },
            '=' => {
                let ttype = if self.next_match(cursor, '=') {
                    TokenType::EqualEqual
                } else {
                    TokenType::Equal
                };
                self.put_token(cursor, ttype)
            },
            '<' => {
                let ttype = if self.next_match(cursor, '=') {
                    TokenType::LessEqual
                } else {
                    TokenType::Less
                };
                self.put_token(cursor, ttype)
            },
            '>' => {
                let ttype = if self.next_match(cursor, '=') {
                    TokenType::GreaterEqual
                } else {
                    TokenType::Greater
                };
                self.put_token(cursor, ttype)
            },
            '/' => {
                if self.next_match(cursor, '/') {
                    self.advance_while(cursor, Run::Comment);
                    Ok(())
                } else if self.next_match(cursor, '*') {
                    Ok(())
                } else {
                    self.put_token(cursor, TokenType::Slash)
                }
            },
            ' ' | '\r' | '\t' => Ok(()),
            '\n' => {
                self.line_advance(cursor);
                Ok(())
            },
            '"' => self.string(cursor),
            _ => {
                if self.is_digit(c) {
                    self.number(cursor, host)
                } else if self.is_alpha(c) {
                    self.identifier(cursor)
                } else {
                    Err(
                        LoxError::with_kind(
                            ErrorKind::UnexpectedCharacter,
                            cursor.line,
                            None,
                            "Unexpected character.",
                        ),
                    )
                }
            },
        };
        proof {
            let step = scan_step(chars, start);
            if let Found::Token(ttype) = step.found {
                let token = cursor.tokens@.last()@;
                if ttype != TokenType::Number {
                    assert(token.literal == literal_of(token.ttype, token.lexeme, 0));
                }
            }
        }
        result
    }

    /// Scans the rest of a word and emits the keyword or identifier.
    fn identifier(&self, cursor: &mut Cursor) -> (result: Result<(), LoxError>)
        requires
            old(cursor).within(self.source()),
            old(cursor).start + 1 == old(cursor).current,
            is_alpha(self.source()[old(cursor).start as int]),
        ensures
            ({
                let chars = self.source();
                let end = run_end(chars, old(cursor).start as int, Run::Word);
                let text = chars.subrange(old(cursor).start as int, end);
                &&& result is Ok
                &&& final(cursor).within(chars)
                &&& final(cursor).current == end
                &&& final(cursor).tokens@.len() == old(cursor).tokens@.len() + 1
                &&& final(cursor).tokens@.drop_last() == old(cursor).tokens@
                &&& final(cursor).tokens@.last()@ == (SpecToken {
                    ttype: word_kind(text),
                    lexeme: text,
                    literal: SpecLiteral::Nil,
                    line: line_at(chars, end),
                })
            }),
    {
        proof {
            use_type_invariant(self);
        }
        self.advance_while(cursor, Run::Word);
        let text = string_of(&self.source_chars, cursor.start, cursor.current);
        let ttype = match self.keywords.get(text.as_str()) {
            Some(keyword) => *keyword,
            None => TokenType::Identifier,
        };
        self.put_token(cursor, ttype)
    }

    /// Scans the rest of a number and emits it with its value.
    fn number<P, A, R>(&self, cursor: &mut Cursor, host: &FloatHost<P, A, R>) -> (result: Result<
        (),
        LoxError,
    >) where P: Fn(String) -> u64, A: Fn(Arithmetic, u64, u64) -> u64, R: Fn(u64) -> String
        requires
            host.can_parse(),
            old(cursor).within(self.source()),
            old(cursor).start + 1 == old(cursor).current,
            is_digit(self.source()[old(cursor).start as int]),
        ensures
            ({
                let chars = self.source();
                let end = number_end(chars, old(cursor).start as int);
                let text = chars.subrange(old(cursor).start as int, end);
                let line = line_at(chars, end);
                if !is_fraction(text) && decimal_value(text) > i64::MAX {
                    result matches Err(error) && error@ == lexical_error(
                        SpecErrorKind::MalformedNumber,
                        line,
                        text,
                    )
                } else {
                    &&& result is Ok
                    &&& final(cursor).within(chars)
                    &&& final(cursor).current == end
                    &&& final(cursor).tokens@.len() == old(cursor).tokens@.len() + 1
                    &&& final(cursor).tokens@.drop_last() == old(cursor).tokens@
                    &&& lexeme_of(final(cursor).tokens@.last()@) == (Lexeme {
                        ttype: TokenType::Number,
                        text,
                        line,
                    })
                    &&& literal_matches(*host, final(cursor).tokens@.last()@)
                }
            }),
    {
        proof {
            use_type_invariant(self);
        }
        let ghost chars = self.source();
        self.advance_while(cursor, Run::Digits);
        let whole: usize = cursor.current;
        proof {
            lemma_run_end_bounds(chars, cursor.start as int, Run::Digits);
        }
        let fraction = self.peek(cursor) == '.' && self.is_digit(self.peek_next(cursor));
        if fraction {
            self.advance(cursor);
            self.advance_while(cursor, Run::Digits);
            proof {
                lemma_run_end_bounds(chars, whole + 1, Run::Digits);
            }
        }
        let ghost text = chars.subrange(cursor.start as int, cursor.current as int);
        let lexeme = string_of(&self.source_chars, cursor.start, cursor.current);
        if fraction {
            proof {
                assert(text[whole - cursor.start] == '.');
            }
            let bits: u64 = (host.parse)(lexeme);
            let result = self.put_token_with_literal(
                cursor,
                TokenType::Number,
                Literal::Float(bits),
            );
            proof {
                assert(host.parses(text, bits));
                assert(SpecLiteral::Float(bits) == literal_of(TokenType::Number, text, bits));
            }
            result
        } else {
            proof {
                assert forall|i: int| 0 <= i < text.len() implies text[i] != '.' by {
                    assert(is_digit(chars[cursor.start + i]));
                }
            }
            match integer_value(&self.source_chars, cursor.start, cursor.current) {
                Some(value) => {
                    let result = self.put_token_with_literal(
                        cursor,
                        TokenType::Number,
                        Literal::Integer(value),
                    );
                    proof {
                        assert(SpecLiteral::Integer(value) == literal_of(
                            TokenType::Number,
                            text,
                            0,
                        ));
                    }
                    result
                },
                None => {
                    let mut message = String::from_str("Failed to parse the value(");
                    message.append(lexeme.as_str());
                    message.append(") to integer. number too large to fit in target type");
                    Err(
                        LoxError::with_kind(
                            ErrorKind::MalformedNumber,
                            cursor.line,
                            None,
                            message.as_str(),
                        ),
                    )
                },
            }
        }
    }

    /// Scans the rest of a string literal and emits it with its text.
    fn string(&self, cursor: &mut Cursor) -> (result: Result<(), LoxError>)
        requires
            old(cursor).within(self.source()),
            old(cursor).start + 1 == old(cursor).current,
            self.source()[old(cursor).start as int] == '"',
        ensures
            ({
                let chars = self.source();
                let start = old(cursor).start as int;
                let close = run_end(chars, start + 1, Run::Quoted);
                if close >= chars.len() {
                    result matches Err(error) && error@ == lexical_error(
                        SpecErrorKind::UnterminatedString,
                        line_at(chars, close),
                        chars.subrange(start, close),
                    )
                } else {
                    &&& result is Ok
                    &&& final(cursor).within(chars)
                    &&& final(cursor).current == close + 1
                    &&& final(cursor).tokens@.len() == old(cursor).tokens@.len() + 1
                    &&& final(cursor).tokens@.drop_last() == old(cursor).tokens@
                    &&& final(cursor).tokens@.last()@ == (SpecToken {
                        ttype: TokenType::String,
                        lexeme: chars.subrange(start, close + 1),
                        literal: SpecLiteral::String(
                            chars.subrange(start, close + 1).subrange(1, close - start),
                        ),
                        line: line_at(chars, close + 1),
                    })
                }
            }),
    {
        proof {
            use_type_invariant(self);
        }
        let ghost chars = self.source();
        self.advance_while(cursor, Run::Quoted);
        proof {
            lemma_run_end_bounds(chars, old(cursor).current as int, Run::Quoted);
        }
        if self.end_of_source(cursor) {
            return Err(
                LoxError::with_kind(
                    ErrorKind::UnterminatedString,
                    cursor.line,
                    None,
                    "Unterminated string.",
                ),
            );
        }
        self.advance(cursor);
        let text = string_of(&self.source_chars, cursor.start + 1, cursor.current - 1);
        proof {
            let lexeme = chars.subrange(cursor.start as int, cursor.current as int);
            assert(text@ == lexeme.subrange(1, lexeme.len() - 1));
        }
        self.put_token_with_literal(cursor, TokenType::String, Literal::String(text))
    }

    /// Emits a token that denotes no value.
    fn put_token(&self, cursor: &mut Cursor, ttype: TokenType) -> (result: Result<(), LoxError>)
        requires
            old(cursor).within(self.source()),
        ensures
            result is Ok,
            final(cursor).emitted(
                *old(cursor),
                SpecToken {
                    ttype,
                    lexeme: self.source().subrange(
                        old(cursor).start as int,
                        old(cursor).current as int,
                    ),
                    literal: SpecLiteral::Nil,
                    line: old(cursor).line as nat,
                },
            ),
    {
        self.put_token_with_literal(cursor, ttype, Literal::Nil)
    }

    /// Emits a token of the text between `start` and `current`, on the
    /// current line.
    fn put_token_with_literal(&self, cursor: &mut Cursor, ttype: TokenType, literal: Literal)
        -> (result: Result<(), LoxError>)
        requires
            old(cursor).within(self.source()),
        ensures
            result is Ok,
            final(cursor).emitted(
                *old(cursor),
                SpecToken {
                    ttype,
                    lexeme: self.source().subrange(
                        old(cursor).start as int,
                        old(cursor).current as int,
                    ),
                    literal: literal@,
                    line: old(cursor).line as nat,
                },
            ),
    {
        let text = string_of(&self.source_chars, cursor.start, cursor.current);
        let token = Token::new(ttype, text, literal, cursor.line);
        cursor.tokens.push(token);
        proof {
            assert(cursor.tokens@.drop_last() == old(cursor).tokens@);
            assert(cursor.tokens@.last() == token);
        }
        Ok(())
    }

    /// Moves the cursor past the run of the given kind that starts at it,
    /// counting the lines it passes.
    fn advance_while(&self, cursor: &mut Cursor, run: Run)
        requires
            old(cursor).within(self.source()),
        ensures
            final(cursor).within(self.source()),
            final(cursor).moved(
                *old(cursor),
                run_end(self.source(), old(cursor).current as int, run),
            ),
    {
        proof {
            use_type_invariant(self);
        }
        loop
            invariant
                self.source_chars.len() < usize::MAX,
                cursor.within(self.source()),
                cursor.tokens == old(cursor).tokens,
                cursor.start == old(cursor).start,
                old(cursor).current <= cursor.current,
                run_end(self.source(), old(cursor).current as int, run) == run_end(
                    self.source(),
                    cursor.current as int,
                    run,
                ),
            ensures
                cursor.within(self.source()),
                cursor.moved(
                    *old(cursor),
                    run_end(self.source(), old(cursor).current as int, run),
                ),
            decreases self.source().len() - cursor.current,
        {
            if self.end_of_source(cursor) || !self.runs_on(&run, self.peek(cursor)) {
                break ;
            }
            proof {
                lemma_line_bound(self.source(), cursor.current as int);
            }
            if self.end_of_line(cursor) {
                self.line_advance(cursor);
            }
            self.advance(cursor);
        }
    }

    /// Whether `c` belongs to a run of the given kind.
    fn runs_on(&self, run: &Run, c: char) -> (r: bool)
        ensures
            r == in_run(*run, c),
    {
        match run {
            Run::Digits => self.is_digit(c),
            Run::Word => self.is_alpha_numeric(c),
            Run::Comment => c != '\n',
            Run::Quoted => c != '"',
        }
    }

    /// Reads the character at the cursor and moves past it. The line is
    /// the caller's to count.
    fn advance(&self, cursor: &mut Cursor) -> (c: char)
        requires
            old(cursor).start <= old(cursor).current < self.source().len(),
        ensures
            c == self.source()[old(cursor).current as int],
            final(cursor).moved(*old(cursor), old(cursor).current + 1),
            final(cursor).line == old(cursor).line,
            line_at(self.source(), final(cursor).current as int) == line_at(
                self.source(),
                old(cursor).current as int,
            ) + if c == '\n' {
                1nat
            } else {
                0nat
            },
    {
        let c = self.source_chars[cursor.current];
        assert(cursor.current < self.source_chars.len());
        proof {
            lemma_line_step(self.source(), cursor.current as int);
        }
        cursor.current = cursor.current + 1;
        c
    }

    /// Counts a line break.
    fn line_advance(&self, cursor: &mut Cursor)
        requires
            old(cursor).line < usize::MAX,
        ensures
            final(cursor).line == old(cursor).line + 1,
            final(cursor).moved(*old(cursor), old(cursor).current as int),
    {
        cursor.line = cursor.line + 1;
    }

    /// The character at the cursor; NUL at the end of the text.
    fn peek(&self, cursor: &Cursor) -> (c: char)
        requires
            cursor.current <= self.source().len(),
        ensures
            c == if cursor.current < self.source().len() {
                self.source()[cursor.current as int]
            } else {
                '\0'
            },
    {
        if self.end_of_source(cursor) {
            return '\0';
        }
        self.source_chars[cursor.current]
    }

    /// The character after the one at the cursor; NUL at the end of the
    /// text.
    fn peek_next(&self, cursor: &Cursor) -> (c: char)
        requires
            cursor.current <= self.source().len(),
        ensures
            c == if cursor.current + 1 < self.source().len() {
                self.source()[cursor.current + 1]
            } else {
                '\0'
            },
    {
        proof {
            use_type_invariant(self);
        }
        let next: usize = cursor.current + 1;
        if next >= self.source_chars.len() {
            return '\0';
        }
        self.source_chars[next]
    }

    /// Moves past the character at the cursor if it is `expected`, which is
    /// no line break.
    fn next_match(&self, cursor: &mut Cursor, expected: char) -> (matched: bool)
        requires
            old(cursor).within(self.source()),
            expected != '\n',
        ensures
            matched == (old(cursor).current < self.source().len() && self.source()[old(
                cursor,
            ).current as int] == expected),
            final(cursor).within(self.source()),
            final(cursor).moved(
                *old(cursor),
                if matched {
                    old(cursor).current + 1
                } else {
                    old(cursor).current as int
                },
            ),
    {
        if self.end_of_source(cursor) {
            return false;
        }
        if self.source_chars[cursor.current] != expected {
            return false;
        }
        self.advance(cursor);
        true
    }

    fn is_alpha_numeric(&self, c: char) -> (r: bool)
        ensures
            r == is_alpha_numeric(c),
    {
        self.is_alpha(c) || self.is_digit(c)
    }

    fn is_alpha(&self, c: char) -> (r: bool)
        ensures
            r == is_alpha(c),
    {
        (c >= 'a' && c <= 'z') || (c >= 'A' && c <= 'Z') || c == '_'
    }

    fn is_digit(&self, c: char) -> (r: bool)
        ensures
            r == is_digit(c),
    {
        c >= '0' && c <= '9'
    }

    fn end_of_line(&self, cursor: &Cursor) -> (r: bool)
        requires
            cursor.current <= self.source().len(),
        ensures
            r == (cursor.current < self.source().len() && self.source()[cursor.current as int]
                == '\n'),
    {
        self.peek(cursor) == '\n'
    }

    fn end_of_source(&self, cursor: &Cursor) -> (r: bool)
        ensures
            r == (cursor.current >= self.source().len()),
    {
        cursor.current >= self.source_chars.len()
    }
}

} // verus!
