//! Tokens, and the single-pass lexer that produces them from source text.

use crate::error::{Error, ErrorView};
use crate::scanning::{
    block_comment_at, column_at, comment_end, decimal_value, digits_end, identifier_end, is_digit,
    is_identifier_start, is_space, lemma_comment_end_bounds, lemma_decimal_value_grows,
    lemma_digits_end_bounds, lemma_line_bound, lemma_line_end_bounds, lemma_skip_spaces_bounds,
    lemma_skip_spaces_fixed, lemma_token_starts, line_at, line_comment_at, line_end, next_token_at,
    one_or_two, Scan, scan_string, scan_token, single_token, skip_spaces, skip_trivia, TokenView,
    word_token,
};
use crate::text::{chars_of, concat2, concat3, str_equal};
use vstd::prelude::*;
use vstd::string::*;

verus! {

/// A token.
#[derive(Debug, PartialEq)]
pub enum Token {
    // Keywords
    Value,
    Fn,
    Method,
    Validate,
    Normalize,
    Unique,
    True,
    False,
    Contains,
    Let,
    In,
    Match,
    Where,
    /// `=>`, in match arms
    Arrow,
    /// `->`, before a return type
    ReturnArrow,
    // Identifiers and literals
    Identifier(String),
    String(String),
    Integer(i64),
    // Punctuation
    LeftParen,
    RightParen,
    LeftBrace,
    RightBrace,
    Colon,
    Dot,
    Comma,
    // Comparison operators
    Equal,
    NotEqual,
    Less,
    Greater,
    LessEqual,
    GreaterEqual,
    /// `=`
    Assign,
    // Logical operators
    And,
    Or,
    Not,
    // Arithmetic operators
    Plus,
    Minus,
    Star,
    Slash,
    Percent,
    /// `|>`
    Pipeline,
    /// The end of the input
    Eof,
}

impl View for Token {
    type V = TokenView;

    open spec fn view(&self) -> TokenView {
        match self {
            Token::Value => TokenView::Value,
            Token::Fn => TokenView::Fn,
            Token::Method => TokenView::Method,
            Token::Validate => TokenView::Validate,
            Token::Normalize => TokenView::Normalize,
            Token::Unique => TokenView::Unique,
            Token::True => TokenView::True,
            Token::False => TokenView::False,
            Token::Contains => TokenView::Contains,
            Token::Let => TokenView::Let,
            Token::In => TokenView::In,
            Token::Match => TokenView::Match,
            Token::Where => TokenView::Where,
            Token::Arrow => TokenView::Arrow,
            Token::ReturnArrow => TokenView::ReturnArrow,
            Token::Identifier(s) => TokenView::Identifier(s@),
            Token::String(s) => TokenView::String(s@),
            Token::Integer(n) => TokenView::Integer(*n),
            Token::LeftParen => TokenView::LeftParen,
            Token::RightParen => TokenView::RightParen,
            Token::LeftBrace => TokenView::LeftBrace,
            Token::RightBrace => TokenView::RightBrace,
            Token::Colon => TokenView::Colon,
            Token::Dot => TokenView::Dot,
            Token::Comma => TokenView::Comma,
            Token::Equal => TokenView::Equal,
            Token::NotEqual => TokenView::NotEqual,
            Token::Less => TokenView::Less,
            Token::Greater => TokenView::Greater,
            Token::LessEqual => TokenView::LessEqual,
            Token::GreaterEqual => TokenView::GreaterEqual,
            Token::Assign => TokenView::Assign,
            Token::And => TokenView::And,
            Token::Or => TokenView::Or,
            Token::Not => TokenView::Not,
            Token::Plus => TokenView::Plus,
            Token::Minus => TokenView::Minus,
            Token::Star => TokenView::Star,
            Token::Slash => TokenView::Slash,
            Token::Percent => TokenView::Percent,
            Token::Pipeline => TokenView::Pipeline,
            Token::Eof => TokenView::Eof,
        }
    }
}

/// Whether two tokens are the same token.
pub fn token_equals(a: &Token, b: &Token) -> (r: bool)
    ensures
        r == (a@ == b@),
{
    match (a, b) {
        (Token::Value, Token::Value) => true,
        (Token::Fn, Token::Fn) => true,
        (Token::Method, Token::Method) => true,
        (Token::Validate, Token::Validate) => true,
        (Token::Normalize, Token::Normalize) => true,
        (Token::Unique, Token::Unique) => true,
        (Token::True, Token::True) => true,
        (Token::False, Token::False) => true,
        (Token::Contains, Token::Contains) => true,
        (Token::Let, Token::Let) => true,
        (Token::In, Token::In) => true,
        (Token::Match, Token::Match) => true,
        (Token::Where, Token::Where) => true,
        (Token::Arrow, Token::Arrow) => true,
        (Token::ReturnArrow, Token::ReturnArrow) => true,
        (Token::Identifier(x), Token::Identifier(y)) => str_equal(x.as_str(), y.as_str()),
        (Token::String(x), Token::String(y)) => str_equal(x.as_str(), y.as_str()),
        (Token::Integer(x), Token::Integer(y)) => *x == *y,
        (Token::LeftParen, Token::LeftParen) => true,
        (Token::RightParen, Token::RightParen) => true,
        (Token::LeftBrace, Token::LeftBrace) => true,
        (Token::RightBrace, Token::RightBrace) => true,
        (Token::Colon, Token::Colon) => true,
        (Token::Dot, Token::Dot) => true,
        (Token::Comma, Token::Comma) => true,
        (Token::Equal, Token::Equal) => true,
        (Token::NotEqual, Token::NotEqual) => true,
        (Token::Less, Token::Less) => true,
        (Token::Greater, Token::Greater) => true,
        (Token::LessEqual, Token::LessEqual) => true,
        (Token::GreaterEqual, Token::GreaterEqual) => true,
        (Token::Assign, Token::Assign) => true,
        (Token::And, Token::And) => true,
        (Token::Or, Token::Or) => true,
        (Token::Not, Token::Not) => true,
        (Token::Plus, Token::Plus) => true,
        (Token::Minus, Token::Minus) => true,
        (Token::Star, Token::Star) => true,
        (Token::Slash, Token::Slash) => true,
        (Token::Percent, Token::Percent) => true,
        (Token::Pipeline, Token::Pipeline) => true,
        (Token::Eof, Token::Eof) => true,
        _ => false,
    }
}

/// Whether the outcome `r` of a scan, and the position that the lexer is
/// left at, are what `scan` says: the token and its end, or the fault as a
/// lexer error at the line and column of the place it is reported at.
pub open spec fn delivered(src: Seq<char>, scan: Scan, r: Result<Token, Error>, position: int)
    -> bool {
    match scan {
        Scan::Token { token, start, end } => r matches Ok(t) && t@ == token && position == end,
        Scan::Fault { message, at } => r matches Err(e) && e@ == (ErrorView::Lexer {
            message,
            line: line_at(src, at),
            column: column_at(src, at),
        }),
    }
}

fn is_space_char(c: char) -> (r: bool)
    ensures
        r == is_space(c),
{
    let n = c as u32;
    (0x09 <= n && n <= 0x0d) || n == 0x20 || n == 0x85 || n == 0xa0 || n == 0x1680 || (0x2000
        <= n && n <= 0x200a) || n == 0x2028 || n == 0x2029 || n == 0x202f || n == 0x205f || n
        == 0x3000
}

fn is_identifier_start_char(c: char) -> (r: bool)
    ensures
        r == is_identifier_start(c),
{
    let n = c as u32;
    (0x41 <= n && n <= 0x5a) || (0x61 <= n && n <= 0x7a) || n == 0x5f
}

fn is_digit_char(c: char) -> (r: bool)
    ensures
        r == is_digit(c),
{
    let n = c as u32;
    0x30 <= n && n <= 0x39
}

/// The value of the digits at `from..to`, if it fits 64 signed bits.
fn parse_digits(chars: &Vec<char>, from: usize, to: usize) -> (r: Option<i64>)
    requires
        from <= to <= chars.len(),
        forall|k: int| from <= k < to ==> is_digit(#[trigger] chars@[k]),
    ensures
        match r {
            Some(n) => decimal_value(chars@.subrange(from as int, to as int)) == n,
            None => decimal_value(chars@.subrange(from as int, to as int)) > i64::MAX,
        },
{
    let ghost digits = chars@.subrange(from as int, to as int);
    let mut acc: u128 = 0;
    let mut k: usize = from;
    assert(digits.take(0) =~= Seq::<char>::empty());
    while k < to
        invariant
            from <= k <= to <= chars.len(),
            digits == chars@.subrange(from as int, to as int),
            forall|j: int| from <= j < to ==> is_digit(#[trigger] chars@[j]),
            forall|j: int| 0 <= j < digits.len() ==> is_digit(#[trigger] digits[j]),
            acc == decimal_value(digits.take(k - from)),
            acc <= i64::MAX,
        decreases to - k,
    {
        let c = chars[k];
        assert(is_digit(c));
        let d: u128 = (c as u32 - 0x30) as u128;
        proof {
            assert(digits[k - from] == chars@[k as int]);
            assert(is_digit(digits[k - from]));
            assert(digits.take(k - from + 1).drop_last() =~= digits.take(k - from));
            assert(digits.take(k - from + 1).last() == digits[k - from]);
        }
        let next: u128 = acc * 10 + d;
        if next > 9223372036854775807u128 {
            proof {
                lemma_decimal_value_grows(digits, k - from + 1);
            }
            return None;
        }
        acc = next;
        k = k + 1;
    }
    assert(digits.take(to - from) =~= digits);
    Some(acc as i64)
}

/// A pull lexer over a source text: each call of [`Lexer::next_token`]
/// yields the next token.
pub struct Lexer {
    input: String,
    chars: Vec<char>,
    position: usize,
    line: usize,
    column: usize,
    token_line: usize,
    token_column: usize,
}

impl Lexer {
    /// The source text.
    pub closed spec fn source(&self) -> Seq<char> {
        self.chars@
    }

    /// The position of the next character to read.
    pub closed spec fn position(&self) -> int {
        self.position as int
    }

    /// The line at which the token read last started.
    pub closed spec fn last_line(&self) -> nat {
        self.token_line as nat
    }

    /// The column at which the token read last started.
    pub closed spec fn last_column(&self) -> nat {
        self.token_column as nat
    }

    /// The lexer stands inside its source and knows its line and column.
    pub closed spec fn wf(&self) -> bool {
        &&& self.chars@ == self.input@
        &&& self.position <= self.chars.len()
        &&& self.line == line_at(self.chars@, self.position as int)
        &&& self.column == column_at(self.chars@, self.position as int)
    }

    /// A well-formed lexer stands inside its source.
    pub proof fn lemma_in_bounds(&self)
        requires
            self.wf(),
        ensures
            0 <= self.position() <= self.source().len(),
    {
    }

    /// A lexer at the start of `input`.
    pub fn new(input: String) -> (r: Lexer)
        ensures
            r.wf(),
            r.source() == input@,
            r.position() == 0,
    {
        let chars = chars_of(input.as_str());
        Lexer { input, chars, position: 0, line: 1, column: 0, token_line: 1, token_column: 0 }
    }

    /// The line at which the token read last started, counted from 1.
    pub fn token_line(&self) -> (r: usize)
        ensures
            r == self.last_line(),
    {
        self.token_line
    }

    /// The column at which the token read last started.
    pub fn token_column(&self) -> (r: usize)
        ensures
            r == self.last_column(),
    {
        self.token_column
    }

    fn at(&self, c: char) -> (r: bool)
        requires
            self.wf(),
        ensures
            r == (self.position() < self.source().len() && self.source()[self.position()] == c),
    {
        self.position < self.chars.len() && self.chars[self.position] == c
    }

    fn next_is(&self, c: char) -> (r: bool)
        requires
            self.wf(),
        ensures
            r == (self.position() + 1 < self.source().len() && self.source()[self.position() + 1]
                == c),
    {
        self.position < self.chars.len() && self.position + 1 < self.chars.len()
            && self.chars[self.position + 1] == c
    }

    fn fault(&self, message: String) -> (r: Error)
        requires
            self.wf(),
        ensures
            r@ == (ErrorView::Lexer {
                message: message@,
                line: line_at(self.source(), self.position()),
                column: column_at(self.source(), self.position()),
            }),
    {
        Error::lexer(message, self.line, self.column)
    }

    /// Moves one character on.
    fn advance(&mut self)
        requires
            old(self).wf(),
            old(self).position() < old(self).source().len(),
        ensures
            final(self).wf(),
            final(self).source() == old(self).source(),
            final(self).position() == old(self).position() + 1,
            final(self).last_line() == old(self).last_line(),
            final(self).last_column() == old(self).last_column(),
    {
        proof {
            lemma_line_bound(self.chars@, self.position as int);
            lemma_line_bound(self.chars@, self.position + 1);
        }
        self.position = self.position + 1;
        self.column = self.column + 1;
        if self.position < self.chars.len() && self.chars[self.position] == '\n' {
            self.line = self.line + 1;
            self.column = 0;
        }
    }

    /// Moves past white space.
    fn skip_whitespace(&mut self)
        requires
            old(self).wf(),
        ensures
            final(self).wf(),
            final(self).source() == old(self).source(),
            final(self).position() == skip_spaces(old(self).source(), old(self).position()),
            final(self).last_line() == old(self).last_line(),
            final(self).last_column() == old(self).last_column(),
    {
        while self.position < self.chars.len() && is_space_char(self.chars[self.position])
            invariant
                self.wf(),
                self.source() == old(self).source(),
                self.last_line() == old(self).last_line(),
                self.last_column() == old(self).last_column(),
                skip_spaces(self.source(), self.position()) == skip_spaces(
                    old(self).source(),
                    old(self).position(),
                ),
            decreases self.chars.len() - self.position,
        {
            self.advance();
        }
    }

    /// Moves to the end of the line.
    fn skip_line(&mut self)
        requires
            old(self).wf(),
        ensures
            final(self).wf(),
            final(self).source() == old(self).source(),
            final(self).position() == line_end(old(self).source(), old(self).position()),
            final(self).last_line() == old(self).last_line(),
            final(self).last_column() == old(self).last_column(),
    {
        while self.position < self.chars.len() && self.chars[self.position] != '\n'
            invariant
                self.wf(),
                self.source() == old(self).source(),
                self.last_line() == old(self).last_line(),
                self.last_column() == old(self).last_column(),
                line_end(self.source(), self.position()) == line_end(
                    old(self).source(),
                    old(self).position(),
                ),
            decreases self.chars.len() - self.position,
        {
            self.advance();
        }
    }

    /// Moves past a block comment that was entered just before the current
    /// position. Block comments nest.
    fn skip_multiline_comment(&mut self) -> (r: Result<(), Error>)
        requires
            old(self).wf(),
        ensures
            final(self).wf(),
            final(self).source() == old(self).source(),
            final(self).last_line() == old(self).last_line(),
            final(self).last_column() == old(self).last_column(),
            match comment_end(old(self).source(), old(self).position(), 1) {
                Some(q) => r is Ok && final(self).position() == q,
                None => r matches Err(e) && e@ == (ErrorView::Lexer {
                    message: "Unterminated multi-line comment"@,
                    line: line_at(old(self).source(), old(self).source().len() as int),
                    column: column_at(old(self).source(), old(self).source().len() as int),
                }),
            },
    {
        let mut depth: usize = 1;
        while depth > 0 && self.position < self.chars.len()
            invariant
                self.wf(),
                self.source() == old(self).source(),
                self.last_line() == old(self).last_line(),
                self.last_column() == old(self).last_column(),
                depth <= self.position + 1,
                comment_end(self.source(), self.position(), depth as nat) == comment_end(
                    old(self).source(),
                    old(self).position(),
                    1,
                ),
            decreases self.chars.len() - self.position,
        {
            if self.at('*') {
                if self.next_is('/') {
                    self.advance();
                    self.advance();
                    depth = depth - 1;
                } else {
                    self.advance();
                }
            } else if self.at('/') {
                if self.next_is('*') {
                    self.advance();
                    self.advance();
                    depth = depth + 1;
                } else {
                    self.advance();
                }
            } else {
                self.advance();
            }
        }
        if depth > 0 {
            Err(self.fault(String::from_str("Unterminated multi-line comment")))
        } else {
            Ok(())
        }
    }

    /// Moves to the next token: past white space and comments.
    fn skip_to_token(&mut self) -> (r: Result<(), Error>)
        requires
            old(self).wf(),
        ensures
            final(self).wf(),
            final(self).source() == old(self).source(),
            final(self).last_line() == old(self).last_line(),
            final(self).last_column() == old(self).last_column(),
            match skip_trivia(old(self).source(), old(self).position()) {
                Some(p) => r is Ok && final(self).position() == p && p <= final(self).source().len()
                    && !line_comment_at(final(self).source(), p) && !block_comment_at(
                    final(self).source(),
                    p,
                ) && !(p < final(self).source().len() && is_space(final(self).source()[p])),
                None => r matches Err(e) && e@ == (ErrorView::Lexer {
                    message: "Unterminated multi-line comment"@,
                    line: line_at(old(self).source(), old(self).source().len() as int),
                    column: column_at(old(self).source(), old(self).source().len() as int),
                }),
            },
    {
        loop
            invariant
                self.wf(),
                self.source() == old(self).source(),
                self.last_line() == old(self).last_line(),
                self.last_column() == old(self).last_column(),
                skip_trivia(self.source(), self.position()) == skip_trivia(
                    old(self).source(),
                    old(self).position(),
                ),
            decreases self.chars.len() - self.position,
        {
            let ghost before = self.position();
            proof {
                lemma_skip_spaces_bounds(self.source(), before);
            }
            self.skip_whitespace();
            if self.at('/') && self.next_is('/') {
                self.advance();
                self.advance();
                self.skip_line();
                proof {
                    lemma_line_end_bounds(self.source(), skip_spaces(self.source(), before) + 2);
                }
            } else if self.at('/') && self.next_is('*') {
                self.advance();
                self.advance();
                proof {
                    lemma_comment_end_bounds(
                        self.source(),
                        skip_spaces(self.source(), before) + 2,
                        1,
                    );
                }
                match self.skip_multiline_comment() {
                    Ok(_) => {},
                    Err(e) => {
                        return Err(e);
                    },
                }
            } else {
                proof {
                    let p = self.position();
                    if p < self.source().len() && is_space(self.source()[p]) {
                        lemma_skip_spaces_fixed(self.source(), before);
                    }
                }
                return Ok(());
            }
        }
    }
}

fn word_to_token(text: &str) -> (r: Token)
    ensures
        r@ == word_token(text@),
{
    if str_equal(text, "value") {
        Token::Value
    } else if str_equal(text, "fn") {
        Token::Fn
    } else if str_equal(text, "method") {
        Token::Method
    } else if str_equal(text, "validate") {
        Token::Validate
    } else if str_equal(text, "normalize") {
        Token::Normalize
    } else if str_equal(text, "unique") {
        Token::Unique
    } else if str_equal(text, "true") {
        Token::True
    } else if str_equal(text, "false") {
        Token::False
    } else if str_equal(text, "contains") {
        Token::Contains
    } else if str_equal(text, "let") {
        Token::Let
    } else if str_equal(text, "in") {
        Token::In
    } else if str_equal(text, "match") {
        Token::Match
    } else if str_equal(text, "where") {
        Token::Where
    } else {
        Token::Identifier(String::from_str(text))
    }
}

impl Lexer {
    /// Reads the word at the current position: a keyword or an identifier.
    fn read_identifier(&mut self) -> (r: Result<Token, Error>)
        requires
            old(self).wf(),
        ensures
            final(self).wf(),
            final(self).source() == old(self).source(),
            final(self).last_line() == old(self).last_line(),
            final(self).last_column() == old(self).last_column(),
            ({
                let src = old(self).source();
                let p = old(self).position();
                let end = identifier_end(src, p);
                delivered(
                    src,
                    Scan::Token { token: word_token(src.subrange(p, end)), start: p, end },
                    r,
                    final(self).position(),
                )
            }),
    {
        let start = self.position;
        while self.position < self.chars.len() && (is_identifier_start_char(
            self.chars[self.position],
        ) || is_digit_char(self.chars[self.position]))
            invariant
                self.wf(),
                self.source() == old(self).source(),
                self.last_line() == old(self).last_line(),
                self.last_column() == old(self).last_column(),
                start <= self.position,
                identifier_end(self.source(), self.position()) == identifier_end(
                    old(self).source(),
                    old(self).position(),
                ),
            decreases self.chars.len() - self.position,
        {
            self.advance();
        }
        let text = self.input.as_str().substring_char(start, self.position);
        Ok(word_to_token(text))
    }

    /// Reads the integer literal at the current position.
    fn read_number(&mut self) -> (r: Result<Token, Error>)
        requires
            old(self).wf(),
        ensures
            final(self).wf(),
            final(self).source() == old(self).source(),
            final(self).last_line() == old(self).last_line(),
            final(self).last_column() == old(self).last_column(),
            ({
                let src = old(self).source();
                let p = old(self).position();
                let end = digits_end(src, p);
                let value = decimal_value(src.subrange(p, end));
                delivered(
                    src,
                    if value <= i64::MAX {
                        Scan::Token { token: TokenView::Integer(value as i64), start: p, end }
                    } else {
                        Scan::Fault { message: "Invalid number: "@ + src.subrange(p, end), at: p }
                    },
                    r,
                    final(self).position(),
                )
            }),
    {
        let start = self.position;
        let start_line = self.line;
        let start_column = self.column;
        proof {
            lemma_digits_end_bounds(self.source(), self.position());
        }
        while self.position < self.chars.len() && is_digit_char(self.chars[self.position])
            invariant
                self.wf(),
                self.source() == old(self).source(),
                self.last_line() == old(self).last_line(),
                self.last_column() == old(self).last_column(),
                start <= self.position,
                digits_end(self.source(), self.position()) == digits_end(
                    old(self).source(),
                    old(self).position(),
                ),
            decreases self.chars.len() - self.position,
        {
            self.advance();
        }
        match parse_digits(&self.chars, start, self.position) {
            Some(n) => Ok(Token::Integer(n)),
            None => {
                let text = self.input.as_str().substring_char(start, self.position);
                Err(Error::lexer(concat2("Invalid number: ", text), start_line, start_column))
            },
        }
    }

    /// Reads the string literal whose opening quote is at the current
    /// position.
    fn read_string(&mut self) -> (r: Result<Token, Error>)
        requires
            old(self).wf(),
            old(self).position() < old(self).source().len(),
        ensures
            final(self).wf(),
            final(self).source() == old(self).source(),
            final(self).last_line() == old(self).last_line(),
            final(self).last_column() == old(self).last_column(),
            ({
                let src = old(self).source();
                let p = old(self).position();
                delivered(src, scan_string(src, p, p + 1, p + 1), r, final(self).position())
            }),
    {
        let ghost quote = self.position();
        self.advance();
        let start = self.position;
        loop
            invariant
                self.wf(),
                self.source() == old(self).source(),
                self.last_line() == old(self).last_line(),
                self.last_column() == old(self).last_column(),
                quote == old(self).position(),
                start == quote + 1,
                start <= self.position,
                scan_string(self.source(), quote, start as int, self.position()) == scan_string(
                    old(self).source(),
                    quote,
                    quote + 1,
                    quote + 1,
                ),
            decreases self.chars.len() - self.position,
        {
            if self.position >= self.chars.len() {
                return Err(self.fault(String::from_str("Unclosed string literal")));
            }
            let c = self.chars[self.position];
            if c == '"' {
                let text = self.input.as_str().substring_char(start, self.position);
                let token = Token::String(String::from_str(text));
                self.advance();
                return Ok(token);
            } else if c == '\\' {
                self.advance();
                if self.position >= self.chars.len() {
                    return Err(self.fault(String::from_str("Unexpected end of string")));
                }
                self.advance();
            } else {
                self.advance();
            }
        }
    }

    fn single(&mut self, token: Token) -> (r: Result<Token, Error>)
        requires
            old(self).wf(),
            old(self).position() < old(self).source().len(),
        ensures
            final(self).wf(),
            final(self).source() == old(self).source(),
            final(self).last_line() == old(self).last_line(),
            final(self).last_column() == old(self).last_column(),
            delivered(
                old(self).source(),
                single_token(old(self).position(), token@),
                r,
                final(self).position(),
            ),
    {
        self.advance();
        Ok(token)
    }

    fn pair(&mut self, second: char, long: Token, short: Token) -> (r: Result<Token, Error>)
        requires
            old(self).wf(),
            old(self).position() < old(self).source().len(),
        ensures
            final(self).wf(),
            final(self).source() == old(self).source(),
            final(self).last_line() == old(self).last_line(),
            final(self).last_column() == old(self).last_column(),
            delivered(
                old(self).source(),
                one_or_two(old(self).source(), old(self).position(), second, long@, short@),
                r,
                final(self).position(),
            ),
    {
        if self.next_is(second) {
            self.advance();
            self.advance();
            Ok(long)
        } else {
            self.advance();
            Ok(short)
        }
    }

    /// Reads the token at the current position, which holds neither white
    /// space nor the start of a comment.
    fn read_token(&mut self) -> (r: Result<Token, Error>)
        requires
            old(self).wf(),
            old(self).position() < old(self).source().len(),
        ensures
            final(self).wf(),
            final(self).source() == old(self).source(),
            final(self).last_line() == old(self).last_line(),
            final(self).last_column() == old(self).last_column(),
            delivered(
                old(self).source(),
                scan_token(old(self).source(), old(self).position()),
                r,
                final(self).position(),
            ),
    {
        let c = self.chars[self.position];
        if c == '(' {
            self.single(Token::LeftParen)
        } else if c == ')' {
            self.single(Token::RightParen)
        } else if c == '{' {
            self.single(Token::LeftBrace)
        } else if c == '}' {
            self.single(Token::RightBrace)
        } else if c == ':' {
            self.single(Token::Colon)
        } else if c == '.' {
            self.single(Token::Dot)
        } else if c == ',' {
            self.single(Token::Comma)
        } else if c == '+' {
            self.single(Token::Plus)
        } else if c == '*' {
            self.single(Token::Star)
        } else if c == '/' {
            self.single(Token::Slash)
        } else if c == '%' {
            self.single(Token::Percent)
        } else if c == '-' {
            self.pair('>', Token::ReturnArrow, Token::Minus)
        } else if c == '=' {
            if self.next_is('>') {
                self.advance();
                self.advance();
                Ok(Token::Arrow)
            } else {
                self.pair('=', Token::Equal, Token::Assign)
            }
        } else if c == '!' {
            self.pair('=', Token::NotEqual, Token::Not)
        } else if c == '<' {
            self.pair('=', Token::LessEqual, Token::Less)
        } else if c == '>' {
            self.pair('=', Token::GreaterEqual, Token::Greater)
        } else if c == '&' {
            if self.next_is('&') {
                self.advance();
                self.advance();
                Ok(Token::And)
            } else {
                self.advance();
                Err(self.fault(String::from_str("Unexpected character '&', did you mean '&&'?")))
            }
        } else if c == '|' {
            if self.next_is('|') {
                self.advance();
                self.advance();
                Ok(Token::Or)
            } else if self.next_is('>') {
                self.advance();
                self.advance();
                Ok(Token::Pipeline)
            } else {
                self.advance();
                Err(
                    self.fault(
                        String::from_str("Unexpected character '|', did you mean '||' or '|>'?"),
                    ),
                )
            }
        } else if c == '"' {
            self.read_string()
        } else if is_identifier_start_char(c) {
            self.read_identifier()
        } else if is_digit_char(c) {
            self.read_number()
        } else {
            let text = self.input.as_str().substring_char(self.position, self.position + 1);
            assert(text@ =~= seq![c]);
            Err(self.fault(concat3("Unexpected character '", text, "'")))
        }
    }

    /// The next token of the input, or the lexer error that stands in its
    /// way. At the end of the input the token is `Eof`, again and again.
    pub fn next_token(&mut self) -> (r: Result<Token, Error>)
        requires
            old(self).wf(),
        ensures
            final(self).wf(),
            final(self).source() == old(self).source(),
            delivered(
                old(self).source(),
                next_token_at(old(self).source(), old(self).position()),
                r,
                final(self).position(),
            ),
            next_token_at(old(self).source(), old(self).position()) matches Scan::Token {
                start,
                ..
            } ==> {
                &&& final(self).last_line() == line_at(old(self).source(), start)
                &&& final(self).last_column() == column_at(old(self).source(), start)
            },
    {
        match self.skip_to_token() {
            Ok(_) => {},
            Err(e) => {
                return Err(e);
            },
        }
        self.token_line = self.line;
        self.token_column = self.column;
        if self.position >= self.chars.len() {
            return Ok(Token::Eof);
        }
        let ghost p = self.position();
        let r = self.read_token();
        proof {
            lemma_token_starts(self.source(), p);
        }
        r
    }
}

} // verus!
