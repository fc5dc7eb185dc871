//! The lexical rules of the language: where the tokens of a source text
//! start and end, what they are, and where the lexer stands by line and
//! column.

use vstd::prelude::*;

verus! {

/// The mathematical content of a [`Token`].
pub enum TokenView {
    Value,
    Fn,
    Method,
    Validate,
    Normalize,
    Unique,
    True,
    False,
    Contains,
    Let,
    In,
    Match,
    Where,
    Arrow,
    ReturnArrow,
    Identifier(Seq<char>),
    String(Seq<char>),
    Integer(i64),
    LeftParen,
    RightParen,
    LeftBrace,
    RightBrace,
    Colon,
    Dot,
    Comma,
    Equal,
    NotEqual,
    Less,
    Greater,
    LessEqual,
    GreaterEqual,
    Assign,
    And,
    Or,
    Not,
    Plus,
    Minus,
    Star,
    Slash,
    Percent,
    Pipeline,
    Eof,
}

/// White space: the characters with the Unicode property `White_Space`.
pub open spec fn is_space(c: char) -> bool {
    let n = c as u32;
    ||| 0x09 <= n <= 0x0d
    ||| n == 0x20
    ||| n == 0x85
    ||| n == 0xa0
    ||| n == 0x1680
    ||| 0x2000 <= n <= 0x200a
    ||| n == 0x2028
    ||| n == 0x2029
    ||| n == 0x202f
    ||| n == 0x205f
    ||| n == 0x3000
}

/// `[A-Za-z_]`
pub open spec fn is_identifier_start(c: char) -> bool {
    let n = c as u32;
    0x41 <= n <= 0x5a || 0x61 <= n <= 0x7a || n == 0x5f
}

/// `[0-9]`
pub open spec fn is_digit(c: char) -> bool {
    let n = c as u32;
    0x30 <= n <= 0x39
}

/// `[A-Za-z0-9_]`
pub open spec fn is_identifier_part(c: char) -> bool {
    is_identifier_start(c) || is_digit(c)
}

/// The line of the lexer when it stands at `pos`: lines count from 1, and a
/// line ends when the lexer arrives at a newline character.
pub open spec fn line_at(chars: Seq<char>, pos: int) -> nat
    decreases pos,
{
    if pos <= 0 {
        1
    } else if pos < chars.len() && chars[pos] == '\n' {
        line_at(chars, pos - 1) + 1
    } else {
        line_at(chars, pos - 1)
    }
}

/// The column of the lexer when it stands at `pos`: the number of
/// characters since the last newline that it arrived at.
pub open spec fn column_at(chars: Seq<char>, pos: int) -> nat
    decreases pos,
{
    if pos <= 0 {
        0
    } else if pos < chars.len() && chars[pos] == '\n' {
        0
    } else {
        column_at(chars, pos - 1) + 1
    }
}

/// The first position from `pos` on that holds no white space.
pub open spec fn skip_spaces(chars: Seq<char>, pos: int) -> int
    decreases chars.len() - pos,
{
    if 0 <= pos < chars.len() && is_space(chars[pos]) {
        skip_spaces(chars, pos + 1)
    } else {
        pos
    }
}

/// The first position from `pos` on that holds a newline, or the end.
pub open spec fn line_end(chars: Seq<char>, pos: int) -> int
    decreases chars.len() - pos,
{
    if 0 <= pos < chars.len() && chars[pos] != '\n' {
        line_end(chars, pos + 1)
    } else {
        pos
    }
}

/// The first position from `pos` on that holds no identifier character.
pub open spec fn identifier_end(chars: Seq<char>, pos: int) -> int
    decreases chars.len() - pos,
{
    if 0 <= pos < chars.len() && is_identifier_part(chars[pos]) {
        identifier_end(chars, pos + 1)
    } else {
        pos
    }
}

/// The first position from `pos` on that holds no digit.
pub open spec fn digits_end(chars: Seq<char>, pos: int) -> int
    decreases chars.len() - pos,
{
    if 0 <= pos < chars.len() && is_digit(chars[pos]) {
        digits_end(chars, pos + 1)
    } else {
        pos
    }
}

/// The position after a block comment, entered at `pos` with `depth`
/// comments open; `None` if the input ends inside the comment. Block
/// comments nest.
pub open spec fn comment_end(chars: Seq<char>, pos: int, depth: nat) -> Option<int>
    decreases chars.len() - pos,
{
    if depth == 0 {
        Some(pos)
    } else if pos < 0 || pos >= chars.len() {
        None
    } else if chars[pos] == '*' {
        if pos + 1 < chars.len() && chars[pos + 1] == '/' {
            comment_end(chars, pos + 2, (depth - 1) as nat)
        } else {
            comment_end(chars, pos + 1, depth)
        }
    } else if chars[pos] == '/' {
        if pos + 1 < chars.len() && chars[pos + 1] == '*' {
            comment_end(chars, pos + 2, depth + 1)
        } else {
            comment_end(chars, pos + 1, depth)
        }
    } else {
        comment_end(chars, pos + 1, depth)
    }
}

/// Skipping white space moves forward and stays inside the text.
pub proof fn lemma_skip_spaces_bounds(chars: Seq<char>, pos: int)
    requires
        0 <= pos <= chars.len(),
    ensures
        pos <= skip_spaces(chars, pos) <= chars.len(),
    decreases chars.len() - pos,
{
    if pos < chars.len() && is_space(chars[pos]) {
        lemma_skip_spaces_bounds(chars, pos + 1);
    }
}

/// The end of the line lies ahead, inside the text.
pub proof fn lemma_line_end_bounds(chars: Seq<char>, pos: int)
    requires
        0 <= pos <= chars.len(),
    ensures
        pos <= line_end(chars, pos) <= chars.len(),
    decreases chars.len() - pos,
{
    if pos < chars.len() && chars[pos] != '\n' {
        lemma_line_end_bounds(chars, pos + 1);
    }
}

/// The end of an identifier lies ahead, inside the text.
pub proof fn lemma_identifier_end_bounds(chars: Seq<char>, pos: int)
    requires
        0 <= pos <= chars.len(),
    ensures
        pos <= identifier_end(chars, pos) <= chars.len(),
    decreases chars.len() - pos,
{
    if pos < chars.len() && is_identifier_part(chars[pos]) {
        lemma_identifier_end_bounds(chars, pos + 1);
    }
}

/// The end of a run of digits lies ahead, inside the text, and the run holds
/// digits only.
pub proof fn lemma_digits_end_bounds(chars: Seq<char>, pos: int)
    requires
        0 <= pos <= chars.len(),
    ensures
        pos <= digits_end(chars, pos) <= chars.len(),
        forall|k: int| pos <= k < digits_end(chars, pos) ==> is_digit(#[trigger] chars[k]),
    decreases chars.len() - pos,
{
    if pos < chars.len() && is_digit(chars[pos]) {
        lemma_digits_end_bounds(chars, pos + 1);
    }
}

/// The end of a block comment lies ahead, inside the text.
pub proof fn lemma_comment_end_bounds(chars: Seq<char>, pos: int, depth: nat)
    requires
        0 <= pos <= chars.len(),
    ensures
        comment_end(chars, pos, depth) matches Some(q) ==> pos <= q <= chars.len(),
    decreases chars.len() - pos,
{
    if depth == 0 || pos >= chars.len() {
    } else if chars[pos] == '*' {
        if pos + 1 < chars.len() && chars[pos + 1] == '/' {
            lemma_comment_end_bounds(chars, pos + 2, (depth - 1) as nat);
        } else {
            lemma_comment_end_bounds(chars, pos + 1, depth);
        }
    } else if chars[pos] == '/' {
        if pos + 1 < chars.len() && chars[pos + 1] == '*' {
            lemma_comment_end_bounds(chars, pos + 2, depth + 1);
        } else {
            lemma_comment_end_bounds(chars, pos + 1, depth);
        }
    } else {
        lemma_comment_end_bounds(chars, pos + 1, depth);
    }
}

/// A line comment starts at `p`.
pub open spec fn line_comment_at(chars: Seq<char>, p: int) -> bool {
    0 <= p && p + 1 < chars.len() && chars[p] == '/' && chars[p + 1] == '/'
}

/// A block comment starts at `p`.
pub open spec fn block_comment_at(chars: Seq<char>, p: int) -> bool {
    0 <= p && p + 1 < chars.len() && chars[p] == '/' && chars[p + 1] == '*'
}

/// The position of the next token from `pos` on: after white space, line
/// comments (`//` to the end of the line) and nested block comments.
/// `None` if a block comment does not end.
pub open spec fn skip_trivia(chars: Seq<char>, pos: int) -> Option<int>
    decreases chars.len() - pos,
{
    if pos < 0 || pos > chars.len() {
        Some(pos)
    } else {
        let p = skip_spaces(chars, pos);
        if line_comment_at(chars, p) {
            let q = line_end(chars, p + 2);
            proof {
                lemma_skip_spaces_bounds(chars, pos);
                lemma_line_end_bounds(chars, p + 2);
            }
            skip_trivia(chars, q)
        } else if block_comment_at(chars, p) {
            match comment_end(chars, p + 2, 1) {
                None => None,
                Some(q) => {
                    proof {
                        lemma_skip_spaces_bounds(chars, pos);
                        lemma_comment_end_bounds(chars, p + 2, 1);
                    }
                    skip_trivia(chars, q)
                },
            }
        } else {
            Some(p)
        }
    }
}

/// The value of a run of decimal digits.
pub open spec fn decimal_value(digits: Seq<char>) -> nat
    decreases digits.len(),
{
    if digits.len() == 0 {
        0
    } else {
        10 * decimal_value(digits.drop_last()) + ((digits.last() as u32 - 0x30) as nat)
    }
}

/// The keyword that a word spells, or else the identifier that it is.
pub open spec fn word_token(text: Seq<char>) -> TokenView {
    if text == "value"@ {
        TokenView::Value
    } else if text == "fn"@ {
        TokenView::Fn
    } else if text == "method"@ {
        TokenView::Method
    } else if text == "validate"@ {
        TokenView::Validate
    } else if text == "normalize"@ {
        TokenView::Normalize
    } else if text == "unique"@ {
        TokenView::Unique
    } else if text == "true"@ {
        TokenView::True
    } else if text == "false"@ {
        TokenView::False
    } else if text == "contains"@ {
        TokenView::Contains
    } else if text == "let"@ {
        TokenView::Let
    } else if text == "in"@ {
        TokenView::In
    } else if text == "match"@ {
        TokenView::Match
    } else if text == "where"@ {
        TokenView::Where
    } else {
        TokenView::Identifier(text)
    }
}

/// What the lexer finds at a position: a token with the positions where it
/// starts and ends, or a fault with the position that it is reported at.
pub enum Scan {
    Token { token: TokenView, start: int, end: int },
    Fault { message: Seq<char>, at: int },
}

/// The string literal whose content starts at `start`, scanned from `pos`:
/// it ends at the first quote that no backslash precedes. The content is
/// kept as written, backslashes included.
pub open spec fn scan_string(chars: Seq<char>, quote: int, start: int, pos: int) -> Scan
    decreases chars.len() - pos,
{
    if pos < 0 || pos >= chars.len() {
        Scan::Fault { message: "Unclosed string literal"@, at: chars.len() as int }
    } else if chars[pos] == '"' {
        Scan::Token {
            token: TokenView::String(chars.subrange(start, pos)),
            start: quote,
            end: pos + 1,
        }
    } else if chars[pos] == '\\' {
        if pos + 1 >= chars.len() {
            Scan::Fault { message: "Unexpected end of string"@, at: chars.len() as int }
        } else {
            scan_string(chars, quote, start, pos + 2)
        }
    } else {
        scan_string(chars, quote, start, pos + 1)
    }
}

/// One of two tokens, by whether `second` follows at `p + 1`.
pub open spec fn one_or_two(
    chars: Seq<char>,
    p: int,
    second: char,
    long: TokenView,
    short: TokenView,
) -> Scan {
    if p + 1 < chars.len() && chars[p + 1] == second {
        Scan::Token { token: long, start: p, end: p + 2 }
    } else {
        Scan::Token { token: short, start: p, end: p + 1 }
    }
}

/// A token of one character.
pub open spec fn single_token(p: int, token: TokenView) -> Scan {
    Scan::Token { token, start: p, end: p + 1 }
}

/// The token that starts at `p`, a position inside the input that holds
/// neither white space nor the start of a comment.
pub open spec fn scan_token(chars: Seq<char>, p: int) -> Scan {
    let c = chars[p];
    if c == '(' {
        single_token(p, TokenView::LeftParen)
    } else if c == ')' {
        single_token(p, TokenView::RightParen)
    } else if c == '{' {
        single_token(p, TokenView::LeftBrace)
    } else if c == '}' {
        single_token(p, TokenView::RightBrace)
    } else if c == ':' {
        single_token(p, TokenView::Colon)
    } else if c == '.' {
        single_token(p, TokenView::Dot)
    } else if c == ',' {
        single_token(p, TokenView::Comma)
    } else if c == '+' {
        single_token(p, TokenView::Plus)
    } else if c == '*' {
        single_token(p, TokenView::Star)
    } else if c == '/' {
        single_token(p, TokenView::Slash)
    } else if c == '%' {
        single_token(p, TokenView::Percent)
    } else if c == '-' {
        one_or_two(chars, p, '>', TokenView::ReturnArrow, TokenView::Minus)
    } else if c == '=' {
        if p + 1 < chars.len() && chars[p + 1] == '>' {
            Scan::Token { token: TokenView::Arrow, start: p, end: p + 2 }
        } else {
            one_or_two(chars, p, '=', TokenView::Equal, TokenView::Assign)
        }
    } else if c == '!' {
        one_or_two(chars, p, '=', TokenView::NotEqual, TokenView::Not)
    } else if c == '<' {
        one_or_two(chars, p, '=', TokenView::LessEqual, TokenView::Less)
    } else if c == '>' {
        one_or_two(chars, p, '=', TokenView::GreaterEqual, TokenView::Greater)
    } else if c == '&' {
        if p + 1 < chars.len() && chars[p + 1] == '&' {
            Scan::Token { token: TokenView::And, start: p, end: p + 2 }
        } else {
            Scan::Fault { message: "Unexpected character '&', did you mean '&&'?"@, at: p + 1 }
        }
    } else if c == '|' {
        if p + 1 < chars.len() && chars[p + 1] == '|' {
            Scan::Token { token: TokenView::Or, start: p, end: p + 2 }
        } else if p + 1 < chars.len() && chars[p + 1] == '>' {
            Scan::Token { token: TokenView::Pipeline, start: p, end: p + 2 }
        } else {
            Scan::Fault {
                message: "Unexpected character '|', did you mean '||' or '|>'?"@,
                at: p + 1,
            }
        }
    } else if c == '"' {
        scan_string(chars, p, p + 1, p + 1)
    } else if is_identifier_start(c) {
        let end = identifier_end(chars, p);
        Scan::Token { token: word_token(chars.subrange(p, end)), start: p, end }
    } else if is_digit(c) {
        let end = digits_end(chars, p);
        let value = decimal_value(chars.subrange(p, end));
        if value <= i64::MAX {
            Scan::Token { token: TokenView::Integer(value as i64), start: p, end }
        } else {
            Scan::Fault { message: "Invalid number: "@ + chars.subrange(p, end), at: p }
        }
    } else {
        Scan::Fault { message: "Unexpected character '"@ + seq![c] + "'"@, at: p }
    }
}

/// The next token of the input from `pos` on. At the end of the input the
/// token is `Eof`, again and again.
pub open spec fn next_token_at(chars: Seq<char>, pos: int) -> Scan {
    match skip_trivia(chars, pos) {
        None => Scan::Fault {
            message: "Unterminated multi-line comment"@,
            at: chars.len() as int,
        },
        Some(p) => if p >= chars.len() {
            Scan::Token { token: TokenView::Eof, start: p, end: p }
        } else {
            scan_token(chars, p)
        },
    }
}

/// Line and column stay within the length of the text.
pub proof fn lemma_line_bound(chars: Seq<char>, pos: int)
    requires
        0 <= pos,
        chars.len() >= 1,
    ensures
        line_at(chars, pos) <= (if pos < chars.len() {
            pos + 1
        } else {
            chars.len() as int
        }),
        column_at(chars, pos) <= pos,
    decreases pos,
{
    if pos > 0 {
        lemma_line_bound(chars, pos - 1);
    }
}

/// The value of a prefix of a run of digits is at most the value of the
/// run.
pub proof fn lemma_decimal_value_grows(digits: Seq<char>, k: int)
    requires
        0 <= k <= digits.len(),
        forall|j: int| 0 <= j < digits.len() ==> is_digit(#[trigger] digits[j]),
    ensures
        decimal_value(digits.take(k)) <= decimal_value(digits),
    decreases digits.len() - k,
{
    if k == digits.len() {
        assert(digits.take(k) =~= digits);
    } else {
        lemma_decimal_value_grows(digits, k + 1);
        assert(digits.take(k + 1).drop_last() =~= digits.take(k));
        assert(is_digit(digits[k]));
    }
}

/// Where white space has been skipped there is none.
pub proof fn lemma_skip_spaces_fixed(chars: Seq<char>, pos: int)
    requires
        0 <= pos <= chars.len(),
    ensures
        ({
            let p = skip_spaces(chars, pos);
            !(p < chars.len() && is_space(chars[p]))
        }),
    decreases chars.len() - pos,
{
    if pos < chars.len() && is_space(chars[pos]) {
        lemma_skip_spaces_fixed(chars, pos + 1);
    }
}

/// A string literal starts at its opening quote.
pub proof fn lemma_string_starts(chars: Seq<char>, quote: int, start: int, pos: int)
    ensures
        scan_string(chars, quote, start, pos) matches Scan::Token { start: s, .. } ==> s == quote,
    decreases chars.len() - pos,
{
    if pos < 0 || pos >= chars.len() {
    } else if chars[pos] == '"' {
    } else if chars[pos] == '\\' {
        if pos + 1 < chars.len() {
            lemma_string_starts(chars, quote, start, pos + 2);
        }
    } else {
        lemma_string_starts(chars, quote, start, pos + 1);
    }
}

/// A token starts where it is scanned.
pub proof fn lemma_token_starts(chars: Seq<char>, p: int)
    ensures
        scan_token(chars, p) matches Scan::Token { start, .. } ==> start == p,
{
    lemma_string_starts(chars, p, p + 1, p + 1);
}

/// The next token lies ahead, inside the text.
pub proof fn lemma_skip_trivia_bounds(chars: Seq<char>, pos: int)
    requires
        0 <= pos <= chars.len(),
    ensures
        skip_trivia(chars, pos) matches Some(p) ==> pos <= p <= chars.len(),
    decreases chars.len() - pos,
{
    let p = skip_spaces(chars, pos);
    lemma_skip_spaces_bounds(chars, pos);
    if line_comment_at(chars, p) {
        lemma_line_end_bounds(chars, p + 2);
        lemma_skip_trivia_bounds(chars, line_end(chars, p + 2));
    } else if block_comment_at(chars, p) {
        lemma_comment_end_bounds(chars, p + 2, 1);
        match comment_end(chars, p + 2, 1) {
            None => {},
            Some(q) => {
                lemma_skip_trivia_bounds(chars, q);
            },
        }
    }
}

/// A string literal ends after the position it is scanned from, inside the
/// text.
pub proof fn lemma_string_ends(chars: Seq<char>, quote: int, start: int, pos: int)
    requires
        0 <= pos,
    ensures
        scan_string(chars, quote, start, pos) matches Scan::Token { end, .. } ==> pos < end
            <= chars.len(),
    decreases chars.len() - pos,
{
    if pos >= chars.len() {
    } else if chars[pos] == '"' {
    } else if chars[pos] == '\\' {
        if pos + 1 < chars.len() {
            lemma_string_ends(chars, quote, start, pos + 2);
        }
    } else {
        lemma_string_ends(chars, quote, start, pos + 1);
    }
}

/// A token lies inside the input, after the position it was asked for, and
/// every token but `Eof` has at least one character.
pub proof fn lemma_token_advances(chars: Seq<char>, pos: int)
    requires
        0 <= pos <= chars.len(),
    ensures
        next_token_at(chars, pos) matches Scan::Token { token, start, end } ==> {
            &&& pos <= start <= end <= chars.len()
            &&& token is Eof <==> start == end
            &&& token is Eof ==> end == chars.len()
        },
{
    lemma_skip_trivia_bounds(chars, pos);
    match skip_trivia(chars, pos) {
        None => {},
        Some(p) => {
            if p < chars.len() {
                lemma_string_ends(chars, p, p + 1, p + 1);
                lemma_string_starts(chars, p, p + 1, p + 1);
                lemma_identifier_end_bounds(chars, p + 1);
                lemma_digits_end_bounds(chars, p + 1);
                lemma_scan_is_no_eof(chars, p);
            }
        },
    }
}

/// A string literal is a string token.
pub proof fn lemma_string_is_no_eof(chars: Seq<char>, quote: int, start: int, pos: int)
    ensures
        scan_string(chars, quote, start, pos) matches Scan::Token { token, .. } ==> token
            is String,
    decreases chars.len() - pos,
{
    if pos < 0 || pos >= chars.len() {
    } else if chars[pos] == '"' {
    } else if chars[pos] == '\\' {
        if pos + 1 < chars.len() {
            lemma_string_is_no_eof(chars, quote, start, pos + 2);
        }
    } else {
        lemma_string_is_no_eof(chars, quote, start, pos + 1);
    }
}

/// A token that is scanned is not the end of the input.
pub proof fn lemma_scan_is_no_eof(chars: Seq<char>, p: int)
    ensures
        scan_token(chars, p) matches Scan::Token { token, .. } ==> !(token is Eof),
{
    lemma_string_is_no_eof(chars, p, p + 1, p + 1);
}

} // verus!
