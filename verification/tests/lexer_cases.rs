use relic::error::Error;
use relic::lexer::{token_equals, Lexer, Token};

fn tokens(source: &str) -> Vec<Token> {
    let mut lexer = Lexer::new(source.to_string());
    let mut out = Vec::new();
    loop {
        let token = lexer.next_token().unwrap();
        let done = token == Token::Eof;
        out.push(token);
        if done {
            return out;
        }
    }
}

fn first_error(source: &str) -> (String, usize, usize) {
    let mut lexer = Lexer::new(source.to_string());
    loop {
        match lexer.next_token() {
            Ok(Token::Eof) => panic!("no lexer error in {:?}", source),
            Ok(_) => {}
            Err(Error::Lexer(e)) => return (e.message, e.line, e.column),
            Err(other) => panic!("not a lexer error: {:?}", other),
        }
    }
}

fn ident(name: &str) -> Token {
    Token::Identifier(name.to_string())
}

#[test]
fn every_operator_and_punctuation_mark() {
    assert_eq!(
        tokens("== => = != ! <= < >= > -> - && || |> % * / + . , : ( ) { }"),
        vec![
            Token::Equal,
            Token::Arrow,
            Token::Assign,
            Token::NotEqual,
            Token::Not,
            Token::LessEqual,
            Token::Less,
            Token::GreaterEqual,
            Token::Greater,
            Token::ReturnArrow,
            Token::Minus,
            Token::And,
            Token::Or,
            Token::Pipeline,
            Token::Percent,
            Token::Star,
            Token::Slash,
            Token::Plus,
            Token::Dot,
            Token::Comma,
            Token::Colon,
            Token::LeftParen,
            Token::RightParen,
            Token::LeftBrace,
            Token::RightBrace,
            Token::Eof,
        ]
    );
}

#[test]
fn every_keyword() {
    assert_eq!(
        tokens("value fn method validate normalize unique true false contains let in match where"),
        vec![
            Token::Value,
            Token::Fn,
            Token::Method,
            Token::Validate,
            Token::Normalize,
            Token::Unique,
            Token::True,
            Token::False,
            Token::Contains,
            Token::Let,
            Token::In,
            Token::Match,
            Token::Where,
            Token::Eof,
        ]
    );
    assert_eq!(
        tokens("values _x x1 Let"),
        vec![ident("values"), ident("_x"), ident("x1"), ident("Let"), Token::Eof]
    );
}

#[test]
fn adjacent_tokens_without_spaces() {
    assert_eq!(
        tokens("a==b=>c->d|>e"),
        vec![
            ident("a"),
            Token::Equal,
            ident("b"),
            Token::Arrow,
            ident("c"),
            Token::ReturnArrow,
            ident("d"),
            Token::Pipeline,
            ident("e"),
            Token::Eof
        ]
    );
    assert_eq!(
        tokens("12ab"),
        vec![Token::Integer(12), ident("ab"), Token::Eof]
    );
}

#[test]
fn comments_are_skipped_and_block_comments_nest() {
    assert_eq!(
        tokens("a // one\n b /* x /* y */ z */ c // end"),
        vec![ident("a"), ident("b"), ident("c"), Token::Eof]
    );
    assert_eq!(tokens("/**/"), vec![Token::Eof]);
    assert_eq!(tokens("a / b"), vec![ident("a"), Token::Slash, ident("b"), Token::Eof]);
}

#[test]
fn unterminated_block_comment_is_an_error_at_the_end() {
    assert_eq!(
        first_error("/* /* */"),
        ("Unterminated multi-line comment".to_string(), 1, 8)
    );
    assert_eq!(
        first_error("a /*"),
        ("Unterminated multi-line comment".to_string(), 1, 4)
    );
}

#[test]
fn string_literals_keep_their_content_as_written() {
    assert_eq!(
        tokens("\"a b\" \"\""),
        vec![
            Token::String("a b".to_string()),
            Token::String("".to_string()),
            Token::Eof
        ]
    );
    assert_eq!(
        tokens("\"a\\\"b\""),
        vec![Token::String("a\\\"b".to_string()), Token::Eof]
    );
    assert_eq!(
        tokens("\"h\u{e9}llo\" x"),
        vec![Token::String("h\u{e9}llo".to_string()), ident("x"), Token::Eof]
    );
}

#[test]
fn unclosed_strings_are_errors() {
    assert_eq!(
        first_error("\"abc"),
        ("Unclosed string literal".to_string(), 1, 4)
    );
    assert_eq!(
        first_error("\"abc\\"),
        ("Unexpected end of string".to_string(), 1, 5)
    );
}

#[test]
fn integer_literals_and_their_overflow() {
    assert_eq!(
        tokens("0 007 9223372036854775807"),
        vec![
            Token::Integer(0),
            Token::Integer(7),
            Token::Integer(9223372036854775807),
            Token::Eof
        ]
    );
    assert_eq!(
        first_error("9223372036854775808"),
        ("Invalid number: 9223372036854775808".to_string(), 1, 0)
    );
    assert_eq!(
        first_error("x = 99999999999999999999999999"),
        (
            "Invalid number: 99999999999999999999999999".to_string(),
            1,
            4
        )
    );
}

#[test]
fn lone_ampersand_and_bar_suggest_the_double_form() {
    assert_eq!(
        first_error("a & b"),
        (
            "Unexpected character '&', did you mean '&&'?".to_string(),
            1,
            3
        )
    );
    assert_eq!(
        first_error("a | b"),
        (
            "Unexpected character '|', did you mean '||' or '|>'?".to_string(),
            1,
            3
        )
    );
}

#[test]
fn unexpected_characters_are_errors_where_they_stand() {
    assert_eq!(
        first_error("#"),
        ("Unexpected character '#'".to_string(), 1, 0)
    );
    assert_eq!(
        first_error("ab \u{e9}"),
        ("Unexpected character '\u{e9}'".to_string(), 1, 3)
    );
    assert_eq!(
        first_error("a\nb\n  @"),
        ("Unexpected character '@'".to_string(), 3, 3)
    );
}

#[test]
fn unicode_white_space_separates_tokens() {
    assert_eq!(
        tokens("a\u{a0}b\u{2003}c\t\r\nd"),
        vec![ident("a"), ident("b"), ident("c"), ident("d"), Token::Eof]
    );
}

#[test]
fn the_end_is_reported_again_and_again() {
    let mut lexer = Lexer::new("x".to_string());
    assert_eq!(lexer.next_token().unwrap(), ident("x"));
    assert_eq!(lexer.next_token().unwrap(), Token::Eof);
    assert_eq!(lexer.next_token().unwrap(), Token::Eof);
    let mut empty = Lexer::new(String::new());
    assert_eq!(empty.next_token().unwrap(), Token::Eof);
}

#[test]
fn the_lexer_knows_where_the_last_token_started() {
    let mut lexer = Lexer::new("ab\n  cd".to_string());
    assert_eq!(lexer.next_token().unwrap(), ident("ab"));
    assert_eq!((lexer.token_line(), lexer.token_column()), (1, 0));
    assert_eq!(lexer.next_token().unwrap(), ident("cd"));
    assert_eq!((lexer.token_line(), lexer.token_column()), (2, 3));
}

#[test]
fn tokens_are_compared_by_kind_and_content() {
    assert!(token_equals(&Token::Plus, &Token::Plus));
    assert!(!token_equals(&Token::Plus, &Token::Minus));
    assert!(token_equals(&ident("a"), &ident("a")));
    assert!(!token_equals(&ident("a"), &ident("b")));
    assert!(!token_equals(&ident("a"), &Token::String("a".to_string())));
    assert!(token_equals(&Token::Integer(3), &Token::Integer(3)));
    assert!(!token_equals(&Token::Integer(3), &Token::Integer(4)));
}
