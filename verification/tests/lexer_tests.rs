use relic::lexer::{Lexer, Token};

#[test]
fn test_pipeline_operator() {
    let mut lexer = Lexer::new("x |> f".to_string());

    assert_eq!(
        lexer.next_token().unwrap(),
        Token::Identifier("x".to_string())
    );
    assert_eq!(lexer.next_token().unwrap(), Token::Pipeline);
    assert_eq!(
        lexer.next_token().unwrap(),
        Token::Identifier("f".to_string())
    );
    assert_eq!(lexer.next_token().unwrap(), Token::Eof);
}

#[test]
fn test_pipeline_vs_or() {
    let mut lexer = Lexer::new("a || b |> c".to_string());

    assert_eq!(
        lexer.next_token().unwrap(),
        Token::Identifier("a".to_string())
    );
    assert_eq!(lexer.next_token().unwrap(), Token::Or);
    assert_eq!(
        lexer.next_token().unwrap(),
        Token::Identifier("b".to_string())
    );
    assert_eq!(lexer.next_token().unwrap(), Token::Pipeline);
    assert_eq!(
        lexer.next_token().unwrap(),
        Token::Identifier("c".to_string())
    );
    assert_eq!(lexer.next_token().unwrap(), Token::Eof);
}

#[test]
fn test_let_keywords() {
    let mut lexer = Lexer::new("let x = 5 in x + 1".to_string());
    assert_eq!(lexer.next_token().unwrap(), Token::Let);
    assert_eq!(
        lexer.next_token().unwrap(),
        Token::Identifier("x".to_string())
    );
    assert_eq!(lexer.next_token().unwrap(), Token::Assign);
    assert_eq!(lexer.next_token().unwrap(), Token::Integer(5));
    assert_eq!(lexer.next_token().unwrap(), Token::In);
    assert_eq!(
        lexer.next_token().unwrap(),
        Token::Identifier("x".to_string())
    );
    assert_eq!(lexer.next_token().unwrap(), Token::Plus);
    assert_eq!(lexer.next_token().unwrap(), Token::Integer(1));
    assert_eq!(lexer.next_token().unwrap(), Token::Eof);
}

#[test]
fn test_match_keywords() {
    let mut lexer = Lexer::new("match x { Status(c) => c > 0 }".to_string());
    assert_eq!(lexer.next_token().unwrap(), Token::Match);
    assert_eq!(
        lexer.next_token().unwrap(),
        Token::Identifier("x".to_string())
    );
    assert_eq!(lexer.next_token().unwrap(), Token::LeftBrace);
    assert_eq!(
        lexer.next_token().unwrap(),
        Token::Identifier("Status".to_string())
    );
    assert_eq!(lexer.next_token().unwrap(), Token::LeftParen);
    assert_eq!(
        lexer.next_token().unwrap(),
        Token::Identifier("c".to_string())
    );
    assert_eq!(lexer.next_token().unwrap(), Token::RightParen);
    assert_eq!(lexer.next_token().unwrap(), Token::Arrow);
    assert_eq!(
        lexer.next_token().unwrap(),
        Token::Identifier("c".to_string())
    );
    assert_eq!(lexer.next_token().unwrap(), Token::Greater);
    assert_eq!(lexer.next_token().unwrap(), Token::Integer(0));
    assert_eq!(lexer.next_token().unwrap(), Token::RightBrace);
    assert_eq!(lexer.next_token().unwrap(), Token::Eof);
}
