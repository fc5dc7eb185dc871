use relic::ast::{
    BinaryOp, ComparisonOp, Declaration, Expression, Literal, MatchArm, Pattern, UnaryOp,
};
use relic::error::Error;
use relic::lexer::{Lexer, Token};
use relic::parser::Parser;
use relic::types::Type;

fn parse_expr(source: &str) -> Result<Expression, Error> {
    let lexer = Lexer::new(source.to_string());
    let mut parser = Parser::new(lexer)?;
    parser.parse_expression()
}

fn parse_decls(source: &str) -> Result<Vec<Declaration>, Error> {
    let lexer = Lexer::new(source.to_string());
    let mut parser = Parser::new(lexer)?;
    Ok(parser.parse_program()?.declarations)
}

fn parser_error(result: Result<Expression, Error>) -> (String, usize, usize) {
    match result {
        Err(Error::Parser(e)) => (e.message, e.line, e.column),
        other => panic!("expected a parser error, got {:?}", other),
    }
}

fn number(n: i64) -> Box<Expression> {
    Box::new(Expression::Literal(Literal::Integer(n)))
}

fn name(n: &str) -> Box<Expression> {
    Box::new(Expression::Identifier(n.to_string()))
}

#[test]
fn multiplication_binds_tighter_than_addition() {
    assert_eq!(
        parse_expr("1 + 2 * 3").unwrap(),
        Expression::Binary(
            BinaryOp::Add,
            number(1),
            Box::new(Expression::Binary(BinaryOp::Multiply, number(2), number(3)))
        )
    );
    assert_eq!(
        parse_expr("(1 + 2) * 3").unwrap(),
        Expression::Binary(
            BinaryOp::Multiply,
            Box::new(Expression::Binary(BinaryOp::Add, number(1), number(2))),
            number(3)
        )
    );
}

#[test]
fn binary_operators_associate_to_the_left() {
    assert_eq!(
        parse_expr("1 - 2 - 3").unwrap(),
        Expression::Binary(
            BinaryOp::Subtract,
            Box::new(Expression::Binary(BinaryOp::Subtract, number(1), number(2))),
            number(3)
        )
    );
    assert_eq!(
        parse_expr("8 / 4 % 3").unwrap(),
        Expression::Binary(
            BinaryOp::Modulo,
            Box::new(Expression::Binary(BinaryOp::Divide, number(8), number(4))),
            number(3)
        )
    );
}

#[test]
fn logic_comparison_and_unary_operators() {
    assert_eq!(
        parse_expr("!a && -b < c || d").unwrap(),
        Expression::Binary(
            BinaryOp::Or,
            Box::new(Expression::Binary(
                BinaryOp::And,
                Box::new(Expression::Unary(UnaryOp::Not, name("a"))),
                Box::new(Expression::Comparison(
                    ComparisonOp::Less,
                    Box::new(Expression::Unary(UnaryOp::Minus, name("b"))),
                    name("c")
                ))
            )),
            name("d")
        )
    );
    assert_eq!(
        parse_expr("a >= 1 != b").unwrap(),
        Expression::Comparison(
            ComparisonOp::NotEqual,
            Box::new(Expression::Comparison(
                ComparisonOp::GreaterEqual,
                name("a"),
                number(1)
            )),
            name("b")
        )
    );
}

#[test]
fn postfix_chains_of_members_and_method_calls() {
    assert_eq!(
        parse_expr("a.b.c(1, 2).d").unwrap(),
        Expression::MemberAccess(
            Box::new(Expression::MethodCall(
                Box::new(Expression::MemberAccess(name("a"), "b".to_string())),
                "c".to_string(),
                vec![*number(1), *number(2)]
            )),
            "d".to_string()
        )
    );
    assert_eq!(
        parse_expr("-x.length").unwrap(),
        Expression::Unary(
            UnaryOp::Minus,
            Box::new(Expression::MemberAccess(name("x"), "length".to_string()))
        )
    );
}

#[test]
fn calls_and_pipelines() {
    assert_eq!(
        parse_expr("f()").unwrap(),
        Expression::FunctionCall("f".to_string(), vec![])
    );
    assert_eq!(
        parse_expr("a |> f(1) |> g").unwrap(),
        Expression::Pipeline(
            Box::new(Expression::Pipeline(
                name("a"),
                Box::new(Expression::FunctionCall("f".to_string(), vec![*number(1)]))
            )),
            name("g")
        )
    );
}

#[test]
fn literals_of_each_kind() {
    assert_eq!(
        parse_expr("\"s\"").unwrap(),
        Expression::Literal(Literal::String("s".to_string()))
    );
    assert_eq!(
        parse_expr("true").unwrap(),
        Expression::Literal(Literal::Boolean(true))
    );
    assert_eq!(
        parse_expr("false").unwrap(),
        Expression::Literal(Literal::Boolean(false))
    );
}

#[test]
fn match_arms_with_and_without_commas() {
    let expected = Expression::Match(
        name("x"),
        vec![
            MatchArm {
                pattern: Pattern::Constructor("A".to_string(), "a".to_string()),
                body: *number(1),
            },
            MatchArm {
                pattern: Pattern::Constructor("B".to_string(), "b".to_string()),
                body: *number(2),
            },
        ],
    );
    assert_eq!(parse_expr("match x { A(a) => 1, B(b) => 2, }").unwrap(), expected);
    assert_eq!(parse_expr("match x { A(a) => 1 B(b) => 2 }").unwrap(), expected);
    assert_eq!(
        parse_expr("match x { }").unwrap(),
        Expression::Match(name("x"), vec![])
    );
}

#[test]
fn errors_name_what_was_expected_and_where() {
    assert_eq!(
        parser_error(parse_expr("1 +")),
        ("Expected expression".to_string(), 1, 3)
    );
    assert_eq!(
        parser_error(parse_expr("let x 5 in x")),
        ("Expected '='".to_string(), 1, 6)
    );
    assert_eq!(
        parser_error(parse_expr("(1 + 2")),
        ("Expected ')'".to_string(), 1, 6)
    );
    assert_eq!(
        parser_error(parse_expr("f(1,)")),
        ("Expected expression".to_string(), 1, 4)
    );
    assert_eq!(
        parser_error(parse_expr("a.1")),
        ("Expected identifier".to_string(), 1, 2)
    );
    assert_eq!(
        parser_error(parse_expr("match x { A a => 1 }")),
        ("Expected '('".to_string(), 1, 12)
    );
    assert_eq!(
        parser_error(parse_expr("let x = 1\nin")),
        ("Expected expression".to_string(), 2, 3)
    );
}

#[test]
fn a_lexer_error_surfaces_when_the_parser_reaches_it() {
    assert!(matches!(parse_expr("f(1) &"), Err(Error::Lexer(_))));
    assert!(matches!(parse_expr("# 1"), Err(Error::Lexer(_))));
    assert!(matches!(parse_expr("1 + \"abc"), Err(Error::Lexer(_))));
    assert!(matches!(parse_expr(") &"), Err(Error::Parser(_))));
}

#[test]
fn the_parser_stops_after_the_expression() {
    let lexer = Lexer::new("1 + 2 )".to_string());
    let mut parser = Parser::new(lexer).unwrap();
    assert!(parser.parse_expression().is_ok());
    assert_eq!(parser.current_token, Token::RightParen);
}

#[test]
fn value_declarations_with_every_clause() {
    let decls =
        parse_decls("value V(x: Int) { unique: true, validate: x > 0, normalize: x }").unwrap();
    assert_eq!(decls.len(), 1);
    match &decls[0] {
        Declaration::Value(v) => {
            assert_eq!(v.name, "V");
            assert_eq!(v.parameter.name, "x");
            assert_eq!(v.parameter.ty, Type::Int);
            assert_eq!(v.body.unique, Some(true));
            assert_eq!(
                v.body.validate,
                Some(Expression::Comparison(
                    ComparisonOp::Greater,
                    name("x"),
                    number(0)
                ))
            );
            assert_eq!(v.body.normalize, Some(*name("x")));
        }
        other => panic!("expected a value declaration, got {:?}", other),
    }
    let bare = parse_decls("value W(s: String) { }").unwrap();
    match &bare[0] {
        Declaration::Value(v) => {
            assert_eq!(v.body.validate, None);
            assert_eq!(v.body.normalize, None);
            assert_eq!(v.body.unique, None);
            assert_eq!(v.parameter.ty, Type::String);
        }
        other => panic!("expected a value declaration, got {:?}", other),
    }
}

#[test]
fn a_clause_may_stand_only_once() {
    match parse_decls("value V(x: Int) { validate: true validate: false }") {
        Err(Error::Parser(e)) => {
            assert_eq!(e.message, "Expected at most one 'validate' clause");
            assert_eq!((e.line, e.column), (1, 33));
        }
        other => panic!("expected a parser error, got {:?}", other),
    }
    match parse_decls("value V(x: Int) { unique: true unique: true }") {
        Err(Error::Parser(e)) => assert_eq!(e.message, "Expected at most one 'unique' clause"),
        other => panic!("expected a parser error, got {:?}", other),
    }
    match parse_decls("value V(x: Int) { valid: true }") {
        Err(Error::Parser(e)) => {
            assert_eq!(e.message, "Expected 'validate', 'normalize', or 'unique'")
        }
        other => panic!("expected a parser error, got {:?}", other),
    }
    match parse_decls("value V(x: Int) { unique: 1 }") {
        Err(Error::Parser(e)) => assert_eq!(e.message, "Expected boolean value"),
        other => panic!("expected a parser error, got {:?}", other),
    }
}

#[test]
fn function_declarations_keep_their_guards() {
    let decls =
        parse_decls("fn f(x: Int where x > 0, y: Any, z: Email,) -> Bool { true }").unwrap();
    match &decls[0] {
        Declaration::Function(f) => {
            assert_eq!(f.name, "f");
            assert_eq!(f.parameters.len(), 3);
            assert_eq!(
                f.parameters[0].guard,
                Some(Expression::Comparison(
                    ComparisonOp::Greater,
                    name("x"),
                    number(0)
                ))
            );
            assert_eq!(f.parameters[1].ty, Type::Any);
            assert_eq!(f.parameters[1].guard, None);
            assert_eq!(f.parameters[2].ty, Type::Value("Email".to_string()));
            assert_eq!(f.return_type, Type::Bool);
            assert_eq!(f.body, Expression::Literal(Literal::Boolean(true)));
        }
        other => panic!("expected a function declaration, got {:?}", other),
    }
}

#[test]
fn a_method_is_a_function() {
    let as_method = parse_decls("method m(x: Int) -> Int { x }").unwrap();
    let as_function = parse_decls("fn m(x: Int) -> Int { x }").unwrap();
    assert_eq!(as_method, as_function);
    assert!(matches!(as_method[0], Declaration::Function(_)));
}

#[test]
fn programs_are_sequences_of_declarations() {
    assert_eq!(parse_decls("").unwrap().len(), 0);
    assert_eq!(parse_decls("  // nothing\n").unwrap().len(), 0);
    let decls = parse_decls(
        "value A(x: Int) { } fn f() -> Int { 1 } method g(a: A) -> Int { 2 }",
    )
    .unwrap();
    assert_eq!(decls.len(), 3);
    match parse_decls("value A(x: Int) { } foo") {
        Err(Error::Parser(e)) => {
            assert_eq!(e.message, "Expected 'value', 'fn', or 'method'");
            assert_eq!((e.line, e.column), (1, 20));
        }
        other => panic!("expected a parser error, got {:?}", other),
    }
    match parse_decls("fn f(x: Int y: Int) -> Int { 1 }") {
        Err(Error::Parser(e)) => assert_eq!(e.message, "Expected ',' or ')' after parameter"),
        other => panic!("expected a parser error, got {:?}", other),
    }
    match parse_decls("fn f(x: 1) -> Int { 1 }") {
        Err(Error::Parser(e)) => assert_eq!(e.message, "Expected type name"),
        other => panic!("expected a parser error, got {:?}", other),
    }
}
