use relic::ast::{BinaryOp, ComparisonOp, Declaration, Expression, Literal, Pattern};
use relic::lexer::Lexer;
use relic::parser::Parser;

#[test]
fn test_pipeline_expression() {
    let input = "value Transform(x: String) {
            validate: x |> toLowerCase |> length > 5
        }";

    let lexer = Lexer::new(input.to_string());
    let mut parser = Parser::new(lexer).unwrap();
    let program = parser.parse_program().unwrap();

    assert_eq!(program.declarations.len(), 1);
    match &program.declarations[0] {
        Declaration::Value(v) => {
            assert_eq!(v.name, "Transform");
            assert!(v.body.validate.is_some());

            match v.body.validate.as_ref().unwrap() {
                Expression::Pipeline(_, _) => {}
                _ => panic!(
                    "Expected pipeline expression at top level, got: {:?}",
                    v.body.validate
                ),
            }
        }
        _ => panic!("Expected value declaration"),
    }
}

#[test]
fn test_multiple_pipelines() {
    let input = "value Complex(s: String) {
            validate: s |> trim |> length |> isPositive
        }";

    let lexer = Lexer::new(input.to_string());
    let mut parser = Parser::new(lexer).unwrap();
    let program = parser.parse_program().unwrap();

    assert_eq!(program.declarations.len(), 1);
    match &program.declarations[0] {
        Declaration::Value(v) => {
            assert_eq!(v.name, "Complex");
            assert!(v.body.validate.is_some());

            let expr = v.body.validate.as_ref().unwrap();
            match expr {
                Expression::Pipeline(_, right) => match &**right {
                    Expression::Identifier(name) => assert_eq!(name, "isPositive"),
                    _ => panic!("Expected identifier at end of pipeline"),
                },
                _ => panic!("Expected pipeline expression"),
            }
        }
        _ => panic!("Expected value declaration"),
    }
}

#[test]
fn test_let_expression() {
    let input = "value WithLet(x: Int) {
            validate: let y = x + 10 in y > 20
        }";

    let lexer = Lexer::new(input.to_string());
    let mut parser = Parser::new(lexer).unwrap();
    let program = parser.parse_program().unwrap();

    assert_eq!(program.declarations.len(), 1);
    match &program.declarations[0] {
        Declaration::Value(v) => {
            assert_eq!(v.name, "WithLet");
            assert!(v.body.validate.is_some());

            match v.body.validate.as_ref().unwrap() {
                Expression::Let(name, value, body) => {
                    assert_eq!(name, "y");
                    assert!(matches!(
                        value.as_ref(),
                        Expression::Binary(BinaryOp::Add, _, _)
                    ));
                    assert!(matches!(
                        body.as_ref(),
                        Expression::Comparison(ComparisonOp::Greater, _, _)
                    ));
                }
                _ => panic!("Expected let expression, got: {:?}", v.body.validate),
            }
        }
        _ => panic!("Expected value declaration"),
    }
}

#[test]
fn test_nested_let_bindings() {
    let input = "value Temperature(celsius: Int) {
            validate: let fahrenheit = celsius * 9 / 5 + 32 in 
                      fahrenheit > -459 && fahrenheit < 1000
        }";

    let lexer = Lexer::new(input.to_string());
    let mut parser = Parser::new(lexer).unwrap();
    let program = parser.parse_program().unwrap();

    assert_eq!(program.declarations.len(), 1);
    match &program.declarations[0] {
        Declaration::Value(v) => {
            assert_eq!(v.name, "Temperature");
            assert!(v.body.validate.is_some());

            match v.body.validate.as_ref().unwrap() {
                Expression::Let(name, value, body) => {
                    assert_eq!(name, "fahrenheit");
                    assert!(matches!(
                        value.as_ref(),
                        Expression::Binary(BinaryOp::Add, _, _)
                    ));
                    assert!(matches!(
                        body.as_ref(),
                        Expression::Binary(BinaryOp::And, _, _)
                    ));
                }
                _ => panic!("Expected let expression"),
            }
        }
        _ => panic!("Expected value declaration"),
    }
}

#[test]
fn test_let_bindings_with_string_operations() {
    let input = "value Password(raw: String) {
            validate: let len = raw.length in
                      let hasUpperCase = raw contains \"A\" || raw contains \"B\" || raw contains \"C\" in
                      let hasNumber = raw contains \"0\" || raw contains \"1\" || raw contains \"2\" in
                      len > 8 && hasUpperCase && hasNumber
        }";

    let lexer = Lexer::new(input.to_string());
    let mut parser = Parser::new(lexer).unwrap();
    let program = parser.parse_program().unwrap();

    assert_eq!(program.declarations.len(), 1);
    match &program.declarations[0] {
        Declaration::Value(v) => {
            assert_eq!(v.name, "Password");
            assert!(v.body.validate.is_some());

            match v.body.validate.as_ref().unwrap() {
                Expression::Let(name1, value1, body1) => {
                    assert_eq!(name1, "len");
                    assert!(matches!(value1.as_ref(), Expression::MemberAccess(_, _)));

                    match body1.as_ref() {
                        Expression::Let(name2, value2, body2) => {
                            assert_eq!(name2, "hasUpperCase");
                            assert!(matches!(
                                value2.as_ref(),
                                Expression::Binary(BinaryOp::Or, _, _)
                            ));

                            match body2.as_ref() {
                                Expression::Let(name3, value3, body3) => {
                                    assert_eq!(name3, "hasNumber");
                                    assert!(matches!(
                                        value3.as_ref(),
                                        Expression::Binary(BinaryOp::Or, _, _)
                                    ));
                                    assert!(matches!(
                                        body3.as_ref(),
                                        Expression::Binary(BinaryOp::And, _, _)
                                    ));
                                }
                                _ => panic!("Expected third let expression"),
                            }
                        }
                        _ => panic!("Expected second let expression"),
                    }
                }
                _ => panic!("Expected let expression"),
            }
        }
        _ => panic!("Expected value declaration"),
    }
}

#[test]
fn test_match_expression() {
    let input = "value Process(status: Status) {
            validate: match status {
                Status(code) => code == 200
            }
        }";

    let lexer = Lexer::new(input.to_string());
    let mut parser = Parser::new(lexer).unwrap();
    let program = parser.parse_program().unwrap();

    assert_eq!(program.declarations.len(), 1);
    match &program.declarations[0] {
        Declaration::Value(v) => {
            assert_eq!(v.name, "Process");
            assert!(v.body.validate.is_some());

            match v.body.validate.as_ref().unwrap() {
                Expression::Match(expr, arms) => {
                    match expr.as_ref() {
                        Expression::Identifier(name) => assert_eq!(name, "status"),
                        _ => panic!("Expected identifier in match expression"),
                    }

                    assert_eq!(arms.len(), 1);

                    match &arms[0].pattern {
                        Pattern::Constructor(name, binding) => {
                            assert_eq!(name, "Status");
                            assert_eq!(binding, "code");
                        }
                    }

                    match &arms[0].body {
                        Expression::Comparison(ComparisonOp::Equal, left, right) => {
                            match (left.as_ref(), right.as_ref()) {
                                (
                                    Expression::Identifier(id),
                                    Expression::Literal(Literal::Integer(200)),
                                ) => {
                                    assert_eq!(id, "code");
                                }
                                _ => panic!("Unexpected comparison in match arm"),
                            }
                        }
                        _ => panic!("Expected comparison in match arm body"),
                    }
                }
                _ => panic!("Expected match expression, got: {:?}", v.body.validate),
            }
        }
        _ => panic!("Expected value declaration"),
    }
}
