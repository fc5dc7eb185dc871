use relic::ast::{Expression, Program};
use relic::error::Error;
use relic::lexer::Lexer;
use relic::parser::Parser;
use relic::typechecker::{check_in, Local, TypeChecker};
use relic::types::{
    type_equals, types_equal, MethodSignature, Type, TypeEnvironment, ValueType, Constraints,
};

fn program(source: &str) -> Program {
    let lexer = Lexer::new(source.to_string());
    let mut parser = Parser::new(lexer).unwrap();
    parser.parse_program().unwrap()
}

fn expr(source: &str) -> Expression {
    let lexer = Lexer::new(source.to_string());
    let mut parser = Parser::new(lexer).unwrap();
    parser.parse_expression().unwrap()
}

fn checked(source: &str) -> Result<TypeChecker, String> {
    let mut checker = TypeChecker::new();
    match checker.check_program(&program(source)) {
        Ok(()) => Ok(checker),
        Err(Error::Type(e)) => Err(e.message),
        Err(other) => panic!("not a type error: {:?}", other),
    }
}

fn type_of(source: &str, locals: &[(&str, Type)]) -> Result<Type, String> {
    let env = TypeEnvironment::new();
    let locals: Vec<Local> = locals
        .iter()
        .map(|(n, t)| Local {
            name: n.to_string(),
            ty: t.clone(),
        })
        .collect();
    match check_in(&expr(source), &locals, &env) {
        Ok(t) => Ok(t),
        Err(Error::Type(e)) => Err(e.message),
        Err(other) => panic!("not a type error: {:?}", other),
    }
}

#[test]
fn literals_and_operators() {
    assert_eq!(type_of("1 + 2 * 3 % 4", &[]), Ok(Type::Int));
    assert_eq!(type_of("true && !false || true", &[]), Ok(Type::Bool));
    assert_eq!(type_of("-1 < 2", &[]), Ok(Type::Bool));
    assert_eq!(type_of("\"a\" contains \"b\"", &[]), Ok(Type::Bool));
    assert_eq!(type_of("\"a\" == \"b\"", &[]), Ok(Type::Bool));
    assert_eq!(type_of("\"a\".length", &[]), Ok(Type::Int));
    assert_eq!(type_of("\"a\".toLowerCase", &[]), Ok(Type::String));
    assert_eq!(type_of("\"a\".toUpperCase()", &[]), Ok(Type::String));
    assert_eq!(type_of("let x = 1 in x > 0", &[]), Ok(Type::Bool));
    assert_eq!(type_of("n", &[("n", Type::Int)]), Ok(Type::Int));
    assert_eq!(
        type_of("let n = \"s\" in n", &[("n", Type::Int)]),
        Ok(Type::String)
    );
}

#[test]
fn each_rule_has_its_error() {
    assert_eq!(
        type_of("1 + true", &[]),
        Err("Arithmetic operators require Int operands".to_string())
    );
    assert_eq!(
        type_of("1 && true", &[]),
        Err("Logical operators require Bool operands".to_string())
    );
    assert_eq!(
        type_of("!1", &[]),
        Err("Not operator requires a Bool operand".to_string())
    );
    assert_eq!(
        type_of("-true", &[]),
        Err("Unary minus requires an Int operand".to_string())
    );
    assert_eq!(
        type_of("1 == true", &[]),
        Err("Comparison requires operands of one type".to_string())
    );
    assert_eq!(
        type_of("1 contains 2", &[]),
        Err("Contains operator requires String operands".to_string())
    );
    assert_eq!(
        type_of("x", &[]),
        Err("Undefined identifier: x".to_string())
    );
    assert_eq!(
        type_of("1.length", &[]),
        Err("Type has no member: length".to_string())
    );
    assert_eq!(
        type_of("\"a\".size", &[]),
        Err("Type has no member: size".to_string())
    );
    assert_eq!(
        type_of("\"a\".toLowerCase(1)", &[]),
        Err("Method takes no arguments: toLowerCase".to_string())
    );
    assert_eq!(
        type_of("1.toLowerCase()", &[]),
        Err("Type has no method: toLowerCase".to_string())
    );
    assert_eq!(
        type_of("f(1)", &[]),
        Err("Undefined function: f".to_string())
    );
    assert_eq!(
        type_of("match 1 { A(a) => 1 }", &[]),
        Err("Can only match on value types".to_string())
    );
    assert_eq!(
        type_of("match a { A(x) => 1 }", &[("a", Type::Value("A".to_string()))]),
        Err("Unknown value type: A".to_string())
    );
    assert_eq!(
        type_of("(1 + true) == x", &[]),
        Err("Arithmetic operators require Int operands".to_string())
    );
}

#[test]
fn the_type_of_a_pipeline_is_the_type_of_its_right_side() {
    assert_eq!(
        type_of("1 |> n", &[("n", Type::Bool)]),
        Ok(Type::Bool)
    );
    assert_eq!(
        type_of("x |> n", &[("n", Type::Bool)]),
        Err("Undefined identifier: x".to_string())
    );
}

#[test]
fn value_declarations_are_checked_and_recorded() {
    let checker = checked(
        "value E(raw: String) { validate: raw.length > 3 normalize: raw.toLowerCase unique: true }",
    )
    .unwrap();
    let info = checker.get_environment().get_value("E").unwrap();
    assert_eq!(info.name, "E");
    assert_eq!(info.parameter_type, Type::String);
    assert!(info.constraints.validate.is_some());
    assert!(info.constraints.normalize.is_some());
    assert!(info.constraints.unique);
    assert!(checker.get_environment().get_value("F").is_none());

    assert_eq!(
        checked("value A(x: Int) { } value A(y: Int) { }").err(),
        Some("Value type is already defined: A".to_string())
    );
    assert_eq!(
        checked("value A(x: Int) { validate: x + 1 }").err(),
        Some("Validation expression must return Bool".to_string())
    );
    assert_eq!(
        checked("value A(x: Int) { normalize: x > 1 }").err(),
        Some("Normalization expression must return the parameter type".to_string())
    );
    assert_eq!(
        checked("value A(x: Int) { validate: y > 1 }").err(),
        Some("Undefined identifier: y".to_string())
    );
}

#[test]
fn function_declarations_are_checked_and_recorded() {
    let checker = checked(
        "fn f(x: Int where x > 0) -> Int { x + 1 } fn f(x: Int) -> Int { 0 } fn g(s: String, n: Int) -> Bool { s.length > n }",
    )
    .unwrap();
    let env = checker.get_environment();
    let fs = env.get_functions("f").unwrap();
    assert_eq!(fs.len(), 2);
    assert!(fs[0].is_guarded());
    assert_eq!(fs[0].guards, vec![true]);
    assert!(!fs[1].is_guarded());
    assert_eq!(fs[0].parameter_types, vec![Type::Int]);
    assert!(env.get_function("f").is_none());
    let g = env.get_function("g").unwrap();
    assert_eq!(g.parameter_types, vec![Type::String, Type::Int]);
    assert_eq!(g.return_type, Type::Bool);
    assert!(env.get_functions("h").is_none());
    assert!(env.get_methods("f").is_none());

    assert_eq!(
        checked("fn f(x: Int) -> Bool { x }").err(),
        Some("Function body does not have the declared return type".to_string())
    );
    assert_eq!(
        checked("fn f(x: Int where x + 1) -> Int { x }").err(),
        Some("Function guard must return Bool".to_string())
    );
    assert_eq!(
        checked("fn f(x: Any) -> Any { x }").map(|_| ()),
        Ok(())
    );
    assert_eq!(
        checked("fn f(x: Any) -> Int { x }").err(),
        Some("Function body does not have the declared return type".to_string())
    );
}

#[test]
fn overloads_must_be_told_apart() {
    assert_eq!(
        checked("fn g(x: Int)->Int { 1 } fn g(x: Int)->Int { 2 }").err(),
        Some(
            "Ambiguous declaration: same parameter types and no guard as an earlier g"
                .to_string()
        )
    );
    assert!(checked("fn g(x: Int)->Int { 1 } fn g(x: String)->Int { 2 }").is_ok());
    assert!(checked("fn g(x: Int)->Int { 1 } fn g(x: Int, y: Int)->Int { 2 }").is_ok());
    assert!(checked("fn g(x: Int)->Int { 1 } fn g(x: Int where x > 0)->Int { 2 }").is_ok());
    assert!(checked("fn g(x: Int where x > 0)->Int { 1 } fn g(x: Int)->Int { 2 }").is_ok());
    assert!(checked("fn g(x: Int)->Int { 1 } method g(x: Int)->Int { 2 }").is_err());
}

#[test]
fn what_was_accepted_before_an_error_stays_recorded() {
    let mut checker = TypeChecker::new();
    let outcome =
        checker.check_program(&program("value A(x: Int) { } fn f() -> Int { true } value B(x: Int) { }"));
    assert!(matches!(outcome, Err(Error::Type(_))));
    assert!(checker.get_environment().get_value("A").is_some());
    assert!(checker.get_environment().get_value("B").is_none());
    assert!(checker.get_environment().get_functions("f").is_none());
}

#[test]
fn calls_are_resolved_by_exact_parameter_types() {
    let checker = checked(
        "fn one(x: Int) -> Bool { true } fn two(x: Int) -> Int { 1 } fn two(x: String) -> String { x } fn two(x: String where true) -> Bool { true }",
    )
    .unwrap();
    let ok = |source: &str| match checker.check_expression(&expr(source)) {
        Ok(t) => Ok(t),
        Err(Error::Type(e)) => Err(e.message),
        Err(other) => panic!("not a type error: {:?}", other),
    };
    assert_eq!(ok("one(1)"), Ok(Type::Bool));
    assert_eq!(ok("two(1)"), Ok(Type::Int));
    assert_eq!(ok("two(\"s\")"), Ok(Type::String));
    assert_eq!(ok("1.two()"), Ok(Type::Int));
    assert_eq!(ok("\"s\".two()"), Ok(Type::String));
    assert_eq!(
        ok("one(1, 2)"),
        Err("Wrong number of arguments in call of one".to_string())
    );
    assert_eq!(
        ok("one(true)"),
        Err("Argument type mismatch in call of one".to_string())
    );
    assert_eq!(
        ok("two(true)"),
        Err("No matching overload in call of two".to_string())
    );
    assert_eq!(
        ok("true.one()"),
        Err("Argument type mismatch in call of one".to_string())
    );
    assert_eq!(
        ok("one(x)"),
        Err("Undefined identifier: x".to_string())
    );
}

#[test]
fn matches_are_typed_by_their_arms() {
    let source = "value A(n: Int) { } fn f(a: A) -> Bool { match a { A(x) => x > 0 } }";
    assert!(checked(source).is_ok());
    assert_eq!(
        checked("value A(n: Int) { } fn f(a: A) -> Bool { match a { B(x) => true } }").err(),
        Some("Pattern constructor does not match value type A".to_string())
    );
    assert_eq!(
        checked("value A(n: Int) { } fn f(a: A) -> Bool { match a { A(x) => true, A(y) => 1 } }")
            .err(),
        Some("Match arms have different types".to_string())
    );
    assert_eq!(
        checked("value A(n: Int) { } fn f(a: A) -> Bool { match a { } }").err(),
        Some("Match expression has no arms".to_string())
    );
    assert_eq!(
        checked("value A(n: Int) { } fn f(a: A) -> Bool { match a { A(x) => x } }").err(),
        Some("Function body does not have the declared return type".to_string())
    );
}

#[test]
fn type_literals_have_the_type_type() {
    let checker = checked("value A(n: Int) { }").unwrap();
    assert_eq!(
        checker
            .check_expression(&Expression::TypeLiteral("A".to_string()))
            .unwrap(),
        Type::Type
    );
    assert!(checker
        .check_expression(&Expression::TypeLiteral("B".to_string()))
        .is_err());
}

#[test]
fn types_are_compared_structurally() {
    assert!(type_equals(&Type::Int, &Type::Int));
    assert!(!type_equals(&Type::Int, &Type::Any));
    assert!(type_equals(
        &Type::List(Box::new(Type::Value("A".to_string()))),
        &Type::List(Box::new(Type::Value("A".to_string())))
    ));
    assert!(!type_equals(
        &Type::List(Box::new(Type::Int)),
        &Type::List(Box::new(Type::Bool))
    ));
    assert!(!type_equals(
        &Type::Value("A".to_string()),
        &Type::Value("B".to_string())
    ));
    assert!(types_equal(&vec![Type::Int, Type::Bool], &vec![Type::Int, Type::Bool]));
    assert!(!types_equal(&vec![Type::Int], &vec![Type::Int, Type::Bool]));
    assert!(!types_equal(&vec![Type::Int], &vec![Type::Bool]));
    assert_eq!(Type::Unknown.clone(), Type::Unknown);
}

#[test]
fn the_environment_keeps_the_last_definition_of_a_value() {
    let mut env = TypeEnvironment::new();
    let info = |t: Type| ValueType {
        name: "A".to_string(),
        parameter_type: t,
        constraints: Constraints {
            validate: None,
            normalize: None,
            unique: false,
        },
    };
    env.define_value("A".to_string(), info(Type::Int));
    env.define_value("A".to_string(), info(Type::Bool));
    assert_eq!(env.get_value("A").unwrap().parameter_type, Type::Bool);
    env.define_function("f".to_string(), vec![Type::Int], Type::Int);
    env.define_method(
        "f".to_string(),
        MethodSignature {
            parameter_types: vec![Type::Int],
            return_type: Type::Bool,
            guards: vec![Some("custom".to_string())],
        },
    );
    let fs = env.get_functions("f").unwrap();
    assert_eq!(fs.len(), 2);
    assert!(!fs[0].is_guarded());
    assert_eq!(fs[0].guards, vec![false]);
    assert!(fs[1].is_guarded());
    assert_eq!(fs[1].return_type, Type::Bool);
}
