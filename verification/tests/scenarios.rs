use relic::ast::{Expression, Program};
use relic::compiler::Compiler;
use relic::error::Error;
use relic::evaluator::EvalValue;
use relic::lexer::Lexer;
use relic::parser::Parser;
use relic::typechecker::TypeChecker;
use relic::value::{Primitive, ValueRegistry};

fn parse(source: &str) -> Program {
    let lexer = Lexer::new(source.to_string());
    let mut parser = Parser::new(lexer).unwrap();
    parser.parse_program().unwrap()
}

fn expression(source: &str) -> Expression {
    let lexer = Lexer::new(source.to_string());
    let mut parser = Parser::new(lexer).unwrap();
    parser.parse_expression().unwrap()
}

fn registry_of(source: &str) -> ValueRegistry {
    let program = parse(source);
    let mut checker = TypeChecker::new();
    checker.check_program(&program).unwrap();
    let mut compiler = Compiler::new();
    compiler.compile_program(&program).unwrap();
    compiler.into_registry()
}

fn run(registry: &mut ValueRegistry, source: &str) -> Result<EvalValue, Error> {
    registry.evaluate(&expression(source), &Vec::new())
}

const EMAIL: &str =
    "value E(raw: String){ validate: raw contains \"@\" && raw.length > 3  normalize: raw.toLowerCase }";

#[test]
fn scenario_email_is_normalized_then_validated() {
    let mut registry = registry_of(EMAIL);
    let made = registry
        .construct("E", Primitive::String("Ab@x".to_string()))
        .unwrap();
    assert_eq!(made.payload, Primitive::String("ab@x".to_string()));
    assert_eq!(made.value_type, "E");
    assert_eq!(made.field, "raw");
    let refused = registry.construct("E", Primitive::String("nope".to_string()));
    assert!(matches!(refused, Err(Error::Validation(_))));
    assert_eq!(registry.count_instances("E"), 1);
}

#[test]
fn scenario_positive_integer_and_count() {
    let mut registry = registry_of("value C(n: Int){ validate: n > 0 }");
    assert!(registry.construct("C", Primitive::Integer(5)).is_ok());
    let refused = registry.construct("C", Primitive::Integer(0));
    match refused {
        Err(Error::Validation(e)) => {
            assert_eq!(e.message, "Validation failed");
            assert_eq!(e.value_type, "C");
        }
        _ => panic!("expected a validation error"),
    }
    assert_eq!(run(&mut registry, "C.count()").unwrap(), EvalValue::Integer(1));
    assert_eq!(run(&mut registry, "count(C)").unwrap(), EvalValue::Integer(1));
}

#[test]
fn scenario_more_specific_overload_wins() {
    let mut registry = registry_of("fn f(x: Int)->Int { x+1 } fn f(x: Any)->Int { 0 }");
    assert_eq!(run(&mut registry, "f(3)").unwrap(), EvalValue::Integer(4));
    assert_eq!(run(&mut registry, "f(true)").unwrap(), EvalValue::Integer(0));
    assert_eq!(run(&mut registry, "f(3)").unwrap(), EvalValue::Integer(4));
    assert_eq!(run(&mut registry, "f(\"s\")").unwrap(), EvalValue::Integer(0));
}

#[test]
fn scenario_guard_decides_between_overloads() {
    let mut registry =
        registry_of("fn f(x: Int where x > 0)->Int { 1 } fn f(x: Int)->Int { 2 }");
    assert_eq!(run(&mut registry, "f(3)").unwrap(), EvalValue::Integer(1));
    assert_eq!(run(&mut registry, "f(-1)").unwrap(), EvalValue::Integer(2));
    assert_eq!(run(&mut registry, "f(3)").unwrap(), EvalValue::Integer(1));
}

#[test]
fn scenario_let_bindings() {
    let mut registry = ValueRegistry::new();
    assert_eq!(
        run(&mut registry, "let y = 10 in y * y").unwrap(),
        EvalValue::Integer(100)
    );
    assert_eq!(
        run(&mut registry, "let x = 3 in let y = 4 in x + y").unwrap(),
        EvalValue::Integer(7)
    );
}

#[test]
fn scenario_string_members() {
    let mut registry = ValueRegistry::new();
    assert_eq!(
        run(&mut registry, "\"HELLO\".toLowerCase.length").unwrap(),
        EvalValue::Integer(5)
    );
    assert_eq!(
        run(&mut registry, "\"abc\" contains \"b\"").unwrap(),
        EvalValue::Boolean(true)
    );
    assert_eq!(
        run(&mut registry, "\"HeLLo\".toLowerCase()").unwrap(),
        EvalValue::String("hello".to_string())
    );
    assert_eq!(
        run(&mut registry, "\"HeLLo\".toUpperCase()").unwrap(),
        EvalValue::String("HELLO".to_string())
    );
}

#[test]
fn scenario_unguarded_duplicate_overload_is_a_type_error() {
    let program = parse("fn g(x: Int)->Int { 1 } fn g(x: Int)->Int { 2 }");
    let mut checker = TypeChecker::new();
    let outcome = checker.check_program(&program);
    assert!(matches!(outcome, Err(Error::Type(_))));
    assert!(checker.get_environment().get_function("g").is_some());
}

#[test]
fn scenario_all_lists_instances_in_insertion_order() {
    let mut registry = registry_of(EMAIL);
    let first = registry
        .construct("E", Primitive::String("B@bb".to_string()))
        .unwrap();
    let second = registry
        .construct("E", Primitive::String("a@aa".to_string()))
        .unwrap();
    match run(&mut registry, "E.all()").unwrap() {
        EvalValue::List(list) => {
            assert_eq!(list.len(), 2);
            assert_eq!(list.items[0], first);
            assert_eq!(list.items[1], second);
            assert_eq!(list.element_type, "E");
        }
        other => panic!("expected a list, got {:?}", other),
    }
    match run(&mut registry, "all(E)").unwrap() {
        EvalValue::List(list) => assert_eq!(list.items, vec![first, second]),
        other => panic!("expected a list, got {:?}", other),
    }
}

#[test]
fn example_program_parses_checks_and_compiles() {
    let source = "value EmailAddress(raw: String) {
  validate: raw contains \"@\" && raw.length > 3
  normalize: raw.toLowerCase
}
value CustomerId(n: Int) { validate: n > 0 }
fn describe(e: EmailAddress) -> String { \"email\" }
fn describe(c: CustomerId)  -> String { \"id\" }
";
    let mut registry = registry_of(source);
    assert_eq!(
        run(&mut registry, "describe(CustomerId(7))").unwrap(),
        EvalValue::String("id".to_string())
    );
    assert_eq!(
        run(&mut registry, "EmailAddress(\"A@b.c\") |> describe").unwrap(),
        EvalValue::String("email".to_string())
    );
    assert_eq!(registry.count_instances("CustomerId"), 1);
    assert_eq!(registry.count_instances("EmailAddress"), 1);
}
