use relic::ast::{Expression, Literal, Program};
use relic::compiler::{
    evaluate_expression_to_value, evaluate_expression_to_value_int, evaluate_int_expr,
    evaluate_int_validation, evaluate_int_validation_with_context, evaluate_string_expr,
    evaluate_string_validation, evaluate_string_validation_with_context, Compiler,
};
use relic::error::Error;
use relic::evaluator::{
    calculate_function_specificity, create_dispatch_key, evaluate_binary_op, evaluate_expression,
    get_value_type_signature, matches_type, select_overload, Binding, Chosen, EvalValue,
};
use relic::ast::BinaryOp;
use relic::lexer::Lexer;
use relic::list::List;
use relic::parser::Parser;
use relic::stdlib::register_stdlib;
use relic::typechecker::{check_in, Local};
use relic::types::{Type, TypeEnvironment};
use relic::value::{Instance, Primitive, ValueConstructor, ValueRegistry};

fn program(source: &str) -> Program {
    let lexer = Lexer::new(source.to_string());
    let mut parser = Parser::new(lexer).unwrap();
    parser.parse_program().unwrap()
}

fn expr(source: &str) -> Expression {
    let lexer = Lexer::new(source.to_string());
    let mut parser = Parser::new(lexer).unwrap();
    parser.parse_expression().unwrap()
}

fn compiled(source: &str) -> ValueRegistry {
    let mut compiler = Compiler::new();
    compiler.compile_program(&program(source)).unwrap();
    compiler.into_registry()
}

fn run(registry: &mut ValueRegistry, source: &str) -> Result<EvalValue, (String, String)> {
    match evaluate_expression(&expr(source), &Vec::new(), registry) {
        Ok(v) => Ok(v),
        Err(Error::Validation(e)) => Err((e.message, e.value_type)),
        Err(other) => panic!("not a validation error: {:?}", other),
    }
}

fn value(source: &str) -> Result<EvalValue, (String, String)> {
    run(&mut ValueRegistry::new(), source)
}

fn fault(message: &str) -> Result<EvalValue, (String, String)> {
    Err((message.to_string(), String::new()))
}

fn integer(n: i64) -> Result<EvalValue, (String, String)> {
    Ok(EvalValue::Integer(n))
}

fn boolean(b: bool) -> Result<EvalValue, (String, String)> {
    Ok(EvalValue::Boolean(b))
}

#[test]
fn arithmetic_is_checked_and_division_truncates() {
    assert_eq!(value("1 + 2 * 3 - 4"), integer(3));
    assert_eq!(value("7 / 2"), integer(3));
    assert_eq!(value("-7 / 2"), integer(-3));
    assert_eq!(value("7 / -2"), integer(-3));
    assert_eq!(value("-7 % 2"), integer(-1));
    assert_eq!(value("7 % -2"), integer(1));
    assert_eq!(value("7 % 2"), integer(1));
    assert_eq!(value("1 / 0"), fault("Division by zero"));
    assert_eq!(value("1 % 0"), fault("Modulo by zero"));
    assert_eq!(value("9223372036854775807 + 1"), fault("Integer overflow"));
    assert_eq!(value("-9223372036854775807 - 2"), fault("Integer overflow"));
    assert_eq!(value("9223372036854775807 * 2"), fault("Integer overflow"));
    assert_eq!(
        value("(-9223372036854775807 - 1) / -1"),
        fault("Integer overflow")
    );
    assert_eq!(
        value("-(-9223372036854775807 - 1)"),
        fault("Integer overflow")
    );
    assert_eq!(value("-9223372036854775807 - 1"), integer(i64::MIN));
    assert_eq!(value("1 + true"), fault("Type mismatch in binary operation"));
    assert_eq!(value("true && 1"), fault("Type mismatch in binary operation"));
    assert_eq!(value("-true"), fault("Type mismatch in unary operation"));
    assert_eq!(value("!1"), fault("Type mismatch in unary operation"));
}

#[test]
fn both_operands_of_a_logical_operator_are_evaluated() {
    assert_eq!(value("false && true"), boolean(false));
    assert_eq!(value("true || false"), boolean(true));
    assert_eq!(value("false && 1 / 0 == 1"), fault("Division by zero"));
    assert_eq!(value("true || 1 / 0 == 1"), fault("Division by zero"));
    assert_eq!(value("!false"), boolean(true));
}

#[test]
fn comparisons() {
    assert_eq!(value("1 < 2"), boolean(true));
    assert_eq!(value("2 <= 2"), boolean(true));
    assert_eq!(value("1 > 2"), boolean(false));
    assert_eq!(value("1 >= 2"), boolean(false));
    assert_eq!(value("1 == 1"), boolean(true));
    assert_eq!(value("1 != 1"), boolean(false));
    assert_eq!(value("\"a\" == \"a\""), boolean(true));
    assert_eq!(value("\"a\" != \"b\""), boolean(true));
    assert_eq!(value("true == false"), boolean(false));
    assert_eq!(value("true != false"), boolean(true));
    assert_eq!(value("\"abc\" contains \"bc\""), boolean(true));
    assert_eq!(value("\"abc\" contains \"\""), boolean(true));
    assert_eq!(value("\"abc\" contains \"abcd\""), boolean(false));
    assert_eq!(value("\"abc\" contains \"ac\""), boolean(false));
    assert_eq!(value("\"a\" < \"b\""), fault("Type mismatch in comparison"));
    assert_eq!(value("1 == \"1\""), fault("Type mismatch in comparison"));
    assert_eq!(value("1 contains 1"), fault("Type mismatch in comparison"));
    assert_eq!(value("true < false"), fault("Type mismatch in comparison"));
}

#[test]
fn members_and_built_in_methods() {
    assert_eq!(value("\"h\u{e9}llo\".length"), integer(5));
    assert_eq!(value("\"\".length"), integer(0));
    assert_eq!(
        value("\"AbC\".toUpperCase"),
        Ok(EvalValue::String("ABC".to_string()))
    );
    assert_eq!(
        value("\"a\".size"),
        Err(("String has no member: size".to_string(), "String".to_string()))
    );
    assert_eq!(
        value("1.length"),
        fault("Cannot access a member of this value: length")
    );
    assert_eq!(
        value("\"a\".toLowerCase(1)"),
        fault("Unknown method or wrong arguments: toLowerCase")
    );
    assert_eq!(
        value("\"a\".trim()"),
        fault("Unknown method or wrong arguments: trim")
    );
    assert_eq!(
        value("1.toLowerCase()"),
        fault("Unknown method or wrong arguments: toLowerCase")
    );
}

#[test]
fn identifiers_are_bound_names_or_declared_types() {
    let mut registry = compiled("value A(n: Int) { }");
    assert_eq!(run(&mut registry, "A"), Ok(EvalValue::Type("A".to_string())));
    assert_eq!(run(&mut registry, "B"), fault("Unknown identifier: B"));
    assert_eq!(run(&mut registry, "let A = 1 in A"), integer(1));
    let context = vec![
        Binding {
            name: "x".to_string(),
            value: EvalValue::Integer(1),
        },
        Binding {
            name: "x".to_string(),
            value: EvalValue::Integer(2),
        },
    ];
    assert_eq!(
        evaluate_expression(&expr("x"), &context, &mut registry).unwrap(),
        EvalValue::Integer(2)
    );
    assert_eq!(
        evaluate_expression(
            &Expression::TypeLiteral("Z".to_string()),
            &context,
            &mut registry
        )
        .unwrap(),
        EvalValue::Type("Z".to_string())
    );
}

#[test]
fn construction_in_expressions() {
    let mut registry = compiled("value A(n: Int) { validate: n > 0 } value S(s: String) { }");
    let made = run(&mut registry, "A(3)").unwrap();
    assert_eq!(
        made,
        EvalValue::Value(Instance {
            value_type: "A".to_string(),
            field: "n".to_string(),
            payload: Primitive::Integer(3),
        })
    );
    assert_eq!(run(&mut registry, "A(3).n"), integer(3));
    assert_eq!(
        run(&mut registry, "A(3).m"),
        Err(("Value has no member: m".to_string(), "A".to_string()))
    );
    assert_eq!(
        run(&mut registry, "A(0)"),
        Err(("Validation failed".to_string(), "A".to_string()))
    );
    assert_eq!(
        run(&mut registry, "A(1, 2)"),
        Err((
            "Value constructor expects exactly one argument: A".to_string(),
            "A".to_string()
        ))
    );
    assert_eq!(
        run(&mut registry, "A(A(1))"),
        Err((
            "Value constructor expects a primitive argument: A".to_string(),
            "A".to_string()
        ))
    );
    assert_eq!(
        run(&mut registry, "A(\"x\")"),
        Err(("Type mismatch in comparison".to_string(), "A".to_string()))
    );
    assert_eq!(registry.count_instances("A"), 4);
    assert_eq!(registry.count_instances("S"), 0);
    assert!(registry.construct("S", Primitive::Integer(1)).is_ok());
    assert_eq!(run(&mut registry, "S(true).s"), Ok(EvalValue::Boolean(true)));
    assert_eq!(
        registry.construct("B", Primitive::Integer(1)).err().map(|e| e.to_string()),
        Some("Validation error: Unknown value type: B".to_string())
    );
}

#[test]
fn a_validator_that_faults_refuses_the_payload() {
    let mut registry = compiled("value A(n: Int) { validate: 10 / n > 1 } value B(n: Int) { validate: n } value C(n: Int) { normalize: n / 0 } value D(n: Int) { normalize: D }");
    assert!(registry.construct("A", Primitive::Integer(2)).is_ok());
    match registry.construct("A", Primitive::Integer(0)) {
        Err(Error::Validation(e)) => {
            assert_eq!(e.message, "Division by zero");
            assert_eq!(e.value_type, "A");
        }
        other => panic!("expected a validation error, got {:?}", other),
    }
    match registry.construct("B", Primitive::Integer(1)) {
        Err(Error::Validation(e)) => assert_eq!(e.message, "Validation failed"),
        other => panic!("expected a validation error, got {:?}", other),
    }
    match registry.construct("C", Primitive::Integer(1)) {
        Err(Error::Validation(e)) => {
            assert_eq!(e.message, "Division by zero");
            assert_eq!(e.value_type, "");
        }
        other => panic!("expected a validation error, got {:?}", other),
    }
    match registry.construct("D", Primitive::Integer(1)) {
        Err(Error::Validation(e)) => {
            assert_eq!(e.message, "Normalizer did not yield a primitive value for D")
        }
        other => panic!("expected a validation error, got {:?}", other),
    }
    assert_eq!(registry.count_instances("A"), 1);
    assert_eq!(registry.count_instances("C"), 0);
}

#[test]
fn unique_types_refuse_equal_payloads() {
    let mut registry = compiled(
        "value U(s: String) { normalize: s.toLowerCase unique: true } value N(s: String) { unique: false }",
    );
    assert!(registry
        .construct("U", Primitive::String("Ab".to_string()))
        .is_ok());
    match registry.construct("U", Primitive::String("aB".to_string())) {
        Err(Error::Validation(e)) => {
            assert_eq!(e.message, "Duplicate value for unique type U");
            assert_eq!(e.value_type, "U");
        }
        other => panic!("expected a validation error, got {:?}", other),
    }
    assert!(registry
        .construct("U", Primitive::String("ac".to_string()))
        .is_ok());
    assert_eq!(registry.count_instances("U"), 2);
    let all = registry.get_all_instances("U");
    assert_eq!(all[0].payload, Primitive::String("ab".to_string()));
    assert_eq!(all[1].payload, Primitive::String("ac".to_string()));
    assert!(registry
        .construct("N", Primitive::String("x".to_string()))
        .is_ok());
    assert!(registry
        .construct("N", Primitive::String("x".to_string()))
        .is_ok());
    assert_eq!(registry.count_instances("N"), 2);
}

#[test]
fn constructing_from_a_normalized_payload_is_the_same_construction() {
    let source = "value E(s: String) { validate: s.length > 1 normalize: s.toLowerCase }";
    let mut raw = compiled(source);
    let mut normal = compiled(source);
    let a = raw.construct("E", Primitive::String("AbC".to_string())).unwrap();
    let b = normal
        .construct("E", Primitive::String("abc".to_string()))
        .unwrap();
    assert_eq!(a, b);
    assert_eq!(raw.get_all_instances("E"), normal.get_all_instances("E"));
}

#[test]
fn dispatch_by_type_and_specificity() {
    let mut registry = compiled(
        "value A(n: Int) { } value B(n: Int) { } fn f(x: A) -> Int { 1 } fn f(x: B) -> Int { 2 } fn f(x: Any) -> Int { 3 } fn f(x: Int, y: Int) -> Int { x + y }",
    );
    assert_eq!(run(&mut registry, "f(A(1))"), integer(1));
    assert_eq!(run(&mut registry, "f(B(1))"), integer(2));
    assert_eq!(run(&mut registry, "f(1)"), integer(3));
    assert_eq!(run(&mut registry, "f(A)"), integer(3));
    assert_eq!(run(&mut registry, "f(2, 3)"), integer(5));
    assert_eq!(run(&mut registry, "A(1).f()"), integer(1));
    assert_eq!(run(&mut registry, "2.f(3)"), integer(5));
    assert_eq!(run(&mut registry, "B(7) |> f"), integer(2));
    assert_eq!(run(&mut registry, "2 |> f(3)"), integer(5));
    assert_eq!(
        run(&mut registry, "f(1, 2, 3)"),
        Err((
            "No overload applies to the arguments of f".to_string(),
            "function".to_string()
        ))
    );
    assert_eq!(
        run(&mut registry, "g(1)"),
        Err(("Unknown function: g".to_string(), "function".to_string()))
    );
    assert_eq!(
        run(&mut registry, "1 |> 2"),
        fault("Pipeline right side must be a function")
    );
}

#[test]
fn ambiguous_calls_are_refused() {
    let mut registry =
        compiled("fn g(x: Int) -> Int { 1 } fn g(x: Int) -> Int { 2 } fn g(x: Any) -> Int { 3 }");
    assert_eq!(
        run(&mut registry, "g(1)"),
        Err(("Ambiguous call 'g'".to_string(), "function".to_string()))
    );
    assert_eq!(run(&mut registry, "g(true)"), integer(3));
}

#[test]
fn guards_add_to_specificity_and_their_faults_discard_the_overload() {
    let mut registry = compiled(
        "fn h(x: Int where 10 / x > 1) -> Int { 1 } fn h(x: Int) -> Int { 2 } fn k(x: Any where x > 0) -> Int { 1 } fn k(x: Int) -> Int { 2 } fn m(x: Int where x) -> Int { 1 }",
    );
    assert_eq!(run(&mut registry, "h(2)"), integer(1));
    assert_eq!(run(&mut registry, "h(0)"), integer(2));
    assert_eq!(run(&mut registry, "h(20)"), integer(2));
    assert_eq!(
        run(&mut registry, "k(5)"),
        Err(("Ambiguous call 'k'".to_string(), "function".to_string()))
    );
    assert_eq!(run(&mut registry, "k(-5)"), integer(2));
    assert_eq!(
        run(&mut registry, "k(true)"),
        Err((
            "No overload applies to the arguments of k".to_string(),
            "function".to_string()
        ))
    );
    assert_eq!(
        run(&mut registry, "m(1)"),
        Err((
            "No overload applies to the arguments of m".to_string(),
            "function".to_string()
        ))
    );
}

#[test]
fn remembered_decisions_agree_with_dispatch() {
    let mut registry = compiled(
        "value List(n: Int) { } value A(n: Int) { } fn f(x: Int) -> Int { 1 } fn f(x: Any) -> Int { 2 }",
    );
    for _ in 0..3 {
        assert_eq!(run(&mut registry, "f(1)"), integer(1));
        assert_eq!(run(&mut registry, "f(\"s\")"), integer(2));
        assert_eq!(run(&mut registry, "f(A(1))"), integer(2));
        assert_eq!(run(&mut registry, "f(all(A))"), integer(2));
        assert_eq!(run(&mut registry, "f(List(1))"), integer(2));
    }
    let mut later = compiler_with("fn f(x: Any) -> Int { 2 }");
    assert_eq!(later.evaluate_expression(&expr("f(1)")).unwrap(), EvalValue::Integer(2));
    later
        .compile_program(&program("fn f(x: Int) -> Int { 1 }"))
        .unwrap();
    assert_eq!(later.evaluate_expression(&expr("f(1)")).unwrap(), EvalValue::Integer(1));
    assert_eq!(
        later
            .evaluate_expression_with_optimization(&expr("f(1)"))
            .unwrap(),
        EvalValue::Integer(1)
    );
}

fn compiler_with(source: &str) -> Compiler {
    let mut compiler = Compiler::new();
    compiler.compile_program(&program(source)).unwrap();
    compiler
}

#[test]
fn a_reserved_type_name_does_not_confuse_dispatch() {
    let mut registry = compiled(
        "value Int(n: Int) { } fn f(x: Any) -> Int { 0 } fn f(x: Int) -> Int { 1 }",
    );
    assert_eq!(registry.get_constructor("Int").is_some(), true);
    for _ in 0..2 {
        assert_eq!(run(&mut registry, "f(1)"), integer(1));
        assert_eq!(run(&mut registry, "f(Int(1))"), integer(0));
    }
}

#[test]
fn calls_nest_only_so_deep() {
    let mut registry = compiled("fn loop(x: Int) -> Int { loop(x) } fn down(x: Int where x > 0) -> Int { down(x - 1) } fn down(x: Int) -> Int { 0 }");
    assert_eq!(run(&mut registry, "loop(1)"), fault("Evaluation depth exceeded"));
    assert_eq!(run(&mut registry, "down(100)"), integer(0));
    assert_eq!(run(&mut registry, "down(255)"), integer(0));
    assert_eq!(run(&mut registry, "down(256)"), fault("Evaluation depth exceeded"));
}

#[test]
fn matches_choose_the_arm_of_the_instance() {
    let mut registry = compiled("value A(n: Int) { } value B(s: String) { }");
    assert_eq!(
        run(&mut registry, "match A(5) { B(s) => 0, A(n) => n + 1 }"),
        integer(6)
    );
    assert_eq!(
        run(&mut registry, "match B(\"x\") { B(s) => s.length, A(n) => n }"),
        integer(1)
    );
    assert_eq!(
        run(&mut registry, "match A(5) { B(s) => 0 }"),
        Err((
            "Non-exhaustive match: no arm for A".to_string(),
            "A".to_string()
        ))
    );
    assert_eq!(
        run(&mut registry, "match 5 { A(n) => n }"),
        fault("Match scrutinee is not an instance of a value type")
    );
    assert_eq!(
        run(&mut registry, "let n = 1 in match A(5) { A(n) => n } + n"),
        integer(6)
    );
}

#[test]
fn all_and_count_in_both_forms_with_and_without_the_standard_library() {
    let mut registry = compiled("value A(n: Int) { } value B(n: Int) { }");
    assert_eq!(run(&mut registry, "A.count()"), integer(0));
    run(&mut registry, "A(1)").unwrap();
    run(&mut registry, "B(2)").unwrap();
    run(&mut registry, "A(3)").unwrap();
    let by_call = run(&mut registry, "all(A)").unwrap();
    let by_method = run(&mut registry, "A.all()").unwrap();
    assert_eq!(by_call, by_method);
    assert_eq!(run(&mut registry, "count(A)"), integer(2));
    assert_eq!(run(&mut registry, "A.all().length()"), integer(2));
    register_stdlib(&mut registry);
    assert_eq!(registry.get_function("all").unwrap().name, "all");
    assert_eq!(run(&mut registry, "all(A)").unwrap(), by_call);
    assert_eq!(run(&mut registry, "A.all()").unwrap(), by_call);
    assert_eq!(run(&mut registry, "B.count()"), integer(1));
    assert_eq!(
        run(&mut registry, "A.size()"),
        fault("Unknown method or wrong arguments: size")
    );
    assert_eq!(
        run(&mut registry, "count(1)"),
        Err(("Unknown function: count".to_string(), "function".to_string()))
    );
    match by_call {
        EvalValue::List(list) => {
            assert_eq!(list.to_string(), "List[A]([A(1), A(3)])");
        }
        other => panic!("expected a list, got {:?}", other),
    }
}

#[test]
fn instances_constructed_before_a_fault_stay() {
    let mut registry = compiled("value A(n: Int) { }");
    assert_eq!(run(&mut registry, "A(1).n + 1 / 0"), fault("Division by zero"));
    assert_eq!(registry.count_instances("A"), 1);
}

#[test]
fn values_as_text() {
    assert_eq!(EvalValue::String("a b".to_string()).to_string(), "a b");
    assert_eq!(EvalValue::Integer(-12).to_string(), "-12");
    assert_eq!(EvalValue::Integer(0).to_string(), "0");
    assert_eq!(
        EvalValue::Integer(i64::MIN).to_string(),
        "-9223372036854775808"
    );
    assert_eq!(EvalValue::Boolean(true).to_string(), "true");
    assert_eq!(EvalValue::Boolean(false).to_string(), "false");
    assert_eq!(EvalValue::Type("E".to_string()).to_string(), "Type(E)");
    let instance = Instance {
        value_type: "E".to_string(),
        field: "raw".to_string(),
        payload: Primitive::String("a@b".to_string()),
    };
    assert_eq!(EvalValue::Value(instance.clone()).to_string(), "E(a@b)");
    assert_eq!(
        EvalValue::List(List::from_items(
            vec![instance.clone(), instance.clone()],
            "E".to_string()
        ))
        .to_string(),
        "[E(a@b), E(a@b)]"
    );
    assert_eq!(
        EvalValue::List(List::new("E".to_string())).to_string(),
        "[]"
    );
    assert_eq!(Primitive::Boolean(false).to_string(), "false");
}

#[test]
fn type_matching_and_signatures() {
    let instance = EvalValue::Value(Instance {
        value_type: "E".to_string(),
        field: "raw".to_string(),
        payload: Primitive::Integer(1),
    });
    let list = EvalValue::List(List::new("E".to_string()));
    assert!(matches_type(&Type::Int, &EvalValue::Integer(1)));
    assert!(!matches_type(&Type::Int, &EvalValue::Boolean(true)));
    assert!(matches_type(&Type::String, &EvalValue::String(String::new())));
    assert!(matches_type(&Type::Bool, &EvalValue::Boolean(true)));
    assert!(matches_type(&Type::Value("E".to_string()), &instance));
    assert!(!matches_type(&Type::Value("F".to_string()), &instance));
    assert!(matches_type(&Type::Type, &EvalValue::Type("E".to_string())));
    assert!(matches_type(&Type::List(Box::new(Type::Int)), &list));
    assert!(matches_type(&Type::Any, &list));
    assert!(!matches_type(&Type::Unknown, &EvalValue::Integer(1)));
    assert_eq!(get_value_type_signature(&EvalValue::Integer(1)), "Int");
    assert_eq!(get_value_type_signature(&EvalValue::String(String::new())), "String");
    assert_eq!(get_value_type_signature(&EvalValue::Boolean(true)), "Bool");
    assert_eq!(get_value_type_signature(&instance), "E");
    assert_eq!(get_value_type_signature(&EvalValue::Type("E".to_string())), "Type");
    assert_eq!(get_value_type_signature(&list), "List");
    let key = create_dispatch_key("f", &vec![EvalValue::Integer(1), instance]);
    assert_eq!(key.function_name, "f");
    assert_eq!(key.arg_type_signatures, vec!["Int".to_string(), "E".to_string()]);
}

#[test]
fn specificity_and_selection() {
    let decls = program(
        "fn f(a: Int, b: Any, c: E where true, d: Any where true) -> Int { 1 } fn g() -> Int { 1 }",
    );
    match &decls.declarations[0] {
        relic::ast::Declaration::Function(f) => {
            assert_eq!(calculate_function_specificity(f), 3 + 1 + 5 + 3)
        }
        other => panic!("expected a function, got {:?}", other),
    }
    match &decls.declarations[1] {
        relic::ast::Declaration::Function(g) => assert_eq!(calculate_function_specificity(g), 0),
        other => panic!("expected a function, got {:?}", other),
    }
    assert!(matches!(select_overload(&vec![]), Chosen::NoMatch));
    assert!(matches!(select_overload(&vec![None, None]), Chosen::NoMatch));
    assert!(matches!(
        select_overload(&vec![None, Some(1), Some(3), Some(2)]),
        Chosen::Unique(2)
    ));
    assert!(matches!(
        select_overload(&vec![Some(3), Some(1), Some(3)]),
        Chosen::Ambiguous
    ));
    assert!(matches!(
        select_overload(&vec![Some(1), Some(1), Some(3)]),
        Chosen::Unique(2)
    ));
    assert!(matches!(select_overload(&vec![Some(0)]), Chosen::Unique(0)));
}

#[test]
fn binary_operator_on_values() {
    assert_eq!(
        evaluate_binary_op(&BinaryOp::Add, &EvalValue::Integer(2), &EvalValue::Integer(3))
            .unwrap(),
        EvalValue::Integer(5)
    );
    assert_eq!(
        evaluate_binary_op(
            &BinaryOp::Or,
            &EvalValue::Boolean(false),
            &EvalValue::Boolean(true)
        )
        .unwrap(),
        EvalValue::Boolean(true)
    );
    assert_eq!(
        evaluate_binary_op(&BinaryOp::And, &EvalValue::Integer(2), &EvalValue::Integer(3))
            .unwrap_err()
            .message,
        "Type mismatch in binary operation"
    );
}

#[test]
fn execute_function_dispatches_on_values() {
    let mut registry = compiled("fn f(x: Int) -> Int { x * 2 } fn f(x: Bool) -> Int { 0 }");
    assert_eq!(
        registry
            .execute_function("f", vec![EvalValue::Integer(21)])
            .unwrap(),
        EvalValue::Integer(42)
    );
    assert_eq!(
        registry
            .execute_function("f", vec![EvalValue::Boolean(true)])
            .unwrap(),
        EvalValue::Integer(0)
    );
    assert_eq!(
        registry
            .execute_function("g", vec![])
            .unwrap_err()
            .to_string(),
        "Validation error: Unknown function: g"
    );
    assert!(registry.get_function("f").is_none());
    assert_eq!(registry.get_functions("f").unwrap().len(), 2);
    assert!(registry.get_functions("g").is_none());
    assert!(registry.get_methods("f").is_none());
}

#[test]
fn a_later_constructor_takes_the_place_of_an_earlier_one() {
    let mut registry = ValueRegistry::new();
    let first = match &program("value A(n: Int) { validate: n > 0 }").declarations[0] {
        relic::ast::Declaration::Value(v) => v.clone(),
        other => panic!("expected a value, got {:?}", other),
    };
    let second = match &program("value A(n: Int) { validate: n < 0 }").declarations[0] {
        relic::ast::Declaration::Value(v) => v.clone(),
        other => panic!("expected a value, got {:?}", other),
    };
    registry.register("A".to_string(), ValueConstructor { declaration: first });
    assert!(registry.construct("A", Primitive::Integer(1)).is_ok());
    registry.register("A".to_string(), ValueConstructor { declaration: second });
    assert!(registry.construct("A", Primitive::Integer(1)).is_err());
    assert!(registry.construct("A", Primitive::Integer(-1)).is_ok());
    assert_eq!(registry.count_instances("A"), 2);
}

#[test]
fn validation_helpers_bind_the_parameter() {
    let mut registry = ValueRegistry::new();
    let rule = expr("raw contains \"@\" && raw.length > n");
    let context = vec![Binding {
        name: "n".to_string(),
        value: EvalValue::Integer(3),
    }];
    assert_eq!(
        evaluate_string_validation_with_context("a@bc", &rule, "raw", &context, &mut registry)
            .unwrap(),
        true
    );
    assert_eq!(
        evaluate_string_validation_with_context("a@b", &rule, "raw", &context, &mut registry)
            .unwrap(),
        false
    );
    assert!(evaluate_string_validation("a@bc", &rule, "raw", &mut registry).is_err());
    assert_eq!(
        evaluate_string_validation("a@bc", &expr("raw.length"), "raw", &mut registry).unwrap(),
        false
    );
    assert_eq!(
        evaluate_int_validation(5, &expr("n > 0"), "n", &mut registry).unwrap(),
        true
    );
    assert_eq!(
        evaluate_int_validation(0, &expr("n > 0"), "n", &mut registry).unwrap(),
        false
    );
    assert_eq!(
        evaluate_int_validation_with_context(4, &expr("n > m"), "m", &context, &mut registry)
            .unwrap(),
        false
    );
    assert_eq!(
        evaluate_int_expr(&expr("n * 2 + 1"), 20, "n", &Vec::new(), &mut registry).unwrap(),
        41
    );
    assert!(evaluate_int_expr(&expr("n > 1"), 20, "n", &Vec::new(), &mut registry).is_err());
    assert_eq!(
        evaluate_string_expr(&expr("s.toUpperCase"), "ab", "s", &Vec::new(), &mut registry)
            .unwrap(),
        "AB"
    );
    assert!(evaluate_string_expr(&expr("s.length"), "ab", "s", &Vec::new(), &mut registry).is_err());
    assert_eq!(
        evaluate_expression_to_value(&expr("s.length"), "abc", "s", &Vec::new(), &mut registry)
            .unwrap(),
        EvalValue::Integer(3)
    );
    assert_eq!(
        evaluate_expression_to_value_int(&expr("n - 1"), 3, "n", &Vec::new(), &mut registry)
            .unwrap(),
        EvalValue::Integer(2)
    );
    assert_eq!(
        evaluate_expression_to_value_int(
            &Expression::Literal(Literal::String("x".to_string())),
            3,
            "n",
            &Vec::new(),
            &mut registry
        )
        .unwrap(),
        EvalValue::String("x".to_string())
    );
}

#[test]
fn a_value_of_the_inferred_type() {
    let env = TypeEnvironment::new();
    let locals = vec![
        Local {
            name: "s".to_string(),
            ty: Type::String,
        },
        Local {
            name: "n".to_string(),
            ty: Type::Int,
        },
    ];
    let context = vec![
        Binding {
            name: "s".to_string(),
            value: EvalValue::String("Hello".to_string()),
        },
        Binding {
            name: "n".to_string(),
            value: EvalValue::Integer(2),
        },
    ];
    let mut registry = ValueRegistry::new();
    for source in [
        "s.length + n",
        "s.toLowerCase",
        "let m = n * 2 in m > s.length",
        "s contains \"ell\" && !(n == 3)",
        "-n",
    ] {
        let e = expr(source);
        let ty = check_in(&e, &locals, &env).unwrap();
        let v = evaluate_expression(&e, &context, &mut registry).unwrap();
        assert!(matches_type(&ty, &v), "{}", source);
    }
}

#[test]
fn the_chosen_overload_depends_on_runtime_types_only() {
    let mut registry = compiled(
        "fn f(x: Int) -> String { \"int\" } fn f(x: String) -> String { \"string\" } fn f(x: Any) -> String { \"any\" }",
    );
    for n in ["0", "1", "-5", "9223372036854775807"] {
        assert_eq!(
            run(&mut registry, &format!("f({})", n)),
            Ok(EvalValue::String("int".to_string()))
        );
    }
    for s in ["\"\"", "\"a\"", "\"Int\""] {
        assert_eq!(
            run(&mut registry, &format!("f({})", s)),
            Ok(EvalValue::String("string".to_string()))
        );
    }
    for b in ["true", "false", "1 == 1"] {
        assert_eq!(
            run(&mut registry, &format!("f({})", b)),
            Ok(EvalValue::String("any".to_string()))
        );
    }
}

#[test]
fn a_normalizer_need_not_be_idempotent() {
    let mut registry = compiled("value V(n: Int) { normalize: n + 1 }");
    let once = registry.construct("V", Primitive::Integer(0)).unwrap();
    assert_eq!(once.payload, Primitive::Integer(1));
    let twice = registry.construct("V", Primitive::Integer(1)).unwrap();
    assert_eq!(twice.payload, Primitive::Integer(2));
}

#[test]
fn the_first_exact_overload_types_a_call_whatever_the_guards_decide() {
    let source = "fn f(x: Int where x > 0) -> Int { 1 } fn f(x: Int) -> String { \"s\" }";
    let mut checker = relic::typechecker::TypeChecker::new();
    checker.check_program(&program(source)).unwrap();
    let call = expr("f(-1)");
    assert_eq!(checker.check_expression(&call).unwrap(), Type::Int);
    let mut registry = compiled(source);
    assert_eq!(
        run(&mut registry, "f(-1)"),
        Ok(EvalValue::String("s".to_string()))
    );
    assert_eq!(run(&mut registry, "f(1)"), integer(1));
}
