use relic::ast::{Expression, FunctionDeclaration, Literal, ParameterWithGuard};
use relic::evaluator::{Binding, EvalValue};
use relic::optimized_evaluator::{
    evaluate_expression_optimized, evaluate_function_call, infer_runtime_type, type_from_value,
};
use relic::specialization::{
    infer_expression_type, specialize_function_calls, type_specificity, types_compatible,
    SpecializationCache,
};
use relic::typechecker::Local;
use relic::types::Type;
use relic::value::ValueRegistry;

fn function(name: &str, ty: Type, guard: Option<Expression>, result: i64) -> FunctionDeclaration {
    FunctionDeclaration {
        name: name.to_string(),
        parameters: vec![ParameterWithGuard {
            name: "x".to_string(),
            ty,
            guard,
        }],
        return_type: Type::Int,
        body: Expression::Literal(Literal::Integer(result)),
    }
}

#[test]
fn test_optimized_function_call() {
    let _cache = SpecializationCache::new();
    let _registry = ValueRegistry::new();
    let _context: Vec<Binding> = Vec::new();
    let _type_env: Vec<Local> = Vec::new();

    assert!(true);
}

#[test]
fn test_single_implementation_specialization() {
    let mut cache = SpecializationCache::new();
    let mut registry = ValueRegistry::new();

    let func = FunctionDeclaration {
        name: "double".to_string(),
        parameters: vec![ParameterWithGuard {
            name: "x".to_string(),
            ty: Type::Int,
            guard: None,
        }],
        return_type: Type::Int,
        body: Expression::Literal(Literal::Integer(0)),
    };
    registry.register_function(func);

    let spec = cache.try_specialize("double", &[Type::Int], &registry);
    assert!(spec.is_some());
    assert_eq!(spec.unwrap().target_function, 0);
}

#[test]
fn test_type_compatibility() {
    assert!(types_compatible(&Type::Any, &Type::Int));
    assert!(types_compatible(&Type::Int, &Type::Int));
    assert!(!types_compatible(&Type::Int, &Type::String));
    assert!(types_compatible(&Type::Int, &Type::Unknown));
}

#[test]
fn compatibility_of_value_types_and_unknown() {
    assert!(types_compatible(
        &Type::Value("A".to_string()),
        &Type::Value("A".to_string())
    ));
    assert!(!types_compatible(
        &Type::Value("A".to_string()),
        &Type::Value("B".to_string())
    ));
    assert!(types_compatible(&Type::Unknown, &Type::Bool));
    assert!(!types_compatible(&Type::Type, &Type::Type));
    assert!(!types_compatible(&Type::Bool, &Type::Any));
    assert_eq!(type_specificity(&Type::Int), 3);
    assert_eq!(type_specificity(&Type::Value("A".to_string())), 3);
    assert_eq!(type_specificity(&Type::Any), 1);
    assert_eq!(type_specificity(&Type::Unknown), 0);
}

#[test]
fn specialization_picks_the_most_specific_overload_and_remembers_it() {
    let mut cache = SpecializationCache::new();
    let mut registry = ValueRegistry::new();
    registry.register_function(function("f", Type::Any, None, 0));
    registry.register_function(function("f", Type::Int, None, 1));

    assert_eq!(cache.get_specialization("f", &[Type::Int]), None);
    let spec = cache.try_specialize("f", &[Type::Int], &registry).unwrap();
    assert_eq!(spec.target_function, 1);
    assert_eq!(spec.function_name, "f");
    assert_eq!(spec.arg_types, vec![Type::Int]);
    assert_eq!(cache.get_specialization("f", &[Type::Int]), Some(1));
    assert_eq!(cache.get_specialization("f", &[Type::String]), None);

    let other = cache.try_specialize("f", &[Type::String], &registry).unwrap();
    assert_eq!(other.target_function, 0);

    registry.register_function(function("f", Type::String, None, 2));
    let again = cache.try_specialize("f", &[Type::String], &registry).unwrap();
    assert_eq!(again.target_function, 0);
}

#[test]
fn specialization_gives_up_on_ties_and_unknown_functions() {
    let mut cache = SpecializationCache::new();
    let mut registry = ValueRegistry::new();
    assert!(cache.try_specialize("g", &[Type::Int], &registry).is_none());
    registry.register_function(function("g", Type::Int, None, 1));
    registry.register_function(function("g", Type::Int, None, 2));
    assert!(cache.try_specialize("g", &[Type::Int], &registry).is_none());
    assert!(cache.try_specialize("g", &[Type::Bool], &registry).is_none());
    assert_eq!(cache.get_specialization("g", &[Type::Int]), None);

    registry.register_function(function(
        "h",
        Type::Int,
        Some(Expression::Literal(Literal::Boolean(true))),
        1,
    ));
    registry.register_function(function("h", Type::Int, None, 2));
    let spec = cache.try_specialize("h", &[Type::Int], &registry).unwrap();
    assert_eq!(spec.target_function, 0);
}

#[test]
fn call_sites_with_known_argument_types_are_specialized() {
    let mut cache = SpecializationCache::new();
    let mut registry = ValueRegistry::new();
    registry.register_function(function("f", Type::Int, None, 1));
    let env: Vec<Local> = vec![Local {
        name: "n".to_string(),
        ty: Type::Int,
    }];
    let call = Expression::FunctionCall(
        "f".to_string(),
        vec![Expression::Identifier("n".to_string())],
    );
    specialize_function_calls(&call, &env, &mut cache, &registry);
    assert_eq!(cache.get_specialization("f", &[Type::Int]), Some(0));

    let unknown = Expression::FunctionCall(
        "f".to_string(),
        vec![Expression::Identifier("m".to_string())],
    );
    let mut fresh = SpecializationCache::new();
    specialize_function_calls(&unknown, &env, &mut fresh, &registry);
    assert_eq!(fresh.get_specialization("f", &[Type::Unknown]), None);

    assert_eq!(infer_expression_type(&call, &env), Type::Unknown);
    assert_eq!(
        infer_expression_type(&Expression::Identifier("n".to_string()), &env),
        Type::Int
    );
    assert_eq!(
        infer_expression_type(&Expression::TypeLiteral("E".to_string()), &env),
        Type::Type
    );
}

#[test]
fn optimized_evaluation_agrees_with_evaluation() {
    let mut registry = ValueRegistry::new();
    registry.register_function(function("f", Type::Any, None, 0));
    registry.register_function(function("f", Type::Int, None, 1));
    let cache = SpecializationCache::new();
    let env: Vec<Local> = Vec::new();
    let context: Vec<Binding> = Vec::new();
    let call = Expression::FunctionCall(
        "f".to_string(),
        vec![Expression::Literal(Literal::Integer(3))],
    );
    let fast = evaluate_expression_optimized(&call, &context, &mut registry, &cache, &env).unwrap();
    let plain = registry.evaluate(&call, &context).unwrap();
    assert_eq!(fast, plain);
    assert_eq!(fast, EvalValue::Integer(1));
    let direct = evaluate_function_call(
        "f",
        &vec![Expression::Literal(Literal::Boolean(true))],
        &context,
        &mut registry,
    )
    .unwrap();
    assert_eq!(direct, EvalValue::Integer(0));
}

#[test]
fn runtime_types_are_guessed_from_values_and_names() {
    let context = vec![Binding {
        name: "s".to_string(),
        value: EvalValue::String("x".to_string()),
    }];
    let env: Vec<Local> = Vec::new();
    assert_eq!(type_from_value(&EvalValue::Integer(1)), Type::Int);
    assert_eq!(
        type_from_value(&EvalValue::Type("E".to_string())),
        Type::Type
    );
    assert_eq!(
        infer_runtime_type(&Expression::Identifier("s".to_string()), &context, &env),
        Type::String
    );
    assert_eq!(
        infer_runtime_type(&Expression::Identifier("t".to_string()), &context, &env),
        Type::Unknown
    );
    assert_eq!(
        infer_runtime_type(
            &Expression::FunctionCall("Email".to_string(), Vec::new()),
            &context,
            &env
        ),
        Type::Value("Email".to_string())
    );
    assert_eq!(
        infer_runtime_type(
            &Expression::FunctionCall("email".to_string(), Vec::new()),
            &context,
            &env
        ),
        Type::Unknown
    );
}
