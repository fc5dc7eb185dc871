//! Evaluation with specializations at hand. A specialization is advice
//! only: whatever was specialized, the value of an expression is the value
//! that dispatch gives it.

use crate::ast::{Expression, ExprView, Literal};
use crate::error::Error;
use crate::evaluator::{
    Binding, bindings_view, evaluate_expression, EvalValue, MAX_CALL_DEPTH, public_result,
};
use crate::semantics::{BindingView, eval, lookup, reported, runtime_type, RuntimeType};
use crate::specialization::SpecializationCache;
use crate::typechecker::{Local, locals_view};
use crate::typing::{literal_type, local_type, LocalView};
use crate::types::{clone_type, Type, TypeView};
use crate::value::ValueRegistry;
use vstd::prelude::*;
use vstd::string::*;

verus! {

/// The static type that a runtime type is.
pub open spec fn static_type(rt: RuntimeType) -> TypeView {
    match rt {
        RuntimeType::Int => TypeView::Int,
        RuntimeType::String => TypeView::String,
        RuntimeType::Bool => TypeView::Bool,
        RuntimeType::Instance(name) => TypeView::Value(name),
        RuntimeType::Type => TypeView::Type,
        RuntimeType::List => TypeView::List(Box::new(TypeView::Any)),
    }
}

/// The static type of a runtime value.
pub fn type_from_value(value: &EvalValue) -> (r: Type)
    ensures
        r@ == static_type(runtime_type(value@)),
{
    match value {
        EvalValue::Integer(_) => Type::Int,
        EvalValue::String(_) => Type::String,
        EvalValue::Boolean(_) => Type::Bool,
        EvalValue::Value(instance) => Type::Value(instance.value_type.clone()),
        EvalValue::Type(_) => Type::Type,
        EvalValue::List(_) => {
            let t = Type::List(Box::new(Type::Any));
            assert(t@ == TypeView::List(Box::new(TypeView::Any))) by {
                reveal_with_fuel(crate::types::type_view, 2);
            }
            t
        },
    }
}

/// A name that starts with a capital letter `A` to `Z`: by convention the
/// name of a value type.
pub open spec fn capitalized(name: Seq<char>) -> bool {
    name.len() > 0 && 0x41 <= (name[0] as u32) <= 0x5a
}

/// The type of an expression as far as can be told before it is
/// evaluated: of a literal its type, of an identifier its declared type
/// or else the type of the value that it is bound to, of a call of a
/// capitalized name the value type of that name; otherwise `Unknown`.
pub open spec fn runtime_guess(e: ExprView, context: Seq<BindingView>, env: Seq<LocalView>)
    -> TypeView {
    match e {
        ExprView::Literal(l) => literal_type(l),
        ExprView::Identifier(name) => match local_type(env, name) {
            Some(t) => t,
            None => match lookup(context, name) {
                Some(v) => static_type(runtime_type(v)),
                None => TypeView::Unknown,
            },
        },
        ExprView::FunctionCall(name, _) => if capitalized(name) {
            TypeView::Value(name)
        } else {
            TypeView::Unknown
        },
        _ => TypeView::Unknown,
    }
}

fn is_capitalized(name: &str) -> (r: bool)
    ensures
        r == capitalized(name@),
{
    if name.unicode_len() == 0 {
        return false;
    }
    let first = name.get_char(0) as u32;
    0x41 <= first && first <= 0x5a
}

fn bound_value<'a>(context: &'a Vec<Binding>, name: &str) -> (r: Option<&'a EvalValue>)
    ensures
        match r {
            Some(v) => lookup(bindings_view(context@), name@) == Some(v@),
            None => lookup(bindings_view(context@), name@) is None,
        },
{
    let ghost all = bindings_view(context@);
    let mut i: usize = context.len();
    assert(all.take(i as int) =~= all);
    while i > 0
        invariant
            i <= context.len(),
            all == bindings_view(context@),
            lookup(all, name@) == lookup(all.take(i as int), name@),
        decreases i,
    {
        let b = &context[i - 1];
        assert(all.take(i as int).last() == all[i - 1]);
        assert(all.take(i as int).drop_last() =~= all.take(i - 1));
        if crate::text::str_equal(b.name.as_str(), name) {
            return Some(&b.value);
        }
        i = i - 1;
    }
    None
}

/// The type of an expression as far as can be told before it is
/// evaluated.
pub fn infer_runtime_type(expr: &Expression, context: &Vec<Binding>, type_env: &Vec<Local>) -> (r:
    Type)
    ensures
        r@ == runtime_guess(expr@, bindings_view(context@), locals_view(type_env@)),
{
    match expr {
        Expression::Literal(l) => match l {
            Literal::Integer(_) => Type::Int,
            Literal::String(_) => Type::String,
            Literal::Boolean(_) => Type::Bool,
        },
        Expression::Identifier(name) => match crate::typechecker::lookup_local(
            type_env,
            name.as_str(),
        ) {
            Some(t) => clone_type(t),
            None => match bound_value(context, name.as_str()) {
                Some(v) => type_from_value(v),
                None => Type::Unknown,
            },
        },
        Expression::FunctionCall(name, _) => if is_capitalized(name.as_str()) {
            Type::Value(name.clone())
        } else {
            Type::Unknown
        },
        _ => Type::Unknown,
    }
}

/// Evaluates a call of the function `name` on argument expressions.
pub fn evaluate_function_call(
    name: &str,
    args: &Vec<Expression>,
    context: &Vec<Binding>,
    registry: &mut ValueRegistry,
) -> (r: Result<EvalValue, Error>)
    requires
        old(registry).wf(),
    ensures
        final(registry).wf(),
        final(registry)@.definitions == old(registry)@.definitions,
        ({
            let o = eval(
                ExprView::FunctionCall(name@, crate::ast::exprs_view(args@)),
                bindings_view(context@),
                old(registry)@.definitions,
                old(registry)@.instances,
                MAX_CALL_DEPTH as nat,
            );
            &&& public_result(r) == reported(o.result)
            &&& final(registry)@.instances == o.store
        }),
{
    let call = Expression::FunctionCall(
        String::from_str(name),
        crate::ast::clone_expressions(args),
    );
    evaluate_expression(&call, context, registry)
}

/// Evaluates an expression with specializations at hand: the value or the
/// validation error that plain evaluation gives, and the registry that it
/// leaves.
pub fn evaluate_expression_optimized(
    expr: &Expression,
    context: &Vec<Binding>,
    registry: &mut ValueRegistry,
    specialization_cache: &SpecializationCache,
    type_env: &Vec<Local>,
) -> (r: Result<EvalValue, Error>)
    requires
        old(registry).wf(),
    ensures
        final(registry).wf(),
        final(registry)@.definitions == old(registry)@.definitions,
        ({
            let o = eval(
                expr@,
                bindings_view(context@),
                old(registry)@.definitions,
                old(registry)@.instances,
                MAX_CALL_DEPTH as nat,
            );
            &&& public_result(r) == reported(o.result)
            &&& final(registry)@.instances == o.store
        }),
{
    match expr {
        Expression::FunctionCall(name, args) => evaluate_function_call(
            name.as_str(),
            args,
            context,
            registry,
        ),
        _ => evaluate_expression(expr, context, registry),
    }
}

} // verus!
