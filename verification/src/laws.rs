//! Laws of the language, proved of its rules: what a construction
//! registers, that uniqueness is kept and instances are never removed, that
//! dispatch is determined by runtime types and guard outcomes, that
//! remembered decisions agree with dispatch, that accepted overloads are told
//! apart, and that expressions without user calls evaluate to values of
//! their types.

use crate::ast::{
    DeclarationView, ExprView, FunctionDeclView, GuardedParameterView, MatchArmView, ValueDeclView,
};
use crate::error::{ErrorView, Fault};
use crate::semantics::{
    accepts, all_of, apply_call, as_primitive, bind, BindingView, cacheable, chosen, construct,
    dispatch, entry_sound, eval, eval_args, eval_arms, guards_hold, lemma_cache_consistent, lookup,
    normalized, Outcome, primitive_value, runtime_type, runtime_types, Selection, selection,
    signatures, survivors, validated, ValueView,
};
use crate::typing::{
    check, check_all, check_declaration, check_declarations, check_function_declaration, clashes,
    has_guards, local_type, LocalView, signature_of,
};
use crate::types::{FunctionTypeView, signatures_named, TypeEnvView, TypeView};
use crate::value::{
    CacheEntryView, DefinitionsView, distinct_payloads, has_payload, InstanceView, of_type,
    PrimitiveView,
};
use vstd::prelude::*;

verus! {

/// Every type that is declared unique holds no two instances with equal
/// payloads.
pub open spec fn uniqueness_respected(defs: DefinitionsView, store: Seq<InstanceView>) -> bool {
    forall|name: Seq<char>|
        (#[trigger] defs.constructor(name)) matches Some(decl) && decl.body.unique == Some(true)
            ==> distinct_payloads(of_type(store, name))
}

/// What a construction yields: on success the payload of the new instance
/// is the normalized payload, it passed the validator, and the instance
/// is the one new entry, the last, among the instances of its type; a
/// unique type held no instance with that payload before.
pub proof fn lemma_construct_registers_validated(
    value_type: Seq<char>,
    payload: PrimitiveView,
    defs: DefinitionsView,
    store: Seq<InstanceView>,
    fuel: nat,
)
    ensures
        construct(value_type, payload, defs, store, fuel).result matches Ok(instance) ==> {
            let o = construct(value_type, payload, defs, store, fuel);
            let decl = defs.constructor(value_type)->Some_0;
            let n = normalized(decl, payload, defs, store, fuel);
            let v = validated(decl, value_type, instance.payload, defs, n.store, fuel);
            &&& defs.constructor(value_type) is Some
            &&& n.result == Ok::<PrimitiveView, Fault>(instance.payload)
            &&& v.result is Ok
            &&& instance.value_type == value_type
            &&& instance.field == decl.parameter.name
            &&& o.store == v.store.push(instance)
            &&& of_type(o.store, value_type) == of_type(v.store, value_type).push(instance)
            &&& decl.body.unique == Some(true) ==> !has_payload(
                of_type(v.store, value_type),
                instance.payload,
            )
        },
{
    let o = construct(value_type, payload, defs, store, fuel);
    if o.result is Ok {
        let instance = o.result->Ok_0;
        let decl = defs.constructor(value_type)->Some_0;
        let n = normalized(decl, payload, defs, store, fuel);
        let v = validated(decl, value_type, instance.payload, defs, n.store, fuel);
        assert(v.store.push(instance).drop_last() =~= v.store);
    }
}

/// Appending an instance adds it to the instances of its type and leaves
/// those of every other type as they are.
pub proof fn lemma_of_type_push(store: Seq<InstanceView>, instance: InstanceView, name: Seq<char>)
    ensures
        of_type(store.push(instance), name) == if instance.value_type == name {
            of_type(store, name).push(instance)
        } else {
            of_type(store, name)
        },
{
    assert(store.push(instance).drop_last() =~= store);
}

/// Construction keeps uniqueness.
pub proof fn lemma_construct_keeps_uniqueness(
    value_type: Seq<char>,
    payload: PrimitiveView,
    defs: DefinitionsView,
    store: Seq<InstanceView>,
    fuel: nat,
)
    requires
        uniqueness_respected(defs, store),
    ensures
        uniqueness_respected(defs, construct(value_type, payload, defs, store, fuel).store),
    decreases 8 * fuel + 4, payload, 0nat,
{
    match defs.constructor(value_type) {
        None => {},
        Some(decl) => {
            lemma_normalized_keeps_uniqueness(decl, payload, defs, store, fuel);
            let n = normalized(decl, payload, defs, store, fuel);
            match n.result {
                Err(_) => {},
                Ok(p) => {
                    lemma_validated_keeps_uniqueness(decl, value_type, p, defs, n.store, fuel);
                    let v = validated(decl, value_type, p, defs, n.store, fuel);
                    let o = construct(value_type, payload, defs, store, fuel);
                    if o.result is Ok {
                        let instance = o.result->Ok_0;
                        assert forall|name: Seq<char>|
                            (#[trigger] defs.constructor(name)) matches Some(d)
                                && d.body.unique == Some(true) implies distinct_payloads(
                            of_type(o.store, name),
                        ) by {
                            lemma_of_type_push(v.store, instance, name);
                            let before = of_type(v.store, name);
                            assert(distinct_payloads(before));
                            if name == value_type {
                                let after = before.push(instance);
                                assert forall|i: int, j: int|
                                    0 <= i < j < after.len() implies #[trigger] after[i].payload
                                    != #[trigger] after[j].payload by {
                                    if j == before.len() {
                                        assert(before[i].payload != instance.payload);
                                    } else {
                                        assert(before[i].payload != before[j].payload);
                                    }
                                }
                            }
                        }
                    }
                },
            }
        },
    }
}

/// Normalization keeps uniqueness.
pub proof fn lemma_normalized_keeps_uniqueness(
    decl: ValueDeclView,
    payload: PrimitiveView,
    defs: DefinitionsView,
    store: Seq<InstanceView>,
    fuel: nat,
)
    requires
        uniqueness_respected(defs, store),
    ensures
        uniqueness_respected(defs, normalized(decl, payload, defs, store, fuel).store),
    decreases 8 * fuel + 3, decl, 0nat,
{
    match decl.body.normalize {
        None => {},
        Some(e) => {
            lemma_eval_keeps_uniqueness(
                e,
                seq![BindingView { name: decl.parameter.name, value: primitive_value(payload) }],
                defs,
                store,
                fuel,
            );
        },
    }
}

/// Validation keeps uniqueness.
pub proof fn lemma_validated_keeps_uniqueness(
    decl: ValueDeclView,
    value_type: Seq<char>,
    payload: PrimitiveView,
    defs: DefinitionsView,
    store: Seq<InstanceView>,
    fuel: nat,
)
    requires
        uniqueness_respected(defs, store),
    ensures
        uniqueness_respected(defs, validated(decl, value_type, payload, defs, store, fuel).store),
    decreases 8 * fuel + 3, decl, 0nat,
{
    match decl.body.validate {
        None => {},
        Some(e) => {
            lemma_eval_keeps_uniqueness(
                e,
                seq![BindingView { name: decl.parameter.name, value: primitive_value(payload) }],
                defs,
                store,
                fuel,
            );
        },
    }
}

/// Uniqueness is an invariant of evaluation: whatever an expression
/// constructs, no type that is declared unique comes to hold two
/// instances with equal payloads.
pub proof fn lemma_eval_keeps_uniqueness(
    e: ExprView,
    ctx: Seq<BindingView>,
    defs: DefinitionsView,
    store: Seq<InstanceView>,
    fuel: nat,
)
    requires
        uniqueness_respected(defs, store),
    ensures
        uniqueness_respected(defs, eval(e, ctx, defs, store, fuel).store),
    decreases 8 * fuel + 2, e, 0nat,
{
    match e {
        ExprView::Literal(_) => {},
        ExprView::Identifier(_) => {},
        ExprView::TypeLiteral(_) => {},
        ExprView::Binary(_, l, r) => {
            lemma_eval_keeps_uniqueness(*l, ctx, defs, store, fuel);
            let a = eval(*l, ctx, defs, store, fuel);
            if a.result is Ok {
                lemma_eval_keeps_uniqueness(*r, ctx, defs, a.store, fuel);
            }
        },
        ExprView::Unary(_, a) => {
            lemma_eval_keeps_uniqueness(*a, ctx, defs, store, fuel);
        },
        ExprView::Comparison(_, l, r) => {
            lemma_eval_keeps_uniqueness(*l, ctx, defs, store, fuel);
            let a = eval(*l, ctx, defs, store, fuel);
            if a.result is Ok {
                lemma_eval_keeps_uniqueness(*r, ctx, defs, a.store, fuel);
            }
        },
        ExprView::MemberAccess(obj, _) => {
            lemma_eval_keeps_uniqueness(*obj, ctx, defs, store, fuel);
        },
        ExprView::FunctionCall(name, args) => {
            lemma_eval_args_keep_uniqueness(args, args.len(), ctx, defs, store, fuel);
            let a = eval_args(args, args.len(), ctx, defs, store, fuel);
            match a.result {
                Err(_) => {},
                Ok(vals) => {
                    lemma_apply_call_keeps_uniqueness(name, vals, defs, a.store, fuel);
                },
            }
        },
        ExprView::MethodCall(obj, method, args) => {
            lemma_eval_keeps_uniqueness(*obj, ctx, defs, store, fuel);
            let o = eval(*obj, ctx, defs, store, fuel);
            match o.result {
                Err(_) => {},
                Ok(receiver) => {
                    if defs.overloads(method).len() > 0 {
                        lemma_eval_args_keep_uniqueness(args, args.len(), ctx, defs, o.store, fuel);
                        let a = eval_args(args, args.len(), ctx, defs, o.store, fuel);
                        match a.result {
                            Err(_) => {},
                            Ok(vals) => {
                                lemma_apply_call_keeps_uniqueness(
                                    method,
                                    seq![receiver] + vals,
                                    defs,
                                    a.store,
                                    fuel,
                                );
                            },
                        }
                    }
                },
            }
        },
        ExprView::Pipeline(l, r) => {
            lemma_eval_keeps_uniqueness(*l, ctx, defs, store, fuel);
            let a = eval(*l, ctx, defs, store, fuel);
            match a.result {
                Err(_) => {},
                Ok(x) => match *r {
                    ExprView::Identifier(name) => {
                        lemma_apply_call_keeps_uniqueness(name, seq![x], defs, a.store, fuel);
                    },
                    ExprView::FunctionCall(name, args) => {
                        lemma_eval_args_keep_uniqueness(args, args.len(), ctx, defs, a.store, fuel);
                        let b = eval_args(args, args.len(), ctx, defs, a.store, fuel);
                        match b.result {
                            Err(_) => {},
                            Ok(vals) => {
                                lemma_apply_call_keeps_uniqueness(
                                    name,
                                    seq![x] + vals,
                                    defs,
                                    b.store,
                                    fuel,
                                );
                            },
                        }
                    },
                    _ => {},
                },
            }
        },
        ExprView::Let(name, value, body) => {
            lemma_eval_keeps_uniqueness(*value, ctx, defs, store, fuel);
            let a = eval(*value, ctx, defs, store, fuel);
            match a.result {
                Err(_) => {},
                Ok(x) => {
                    lemma_eval_keeps_uniqueness(
                        *body,
                        ctx.push(BindingView { name, value: x }),
                        defs,
                        a.store,
                        fuel,
                    );
                },
            }
        },
        ExprView::Match(scrutinee, arms) => {
            lemma_eval_keeps_uniqueness(*scrutinee, ctx, defs, store, fuel);
            let a = eval(*scrutinee, ctx, defs, store, fuel);
            match a.result {
                Ok(ValueView::Value(instance)) => {
                    lemma_eval_arms_keep_uniqueness(arms, 0, instance, ctx, defs, a.store, fuel);
                },
                _ => {},
            }
        },
    }
}

/// The evaluation of arguments keeps uniqueness.
pub proof fn lemma_eval_args_keep_uniqueness(
    args: Seq<ExprView>,
    n: nat,
    ctx: Seq<BindingView>,
    defs: DefinitionsView,
    store: Seq<InstanceView>,
    fuel: nat,
)
    requires
        uniqueness_respected(defs, store),
    ensures
        uniqueness_respected(defs, eval_args(args, n, ctx, defs, store, fuel).store),
    decreases 8 * fuel + 2, args, n,
{
    if n == 0 || n > args.len() {
    } else {
        lemma_eval_args_keep_uniqueness(args, (n - 1) as nat, ctx, defs, store, fuel);
        let before = eval_args(args, (n - 1) as nat, ctx, defs, store, fuel);
        if before.result is Ok {
            lemma_eval_keeps_uniqueness(args[n - 1], ctx, defs, before.store, fuel);
        }
    }
}

/// The evaluation of match arms keeps uniqueness.
pub proof fn lemma_eval_arms_keep_uniqueness(
    arms: Seq<MatchArmView>,
    k: nat,
    instance: InstanceView,
    ctx: Seq<BindingView>,
    defs: DefinitionsView,
    store: Seq<InstanceView>,
    fuel: nat,
)
    requires
        uniqueness_respected(defs, store),
    ensures
        uniqueness_respected(defs, eval_arms(arms, k, instance, ctx, defs, store, fuel).store),
    decreases 8 * fuel + 2, arms, arms.len() - k,
{
    if k >= arms.len() {
    } else if arms[k as int].constructor == instance.value_type {
        lemma_eval_keeps_uniqueness(
            arms[k as int].body,
            ctx.push(
                BindingView {
                    name: arms[k as int].binding,
                    value: primitive_value(instance.payload),
                },
            ),
            defs,
            store,
            fuel,
        );
    } else {
        lemma_eval_arms_keep_uniqueness(arms, k + 1, instance, ctx, defs, store, fuel);
    }
}

/// A call keeps uniqueness.
pub proof fn lemma_apply_call_keeps_uniqueness(
    name: Seq<char>,
    vals: Seq<ValueView>,
    defs: DefinitionsView,
    store: Seq<InstanceView>,
    fuel: nat,
)
    requires
        uniqueness_respected(defs, store),
    ensures
        uniqueness_respected(defs, apply_call(name, vals, defs, store, fuel).store),
    decreases 8 * fuel + 1, vals, 0nat,
{
    if defs.constructor(name) is Some {
        if vals.len() == 1 && fuel > 0 {
            match as_primitive(vals[0]) {
                None => {},
                Some(payload) => {
                    lemma_construct_keeps_uniqueness(name, payload, defs, store, (fuel - 1) as nat);
                },
            }
        }
    } else if name == "all"@ && vals.len() == 1 && vals[0] is Type {
    } else if name == "count"@ && vals.len() == 1 && vals[0] is Type {
    } else if defs.overloads(name).len() > 0 {
        if fuel > 0 {
            lemma_dispatch_keeps_uniqueness(
                name,
                defs.overloads(name),
                vals,
                defs,
                store,
                (fuel - 1) as nat,
            );
        }
    }
}

/// Dispatch keeps uniqueness.
pub proof fn lemma_dispatch_keeps_uniqueness(
    name: Seq<char>,
    fs: Seq<FunctionDeclView>,
    vals: Seq<ValueView>,
    defs: DefinitionsView,
    store: Seq<InstanceView>,
    fuel: nat,
)
    requires
        uniqueness_respected(defs, store),
    ensures
        uniqueness_respected(defs, dispatch(name, fs, vals, defs, store, fuel).store),
    decreases 8 * fuel + 6, fs, 0nat,
{
    lemma_survivors_keep_uniqueness(fs, fs.len(), vals, defs, store, fuel);
    let s = survivors(fs, fs.len(), vals, defs, store, fuel);
    match chosen(fs, runtime_types(vals), s.passes) {
        Selection::Unique(i) => {
            if 0 <= i < fs.len() {
                lemma_eval_keeps_uniqueness(
                    fs[i].body,
                    bind(fs[i].parameters, vals),
                    defs,
                    s.store,
                    fuel,
                );
            }
        },
        _ => {},
    }
}

/// Guard evaluation over an overload set keeps uniqueness.
pub proof fn lemma_survivors_keep_uniqueness(
    fs: Seq<FunctionDeclView>,
    n: nat,
    vals: Seq<ValueView>,
    defs: DefinitionsView,
    store: Seq<InstanceView>,
    fuel: nat,
)
    requires
        uniqueness_respected(defs, store),
    ensures
        uniqueness_respected(defs, survivors(fs, n, vals, defs, store, fuel).store),
    decreases 8 * fuel + 5, fs, n,
{
    if n == 0 || n > fs.len() {
    } else {
        lemma_survivors_keep_uniqueness(fs, (n - 1) as nat, vals, defs, store, fuel);
        let before = survivors(fs, (n - 1) as nat, vals, defs, store, fuel);
        let f = fs[n - 1];
        lemma_guards_keep_uniqueness(
            f.parameters,
            f.parameters.len(),
            bind(f.parameters, vals),
            defs,
            before.store,
            fuel,
        );
    }
}

/// The evaluation of the guards of an overload keeps uniqueness.
pub proof fn lemma_guards_keep_uniqueness(
    params: Seq<GuardedParameterView>,
    n: nat,
    ctx: Seq<BindingView>,
    defs: DefinitionsView,
    store: Seq<InstanceView>,
    fuel: nat,
)
    requires
        uniqueness_respected(defs, store),
    ensures
        uniqueness_respected(defs, guards_hold(params, n, ctx, defs, store, fuel).store),
    decreases 8 * fuel + 4, params, n,
{
    if n == 0 || n > params.len() {
    } else {
        lemma_guards_keep_uniqueness(params, (n - 1) as nat, ctx, defs, store, fuel);
        let before = guards_hold(params, (n - 1) as nat, ctx, defs, store, fuel);
        if before.holds {
            match params[n - 1].guard {
                None => {},
                Some(g) => {
                    lemma_eval_keeps_uniqueness(g, ctx, defs, before.store, fuel);
                },
            }
        }
    }
}

/// `later` holds every instance of `earlier`, in the same places.
pub open spec fn extends(earlier: Seq<InstanceView>, later: Seq<InstanceView>) -> bool {
    &&& earlier.len() <= later.len()
    &&& forall|i: int| 0 <= i < earlier.len() ==> #[trigger] later[i] == earlier[i]
}

/// Construction only appends.
pub proof fn lemma_construct_only_appends(
    value_type: Seq<char>,
    payload: PrimitiveView,
    defs: DefinitionsView,
    store: Seq<InstanceView>,
    fuel: nat,
)
    ensures
        extends(store, construct(value_type, payload, defs, store, fuel).store),
    decreases 8 * fuel + 4, payload, 0nat,
{
    match defs.constructor(value_type) {
        None => {},
        Some(decl) => {
            lemma_normalized_only_appends(decl, payload, defs, store, fuel);
            let n = normalized(decl, payload, defs, store, fuel);
            match n.result {
                Err(_) => {},
                Ok(p) => {
                    lemma_validated_only_appends(decl, value_type, p, defs, n.store, fuel);
                },
            }
        },
    }
}

/// Normalization only appends.
pub proof fn lemma_normalized_only_appends(
    decl: ValueDeclView,
    payload: PrimitiveView,
    defs: DefinitionsView,
    store: Seq<InstanceView>,
    fuel: nat,
)
    ensures
        extends(store, normalized(decl, payload, defs, store, fuel).store),
    decreases 8 * fuel + 3, decl, 0nat,
{
    match decl.body.normalize {
        None => {},
        Some(e) => {
            lemma_eval_only_appends(
                e,
                seq![BindingView { name: decl.parameter.name, value: primitive_value(payload) }],
                defs,
                store,
                fuel,
            );
        },
    }
}

/// Validation only appends.
pub proof fn lemma_validated_only_appends(
    decl: ValueDeclView,
    value_type: Seq<char>,
    payload: PrimitiveView,
    defs: DefinitionsView,
    store: Seq<InstanceView>,
    fuel: nat,
)
    ensures
        extends(store, validated(decl, value_type, payload, defs, store, fuel).store),
    decreases 8 * fuel + 3, decl, 0nat,
{
    match decl.body.validate {
        None => {},
        Some(e) => {
            lemma_eval_only_appends(
                e,
                seq![BindingView { name: decl.parameter.name, value: primitive_value(payload) }],
                defs,
                store,
                fuel,
            );
        },
    }
}

/// Instances are never removed: whatever an expression constructs, the
/// instances that existed before its evaluation exist after it, in the
/// same places, a fault included.
pub proof fn lemma_eval_only_appends(
    e: ExprView,
    ctx: Seq<BindingView>,
    defs: DefinitionsView,
    store: Seq<InstanceView>,
    fuel: nat,
)
    ensures
        extends(store, eval(e, ctx, defs, store, fuel).store),
    decreases 8 * fuel + 2, e, 0nat,
{
    match e {
        ExprView::Literal(_) => {},
        ExprView::Identifier(_) => {},
        ExprView::TypeLiteral(_) => {},
        ExprView::Binary(_, l, r) => {
            lemma_eval_only_appends(*l, ctx, defs, store, fuel);
            let a = eval(*l, ctx, defs, store, fuel);
            if a.result is Ok {
                lemma_eval_only_appends(*r, ctx, defs, a.store, fuel);
            }
        },
        ExprView::Unary(_, a) => {
            lemma_eval_only_appends(*a, ctx, defs, store, fuel);
        },
        ExprView::Comparison(_, l, r) => {
            lemma_eval_only_appends(*l, ctx, defs, store, fuel);
            let a = eval(*l, ctx, defs, store, fuel);
            if a.result is Ok {
                lemma_eval_only_appends(*r, ctx, defs, a.store, fuel);
            }
        },
        ExprView::MemberAccess(obj, _) => {
            lemma_eval_only_appends(*obj, ctx, defs, store, fuel);
        },
        ExprView::FunctionCall(name, args) => {
            lemma_eval_args_only_append(args, args.len(), ctx, defs, store, fuel);
            let a = eval_args(args, args.len(), ctx, defs, store, fuel);
            match a.result {
                Err(_) => {},
                Ok(vals) => {
                    lemma_apply_call_only_appends(name, vals, defs, a.store, fuel);
                },
            }
        },
        ExprView::MethodCall(obj, method, args) => {
            lemma_eval_only_appends(*obj, ctx, defs, store, fuel);
            let o = eval(*obj, ctx, defs, store, fuel);
            match o.result {
                Err(_) => {},
                Ok(receiver) => {
                    if defs.overloads(method).len() > 0 {
                        lemma_eval_args_only_append(args, args.len(), ctx, defs, o.store, fuel);
                        let a = eval_args(args, args.len(), ctx, defs, o.store, fuel);
                        match a.result {
                            Err(_) => {},
                            Ok(vals) => {
                                lemma_apply_call_only_appends(
                                    method,
                                    seq![receiver] + vals,
                                    defs,
                                    a.store,
                                    fuel,
                                );
                            },
                        }
                    }
                },
            }
        },
        ExprView::Pipeline(l, r) => {
            lemma_eval_only_appends(*l, ctx, defs, store, fuel);
            let a = eval(*l, ctx, defs, store, fuel);
            match a.result {
                Err(_) => {},
                Ok(x) => match *r {
                    ExprView::Identifier(name) => {
                        lemma_apply_call_only_appends(name, seq![x], defs, a.store, fuel);
                    },
                    ExprView::FunctionCall(name, args) => {
                        lemma_eval_args_only_append(args, args.len(), ctx, defs, a.store, fuel);
                        let b = eval_args(args, args.len(), ctx, defs, a.store, fuel);
                        match b.result {
                            Err(_) => {},
                            Ok(vals) => {
                                lemma_apply_call_only_appends(
                                    name,
                                    seq![x] + vals,
                                    defs,
                                    b.store,
                                    fuel,
                                );
                            },
                        }
                    },
                    _ => {},
                },
            }
        },
        ExprView::Let(name, value, body) => {
            lemma_eval_only_appends(*value, ctx, defs, store, fuel);
            let a = eval(*value, ctx, defs, store, fuel);
            match a.result {
                Err(_) => {},
                Ok(x) => {
                    lemma_eval_only_appends(
                        *body,
                        ctx.push(BindingView { name, value: x }),
                        defs,
                        a.store,
                        fuel,
                    );
                },
            }
        },
        ExprView::Match(scrutinee, arms) => {
            lemma_eval_only_appends(*scrutinee, ctx, defs, store, fuel);
            let a = eval(*scrutinee, ctx, defs, store, fuel);
            match a.result {
                Ok(ValueView::Value(instance)) => {
                    lemma_eval_arms_only_append(arms, 0, instance, ctx, defs, a.store, fuel);
                },
                _ => {},
            }
        },
    }
}

/// The evaluation of arguments only appends.
pub proof fn lemma_eval_args_only_append(
    args: Seq<ExprView>,
    n: nat,
    ctx: Seq<BindingView>,
    defs: DefinitionsView,
    store: Seq<InstanceView>,
    fuel: nat,
)
    ensures
        extends(store, eval_args(args, n, ctx, defs, store, fuel).store),
    decreases 8 * fuel + 2, args, n,
{
    if n == 0 || n > args.len() {
    } else {
        lemma_eval_args_only_append(args, (n - 1) as nat, ctx, defs, store, fuel);
        let before = eval_args(args, (n - 1) as nat, ctx, defs, store, fuel);
        if before.result is Ok {
            lemma_eval_only_appends(args[n - 1], ctx, defs, before.store, fuel);
        }
    }
}

/// The evaluation of match arms only appends.
pub proof fn lemma_eval_arms_only_append(
    arms: Seq<MatchArmView>,
    k: nat,
    instance: InstanceView,
    ctx: Seq<BindingView>,
    defs: DefinitionsView,
    store: Seq<InstanceView>,
    fuel: nat,
)
    ensures
        extends(store, eval_arms(arms, k, instance, ctx, defs, store, fuel).store),
    decreases 8 * fuel + 2, arms, arms.len() - k,
{
    if k >= arms.len() {
    } else if arms[k as int].constructor == instance.value_type {
        lemma_eval_only_appends(
            arms[k as int].body,
            ctx.push(
                BindingView {
                    name: arms[k as int].binding,
                    value: primitive_value(instance.payload),
                },
            ),
            defs,
            store,
            fuel,
        );
    } else {
        lemma_eval_arms_only_append(arms, k + 1, instance, ctx, defs, store, fuel);
    }
}

/// A call only appends.
pub proof fn lemma_apply_call_only_appends(
    name: Seq<char>,
    vals: Seq<ValueView>,
    defs: DefinitionsView,
    store: Seq<InstanceView>,
    fuel: nat,
)
    ensures
        extends(store, apply_call(name, vals, defs, store, fuel).store),
    decreases 8 * fuel + 1, vals, 0nat,
{
    if defs.constructor(name) is Some {
        if vals.len() == 1 && fuel > 0 {
            match as_primitive(vals[0]) {
                None => {},
                Some(payload) => {
                    lemma_construct_only_appends(name, payload, defs, store, (fuel - 1) as nat);
                },
            }
        }
    } else if name == "all"@ && vals.len() == 1 && vals[0] is Type {
    } else if name == "count"@ && vals.len() == 1 && vals[0] is Type {
    } else if defs.overloads(name).len() > 0 {
        if fuel > 0 {
            lemma_dispatch_only_appends(
                name,
                defs.overloads(name),
                vals,
                defs,
                store,
                (fuel - 1) as nat,
            );
        }
    }
}

/// Dispatch only appends.
pub proof fn lemma_dispatch_only_appends(
    name: Seq<char>,
    fs: Seq<FunctionDeclView>,
    vals: Seq<ValueView>,
    defs: DefinitionsView,
    store: Seq<InstanceView>,
    fuel: nat,
)
    ensures
        extends(store, dispatch(name, fs, vals, defs, store, fuel).store),
    decreases 8 * fuel + 6, fs, 0nat,
{
    lemma_survivors_only_append(fs, fs.len(), vals, defs, store, fuel);
    let s = survivors(fs, fs.len(), vals, defs, store, fuel);
    match chosen(fs, runtime_types(vals), s.passes) {
        Selection::Unique(i) => {
            if 0 <= i < fs.len() {
                lemma_eval_only_appends(
                    fs[i].body,
                    bind(fs[i].parameters, vals),
                    defs,
                    s.store,
                    fuel,
                );
            }
        },
        _ => {},
    }
}

/// Guard evaluation over an overload set only appends.
pub proof fn lemma_survivors_only_append(
    fs: Seq<FunctionDeclView>,
    n: nat,
    vals: Seq<ValueView>,
    defs: DefinitionsView,
    store: Seq<InstanceView>,
    fuel: nat,
)
    ensures
        extends(store, survivors(fs, n, vals, defs, store, fuel).store),
    decreases 8 * fuel + 5, fs, n,
{
    if n == 0 || n > fs.len() {
    } else {
        lemma_survivors_only_append(fs, (n - 1) as nat, vals, defs, store, fuel);
        let before = survivors(fs, (n - 1) as nat, vals, defs, store, fuel);
        let f = fs[n - 1];
        lemma_guards_only_append(
            f.parameters,
            f.parameters.len(),
            bind(f.parameters, vals),
            defs,
            before.store,
            fuel,
        );
    }
}

/// The evaluation of the guards of an overload only appends.
pub proof fn lemma_guards_only_append(
    params: Seq<GuardedParameterView>,
    n: nat,
    ctx: Seq<BindingView>,
    defs: DefinitionsView,
    store: Seq<InstanceView>,
    fuel: nat,
)
    ensures
        extends(store, guards_hold(params, n, ctx, defs, store, fuel).store),
    decreases 8 * fuel + 4, params, n,
{
    if n == 0 || n > params.len() {
    } else {
        lemma_guards_only_append(params, (n - 1) as nat, ctx, defs, store, fuel);
        let before = guards_hold(params, (n - 1) as nat, ctx, defs, store, fuel);
        if before.holds {
            match params[n - 1].guard {
                None => {},
                Some(g) => {
                    lemma_eval_only_appends(g, ctx, defs, before.store, fuel);
                },
            }
        }
    }
}

/// Dispatch determinism: with the overload set fixed, the overload that
/// dispatch selects depends only on the runtime types of the arguments and
/// on the guard outcomes. Two calls whose arguments have the same runtime
/// types and whose guards come out the same select the same overload,
/// whatever the arguments hold and whatever state they are made in.
pub proof fn lemma_dispatch_determinism(
    fs: Seq<FunctionDeclView>,
    first: Seq<ValueView>,
    second: Seq<ValueView>,
    defs: DefinitionsView,
    first_store: Seq<InstanceView>,
    second_store: Seq<InstanceView>,
    first_fuel: nat,
    second_fuel: nat,
)
    requires
        first.len() == second.len(),
        forall|k: int| 0 <= k < first.len() ==> runtime_type(first[k]) == runtime_type(second[k]),
        survivors(fs, fs.len(), first, defs, first_store, first_fuel).passes == survivors(
            fs,
            fs.len(),
            second,
            defs,
            second_store,
            second_fuel,
        ).passes,
    ensures
        selection(fs, first, defs, first_store, first_fuel) == selection(
            fs,
            second,
            defs,
            second_store,
            second_fuel,
        ),
{
    assert(runtime_types(first) =~= runtime_types(second));
}

/// Cache consistency: a sound remembered decision is the decision of full
/// dispatch. For a call of the remembered function whose arguments are
/// cacheable and have the remembered signatures, full dispatch selects the
/// remembered overload, whatever the arguments hold and whatever state
/// the call is made in.
pub proof fn lemma_remembered_is_dispatched(
    entry: CacheEntryView,
    vals: Seq<ValueView>,
    defs: DefinitionsView,
    store: Seq<InstanceView>,
    fuel: nat,
)
    requires
        entry_sound(entry, defs),
        cacheable(vals),
        signatures(vals) == entry.signatures,
    ensures
        selection(defs.overloads(entry.name), vals, defs, store, fuel) == Selection::Unique(
            entry.target,
        ),
{
    lemma_cache_consistent(defs.overloads(entry.name), vals, defs, store, fuel);
}

/// An argument list of one expression yields the value of the expression.
pub proof fn lemma_single_argument(
    e: ExprView,
    ctx: Seq<BindingView>,
    defs: DefinitionsView,
    store: Seq<InstanceView>,
    fuel: nat,
)
    ensures
        eval_args(seq![e], 1, ctx, defs, store, fuel) == (match eval(
            e,
            ctx,
            defs,
            store,
            fuel,
        ).result {
            Ok(v) => Outcome {
                result: Ok::<Seq<ValueView>, Fault>(seq![v]),
                store: eval(e, ctx, defs, store, fuel).store,
            },
            Err(f) => Outcome {
                result: Err::<Seq<ValueView>, Fault>(f),
                store: eval(e, ctx, defs, store, fuel).store,
            },
        }),
{
    let args = seq![e];
    assert(eval_args(args, 0, ctx, defs, store, fuel) == (Outcome {
        result: Ok::<Seq<ValueView>, Fault>(Seq::empty()),
        store,
    }));
    assert(args[0] == e);
    match eval(e, ctx, defs, store, fuel).result {
        Ok(v) => {
            assert(Seq::<ValueView>::empty().push(v) =~= seq![v]);
        },
        Err(_) => {},
    }
}

/// The call form of `all`: for a declared value type `T` that no binding
/// hides, `all(T)` is the list of every instance of `T` in construction
/// order, and constructs nothing.
pub proof fn lemma_all_by_call(
    t: Seq<char>,
    ctx: Seq<BindingView>,
    defs: DefinitionsView,
    store: Seq<InstanceView>,
    fuel: nat,
)
    requires
        lookup(ctx, t) is None,
        defs.constructor(t) is Some,
        defs.constructor("all"@) is None,
    ensures
        eval(
            ExprView::FunctionCall("all"@, seq![ExprView::Identifier(t)]),
            ctx,
            defs,
            store,
            fuel,
        ) == (Outcome { result: Ok::<ValueView, Fault>(all_of(store, t)), store }),
{
    lemma_single_argument(ExprView::Identifier(t), ctx, defs, store, fuel);
    let vals = seq![ValueView::Type(t)];
    assert(vals[0] == ValueView::Type(t));
    assert(apply_call("all"@, vals, defs, store, fuel) == (Outcome {
        result: Ok::<ValueView, Fault>(all_of(store, t)),
        store,
    }));
}

/// The receiver form of `all`: for a declared value type `T` that no
/// binding hides, `T.all()` is the list of every instance of `T` in
/// construction order, and constructs nothing.
pub proof fn lemma_all_by_receiver(
    t: Seq<char>,
    ctx: Seq<BindingView>,
    defs: DefinitionsView,
    store: Seq<InstanceView>,
    fuel: nat,
)
    requires
        lookup(ctx, t) is None,
        defs.constructor(t) is Some,
        defs.constructor("all"@) is None,
    ensures
        eval(
            ExprView::MethodCall(Box::new(ExprView::Identifier(t)), "all"@, Seq::empty()),
            ctx,
            defs,
            store,
            fuel,
        ) == (Outcome { result: Ok::<ValueView, Fault>(all_of(store, t)), store }),
{
    assert(eval(ExprView::Identifier(t), ctx, defs, store, fuel) == (Outcome {
        result: Ok::<ValueView, Fault>(ValueView::Type(t)),
        store,
    }));
    let none: Seq<ExprView> = Seq::empty();
    assert(eval_args(none, 0, ctx, defs, store, fuel) == (Outcome {
        result: Ok::<Seq<ValueView>, Fault>(Seq::empty()),
        store,
    }));
    let vals = seq![ValueView::Type(t)] + Seq::<ValueView>::empty();
    assert(vals =~= seq![ValueView::Type(t)]);
    assert(vals[0] == ValueView::Type(t));
    assert(apply_call("all"@, vals, defs, store, fuel) == (Outcome {
        result: Ok::<ValueView, Fault>(all_of(store, t)),
        store,
    }));
}

/// The two forms of `all` agree: `T.all()` is what `all(T)` is.
pub proof fn lemma_all_forms_agree(
    t: Seq<char>,
    ctx: Seq<BindingView>,
    defs: DefinitionsView,
    store: Seq<InstanceView>,
    fuel: nat,
)
    requires
        lookup(ctx, t) is None,
        defs.constructor(t) is Some,
        defs.constructor("all"@) is None,
    ensures
        eval(
            ExprView::MethodCall(Box::new(ExprView::Identifier(t)), "all"@, Seq::empty()),
            ctx,
            defs,
            store,
            fuel,
        ) == eval(
            ExprView::FunctionCall("all"@, seq![ExprView::Identifier(t)]),
            ctx,
            defs,
            store,
            fuel,
        ),
{
    lemma_all_by_call(t, ctx, defs, store, fuel);
    lemma_all_by_receiver(t, ctx, defs, store, fuel);
}

/// A value type without a normalize clause takes payloads as they are
/// given: its normalization is the identity, and so yields the same
/// whether it runs once or twice.
pub proof fn lemma_absent_normalizer_is_identity(
    decl: ValueDeclView,
    payload: PrimitiveView,
    defs: DefinitionsView,
    store: Seq<InstanceView>,
    fuel: nat,
)
    requires
        decl.body.normalize is None,
    ensures
        normalized(decl, payload, defs, store, fuel) == (Outcome {
            result: Ok::<PrimitiveView, Fault>(payload),
            store,
        }),
{
}

/// Where the normalizer of a value type is idempotent at a payload, and
/// evaluates without constructing anything, constructing from the payload
/// and constructing from its normalized form are the same construction.
pub proof fn lemma_construct_from_normalized(
    value_type: Seq<char>,
    payload: PrimitiveView,
    normal: PrimitiveView,
    defs: DefinitionsView,
    store: Seq<InstanceView>,
    fuel: nat,
)
    requires
        defs.constructor(value_type) matches Some(decl) && {
            &&& normalized(decl, payload, defs, store, fuel) == (Outcome {
                result: Ok::<PrimitiveView, Fault>(normal),
                store,
            })
            &&& normalized(decl, normal, defs, store, fuel) == (Outcome {
                result: Ok::<PrimitiveView, Fault>(normal),
                store,
            })
        },
    ensures
        construct(value_type, normal, defs, store, fuel) == construct(
            value_type,
            payload,
            defs,
            store,
            fuel,
        ),
{
}

/// No overload set holds two overloads with the same parameter types of
/// which neither has a guard.
pub open spec fn overloads_told_apart(env: TypeEnvView) -> bool {
    forall|name: Seq<char>, i: int, j: int|
        #![trigger env.signatures(name)[i], env.signatures(name)[j]]
        0 <= i < j < env.signatures(name).len() ==> !(env.signatures(name)[i].parameter_types
            == env.signatures(name)[j].parameter_types && !env.signatures(name)[i].guarded()
            && !env.signatures(name)[j].guarded())
}

/// One more signature joins the overload set of its name, at the end, and
/// leaves every other overload set as it is.
pub proof fn lemma_signatures_push(
    functions: Seq<FunctionTypeView>,
    f: FunctionTypeView,
    name: Seq<char>,
)
    ensures
        signatures_named(functions.push(f), name) == if f.name == name {
            signatures_named(functions, name).push(f)
        } else {
            signatures_named(functions, name)
        },
{
    assert(functions.push(f).drop_last() =~= functions);
}

/// A declaration that the type checker accepts leaves the overloads told
/// apart: it is refused if it would stand beside an overload with the same
/// parameter types, neither of them guarded.
pub proof fn lemma_accepted_declaration_is_told_apart(d: DeclarationView, env: TypeEnvView)
    requires
        overloads_told_apart(env),
        check_declaration(d, env) is Ok,
    ensures
        overloads_told_apart(check_declaration(d, env)->Ok_0),
{
    let after = check_declaration(d, env)->Ok_0;
    match d {
        DeclarationView::Value(_) => {
            assert(after.functions == env.functions);
            assert forall|name: Seq<char>, i: int, j: int|
                #![trigger after.signatures(name)[i], after.signatures(name)[j]]
                0 <= i < j < after.signatures(name).len() implies !(
            after.signatures(name)[i].parameter_types == after.signatures(name)[j].parameter_types
                && !after.signatures(name)[i].guarded() && !after.signatures(name)[j].guarded()) by {
                assert(after.signatures(name) == env.signatures(name));
                assert(env.signatures(name)[i] == after.signatures(name)[i]);
                assert(env.signatures(name)[j] == after.signatures(name)[j]);
            }
        },
        DeclarationView::Function(f) => {
            lemma_accepted_function_is_told_apart(f, env);
        },
        DeclarationView::Method(m) => {
            lemma_accepted_function_is_told_apart(m, env);
        },
    }
}

/// A function declaration that the type checker accepts leaves the
/// overloads told apart.
pub proof fn lemma_accepted_function_is_told_apart(d: FunctionDeclView, env: TypeEnvView)
    requires
        overloads_told_apart(env),
        check_function_declaration(d, env) is Ok,
    ensures
        overloads_told_apart(check_function_declaration(d, env)->Ok_0),
{
    let sig = signature_of(d);
    let after = env.with_function(sig);
    assert(check_function_declaration(d, env)->Ok_0 == after);
    assert(sig.guarded() == has_guards(d.parameters)) by {
        if sig.guarded() {
            let i = choose|i: int| 0 <= i < sig.guards.len() && #[trigger] sig.guards[i];
            assert(d.parameters[i].guard is Some);
        }
        if has_guards(d.parameters) {
            let i = choose|i: int|
                0 <= i < d.parameters.len() && (#[trigger] d.parameters[i]).guard is Some;
            assert(sig.guards[i]);
        }
    }
    assert forall|name: Seq<char>, i: int, j: int|
        #![trigger after.signatures(name)[i], after.signatures(name)[j]]
        0 <= i < j < after.signatures(name).len() implies !(
    after.signatures(name)[i].parameter_types == after.signatures(name)[j].parameter_types
        && !after.signatures(name)[i].guarded() && !after.signatures(name)[j].guarded()) by {
        lemma_signatures_push(env.functions, sig, name);
        let before = env.signatures(name);
        if sig.name == name {
            if j == before.len() {
                assert(after.signatures(name)[i] == before[i]);
                assert(after.signatures(name)[j] == sig);
                if !sig.guarded() && !before[i].guarded() && before[i].parameter_types
                    == sig.parameter_types {
                    assert(clashes(env.signatures(d.name), sig.parameter_types, sig.guarded()));
                }
            } else {
                assert(after.signatures(name)[i] == before[i]);
                assert(after.signatures(name)[j] == before[j]);
            }
        } else {
            assert(after.signatures(name)[i] == before[i]);
            assert(after.signatures(name)[j] == before[j]);
        }
    }
}

/// Whatever declarations the type checker has accepted, the overloads that
/// it has recorded are told apart.
pub proof fn lemma_checked_overloads_are_told_apart(
    ds: Seq<DeclarationView>,
    n: nat,
    env: TypeEnvView,
)
    requires
        overloads_told_apart(env),
    ensures
        overloads_told_apart(check_declarations(ds, n, env).env),
    decreases n,
{
    if n == 0 || n > ds.len() {
    } else {
        lemma_checked_overloads_are_told_apart(ds, (n - 1) as nat, env);
        let before = check_declarations(ds, (n - 1) as nat, env);
        if before.error is None {
            if check_declaration(ds[n - 1], before.env) is Ok {
                lemma_accepted_declaration_is_told_apart(ds[n - 1], before.env);
            }
        }
    }
}

/// The expressions without calls of user functions: literals,
/// identifiers, operators, member access, built-in methods and `let`. A
/// method call counts where its name is the name of no function.
pub open spec fn pure(e: ExprView, env: TypeEnvView, defs: DefinitionsView) -> bool
    decreases e,
{
    match e {
        ExprView::Literal(_) => true,
        ExprView::Identifier(_) => true,
        ExprView::Binary(_, l, r) => pure(*l, env, defs) && pure(*r, env, defs),
        ExprView::Unary(_, a) => pure(*a, env, defs),
        ExprView::Comparison(_, l, r) => pure(*l, env, defs) && pure(*r, env, defs),
        ExprView::MemberAccess(obj, _) => pure(*obj, env, defs),
        ExprView::MethodCall(obj, method, args) => {
            &&& pure(*obj, env, defs)
            &&& args.len() == 0
            &&& env.signatures(method).len() == 0
            &&& defs.overloads(method).len() == 0
        },
        ExprView::Let(_, value, body) => pure(*value, env, defs) && pure(*body, env, defs),
        _ => false,
    }
}

/// The bindings give each local, under its name, a value of its type.
pub open spec fn typed(locals: Seq<LocalView>, ctx: Seq<BindingView>) -> bool {
    &&& locals.len() == ctx.len()
    &&& forall|i: int|
        0 <= i < locals.len() ==> (#[trigger] locals[i]).name == ctx[i].name && accepts(
            locals[i].ty,
            runtime_type(ctx[i].value),
        )
}

/// Under typed bindings a local that has a type is bound to a value of that
/// type, and a name that is no local is not bound.
pub proof fn lemma_typed_lookup(locals: Seq<LocalView>, ctx: Seq<BindingView>, name: Seq<char>)
    requires
        typed(locals, ctx),
    ensures
        match local_type(locals, name) {
            Some(t) => lookup(ctx, name) matches Some(v) && accepts(t, runtime_type(v)),
            None => lookup(ctx, name) is None,
        },
    decreases locals.len(),
{
    if locals.len() > 0 {
        assert(locals.last() == locals[locals.len() - 1]);
        assert(locals[locals.len() - 1].name == ctx[locals.len() - 1].name);
        if locals.last().name != name {
            assert forall|i: int| 0 <= i < locals.drop_last().len() implies (
            #[trigger] locals.drop_last()[i]).name == ctx.drop_last()[i].name && accepts(
                locals.drop_last()[i].ty,
                runtime_type(ctx.drop_last()[i].value),
            ) by {
                assert(locals[i].name == ctx[i].name);
            }
            lemma_typed_lookup(locals.drop_last(), ctx.drop_last(), name);
        }
    }
}

/// Type soundness for the expressions without calls of user functions: if
/// such an expression type-checks under locals that the bindings respect,
/// and its evaluation yields a value, then the value has the type that the
/// checker inferred; and the evaluation constructs nothing.
pub proof fn lemma_typed_soundness(
    e: ExprView,
    locals: Seq<LocalView>,
    ctx: Seq<BindingView>,
    env: TypeEnvView,
    defs: DefinitionsView,
    store: Seq<InstanceView>,
    fuel: nat,
)
    requires
        pure(e, env, defs),
        typed(locals, ctx),
        check(e, locals, env) is Ok,
    ensures
        eval(e, ctx, defs, store, fuel).store == store,
        eval(e, ctx, defs, store, fuel).result matches Ok(v) ==> accepts(
            check(e, locals, env)->Ok_0,
            runtime_type(v),
        ),
    decreases e,
{
    match e {
        ExprView::Literal(_) => {},
        ExprView::Identifier(name) => {
            lemma_typed_lookup(locals, ctx, name);
        },
        ExprView::Binary(_, l, r) => {
            lemma_typed_soundness(*l, locals, ctx, env, defs, store, fuel);
            lemma_typed_soundness(*r, locals, ctx, env, defs, store, fuel);
        },
        ExprView::Unary(_, a) => {
            lemma_typed_soundness(*a, locals, ctx, env, defs, store, fuel);
        },
        ExprView::Comparison(_, l, r) => {
            lemma_typed_soundness(*l, locals, ctx, env, defs, store, fuel);
            lemma_typed_soundness(*r, locals, ctx, env, defs, store, fuel);
        },
        ExprView::MemberAccess(obj, _) => {
            lemma_typed_soundness(*obj, locals, ctx, env, defs, store, fuel);
        },
        ExprView::MethodCall(obj, _, args) => {
            lemma_typed_soundness(*obj, locals, ctx, env, defs, store, fuel);
            assert(check_all(args, 0, locals, env) == Ok::<Seq<TypeView>, ErrorView>(Seq::empty()));
        },
        ExprView::Let(name, value, body) => {
            lemma_typed_soundness(*value, locals, ctx, env, defs, store, fuel);
            let a = eval(*value, ctx, defs, store, fuel);
            match a.result {
                Err(_) => {},
                Ok(x) => {
                    let t = check(*value, locals, env)->Ok_0;
                    let inner_locals = locals.push(LocalView { name, ty: t });
                    let inner_ctx = ctx.push(BindingView { name, value: x });
                    assert(typed(inner_locals, inner_ctx)) by {
                        assert forall|i: int| 0 <= i < inner_locals.len() implies (
                        #[trigger] inner_locals[i]).name == inner_ctx[i].name && accepts(
                            inner_locals[i].ty,
                            runtime_type(inner_ctx[i].value),
                        ) by {
                            if i < locals.len() {
                                assert(locals[i].name == ctx[i].name);
                            }
                        }
                    }
                    lemma_typed_soundness(*body, inner_locals, inner_ctx, env, defs, store, fuel);
                },
            }
        },
        _ => {},
    }
}

} // verus!
