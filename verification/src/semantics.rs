//! The meaning of expressions: what evaluation yields and what it leaves
//! behind, how a call is dispatched among overloads, how a value is
//! constructed, and when a remembered dispatch decision is sound.

use crate::ast::{
    BinaryOp, ComparisonOp, ExprView, FunctionDeclView, GuardedParameterView, LiteralView,
    MatchArmView, UnaryOp, ValueDeclView,
};
use crate::error::{as_error, ErrorView, Fault, named_fault, plain_fault};
use crate::list::ListView;
use crate::text::{has_substring, lowercase_of, uppercase_of};
use crate::types::TypeView;
use crate::value::{
    CacheEntryView, DefinitionsView, has_payload, InstanceView, of_type, PrimitiveView,
};
use vstd::prelude::*;

verus! {

/// The mathematical content of a runtime value.
pub enum ValueView {
    String(Seq<char>),
    Integer(i64),
    Boolean(bool),
    Value(InstanceView),
    Type(Seq<char>),
    List(ListView),
}

/// The text of a value as the user sees it: a string as it is, an integer
/// in decimal, a boolean as `true` or `false`, an instance as its type and
/// payload, a type as `Type(name)`, a list as its items in brackets.
pub open spec fn value_text(v: ValueView) -> Seq<char> {
    match v {
        ValueView::String(s) => s,
        ValueView::Integer(n) => crate::text::signed_decimal(n as int),
        ValueView::Boolean(b) => if b {
            "true"@
        } else {
            "false"@
        },
        ValueView::Value(i) => crate::value::instance_text(i),
        ValueView::Type(t) => "Type("@ + t + ")"@,
        ValueView::List(l) => "["@ + crate::value::instances_text(l.items, l.items.len())
            + "]"@,
    }
}

/// A name bound to a value.
pub struct BindingView {
    pub name: Seq<char>,
    pub value: ValueView,
}

/// The value that the innermost binding of `name` gives it, if any: later
/// bindings shadow earlier ones.
pub open spec fn lookup(ctx: Seq<BindingView>, name: Seq<char>) -> Option<ValueView>
    decreases ctx.len(),
{
    if ctx.len() == 0 {
        None
    } else if ctx.last().name == name {
        Some(ctx.last().value)
    } else {
        lookup(ctx.drop_last(), name)
    }
}

/// What can be told of a value without looking at its content: the unit of
/// type matching and of the dispatch cache.
pub enum RuntimeType {
    String,
    Int,
    Bool,
    Instance(Seq<char>),
    Type,
    List,
}

/// The runtime type of a value.
pub open spec fn runtime_type(v: ValueView) -> RuntimeType {
    match v {
        ValueView::String(_) => RuntimeType::String,
        ValueView::Integer(_) => RuntimeType::Int,
        ValueView::Boolean(_) => RuntimeType::Bool,
        ValueView::Value(i) => RuntimeType::Instance(i.value_type),
        ValueView::Type(_) => RuntimeType::Type,
        ValueView::List(_) => RuntimeType::List,
    }
}

/// Whether a parameter of type `ty` accepts a value of runtime type `rt`.
pub open spec fn accepts(ty: TypeView, rt: RuntimeType) -> bool {
    match ty {
        TypeView::Int => rt is Int,
        TypeView::String => rt is String,
        TypeView::Bool => rt is Bool,
        TypeView::Value(name) => rt == RuntimeType::Instance(name),
        TypeView::Type => rt is Type,
        TypeView::List(_) => rt is List,
        TypeView::Any => true,
        TypeView::Unknown => false,
    }
}

/// The signature of a runtime type in a dispatch-cache key.
pub open spec fn signature(rt: RuntimeType) -> Seq<char> {
    match rt {
        RuntimeType::String => "String"@,
        RuntimeType::Int => "Int"@,
        RuntimeType::Bool => "Bool"@,
        RuntimeType::Instance(name) => name,
        RuntimeType::Type => "Type"@,
        RuntimeType::List => "List"@,
    }
}

/// The signatures of a sequence of values, element by element.
pub open spec fn signatures(vals: Seq<ValueView>) -> Seq<Seq<char>> {
    Seq::new(vals.len(), |i: int| signature(runtime_type(vals[i])))
}

/// The value of a literal.
pub open spec fn literal_value(l: LiteralView) -> ValueView {
    match l {
        LiteralView::String(s) => ValueView::String(s),
        LiteralView::Integer(n) => ValueView::Integer(n),
        LiteralView::Boolean(b) => ValueView::Boolean(b),
    }
}

/// A payload as a value.
pub open spec fn primitive_value(p: PrimitiveView) -> ValueView {
    match p {
        PrimitiveView::String(s) => ValueView::String(s),
        PrimitiveView::Integer(n) => ValueView::Integer(n),
        PrimitiveView::Boolean(b) => ValueView::Boolean(b),
    }
}

/// A value as a payload, if it is a string, an integer or a boolean.
pub open spec fn as_primitive(v: ValueView) -> Option<PrimitiveView> {
    match v {
        ValueView::String(s) => Some(PrimitiveView::String(s)),
        ValueView::Integer(n) => Some(PrimitiveView::Integer(n)),
        ValueView::Boolean(b) => Some(PrimitiveView::Boolean(b)),
        _ => None,
    }
}

/// A checked arithmetic result as a value, or the overflow fault.
pub open spec fn integer_or_overflow(n: Option<i64>) -> Result<ValueView, Fault> {
    match n {
        Some(v) => Ok(ValueView::Integer(v)),
        None => Err(plain_fault("Integer overflow"@)),
    }
}

/// The result of a binary operator on two values: 64-bit arithmetic whose
/// overflow is a fault, division truncating toward zero, the logical
/// operators on booleans.
pub open spec fn binary_result(op: BinaryOp, x: ValueView, y: ValueView) -> Result<
    ValueView,
    Fault,
> {
    match (op, x, y) {
        (BinaryOp::Add, ValueView::Integer(l), ValueView::Integer(r)) => integer_or_overflow(
            l.checked_add(r),
        ),
        (BinaryOp::Subtract, ValueView::Integer(l), ValueView::Integer(r)) => integer_or_overflow(
            l.checked_sub(r),
        ),
        (BinaryOp::Multiply, ValueView::Integer(l), ValueView::Integer(r)) => integer_or_overflow(
            l.checked_mul(r),
        ),
        (BinaryOp::Divide, ValueView::Integer(l), ValueView::Integer(r)) => if r == 0 {
            Err(plain_fault("Division by zero"@))
        } else {
            integer_or_overflow(l.checked_div(r))
        },
        (BinaryOp::Modulo, ValueView::Integer(l), ValueView::Integer(r)) => if r == 0 {
            Err(plain_fault("Modulo by zero"@))
        } else {
            integer_or_overflow(l.checked_rem(r))
        },
        (BinaryOp::And, ValueView::Boolean(l), ValueView::Boolean(r)) => Ok(
            ValueView::Boolean(l && r),
        ),
        (BinaryOp::Or, ValueView::Boolean(l), ValueView::Boolean(r)) => Ok(
            ValueView::Boolean(l || r),
        ),
        _ => Err(plain_fault("Type mismatch in binary operation"@)),
    }
}

/// The result of a prefix operator on a value: negation of a boolean, the
/// negative of an integer, whose overflow is a fault.
pub open spec fn unary_result(op: UnaryOp, x: ValueView) -> Result<ValueView, Fault> {
    match (op, x) {
        (UnaryOp::Not, ValueView::Boolean(b)) => Ok(ValueView::Boolean(!b)),
        (UnaryOp::Minus, ValueView::Integer(n)) => integer_or_overflow(0i64.checked_sub(n)),
        _ => Err(plain_fault("Type mismatch in unary operation"@)),
    }
}

/// The truth of a comparison, where the operator applies to the operands:
/// equality on integers, strings and booleans, order on integers, substring
/// on strings.
pub open spec fn comparison_truth(op: ComparisonOp, x: ValueView, y: ValueView) -> Option<bool> {
    match (op, x, y) {
        (ComparisonOp::Equal, ValueView::Integer(l), ValueView::Integer(r)) => Some(l == r),
        (ComparisonOp::NotEqual, ValueView::Integer(l), ValueView::Integer(r)) => Some(l != r),
        (ComparisonOp::Less, ValueView::Integer(l), ValueView::Integer(r)) => Some(l < r),
        (ComparisonOp::Greater, ValueView::Integer(l), ValueView::Integer(r)) => Some(l > r),
        (ComparisonOp::LessEqual, ValueView::Integer(l), ValueView::Integer(r)) => Some(l <= r),
        (ComparisonOp::GreaterEqual, ValueView::Integer(l), ValueView::Integer(r)) => Some(
            l >= r,
        ),
        (ComparisonOp::Equal, ValueView::String(l), ValueView::String(r)) => Some(l == r),
        (ComparisonOp::NotEqual, ValueView::String(l), ValueView::String(r)) => Some(l != r),
        (ComparisonOp::Contains, ValueView::String(l), ValueView::String(r)) => Some(
            has_substring(l, r),
        ),
        (ComparisonOp::Equal, ValueView::Boolean(l), ValueView::Boolean(r)) => Some(l == r),
        (ComparisonOp::NotEqual, ValueView::Boolean(l), ValueView::Boolean(r)) => Some(l != r),
        _ => None,
    }
}

/// The result of a comparison: its truth, or a fault where the operator
/// does not apply to the operands.
pub open spec fn comparison_result(op: ComparisonOp, x: ValueView, y: ValueView) -> Result<
    ValueView,
    Fault,
> {
    match comparison_truth(op, x, y) {
        Some(b) => Ok(ValueView::Boolean(b)),
        None => Err(plain_fault("Type mismatch in comparison"@)),
    }
}

/// A length as an integer value; a length beyond the 64-bit range is a
/// fault.
pub open spec fn length_value(n: nat) -> Result<ValueView, Fault> {
    if n <= i64::MAX {
        Ok(ValueView::Integer(n as i64))
    } else {
        Err(plain_fault("Length exceeds the integer range"@))
    }
}

/// Member access: of a string its character count and its two case
/// mappings, of an instance its field.
pub open spec fn member_result(v: ValueView, member: Seq<char>) -> Result<ValueView, Fault> {
    match v {
        ValueView::String(s) => if member == "length"@ {
            length_value(s.len())
        } else if member == "toLowerCase"@ {
            Ok(ValueView::String(lowercase_of(s)))
        } else if member == "toUpperCase"@ {
            Ok(ValueView::String(uppercase_of(s)))
        } else {
            Err(named_fault("String has no member: "@, member, "String"@))
        },
        ValueView::Value(i) => if member == i.field {
            Ok(primitive_value(i.payload))
        } else {
            Err(named_fault("Value has no member: "@, member, i.value_type))
        },
        _ => Err(named_fault("Cannot access a member of this value: "@, member, Seq::empty())),
    }
}

/// The list of every instance of the named type.
pub open spec fn all_of(store: Seq<InstanceView>, name: Seq<char>) -> ValueView {
    ValueView::List(ListView { items: of_type(store, name), element_type: name })
}

/// A built-in method on a receiver that is no user function: case mapping
/// on strings, `length` on lists, `all` and `count` on a type.
pub open spec fn builtin_method(
    receiver: ValueView,
    method: Seq<char>,
    argc: nat,
    store: Seq<InstanceView>,
) -> Result<ValueView, Fault> {
    if argc != 0 {
        Err(named_fault("Unknown method or wrong arguments: "@, method, Seq::empty()))
    } else {
        match receiver {
            ValueView::String(s) => if method == "toLowerCase"@ {
                Ok(ValueView::String(lowercase_of(s)))
            } else if method == "toUpperCase"@ {
                Ok(ValueView::String(uppercase_of(s)))
            } else {
                Err(named_fault("Unknown method or wrong arguments: "@, method, Seq::empty()))
            },
            ValueView::List(l) => if method == "length"@ {
                length_value(l.items.len())
            } else {
                Err(named_fault("Unknown method or wrong arguments: "@, method, Seq::empty()))
            },
            ValueView::Type(t) => if method == "all"@ {
                Ok(all_of(store, t))
            } else if method == "count"@ {
                length_value(of_type(store, t).len())
            } else {
                Err(named_fault("Unknown method or wrong arguments: "@, method, Seq::empty()))
            },
            _ => Err(named_fault("Unknown method or wrong arguments: "@, method, Seq::empty())),
        }
    }
}

/// An identifier is a bound name, or else the name of a declared value type.
pub open spec fn identifier_result(
    name: Seq<char>,
    ctx: Seq<BindingView>,
    defs: DefinitionsView,
) -> Result<ValueView, Fault> {
    match lookup(ctx, name) {
        Some(v) => Ok(v),
        None => if defs.constructor(name) is Some {
            Ok(ValueView::Type(name))
        } else {
            Err(named_fault("Unknown identifier: "@, name, Seq::empty()))
        },
    }
}

/// The bindings of the parameters to the arguments, in order.
pub open spec fn bind(params: Seq<GuardedParameterView>, vals: Seq<ValueView>) -> Seq<
    BindingView,
> {
    Seq::new(params.len(), |i: int| BindingView { name: params[i].name, value: vals[i] })
}

/// The candidate filter: the arity is that of the call and every parameter
/// type accepts its argument.
pub open spec fn applicable(f: FunctionDeclView, types: Seq<RuntimeType>) -> bool {
    &&& f.parameters.len() == types.len()
    &&& forall|k: int| 0 <= k < types.len() ==> accepts(#[trigger] f.parameters[k].ty, types[k])
}

/// The runtime types of a sequence of values, element by element.
pub open spec fn runtime_types(vals: Seq<ValueView>) -> Seq<RuntimeType> {
    Seq::new(vals.len(), |i: int| runtime_type(vals[i]))
}

/// What one parameter adds to the specificity of its overload.
pub open spec fn parameter_score(p: GuardedParameterView) -> nat {
    let by_type: nat = match p.ty {
        TypeView::Any => 1,
        TypeView::Unknown => 0,
        _ => 3,
    };
    if p.guard is Some {
        by_type + 2
    } else {
        by_type
    }
}

/// The specificity of the first `n` parameters.
pub open spec fn specificity_upto(params: Seq<GuardedParameterView>, n: nat) -> nat
    decreases n,
{
    if n == 0 {
        0
    } else {
        specificity_upto(params, (n - 1) as nat) + parameter_score(params[n - 1])
    }
}

/// The specificity of an overload: the sum of its parameters' scores.
pub open spec fn specificity(f: FunctionDeclView) -> nat {
    specificity_upto(f.parameters, f.parameters.len())
}

/// The outcome of ranking the surviving overloads.
pub enum Selection {
    /// The one overload with the highest score, by its index in the set.
    Unique(int),
    /// Two or more overloads share the highest score.
    Ambiguous,
    /// No overload survived.
    NoMatch,
}

/// Overload `i` survived and no other survivor scores as high.
pub open spec fn is_unique_best(scores: Seq<Option<nat>>, i: int) -> bool {
    &&& 0 <= i < scores.len()
    &&& scores[i] is Some
    &&& forall|j: int|
        0 <= j < scores.len() && j != i && (#[trigger] scores[j]) is Some ==> scores[j]->0
            < scores[i]->0
}

/// Selection among survivors' scores (`None` for an overload that did not
/// survive).
pub open spec fn select(scores: Seq<Option<nat>>) -> Selection {
    if forall|i: int| 0 <= i < scores.len() ==> (#[trigger] scores[i]) is None {
        Selection::NoMatch
    } else if exists|i: int| is_unique_best(scores, i) {
        Selection::Unique(choose|i: int| is_unique_best(scores, i))
    } else {
        Selection::Ambiguous
    }
}

/// The scores of the overloads that are applicable to the argument types
/// and whose guards passed.
pub open spec fn survivor_scores(
    fs: Seq<FunctionDeclView>,
    types: Seq<RuntimeType>,
    passes: Seq<bool>,
) -> Seq<Option<nat>> {
    Seq::new(
        fs.len(),
        |i: int|
            if applicable(fs[i], types) && passes[i] {
                Some(specificity(fs[i]))
            } else {
                None
            },
    )
}

/// The overload chosen for a call, given the runtime types of the arguments
/// and, for each overload, whether its guards passed.
pub open spec fn chosen(fs: Seq<FunctionDeclView>, types: Seq<RuntimeType>, passes: Seq<bool>)
    -> Selection {
    select(survivor_scores(fs, types, passes))
}

/// What an evaluation leaves behind: its result, and the instances that
/// exist afterwards. Instances constructed before a fault stay constructed.
pub struct Outcome<T> {
    pub result: Result<T, Fault>,
    pub store: Seq<InstanceView>,
}

/// Whether the guards of an overload held, and the instances that exist
/// after evaluating them.
pub struct GuardOutcome {
    pub holds: bool,
    pub store: Seq<InstanceView>,
}

/// For each overload of a prefix of a set whether it survived its guards,
/// and the instances that exist after evaluating them.
pub struct Survivors {
    pub passes: Seq<bool>,
    pub store: Seq<InstanceView>,
}

/// The fault of a call that nests deeper than the fuel allows.
pub open spec fn depth_fault() -> Fault {
    plain_fault("Evaluation depth exceeded"@)
}

/// The meaning of an expression: its value or fault under the bindings
/// `ctx` and the definitions `defs`, starting from the instances `store`.
/// `fuel` bounds the nesting of user-function calls and constructions.
pub open spec fn eval(
    e: ExprView,
    ctx: Seq<BindingView>,
    defs: DefinitionsView,
    store: Seq<InstanceView>,
    fuel: nat,
) -> Outcome<ValueView>
    decreases 8 * fuel + 2, e, 0nat,
{
    match e {
        ExprView::Literal(l) => Outcome { result: Ok(literal_value(l)), store },
        ExprView::Identifier(name) => Outcome { result: identifier_result(name, ctx, defs), store },
        ExprView::TypeLiteral(name) => Outcome { result: Ok(ValueView::Type(name)), store },
        ExprView::Binary(op, l, r) => {
            let a = eval(*l, ctx, defs, store, fuel);
            match a.result {
                Err(f) => Outcome { result: Err(f), store: a.store },
                Ok(x) => {
                    let b = eval(*r, ctx, defs, a.store, fuel);
                    match b.result {
                        Err(f) => Outcome { result: Err(f), store: b.store },
                        Ok(y) => Outcome { result: binary_result(op, x, y), store: b.store },
                    }
                },
            }
        },
        ExprView::Unary(op, a) => {
            let a = eval(*a, ctx, defs, store, fuel);
            match a.result {
                Err(f) => Outcome { result: Err(f), store: a.store },
                Ok(x) => Outcome { result: unary_result(op, x), store: a.store },
            }
        },
        ExprView::Comparison(op, l, r) => {
            let a = eval(*l, ctx, defs, store, fuel);
            match a.result {
                Err(f) => Outcome { result: Err(f), store: a.store },
                Ok(x) => {
                    let b = eval(*r, ctx, defs, a.store, fuel);
                    match b.result {
                        Err(f) => Outcome { result: Err(f), store: b.store },
                        Ok(y) => Outcome { result: comparison_result(op, x, y), store: b.store },
                    }
                },
            }
        },
        ExprView::MemberAccess(obj, member) => {
            let a = eval(*obj, ctx, defs, store, fuel);
            match a.result {
                Err(f) => Outcome { result: Err(f), store: a.store },
                Ok(x) => Outcome { result: member_result(x, member), store: a.store },
            }
        },
        ExprView::FunctionCall(name, args) => {
            let a = eval_args(args, args.len(), ctx, defs, store, fuel);
            match a.result {
                Err(f) => Outcome { result: Err(f), store: a.store },
                Ok(vals) => apply_call(name, vals, defs, a.store, fuel),
            }
        },
        ExprView::MethodCall(obj, method, args) => {
            let o = eval(*obj, ctx, defs, store, fuel);
            match o.result {
                Err(f) => Outcome { result: Err(f), store: o.store },
                Ok(receiver) => if defs.overloads(method).len() > 0 {
                    let a = eval_args(args, args.len(), ctx, defs, o.store, fuel);
                    match a.result {
                        Err(f) => Outcome { result: Err(f), store: a.store },
                        Ok(vals) => apply_call(method, seq![receiver] + vals, defs, a.store, fuel),
                    }
                } else {
                    Outcome {
                        result: builtin_method(receiver, method, args.len(), o.store),
                        store: o.store,
                    }
                },
            }
        },
        ExprView::Pipeline(l, r) => {
            let a = eval(*l, ctx, defs, store, fuel);
            match a.result {
                Err(f) => Outcome { result: Err(f), store: a.store },
                Ok(x) => match *r {
                    ExprView::Identifier(name) => apply_call(name, seq![x], defs, a.store, fuel),
                    ExprView::FunctionCall(name, args) => {
                        let b = eval_args(args, args.len(), ctx, defs, a.store, fuel);
                        match b.result {
                            Err(f) => Outcome { result: Err(f), store: b.store },
                            Ok(vals) => apply_call(name, seq![x] + vals, defs, b.store, fuel),
                        }
                    },
                    _ => Outcome {
                        result: Err(plain_fault("Pipeline right side must be a function"@)),
                        store: a.store,
                    },
                },
            }
        },
        ExprView::Let(name, value, body) => {
            let a = eval(*value, ctx, defs, store, fuel);
            match a.result {
                Err(f) => Outcome { result: Err(f), store: a.store },
                Ok(x) => eval(
                    *body,
                    ctx.push(BindingView { name, value: x }),
                    defs,
                    a.store,
                    fuel,
                ),
            }
        },
        ExprView::Match(scrutinee, arms) => {
            let a = eval(*scrutinee, ctx, defs, store, fuel);
            match a.result {
                Err(f) => Outcome { result: Err(f), store: a.store },
                Ok(ValueView::Value(instance)) => eval_arms(
                    arms,
                    0,
                    instance,
                    ctx,
                    defs,
                    a.store,
                    fuel,
                ),
                Ok(_) => Outcome {
                    result: Err(plain_fault("Match scrutinee is not an instance of a value type"@)),
                    store: a.store,
                },
            }
        },
    }
}

/// The values of the first `n` arguments, evaluated left to right; the
/// first fault ends the evaluation.
pub open spec fn eval_args(
    args: Seq<ExprView>,
    n: nat,
    ctx: Seq<BindingView>,
    defs: DefinitionsView,
    store: Seq<InstanceView>,
    fuel: nat,
) -> Outcome<Seq<ValueView>>
    decreases 8 * fuel + 2, args, n,
{
    if n == 0 || n > args.len() {
        Outcome { result: Ok(Seq::empty()), store }
    } else {
        let before = eval_args(args, (n - 1) as nat, ctx, defs, store, fuel);
        match before.result {
            Err(f) => before,
            Ok(vals) => {
                let a = eval(args[n - 1], ctx, defs, before.store, fuel);
                match a.result {
                    Err(f) => Outcome { result: Err(f), store: a.store },
                    Ok(v) => Outcome { result: Ok(vals.push(v)), store: a.store },
                }
            },
        }
    }
}

/// The body of the first arm from index `k` on whose constructor is the
/// instance's type, evaluated with the arm's variable bound to the payload.
pub open spec fn eval_arms(
    arms: Seq<MatchArmView>,
    k: nat,
    instance: InstanceView,
    ctx: Seq<BindingView>,
    defs: DefinitionsView,
    store: Seq<InstanceView>,
    fuel: nat,
) -> Outcome<ValueView>
    decreases 8 * fuel + 2, arms, arms.len() - k,
{
    if k >= arms.len() {
        Outcome {
            result: Err(
                named_fault(
                    "Non-exhaustive match: no arm for "@,
                    instance.value_type,
                    instance.value_type,
                ),
            ),
            store,
        }
    } else if arms[k as int].constructor == instance.value_type {
        eval(
            arms[k as int].body,
            ctx.push(
                BindingView {
                    name: arms[k as int].binding,
                    value: primitive_value(instance.payload),
                },
            ),
            defs,
            store,
            fuel,
        )
    } else {
        eval_arms(arms, k + 1, instance, ctx, defs, store, fuel)
    }
}

/// A call of `name` on argument values: the construction of a value where
/// `name` is a value type, the built-ins `all` and `count` on a type, and
/// otherwise multiple dispatch among the overloads of `name`.
pub open spec fn apply_call(
    name: Seq<char>,
    vals: Seq<ValueView>,
    defs: DefinitionsView,
    store: Seq<InstanceView>,
    fuel: nat,
) -> Outcome<ValueView>
    decreases 8 * fuel + 1, vals, 0nat,
{
    if defs.constructor(name) is Some {
        if vals.len() != 1 {
            Outcome {
                result: Err(
                    named_fault("Value constructor expects exactly one argument: "@, name, name),
                ),
                store,
            }
        } else {
            match as_primitive(vals[0]) {
                None => Outcome {
                    result: Err(
                        named_fault(
                            "Value constructor expects a primitive argument: "@,
                            name,
                            name,
                        ),
                    ),
                    store,
                },
                Some(payload) => if fuel == 0 {
                    Outcome { result: Err(depth_fault()), store }
                } else {
                    let c = construct(name, payload, defs, store, (fuel - 1) as nat);
                    match c.result {
                        Err(f) => Outcome { result: Err(f), store: c.store },
                        Ok(instance) => Outcome {
                            result: Ok(ValueView::Value(instance)),
                            store: c.store,
                        },
                    }
                },
            }
        }
    } else if name == "all"@ && vals.len() == 1 && vals[0] is Type {
        Outcome { result: Ok(all_of(store, vals[0]->Type_0)), store }
    } else if name == "count"@ && vals.len() == 1 && vals[0] is Type {
        Outcome { result: length_value(of_type(store, vals[0]->Type_0).len()), store }
    } else if defs.overloads(name).len() > 0 {
        if fuel == 0 {
            Outcome { result: Err(depth_fault()), store }
        } else {
            dispatch(name, defs.overloads(name), vals, defs, store, (fuel - 1) as nat)
        }
    } else {
        Outcome { result: Err(named_fault("Unknown function: "@, name, "function"@)), store }
    }
}

/// The overload that dispatch selects for a call on the argument values
/// `vals`: the choice among the overloads that survive their guards.
pub open spec fn selection(
    fs: Seq<FunctionDeclView>,
    vals: Seq<ValueView>,
    defs: DefinitionsView,
    store: Seq<InstanceView>,
    fuel: nat,
) -> Selection
    decreases 8 * fuel + 5, fs, fs.len() + 1,
{
    chosen(fs, runtime_types(vals), survivors(fs, fs.len(), vals, defs, store, fuel).passes)
}

/// Multiple dispatch: the guards of every applicable overload are
/// evaluated in declaration order, the survivors are ranked by specificity,
/// and the body of the one best overload is evaluated with its parameters
/// bound to the arguments.
pub open spec fn dispatch(
    name: Seq<char>,
    fs: Seq<FunctionDeclView>,
    vals: Seq<ValueView>,
    defs: DefinitionsView,
    store: Seq<InstanceView>,
    fuel: nat,
) -> Outcome<ValueView>
    decreases 8 * fuel + 6, fs, 0nat,
{
    let s = survivors(fs, fs.len(), vals, defs, store, fuel);
    match selection(fs, vals, defs, store, fuel) {
        Selection::Unique(i) => if 0 <= i < fs.len() {
            eval(fs[i].body, bind(fs[i].parameters, vals), defs, s.store, fuel)
        } else {
            Outcome { result: Err(ambiguous_fault(name)), store: s.store }
        },
        Selection::Ambiguous => Outcome { result: Err(ambiguous_fault(name)), store: s.store },
        Selection::NoMatch => Outcome { result: Err(no_match_fault(name)), store: s.store },
    }
}

/// The fault of a call for which two overloads share the highest score.
pub open spec fn ambiguous_fault(name: Seq<char>) -> Fault {
    Fault { message: "Ambiguous call '"@ + name + "'"@, value_type: "function"@ }
}

/// The fault of a call that no overload survives.
pub open spec fn no_match_fault(name: Seq<char>) -> Fault {
    named_fault("No overload applies to the arguments of "@, name, "function"@)
}

/// Guard evaluation over the first `n` overloads of a set, in declaration
/// order. An overload that is not applicable does not survive and its
/// guards are not evaluated.
pub open spec fn survivors(
    fs: Seq<FunctionDeclView>,
    n: nat,
    vals: Seq<ValueView>,
    defs: DefinitionsView,
    store: Seq<InstanceView>,
    fuel: nat,
) -> Survivors
    decreases 8 * fuel + 5, fs, n,
{
    if n == 0 || n > fs.len() {
        Survivors { passes: Seq::empty(), store }
    } else {
        let before = survivors(fs, (n - 1) as nat, vals, defs, store, fuel);
        let f = fs[n - 1];
        if applicable(f, runtime_types(vals)) {
            let g = guards_hold(
                f.parameters,
                f.parameters.len(),
                bind(f.parameters, vals),
                defs,
                before.store,
                fuel,
            );
            Survivors { passes: before.passes.push(g.holds), store: g.store }
        } else {
            Survivors { passes: before.passes.push(false), store: before.store }
        }
    }
}

/// Whether the guards of the first `n` parameters all evaluate to `true`,
/// in order. The first guard that yields anything else, a fault included,
/// ends the evaluation: the overload is discarded.
pub open spec fn guards_hold(
    params: Seq<GuardedParameterView>,
    n: nat,
    ctx: Seq<BindingView>,
    defs: DefinitionsView,
    store: Seq<InstanceView>,
    fuel: nat,
) -> GuardOutcome
    decreases 8 * fuel + 4, params, n,
{
    if n == 0 || n > params.len() {
        GuardOutcome { holds: true, store }
    } else {
        let before = guards_hold(params, (n - 1) as nat, ctx, defs, store, fuel);
        if !before.holds {
            before
        } else {
            match params[n - 1].guard {
                None => before,
                Some(g) => {
                    let o = eval(g, ctx, defs, before.store, fuel);
                    GuardOutcome {
                        holds: o.result == Ok::<ValueView, Fault>(ValueView::Boolean(true)),
                        store: o.store,
                    }
                },
            }
        }
    }
}

/// The payload after the declaration's normalizer, if it has one: the
/// normalize expression evaluated with the parameter bound to the payload.
pub open spec fn normalized(
    decl: ValueDeclView,
    payload: PrimitiveView,
    defs: DefinitionsView,
    store: Seq<InstanceView>,
    fuel: nat,
) -> Outcome<PrimitiveView>
    decreases 8 * fuel + 3, decl, 0nat,
{
    match decl.body.normalize {
        None => Outcome { result: Ok(payload), store },
        Some(e) => {
            let o = eval(
                e,
                seq![BindingView { name: decl.parameter.name, value: primitive_value(payload) }],
                defs,
                store,
                fuel,
            );
            match o.result {
                Err(f) => Outcome { result: Err(f), store: o.store },
                Ok(v) => match as_primitive(v) {
                    Some(p) => Outcome { result: Ok(p), store: o.store },
                    None => Outcome {
                        result: Err(
                            named_fault(
                                "Normalizer did not yield a primitive value for "@,
                                decl.name,
                                decl.name,
                            ),
                        ),
                        store: o.store,
                    },
                },
            }
        },
    }
}

/// The fault of a payload that its validator does not accept.
pub open spec fn validation_failed(value_type: Seq<char>) -> Fault {
    Fault { message: "Validation failed"@, value_type }
}

/// The declaration's validator on a payload: success if and only if the
/// validate expression, with the parameter bound to the payload, evaluates
/// to `true`. A declaration without one accepts every payload.
pub open spec fn validated(
    decl: ValueDeclView,
    value_type: Seq<char>,
    payload: PrimitiveView,
    defs: DefinitionsView,
    store: Seq<InstanceView>,
    fuel: nat,
) -> Outcome<()>
    decreases 8 * fuel + 3, decl, 0nat,
{
    match decl.body.validate {
        None => Outcome { result: Ok(()), store },
        Some(e) => {
            let o = eval(
                e,
                seq![BindingView { name: decl.parameter.name, value: primitive_value(payload) }],
                defs,
                store,
                fuel,
            );
            match o.result {
                Ok(ValueView::Boolean(true)) => Outcome { result: Ok(()), store: o.store },
                Ok(_) => Outcome { result: Err(validation_failed(value_type)), store: o.store },
                Err(f) => Outcome {
                    result: Err(Fault { message: f.message, value_type }),
                    store: o.store,
                },
            }
        },
    }
}

/// The construction of a value: the payload is normalized, must pass the
/// validator, and for a unique type must differ from the payload of every
/// instance of the type. Only then the new instance is appended to the
/// store.
pub open spec fn construct(
    value_type: Seq<char>,
    payload: PrimitiveView,
    defs: DefinitionsView,
    store: Seq<InstanceView>,
    fuel: nat,
) -> Outcome<InstanceView>
    decreases 8 * fuel + 4, payload, 0nat,
{
    match defs.constructor(value_type) {
        None => Outcome {
            result: Err(named_fault("Unknown value type: "@, value_type, value_type)),
            store,
        },
        Some(decl) => {
            let n = normalized(decl, payload, defs, store, fuel);
            match n.result {
                Err(f) => Outcome { result: Err(f), store: n.store },
                Ok(p) => {
                    let v = validated(decl, value_type, p, defs, n.store, fuel);
                    match v.result {
                        Err(f) => Outcome { result: Err(f), store: v.store },
                        Ok(_) => if decl.body.unique == Some(true) && has_payload(
                            of_type(v.store, value_type),
                            p,
                        ) {
                            Outcome {
                                result: Err(
                                    named_fault(
                                        "Duplicate value for unique type "@,
                                        value_type,
                                        value_type,
                                    ),
                                ),
                                store: v.store,
                            }
                        } else {
                            let instance = InstanceView {
                                value_type,
                                field: decl.parameter.name,
                                payload: p,
                            };
                            Outcome { result: Ok(instance), store: v.store.push(instance) }
                        },
                    }
                },
            }
        },
    }
}

/// Once an argument has faulted, evaluating further arguments changes
/// nothing.
pub proof fn lemma_args_fault_sticks(
    args: Seq<ExprView>,
    m: nat,
    n: nat,
    ctx: Seq<BindingView>,
    defs: DefinitionsView,
    store: Seq<InstanceView>,
    fuel: nat,
)
    requires
        1 <= m <= n <= args.len(),
        eval_args(args, m, ctx, defs, store, fuel).result is Err,
    ensures
        eval_args(args, n, ctx, defs, store, fuel) == eval_args(args, m, ctx, defs, store, fuel),
    decreases n,
{
    if m < n {
        lemma_args_fault_sticks(args, m, (n - 1) as nat, ctx, defs, store, fuel);
    }
}

/// Once a guard has failed, the later guards of the overload are not
/// evaluated.
pub proof fn lemma_guard_failure_sticks(
    params: Seq<GuardedParameterView>,
    m: nat,
    n: nat,
    ctx: Seq<BindingView>,
    defs: DefinitionsView,
    store: Seq<InstanceView>,
    fuel: nat,
)
    requires
        1 <= m <= n <= params.len(),
        !guards_hold(params, m, ctx, defs, store, fuel).holds,
    ensures
        guards_hold(params, n, ctx, defs, store, fuel) == guards_hold(
            params,
            m,
            ctx,
            defs,
            store,
            fuel,
        ),
    decreases n,
{
    if m < n {
        lemma_guard_failure_sticks(params, m, (n - 1) as nat, ctx, defs, store, fuel);
    }
}

/// A name that is also the signature of a built-in runtime type.
pub open spec fn reserved(name: Seq<char>) -> bool {
    name == "String"@ || name == "Int"@ || name == "Bool"@ || name == "Type"@ || name == "List"@
}

/// No argument is an instance of a type whose name is the signature of a
/// built-in runtime type: the signatures of such arguments tell their
/// runtime types apart.
pub open spec fn cacheable(vals: Seq<ValueView>) -> bool {
    forall|k: int|
        0 <= k < vals.len() ==> !((#[trigger] vals[k]) is Value && reserved(
            vals[k]->Value_0.value_type,
        ))
}

/// Type matching as far as a signature shows it.
pub open spec fn accepts_signature(ty: TypeView, sig: Seq<char>) -> bool {
    match ty {
        TypeView::Int => sig == "Int"@,
        TypeView::String => sig == "String"@,
        TypeView::Bool => sig == "Bool"@,
        TypeView::Value(name) => sig == name && !reserved(name),
        TypeView::Type => sig == "Type"@,
        TypeView::List(_) => sig == "List"@,
        TypeView::Any => true,
        TypeView::Unknown => false,
    }
}

/// The candidate filter as far as signatures show it.
pub open spec fn applicable_by_signature(f: FunctionDeclView, sigs: Seq<Seq<char>>) -> bool {
    &&& f.parameters.len() == sigs.len()
    &&& forall|k: int|
        0 <= k < sigs.len() ==> accepts_signature(#[trigger] f.parameters[k].ty, sigs[k])
}

/// No overload of the set has a guard.
pub open spec fn unguarded(fs: Seq<FunctionDeclView>) -> bool {
    forall|i: int, k: int|
        0 <= i < fs.len() && 0 <= k < fs[i].parameters.len() ==> (
        #[trigger] fs[i].parameters[k]).guard is None
}

/// The scores of the overloads that are applicable by signature.
pub open spec fn signature_scores(fs: Seq<FunctionDeclView>, sigs: Seq<Seq<char>>) -> Seq<
    Option<nat>,
> {
    Seq::new(
        fs.len(),
        |i: int|
            if applicable_by_signature(fs[i], sigs) {
                Some(specificity(fs[i]))
            } else {
                None
            },
    )
}

/// Full dispatch among unguarded overloads, as far as signatures show it.
pub open spec fn chosen_by_signature(fs: Seq<FunctionDeclView>, sigs: Seq<Seq<char>>)
    -> Selection {
    select(signature_scores(fs, sigs))
}

/// A remembered decision is what full dispatch decides, and the overload
/// set has no guards.
pub open spec fn entry_sound(c: CacheEntryView, defs: DefinitionsView) -> bool {
    &&& unguarded(defs.overloads(c.name))
    &&& chosen_by_signature(defs.overloads(c.name), c.signatures) == Selection::Unique(c.target)
}

/// Every remembered decision is sound for the definitions `defs`.
pub open spec fn cache_sound(cache: Seq<CacheEntryView>, defs: DefinitionsView)
    -> bool {
    forall|k: int| 0 <= k < cache.len() ==> entry_sound(#[trigger] cache[k], defs)
}

/// The signatures of the built-in runtime types are five different texts.
pub proof fn lemma_signatures_differ()
    ensures
        "String"@ != "Int"@,
        "String"@ != "Bool"@,
        "String"@ != "Type"@,
        "String"@ != "List"@,
        "Int"@ != "Bool"@,
        "Int"@ != "Type"@,
        "Int"@ != "List"@,
        "Bool"@ != "Type"@,
        "Bool"@ != "List"@,
        "Type"@ != "List"@,
{
    reveal_strlit("String");
    reveal_strlit("Int");
    reveal_strlit("Bool");
    reveal_strlit("Type");
    reveal_strlit("List");
    assert("String"@.len() == 6);
    assert("Int"@.len() == 3);
    assert("Bool"@[0] == 'B');
    assert("Type"@[0] == 'T');
    assert("List"@[0] == 'L');
}

/// For a value that is no instance of a reserved name, its signature
/// decides type matching.
pub proof fn lemma_signature_decides(ty: TypeView, v: ValueView)
    requires
        !(v is Value && reserved(v->Value_0.value_type)),
    ensures
        accepts(ty, runtime_type(v)) == accepts_signature(ty, signature(runtime_type(v))),
{
    lemma_signatures_differ();
}

/// For cacheable arguments the signatures decide the candidate filter.
pub proof fn lemma_applicable_by_signature(f: FunctionDeclView, vals: Seq<ValueView>)
    requires
        cacheable(vals),
    ensures
        applicable(f, runtime_types(vals)) == applicable_by_signature(f, signatures(vals)),
{
    let types = runtime_types(vals);
    let sigs = signatures(vals);
    if f.parameters.len() == vals.len() {
        assert forall|k: int| 0 <= k < vals.len() implies accepts(f.parameters[k].ty, types[k])
            == accepts_signature(f.parameters[k].ty, sigs[k]) by {
            assert(!(vals[k] is Value && reserved(vals[k]->Value_0.value_type)));
            lemma_signature_decides(f.parameters[k].ty, vals[k]);
        }
        if applicable(f, types) {
            assert forall|k: int| 0 <= k < sigs.len() implies accepts_signature(
                #[trigger] f.parameters[k].ty,
                sigs[k],
            ) by {
                assert(accepts(f.parameters[k].ty, types[k]));
            }
        }
        if applicable_by_signature(f, sigs) {
            assert forall|k: int| 0 <= k < types.len() implies accepts(
                #[trigger] f.parameters[k].ty,
                types[k],
            ) by {
                assert(accepts_signature(f.parameters[k].ty, sigs[k]));
            }
        }
    }
}

/// Parameters without guards hold trivially and evaluate nothing.
pub proof fn lemma_no_guards_hold(
    params: Seq<GuardedParameterView>,
    n: nat,
    ctx: Seq<BindingView>,
    defs: DefinitionsView,
    store: Seq<InstanceView>,
    fuel: nat,
)
    requires
        forall|k: int| 0 <= k < params.len() ==> (#[trigger] params[k]).guard is None,
    ensures
        guards_hold(params, n, ctx, defs, store, fuel) == (GuardOutcome { holds: true, store }),
    decreases n,
{
    if n > 0 && n <= params.len() {
        lemma_no_guards_hold(params, (n - 1) as nat, ctx, defs, store, fuel);
        assert(params[n - 1].guard is None);
    }
}

/// In a set without guards the survivors are the applicable overloads, and
/// finding them evaluates nothing.
pub proof fn lemma_unguarded_survivors(
    fs: Seq<FunctionDeclView>,
    n: nat,
    vals: Seq<ValueView>,
    defs: DefinitionsView,
    store: Seq<InstanceView>,
    fuel: nat,
)
    requires
        unguarded(fs),
        n <= fs.len(),
    ensures
        survivors(fs, n, vals, defs, store, fuel).store == store,
        survivors(fs, n, vals, defs, store, fuel).passes.len() == n,
        forall|j: int|
            0 <= j < n ==> survivors(fs, n, vals, defs, store, fuel).passes[j] == applicable(
                fs[j],
                runtime_types(vals),
            ),
    decreases n,
{
    if n > 0 {
        lemma_unguarded_survivors(fs, (n - 1) as nat, vals, defs, store, fuel);
        let f = fs[n - 1];
        assert forall|k: int| 0 <= k < f.parameters.len() implies (
        #[trigger] f.parameters[k]).guard is None by {
            assert(fs[n - 1].parameters[k].guard is None);
        }
        lemma_no_guards_hold(
            f.parameters,
            f.parameters.len(),
            bind(f.parameters, vals),
            defs,
            store,
            fuel,
        );
    }
}

/// Cache consistency: for a call whose overloads carry no guards and whose
/// arguments are cacheable, full dispatch chooses what the signatures of
/// the arguments alone determine, and evaluates nothing on the way. A
/// decision remembered under those signatures is therefore the decision
/// of full dispatch.
pub proof fn lemma_cache_consistent(
    fs: Seq<FunctionDeclView>,
    vals: Seq<ValueView>,
    defs: DefinitionsView,
    store: Seq<InstanceView>,
    fuel: nat,
)
    requires
        unguarded(fs),
        cacheable(vals),
    ensures
        survivors(fs, fs.len(), vals, defs, store, fuel).store == store,
        chosen(fs, runtime_types(vals), survivors(fs, fs.len(), vals, defs, store, fuel).passes)
            == chosen_by_signature(fs, signatures(vals)),
{
    lemma_unguarded_survivors(fs, fs.len(), vals, defs, store, fuel);
    let s = survivors(fs, fs.len(), vals, defs, store, fuel);
    assert forall|i: int| 0 <= i < fs.len() implies survivor_scores(
        fs,
        runtime_types(vals),
        s.passes,
    )[i] == signature_scores(fs, signatures(vals))[i] by {
        lemma_applicable_by_signature(fs[i], vals);
    }
    assert(survivor_scores(fs, runtime_types(vals), s.passes) =~= signature_scores(
        fs,
        signatures(vals),
    ));
}

/// A result of the semantics as the public entry points report it: a fault
/// becomes an error of the validation kind.
pub open spec fn reported<T>(r: Result<T, Fault>) -> Result<T, ErrorView> {
    match r {
        Ok(v) => Ok(v),
        Err(f) => Err(as_error(f)),
    }
}

} // verus!
