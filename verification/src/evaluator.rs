//! The tree-walking evaluator: it computes the meaning of expressions
//! against definitions and a runtime state, constructs validated values
//! and dispatches calls, remembering the decisions that are safe to
//! remember.

use crate::ast::{
    BinaryOp, ComparisonOp, Expression, FunctionDeclaration, FunctionDeclView, Literal, MatchArm,
    ParameterWithGuard, Pattern, UnaryOp,
};
use crate::error::{Error, ErrorView, Fault, named_fault, ValidationError};
use crate::list::List;
use crate::semantics::{
    accepts, all_of, applicable, apply_call, as_primitive, binary_result, bind, BindingView,
    builtin_method, cache_sound, cacheable, comparison_result, comparison_truth, construct,
    dispatch, eval, eval_args, eval_arms, GuardOutcome, guards_hold, identifier_result,
    integer_or_overflow, is_unique_best, lemma_applicable_by_signature, lemma_args_fault_sticks,
    lemma_cache_consistent, lemma_guard_failure_sticks, length_value, literal_value, lookup,
    member_result, Outcome, parameter_score, primitive_value, reported, reserved, runtime_type,
    runtime_types, select, Selection, signature, signature_scores, signatures, specificity,
    specificity_upto, survivor_scores, survivors, unary_result, unguarded, value_text, ValueView,
};
use crate::types::Type;
use crate::value::{Definitions, DispatchKey, Instance, InstanceView, Primitive, RuntimeState};
use vstd::prelude::*;
use vstd::string::*;

verus! {

/// A runtime value.
#[derive(Debug, PartialEq)]
pub enum EvalValue {
    String(String),
    Integer(i64),
    Boolean(bool),
    /// An instance of a refinement type.
    Value(Instance),
    /// A refinement type as a first-class value, by name.
    Type(String),
    List(List),
}

impl View for EvalValue {
    type V = ValueView;

    open spec fn view(&self) -> ValueView {
        match self {
            EvalValue::String(s) => ValueView::String(s@),
            EvalValue::Integer(n) => ValueView::Integer(*n),
            EvalValue::Boolean(b) => ValueView::Boolean(*b),
            EvalValue::Value(i) => ValueView::Value(i@),
            EvalValue::Type(t) => ValueView::Type(t@),
            EvalValue::List(l) => ValueView::List(l@),
        }
    }
}

impl Clone for EvalValue {
    fn clone(&self) -> (r: Self)
        ensures
            r@ == self@,
    {
        match self {
            EvalValue::String(s) => EvalValue::String(s.clone()),
            EvalValue::Integer(n) => EvalValue::Integer(*n),
            EvalValue::Boolean(b) => EvalValue::Boolean(*b),
            EvalValue::Value(i) => EvalValue::Value(i.clone()),
            EvalValue::Type(t) => EvalValue::Type(t.clone()),
            EvalValue::List(l) => EvalValue::List(l.clone()),
        }
    }
}

impl EvalValue {
    /// The value as text.
    pub fn to_string(&self) -> (r: String)
        ensures
            r@ == value_text(self@),
    {
        match self {
            EvalValue::String(s) => s.clone(),
            EvalValue::Integer(n) => crate::text::integer_string(*n),
            EvalValue::Boolean(b) => if *b {
                String::from_str("true")
            } else {
                String::from_str("false")
            },
            EvalValue::Value(i) => i.to_string(),
            EvalValue::Type(t) => crate::text::concat3("Type(", t.as_str(), ")"),
            EvalValue::List(l) => {
                let items = crate::value::instances_to_string(&l.items);
                crate::text::concat3("[", items.as_str(), "]")
            },
        }
    }
}

/// The views of a sequence of values, element by element.
pub open spec fn values_view(s: Seq<EvalValue>) -> Seq<ValueView> {
    Seq::new(s.len(), |i: int| s[i]@)
}

/// A name bound to a value.
#[derive(Debug, PartialEq)]
pub struct Binding {
    pub name: String,
    pub value: EvalValue,
}

impl View for Binding {
    type V = BindingView;

    open spec fn view(&self) -> BindingView {
        BindingView { name: self.name@, value: self.value@ }
    }
}

/// The views of a sequence of bindings, element by element.
pub open spec fn bindings_view(s: Seq<Binding>) -> Seq<BindingView> {
    Seq::new(s.len(), |i: int| s[i]@)
}

/// The deepest nesting of user-function calls and constructions that the
/// public entry points allow.
pub const MAX_CALL_DEPTH: usize = 256;

/// The mathematical content of an evaluation result.
pub open spec fn value_result(r: Result<EvalValue, ValidationError>) -> Result<ValueView, Fault> {
    match r {
        Ok(v) => Ok(v@),
        Err(e) => Err(e@),
    }
}

fn lookup_binding<'a>(ctx: &'a Vec<Binding>, name: &str) -> (r: Option<&'a EvalValue>)
    ensures
        match r {
            Some(v) => lookup(bindings_view(ctx@), name@) == Some(v@),
            None => lookup(bindings_view(ctx@), name@) is None,
        },
{
    let ghost all = bindings_view(ctx@);
    let mut i: usize = ctx.len();
    assert(all.take(i as int) =~= all);
    while i > 0
        invariant
            i <= ctx.len(),
            all == bindings_view(ctx@),
            lookup(all, name@) == lookup(all.take(i as int), name@),
        decreases i,
    {
        let b = &ctx[i - 1];
        assert(all.take(i as int).last() == all[i - 1]);
        assert(all.take(i as int).drop_last() =~= all.take(i - 1));
        if crate::text::str_equal(b.name.as_str(), name) {
            return Some(&b.value);
        }
        i = i - 1;
    }
    None
}

/// Whether a runtime value matches a parameter type.
pub fn matches_type(ty: &Type, value: &EvalValue) -> (r: bool)
    ensures
        r == accepts(ty@, runtime_type(value@)),
{
    match ty {
        Type::Int => match value {
            EvalValue::Integer(_) => true,
            _ => false,
        },
        Type::String => match value {
            EvalValue::String(_) => true,
            _ => false,
        },
        Type::Bool => match value {
            EvalValue::Boolean(_) => true,
            _ => false,
        },
        Type::Value(name) => match value {
            EvalValue::Value(instance) => crate::text::str_equal(
                instance.value_type.as_str(),
                name.as_str(),
            ),
            _ => false,
        },
        Type::Type => match value {
            EvalValue::Type(_) => true,
            _ => false,
        },
        Type::List(_) => match value {
            EvalValue::List(_) => true,
            _ => false,
        },
        Type::Any => true,
        Type::Unknown => false,
    }
}

/// The signature of a value in a dispatch-cache key.
pub fn get_value_type_signature(value: &EvalValue) -> (r: String)
    ensures
        r@ == signature(runtime_type(value@)),
{
    match value {
        EvalValue::String(_) => String::from_str("String"),
        EvalValue::Integer(_) => String::from_str("Int"),
        EvalValue::Boolean(_) => String::from_str("Bool"),
        EvalValue::Value(instance) => instance.value_type.clone(),
        EvalValue::Type(_) => String::from_str("Type"),
        EvalValue::List(_) => String::from_str("List"),
    }
}

fn literal_to_value(l: &Literal) -> (r: EvalValue)
    ensures
        r@ == literal_value(l@),
{
    match l {
        Literal::String(s) => EvalValue::String(s.clone()),
        Literal::Integer(n) => EvalValue::Integer(*n),
        Literal::Boolean(b) => EvalValue::Boolean(*b),
    }
}

fn primitive_to_value(p: &Primitive) -> (r: EvalValue)
    ensures
        r@ == primitive_value(p@),
{
    match p {
        Primitive::String(s) => EvalValue::String(s.clone()),
        Primitive::Integer(n) => EvalValue::Integer(*n),
        Primitive::Boolean(b) => EvalValue::Boolean(*b),
    }
}

fn value_to_primitive(v: &EvalValue) -> (r: Option<Primitive>)
    ensures
        match r {
            Some(p) => as_primitive(v@) == Some(p@),
            None => as_primitive(v@) is None,
        },
{
    match v {
        EvalValue::String(s) => Some(Primitive::String(s.clone())),
        EvalValue::Integer(n) => Some(Primitive::Integer(*n)),
        EvalValue::Boolean(b) => Some(Primitive::Boolean(*b)),
        _ => None,
    }
}

fn checked_integer(n: Option<i64>) -> (r: Result<EvalValue, ValidationError>)
    ensures
        value_result(r) == integer_or_overflow(n),
{
    match n {
        Some(v) => Ok(EvalValue::Integer(v)),
        None => Err(ValidationError::plain("Integer overflow")),
    }
}

/// Applies a binary operator to two values.
pub fn evaluate_binary_op(op: &BinaryOp, left: &EvalValue, right: &EvalValue) -> (r: Result<
    EvalValue,
    ValidationError,
>)
    ensures
        value_result(r) == binary_result(*op, left@, right@),
{
    match left {
        EvalValue::Integer(l) => match right {
            EvalValue::Integer(r) => match op {
                BinaryOp::Add => checked_integer(l.checked_add(*r)),
                BinaryOp::Subtract => checked_integer(l.checked_sub(*r)),
                BinaryOp::Multiply => checked_integer(l.checked_mul(*r)),
                BinaryOp::Divide => if *r == 0 {
                    Err(ValidationError::plain("Division by zero"))
                } else {
                    checked_integer(l.checked_div(*r))
                },
                BinaryOp::Modulo => if *r == 0 {
                    Err(ValidationError::plain("Modulo by zero"))
                } else {
                    checked_integer(l.checked_rem(*r))
                },
                _ => Err(ValidationError::plain("Type mismatch in binary operation")),
            },
            _ => Err(ValidationError::plain("Type mismatch in binary operation")),
        },
        EvalValue::Boolean(l) => match right {
            EvalValue::Boolean(r) => match op {
                BinaryOp::And => Ok(EvalValue::Boolean(*l && *r)),
                BinaryOp::Or => Ok(EvalValue::Boolean(*l || *r)),
                _ => Err(ValidationError::plain("Type mismatch in binary operation")),
            },
            _ => Err(ValidationError::plain("Type mismatch in binary operation")),
        },
        _ => Err(ValidationError::plain("Type mismatch in binary operation")),
    }
}

fn evaluate_unary_op(op: &UnaryOp, operand: &EvalValue) -> (r: Result<EvalValue, ValidationError>)
    ensures
        value_result(r) == unary_result(*op, operand@),
{
    match op {
        UnaryOp::Not => match operand {
            EvalValue::Boolean(b) => Ok(EvalValue::Boolean(!*b)),
            _ => Err(ValidationError::plain("Type mismatch in unary operation")),
        },
        UnaryOp::Minus => match operand {
            EvalValue::Integer(n) => checked_integer(0i64.checked_sub(*n)),
            _ => Err(ValidationError::plain("Type mismatch in unary operation")),
        },
    }
}

fn compare_values(op: &ComparisonOp, left: &EvalValue, right: &EvalValue) -> (r: Option<bool>)
    ensures
        r == comparison_truth(*op, left@, right@),
{
    match left {
        EvalValue::Integer(l) => match right {
            EvalValue::Integer(r) => match op {
                ComparisonOp::Equal => Some(*l == *r),
                ComparisonOp::NotEqual => Some(*l != *r),
                ComparisonOp::Less => Some(*l < *r),
                ComparisonOp::Greater => Some(*l > *r),
                ComparisonOp::LessEqual => Some(*l <= *r),
                ComparisonOp::GreaterEqual => Some(*l >= *r),
                ComparisonOp::Contains => None,
            },
            _ => None,
        },
        EvalValue::String(l) => match right {
            EvalValue::String(r) => match op {
                ComparisonOp::Equal => Some(crate::text::str_equal(l.as_str(), r.as_str())),
                ComparisonOp::NotEqual => Some(!crate::text::str_equal(l.as_str(), r.as_str())),
                ComparisonOp::Contains => Some(
                    crate::text::contains_text(l.as_str(), r.as_str()),
                ),
                _ => None,
            },
            _ => None,
        },
        EvalValue::Boolean(l) => match right {
            EvalValue::Boolean(r) => match op {
                ComparisonOp::Equal => Some(*l == *r),
                ComparisonOp::NotEqual => Some(*l != *r),
                _ => None,
            },
            _ => None,
        },
        _ => None,
    }
}

fn evaluate_comparison(op: &ComparisonOp, left: &EvalValue, right: &EvalValue) -> (r: Result<
    EvalValue,
    ValidationError,
>)
    ensures
        value_result(r) == comparison_result(*op, left@, right@),
{
    match compare_values(op, left, right) {
        Some(b) => Ok(EvalValue::Boolean(b)),
        None => Err(ValidationError::plain("Type mismatch in comparison")),
    }
}

fn length_to_value(n: usize) -> (r: Result<EvalValue, ValidationError>)
    ensures
        value_result(r) == length_value(n as nat),
{
    let wide: u64 = n as u64;
    if wide <= 9223372036854775807u64 {
        Ok(EvalValue::Integer(wide as i64))
    } else {
        Err(ValidationError::plain("Length exceeds the integer range"))
    }
}

fn evaluate_member(v: &EvalValue, member: &str) -> (r: Result<EvalValue, ValidationError>)
    ensures
        value_result(r) == member_result(v@, member@),
{
    match v {
        EvalValue::String(s) => if crate::text::str_equal(member, "length") {
            length_to_value(s.as_str().unicode_len())
        } else if crate::text::str_equal(member, "toLowerCase") {
            Ok(EvalValue::String(crate::text::to_lowercase(s.as_str())))
        } else if crate::text::str_equal(member, "toUpperCase") {
            Ok(EvalValue::String(crate::text::to_uppercase(s.as_str())))
        } else {
            Err(
                ValidationError::named(
                    "String has no member: ",
                    member,
                    String::from_str("String"),
                ),
            )
        },
        EvalValue::Value(instance) => if crate::text::str_equal(
            member,
            instance.field.as_str(),
        ) {
            Ok(primitive_to_value(&instance.payload))
        } else {
            Err(
                ValidationError::named(
                    "Value has no member: ",
                    member,
                    instance.value_type.clone(),
                ),
            )
        },
        _ => Err(
            ValidationError::named("Cannot access a member of this value: ", member, String::new()),
        ),
    }
}

fn unknown_method(method: &str) -> (r: Result<EvalValue, ValidationError>)
    ensures
        value_result(r) == Err::<ValueView, Fault>(
            named_fault("Unknown method or wrong arguments: "@, method@, Seq::empty()),
        ),
{
    Err(ValidationError::named("Unknown method or wrong arguments: ", method, String::new()))
}

fn all_instances(state: &RuntimeState, value_type: &String) -> (r: EvalValue)
    ensures
        r@ == all_of(state@, value_type@),
{
    EvalValue::List(List::from_items(state.instances_of(value_type.as_str()), value_type.clone()))
}

fn evaluate_builtin_method(
    receiver: &EvalValue,
    method: &str,
    argc: usize,
    state: &RuntimeState,
) -> (r: Result<EvalValue, ValidationError>)
    ensures
        value_result(r) == builtin_method(receiver@, method@, argc as nat, state@),
{
    if argc != 0 {
        return unknown_method(method);
    }
    match receiver {
        EvalValue::String(s) => if crate::text::str_equal(method, "toLowerCase") {
            Ok(EvalValue::String(crate::text::to_lowercase(s.as_str())))
        } else if crate::text::str_equal(method, "toUpperCase") {
            Ok(EvalValue::String(crate::text::to_uppercase(s.as_str())))
        } else {
            unknown_method(method)
        },
        EvalValue::List(l) => if crate::text::str_equal(method, "length") {
            length_to_value(l.len())
        } else {
            unknown_method(method)
        },
        EvalValue::Type(t) => if crate::text::str_equal(method, "all") {
            Ok(all_instances(state, t))
        } else if crate::text::str_equal(method, "count") {
            length_to_value(state.count_of(t.as_str()))
        } else {
            unknown_method(method)
        },
        _ => unknown_method(method),
    }
}

/// The views of a sequence of borrowed declarations, element by element.
pub open spec fn decls_view(s: Seq<&FunctionDeclaration>) -> Seq<FunctionDeclView> {
    Seq::new(s.len(), |i: int| s[i]@)
}

/// The mathematical content of a result that holds argument values.
pub open spec fn values_result(r: Result<Vec<EvalValue>, ValidationError>) -> Result<
    Seq<ValueView>,
    Fault,
> {
    match r {
        Ok(v) => Ok(values_view(v@)),
        Err(e) => Err(e@),
    }
}

/// A score as a natural number.
pub open spec fn score_view(s: Option<u128>) -> Option<nat> {
    match s {
        Some(n) => Some(n as nat),
        None => None,
    }
}

/// The scores of a sequence of overloads as natural numbers.
pub open spec fn scores_view(s: Seq<Option<u128>>) -> Seq<Option<nat>> {
    Seq::new(s.len(), |i: int| score_view(s[i]))
}

/// The outcome of ranking, as the evaluator holds it.
pub enum Chosen {
    Unique(usize),
    Ambiguous,
    NoMatch,
}

impl View for Chosen {
    type V = Selection;

    open spec fn view(&self) -> Selection {
        match self {
            Chosen::Unique(i) => Selection::Unique(*i as int),
            Chosen::Ambiguous => Selection::Ambiguous,
            Chosen::NoMatch => Selection::NoMatch,
        }
    }
}

fn prepend(first: EvalValue, rest: Vec<EvalValue>) -> (r: Vec<EvalValue>)
    ensures
        values_view(r@) == seq![first@] + values_view(rest@),
{
    let mut out = rest;
    out.insert(0, first);
    assert(values_view(out@) =~= seq![first@] + values_view(rest@));
    out
}

fn single(first: EvalValue) -> (r: Vec<EvalValue>)
    ensures
        values_view(r@) == seq![first@],
{
    let mut out: Vec<EvalValue> = Vec::new();
    out.push(first);
    assert(values_view(out@) =~= seq![first@]);
    out
}

fn clone_bindings(ctx: &Vec<Binding>) -> (r: Vec<Binding>)
    ensures
        bindings_view(r@) == bindings_view(ctx@),
{
    let mut out: Vec<Binding> = Vec::new();
    let mut i: usize = 0;
    while i < ctx.len()
        invariant
            i <= ctx.len(),
            out.len() == i,
            forall|k: int| 0 <= k < i ==> out@[k]@ == ctx@[k]@,
        decreases ctx.len() - i,
    {
        out.push(Binding { name: ctx[i].name.clone(), value: ctx[i].value.clone() });
        i = i + 1;
    }
    assert(bindings_view(out@) =~= bindings_view(ctx@));
    out
}

fn extend_bindings(ctx: &Vec<Binding>, name: &String, value: EvalValue) -> (r: Vec<Binding>)
    ensures
        bindings_view(r@) == bindings_view(ctx@).push(BindingView { name: name@, value: value@ }),
{
    let mut out = clone_bindings(ctx);
    out.push(Binding { name: name.clone(), value });
    assert(bindings_view(out@) =~= bindings_view(ctx@).push(
        BindingView { name: name@, value: value@ },
    ));
    out
}

fn bind_parameters(params: &Vec<ParameterWithGuard>, vals: &Vec<EvalValue>) -> (r: Vec<Binding>)
    requires
        params.len() == vals.len(),
    ensures
        bindings_view(r@) == bind(crate::ast::parameters_view(params@), values_view(vals@)),
{
    let mut out: Vec<Binding> = Vec::new();
    let mut i: usize = 0;
    while i < params.len()
        invariant
            i <= params.len(),
            params.len() == vals.len(),
            out.len() == i,
            forall|k: int|
                0 <= k < i ==> out@[k]@ == (BindingView {
                    name: params@[k].name@,
                    value: vals@[k]@,
                }),
        decreases params.len() - i,
    {
        out.push(Binding { name: params[i].name.clone(), value: vals[i].clone() });
        i = i + 1;
    }
    assert(bindings_view(out@) =~= bind(
        crate::ast::parameters_view(params@),
        values_view(vals@),
    ));
    out
}

fn is_applicable(f: &FunctionDeclaration, vals: &Vec<EvalValue>) -> (r: bool)
    ensures
        r == applicable(f@, runtime_types(values_view(vals@))),
{
    if f.parameters.len() != vals.len() {
        return false;
    }
    let ghost types = runtime_types(values_view(vals@));
    let mut k: usize = 0;
    while k < vals.len()
        invariant
            k <= vals.len(),
            f.parameters.len() == vals.len(),
            types == runtime_types(values_view(vals@)),
            forall|j: int| 0 <= j < k ==> accepts(#[trigger] f@.parameters[j].ty, types[j]),
        decreases vals.len() - k,
    {
        if !matches_type(&f.parameters[k].ty, &vals[k]) {
            assert(!accepts(f@.parameters[k as int].ty, types[k as int]));
            return false;
        }
        k = k + 1;
    }
    true
}

/// The specificity of an overload: 3 for each parameter of a specific type,
/// 1 for `Any`, 0 for `Unknown`, and 2 more for each guard.
pub fn calculate_function_specificity(func: &FunctionDeclaration) -> (r: u128)
    ensures
        r == specificity(func@),
{
    let ghost params = func@.parameters;
    let mut score: u128 = 0;
    let mut k: usize = 0;
    while k < func.parameters.len()
        invariant
            k <= func.parameters.len(),
            params == func@.parameters,
            params.len() == func.parameters.len(),
            score == specificity_upto(params, k as nat),
            score <= 5 * k,
        decreases func.parameters.len() - k,
    {
        let p = &func.parameters[k];
        let by_type: u128 = match p.ty {
            Type::Any => 1,
            Type::Unknown => 0,
            _ => 3,
        };
        let bonus: u128 = if p.guard.is_some() {
            2
        } else {
            0
        };
        assert(params[k as int] == p@);
        assert(by_type + bonus == parameter_score(p@));
        score = score + by_type + bonus;
        k = k + 1;
    }
    score
}

/// Ranks the survivors: the one overload with the highest score, or the
/// reason why there is none.
pub fn select_overload(scores: &Vec<Option<u128>>) -> (r: Chosen)
    ensures
        r@ == select(scores_view(scores@)),
{
    let ghost sv = scores_view(scores@);
    let mut best: Option<usize> = None;
    let mut best_score: u128 = 0;
    let mut tied: bool = false;
    let mut i: usize = 0;
    while i < scores.len()
        invariant
            i <= scores.len(),
            sv == scores_view(scores@),
            best is None ==> forall|j: int| 0 <= j < i ==> (#[trigger] sv[j]) is None,
            best matches Some(b) ==> {
                &&& b < i
                &&& sv[b as int] == Some(best_score as nat)
                &&& forall|j: int|
                    0 <= j < i && (#[trigger] sv[j]) is Some ==> sv[j]->0 <= best_score
                &&& tied ==> exists|j: int|
                    0 <= j < i && j != b && #[trigger] sv[j] == Some(best_score as nat)
                &&& !tied ==> forall|j: int|
                    0 <= j < i && j != b && (#[trigger] sv[j]) is Some ==> sv[j]->0 < best_score
            },
        decreases scores.len() - i,
    {
        match scores[i] {
            None => {},
            Some(s) => {
                assert(sv[i as int] == Some(s as nat));
                match best {
                    None => {
                        best = Some(i);
                        best_score = s;
                        tied = false;
                    },
                    Some(b) => {
                        if s > best_score {
                            best = Some(i);
                            best_score = s;
                            tied = false;
                        } else if s == best_score {
                            tied = true;
                        }
                    },
                }
            },
        }
        i = i + 1;
    }
    match best {
        None => Chosen::NoMatch,
        Some(b) => {
            assert(sv[b as int] is Some);
            if tied {
                assert forall|k: int| !is_unique_best(sv, k) by {
                    let j = choose|j: int|
                        0 <= j < sv.len() && j != b && #[trigger] sv[j] == Some(best_score as nat);
                    if is_unique_best(sv, k) {
                        if k == b {
                            assert(sv[j] is Some);
                        } else {
                            assert(sv[b as int] is Some);
                        }
                    }
                }
                Chosen::Ambiguous
            } else {
                assert(is_unique_best(sv, b as int));
                let ghost c = choose|k: int| is_unique_best(sv, k);
                assert(c == b) by {
                    if c != b {
                        assert(sv[b as int] is Some);
                        assert(sv[c] is Some);
                    }
                }
                Chosen::Unique(b)
            }
        },
    }
}

/// Evaluates an expression under the bindings `ctx`, against definitions
/// and a state that are held apart, with `fuel` nested calls allowed.
pub fn eval_expr(
    e: &Expression,
    ctx: &Vec<Binding>,
    defs: &Definitions,
    state: &mut RuntimeState,
    fuel: usize,
) -> (r: Result<EvalValue, ValidationError>)
    requires
        cache_sound(old(state).cache(), defs@),
    ensures
        ({
            let o = eval(e@, bindings_view(ctx@), defs@, old(state)@, fuel as nat);
            &&& value_result(r) == o.result
            &&& final(state)@ == o.store
            &&& cache_sound(final(state).cache(), defs@)
        }),
    decreases 8 * fuel + 2, e, 1nat,
{
    match e {
        Expression::Literal(l) => Ok(literal_to_value(l)),
        Expression::Identifier(name) => eval_identifier(name, ctx, defs),
        Expression::TypeLiteral(name) => Ok(EvalValue::Type(name.clone())),
        Expression::Binary(_, _, _) => eval_binary(e, ctx, defs, state, fuel),
        Expression::Unary(_, _) => eval_unary(e, ctx, defs, state, fuel),
        Expression::Comparison(_, _, _) => eval_comparison(e, ctx, defs, state, fuel),
        Expression::MemberAccess(_, _) => eval_member_access(e, ctx, defs, state, fuel),
        Expression::FunctionCall(_, _) => eval_function_call(e, ctx, defs, state, fuel),
        Expression::MethodCall(_, _, _) => eval_method_call(e, ctx, defs, state, fuel),
        Expression::Pipeline(_, _) => eval_pipeline(e, ctx, defs, state, fuel),
        Expression::Let(_, _, _) => eval_let(e, ctx, defs, state, fuel),
        Expression::Match(_, _) => eval_match(e, ctx, defs, state, fuel),
    }
}

fn eval_identifier(name: &String, ctx: &Vec<Binding>, defs: &Definitions) -> (r: Result<
    EvalValue,
    ValidationError,
>)
    ensures
        value_result(r) == identifier_result(name@, bindings_view(ctx@), defs@),
{
    match lookup_binding(ctx, name.as_str()) {
        Some(v) => Ok(v.clone()),
        None => {
            if defs.constructor(name.as_str()).is_some() {
                Ok(EvalValue::Type(name.clone()))
            } else {
                Err(ValidationError::named("Unknown identifier: ", name.as_str(), String::new()))
            }
        },
    }
}

fn eval_binary(
    e: &Expression,
    ctx: &Vec<Binding>,
    defs: &Definitions,
    state: &mut RuntimeState,
    fuel: usize,
) -> (r: Result<EvalValue, ValidationError>)
    requires
        e is Binary,
        cache_sound(old(state).cache(), defs@),
    ensures
        ({
            let o = eval(e@, bindings_view(ctx@), defs@, old(state)@, fuel as nat);
            &&& value_result(r) == o.result
            &&& final(state)@ == o.store
            &&& cache_sound(final(state).cache(), defs@)
        }),
    decreases 8 * fuel + 2, e, 0nat,
{
    match e {
        Expression::Binary(op, l, r) => {
            let x = match eval_expr(l, ctx, defs, state, fuel) {
                Ok(v) => v,
                Err(f) => {
                    return Err(f);
                },
            };
            let y = match eval_expr(r, ctx, defs, state, fuel) {
                Ok(v) => v,
                Err(f) => {
                    return Err(f);
                },
            };
            evaluate_binary_op(op, &x, &y)
        },
        _ => unreached(),
    }
}

fn eval_unary(
    e: &Expression,
    ctx: &Vec<Binding>,
    defs: &Definitions,
    state: &mut RuntimeState,
    fuel: usize,
) -> (r: Result<EvalValue, ValidationError>)
    requires
        e is Unary,
        cache_sound(old(state).cache(), defs@),
    ensures
        ({
            let o = eval(e@, bindings_view(ctx@), defs@, old(state)@, fuel as nat);
            &&& value_result(r) == o.result
            &&& final(state)@ == o.store
            &&& cache_sound(final(state).cache(), defs@)
        }),
    decreases 8 * fuel + 2, e, 0nat,
{
    match e {
        Expression::Unary(op, a) => {
            let x = match eval_expr(a, ctx, defs, state, fuel) {
                Ok(v) => v,
                Err(f) => {
                    return Err(f);
                },
            };
            evaluate_unary_op(op, &x)
        },
        _ => unreached(),
    }
}

fn eval_comparison(
    e: &Expression,
    ctx: &Vec<Binding>,
    defs: &Definitions,
    state: &mut RuntimeState,
    fuel: usize,
) -> (r: Result<EvalValue, ValidationError>)
    requires
        e is Comparison,
        cache_sound(old(state).cache(), defs@),
    ensures
        ({
            let o = eval(e@, bindings_view(ctx@), defs@, old(state)@, fuel as nat);
            &&& value_result(r) == o.result
            &&& final(state)@ == o.store
            &&& cache_sound(final(state).cache(), defs@)
        }),
    decreases 8 * fuel + 2, e, 0nat,
{
    match e {
        Expression::Comparison(op, l, r) => {
            let x = match eval_expr(l, ctx, defs, state, fuel) {
                Ok(v) => v,
                Err(f) => {
                    return Err(f);
                },
            };
            let y = match eval_expr(r, ctx, defs, state, fuel) {
                Ok(v) => v,
                Err(f) => {
                    return Err(f);
                },
            };
            evaluate_comparison(op, &x, &y)
        },
        _ => unreached(),
    }
}

fn eval_member_access(
    e: &Expression,
    ctx: &Vec<Binding>,
    defs: &Definitions,
    state: &mut RuntimeState,
    fuel: usize,
) -> (r: Result<EvalValue, ValidationError>)
    requires
        e is MemberAccess,
        cache_sound(old(state).cache(), defs@),
    ensures
        ({
            let o = eval(e@, bindings_view(ctx@), defs@, old(state)@, fuel as nat);
            &&& value_result(r) == o.result
            &&& final(state)@ == o.store
            &&& cache_sound(final(state).cache(), defs@)
        }),
    decreases 8 * fuel + 2, e, 0nat,
{
    match e {
        Expression::MemberAccess(obj, member) => {
            let x = match eval_expr(obj, ctx, defs, state, fuel) {
                Ok(v) => v,
                Err(f) => {
                    return Err(f);
                },
            };
            evaluate_member(&x, member.as_str())
        },
        _ => unreached(),
    }
}

fn eval_function_call(
    e: &Expression,
    ctx: &Vec<Binding>,
    defs: &Definitions,
    state: &mut RuntimeState,
    fuel: usize,
) -> (r: Result<EvalValue, ValidationError>)
    requires
        e is FunctionCall,
        cache_sound(old(state).cache(), defs@),
    ensures
        ({
            let o = eval(e@, bindings_view(ctx@), defs@, old(state)@, fuel as nat);
            &&& value_result(r) == o.result
            &&& final(state)@ == o.store
            &&& cache_sound(final(state).cache(), defs@)
        }),
    decreases 8 * fuel + 2, e, 0nat,
{
    match e {
        Expression::FunctionCall(name, args) => {
            let vals = match eval_arguments(args, ctx, defs, state, fuel) {
                Ok(v) => v,
                Err(f) => {
                    return Err(f);
                },
            };
            apply(name.as_str(), vals, defs, state, fuel)
        },
        _ => unreached(),
    }
}

fn eval_method_call(
    e: &Expression,
    ctx: &Vec<Binding>,
    defs: &Definitions,
    state: &mut RuntimeState,
    fuel: usize,
) -> (r: Result<EvalValue, ValidationError>)
    requires
        e is MethodCall,
        cache_sound(old(state).cache(), defs@),
    ensures
        ({
            let o = eval(e@, bindings_view(ctx@), defs@, old(state)@, fuel as nat);
            &&& value_result(r) == o.result
            &&& final(state)@ == o.store
            &&& cache_sound(final(state).cache(), defs@)
        }),
    decreases 8 * fuel + 2, e, 0nat,
{
    match e {
        Expression::MethodCall(obj, method, args) => {
            let receiver = match eval_expr(obj, ctx, defs, state, fuel) {
                Ok(v) => v,
                Err(f) => {
                    return Err(f);
                },
            };
            let set = defs.overloads(method.as_str());
            if set.len() > 0 {
                let vals = match eval_arguments(args, ctx, defs, state, fuel) {
                Ok(v) => v,
                Err(f) => {
                    return Err(f);
                },
            };
                apply(method.as_str(), prepend(receiver, vals), defs, state, fuel)
            } else {
                evaluate_builtin_method(&receiver, method.as_str(), args.len(), state)
            }
        },
        _ => unreached(),
    }
}

fn eval_pipeline(
    e: &Expression,
    ctx: &Vec<Binding>,
    defs: &Definitions,
    state: &mut RuntimeState,
    fuel: usize,
) -> (r: Result<EvalValue, ValidationError>)
    requires
        e is Pipeline,
        cache_sound(old(state).cache(), defs@),
    ensures
        ({
            let o = eval(e@, bindings_view(ctx@), defs@, old(state)@, fuel as nat);
            &&& value_result(r) == o.result
            &&& final(state)@ == o.store
            &&& cache_sound(final(state).cache(), defs@)
        }),
    decreases 8 * fuel + 2, e, 0nat,
{
    match e {
        Expression::Pipeline(l, r) => {
            let x = match eval_expr(l, ctx, defs, state, fuel) {
                Ok(v) => v,
                Err(f) => {
                    return Err(f);
                },
            };
            assert(r@ == crate::ast::expr_view(**r));
            match &**r {
                Expression::Identifier(name) => apply(name.as_str(), single(x), defs, state, fuel),
                Expression::FunctionCall(name, args) => {
                    let vals = match eval_arguments(args, ctx, defs, state, fuel) {
                Ok(v) => v,
                Err(f) => {
                    return Err(f);
                },
            };
                    apply(name.as_str(), prepend(x, vals), defs, state, fuel)
                },
                _ => Err(ValidationError::plain("Pipeline right side must be a function")),
            }
        },
        _ => unreached(),
    }
}

fn eval_let(
    e: &Expression,
    ctx: &Vec<Binding>,
    defs: &Definitions,
    state: &mut RuntimeState,
    fuel: usize,
) -> (r: Result<EvalValue, ValidationError>)
    requires
        e is Let,
        cache_sound(old(state).cache(), defs@),
    ensures
        ({
            let o = eval(e@, bindings_view(ctx@), defs@, old(state)@, fuel as nat);
            &&& value_result(r) == o.result
            &&& final(state)@ == o.store
            &&& cache_sound(final(state).cache(), defs@)
        }),
    decreases 8 * fuel + 2, e, 0nat,
{
    match e {
        Expression::Let(name, value, body) => {
            let x = match eval_expr(value, ctx, defs, state, fuel) {
                Ok(v) => v,
                Err(f) => {
                    return Err(f);
                },
            };
            let inner = extend_bindings(ctx, name, x);
            eval_expr(body, &inner, defs, state, fuel)
        },
        _ => unreached(),
    }
}

fn eval_match(
    e: &Expression,
    ctx: &Vec<Binding>,
    defs: &Definitions,
    state: &mut RuntimeState,
    fuel: usize,
) -> (r: Result<EvalValue, ValidationError>)
    requires
        e is Match,
        cache_sound(old(state).cache(), defs@),
    ensures
        ({
            let o = eval(e@, bindings_view(ctx@), defs@, old(state)@, fuel as nat);
            &&& value_result(r) == o.result
            &&& final(state)@ == o.store
            &&& cache_sound(final(state).cache(), defs@)
        }),
    decreases 8 * fuel + 2, e, 0nat,
{
    match e {
        Expression::Match(scrutinee, arms) => {
            let x = match eval_expr(scrutinee, ctx, defs, state, fuel) {
                Ok(v) => v,
                Err(f) => {
                    return Err(f);
                },
            };
            match x {
                EvalValue::Value(instance) => eval_match_arms(
                    arms,
                    &instance,
                    ctx,
                    defs,
                    state,
                    fuel,
                ),
                _ => Err(
                    ValidationError::plain("Match scrutinee is not an instance of a value type"),
                ),
            }
        },
        _ => unreached(),
    }
}

fn eval_arguments(
    args: &Vec<Expression>,
    ctx: &Vec<Binding>,
    defs: &Definitions,
    state: &mut RuntimeState,
    fuel: usize,
) -> (r: Result<Vec<EvalValue>, ValidationError>)
    requires
        cache_sound(old(state).cache(), defs@),
    ensures
        ({
            let o = eval_args(
                crate::ast::exprs_view(args@),
                args@.len(),
                bindings_view(ctx@),
                defs@,
                old(state)@,
                fuel as nat,
            );
            &&& values_result(r) == o.result
            &&& final(state)@ == o.store
            &&& cache_sound(final(state).cache(), defs@)
        }),
    decreases 8 * fuel + 2, args, 0nat,
{
    let ghost views = crate::ast::exprs_view(args@);
    let ghost start = state@;
    let mut vals: Vec<EvalValue> = Vec::new();
    let mut i: usize = 0;
    assert(values_view(vals@) =~= Seq::<ValueView>::empty());
    while i < args.len()
        invariant
            i <= args.len(),
            views == crate::ast::exprs_view(args@),
            start == old(state)@,
            cache_sound(state.cache(), defs@),
            eval_args(views, i as nat, bindings_view(ctx@), defs@, start, fuel as nat) == (Outcome {
                result: Ok(values_view(vals@)),
                store: state@,
            }),
        decreases args.len() - i,
    {
        let ghost before = values_view(vals@);
        assert(views[i as int] == args@[i as int]@);
        match eval_expr(&args[i], ctx, defs, state, fuel) {
            Ok(v) => {
                vals.push(v);
                assert(values_view(vals@) =~= before.push(v@));
            },
            Err(f) => {
                proof {
                    assert(eval_args(
                        views,
                        (i + 1) as nat,
                        bindings_view(ctx@),
                        defs@,
                        start,
                        fuel as nat,
                    ).result is Err);
                    lemma_args_fault_sticks(
                        views,
                        (i + 1) as nat,
                        args@.len(),
                        bindings_view(ctx@),
                        defs@,
                        start,
                        fuel as nat,
                    );
                }
                return Err(f);
            },
        }
        i = i + 1;
    }
    Ok(vals)
}

fn eval_match_arms(
    arms: &Vec<MatchArm>,
    instance: &Instance,
    ctx: &Vec<Binding>,
    defs: &Definitions,
    state: &mut RuntimeState,
    fuel: usize,
) -> (r: Result<EvalValue, ValidationError>)
    requires
        cache_sound(old(state).cache(), defs@),
    ensures
        ({
            let o = eval_arms(
                crate::ast::arms_view(arms@),
                0,
                instance@,
                bindings_view(ctx@),
                defs@,
                old(state)@,
                fuel as nat,
            );
            &&& value_result(r) == o.result
            &&& final(state)@ == o.store
            &&& cache_sound(final(state).cache(), defs@)
        }),
    decreases 8 * fuel + 2, arms, 0nat,
{
    let ghost views = crate::ast::arms_view(arms@);
    let mut k: usize = 0;
    while k < arms.len()
        invariant
            k <= arms.len(),
            views == crate::ast::arms_view(arms@),
            state@ == old(state)@,
            cache_sound(state.cache(), defs@),
            eval_arms(views, 0, instance@, bindings_view(ctx@), defs@, state@, fuel as nat)
                == eval_arms(
                views,
                k as nat,
                instance@,
                bindings_view(ctx@),
                defs@,
                state@,
                fuel as nat,
            ),
        decreases arms.len() - k,
    {
        let arm = &arms[k];
        assert(views[k as int] == arm@);
        match &arm.pattern {
            Pattern::Constructor(constructor, binding) => {
                if crate::text::str_equal(constructor.as_str(), instance.value_type.as_str()) {
                    let inner = extend_bindings(
                        ctx,
                        binding,
                        primitive_to_value(&instance.payload),
                    );
                    return eval_expr(&arm.body, &inner, defs, state, fuel);
                }
            },
        }
        k = k + 1;
    }
    Err(
        ValidationError::named(
            "Non-exhaustive match: no arm for ",
            instance.value_type.as_str(),
            instance.value_type.clone(),
        ),
    )
}

fn apply(
    name: &str,
    vals: Vec<EvalValue>,
    defs: &Definitions,
    state: &mut RuntimeState,
    fuel: usize,
) -> (r: Result<EvalValue, ValidationError>)
    requires
        cache_sound(old(state).cache(), defs@),
    ensures
        ({
            let o = apply_call(name@, values_view(vals@), defs@, old(state)@, fuel as nat);
            &&& value_result(r) == o.result
            &&& final(state)@ == o.store
            &&& cache_sound(final(state).cache(), defs@)
        }),
    decreases 8 * fuel + 1, vals, 0nat,
{
    if defs.constructor(name).is_some() {
        if vals.len() != 1 {
            return Err(
                ValidationError::named(
                    "Value constructor expects exactly one argument: ",
                    name,
                    String::from_str(name),
                ),
            );
        }
        assert(values_view(vals@)[0] == vals@[0]@);
        match value_to_primitive(&vals[0]) {
            None => Err(
                ValidationError::named(
                    "Value constructor expects a primitive argument: ",
                    name,
                    String::from_str(name),
                ),
            ),
            Some(payload) => {
                if fuel == 0 {
                    return Err(ValidationError::plain("Evaluation depth exceeded"));
                }
                match construct_value(name, payload, defs, state, fuel - 1) {
                    Ok(instance) => Ok(EvalValue::Value(instance)),
                    Err(f) => Err(f),
                }
            },
        }
    } else {
        if vals.len() == 1 {
            assert(values_view(vals@)[0] == vals@[0]@);
            match &vals[0] {
                EvalValue::Type(t) => {
                    if crate::text::str_equal(name, "all") {
                        return Ok(all_instances(state, t));
                    }
                    if crate::text::str_equal(name, "count") {
                        return length_to_value(state.count_of(t.as_str()));
                    }
                },
                _ => {},
            }
        }
        let set = defs.overloads(name);
        if set.len() > 0 {
            if fuel == 0 {
                return Err(ValidationError::plain("Evaluation depth exceeded"));
            }
            assert(decls_view(set@) =~= defs@.overloads(name@));
            dispatch_function(name, &set, &vals, defs, state, fuel - 1)
        } else {
            Err(ValidationError::named("Unknown function: ", name, String::from_str("function")))
        }
    }
}

fn check_guards(
    params: &Vec<ParameterWithGuard>,
    ctx: &Vec<Binding>,
    defs: &Definitions,
    state: &mut RuntimeState,
    fuel: usize,
) -> (r: bool)
    requires
        cache_sound(old(state).cache(), defs@),
    ensures
        guards_hold(
            crate::ast::parameters_view(params@),
            params@.len(),
            bindings_view(ctx@),
            defs@,
            old(state)@,
            fuel as nat,
        ) == (GuardOutcome { holds: r, store: final(state)@ }),
        cache_sound(final(state).cache(), defs@),
    decreases 8 * fuel + 4, params, 0nat,
{
    let ghost views = crate::ast::parameters_view(params@);
    let ghost start = state@;
    let mut k: usize = 0;
    while k < params.len()
        invariant
            k <= params.len(),
            views == crate::ast::parameters_view(params@),
            start == old(state)@,
            cache_sound(state.cache(), defs@),
            guards_hold(views, k as nat, bindings_view(ctx@), defs@, start, fuel as nat) == (
            GuardOutcome { holds: true, store: state@ }),
        decreases params.len() - k,
    {
        assert(views[k as int] == params@[k as int]@);
        match &params[k].guard {
            None => {},
            Some(g) => {
                let holds = match eval_expr(g, ctx, defs, state, fuel) {
                    Ok(EvalValue::Boolean(b)) => b,
                    _ => false,
                };
                if !holds {
                    proof {
                        assert(!guards_hold(
                            views,
                            (k + 1) as nat,
                            bindings_view(ctx@),
                            defs@,
                            start,
                            fuel as nat,
                        ).holds);
                        lemma_guard_failure_sticks(
                            views,
                            (k + 1) as nat,
                            params@.len(),
                            bindings_view(ctx@),
                            defs@,
                            start,
                            fuel as nat,
                        );
                    }
                    return false;
                }
            },
        }
        k = k + 1;
    }
    true
}

fn is_reserved(name: &str) -> (r: bool)
    ensures
        r == reserved(name@),
{
    crate::text::str_equal(name, "String") || crate::text::str_equal(name, "Int")
        || crate::text::str_equal(name, "Bool") || crate::text::str_equal(name, "Type")
        || crate::text::str_equal(name, "List")
}

fn arguments_cacheable(vals: &Vec<EvalValue>) -> (r: bool)
    ensures
        r == cacheable(values_view(vals@)),
{
    let mut k: usize = 0;
    while k < vals.len()
        invariant
            k <= vals.len(),
            forall|j: int|
                0 <= j < k ==> !((#[trigger] values_view(vals@)[j]) is Value && reserved(
                    values_view(vals@)[j]->Value_0.value_type,
                )),
        decreases vals.len() - k,
    {
        assert(values_view(vals@)[k as int] == vals@[k as int]@);
        match &vals[k] {
            EvalValue::Value(instance) => {
                if is_reserved(instance.value_type.as_str()) {
                    return false;
                }
            },
            _ => {},
        }
        k = k + 1;
    }
    true
}

fn all_unguarded(functions: &Vec<&FunctionDeclaration>) -> (r: bool)
    ensures
        r == unguarded(decls_view(functions@)),
{
    let ghost fs = decls_view(functions@);
    let mut i: usize = 0;
    while i < functions.len()
        invariant
            i <= functions.len(),
            fs == decls_view(functions@),
            forall|a: int, k: int|
                0 <= a < i && 0 <= k < fs[a].parameters.len() ==> (
                #[trigger] fs[a].parameters[k]).guard is None,
        decreases functions.len() - i,
    {
        let f = functions[i];
        assert(fs[i as int] == f@);
        let mut k: usize = 0;
        while k < f.parameters.len()
            invariant
                k <= f.parameters.len(),
                i < functions.len(),
                fs == decls_view(functions@),
                fs[i as int] == f@,
                forall|j: int|
                    0 <= j < k ==> (#[trigger] fs[i as int].parameters[j]).guard is None,
            decreases f.parameters.len() - k,
        {
            assert(fs[i as int].parameters[k as int] == f.parameters@[k as int]@);
            if f.parameters[k].guard.is_some() {
                return false;
            }
            k = k + 1;
        }
        i = i + 1;
    }
    true
}

/// The cache key of a call: the function's name and the signature of each
/// argument.
pub fn create_dispatch_key(name: &str, arg_values: &Vec<EvalValue>) -> (r: DispatchKey)
    ensures
        r.function_name@ == name@,
        crate::value::strings_view(r.arg_type_signatures@) == signatures(values_view(arg_values@)),
{
    let mut sigs: Vec<String> = Vec::new();
    let mut i: usize = 0;
    while i < arg_values.len()
        invariant
            i <= arg_values.len(),
            sigs.len() == i,
            forall|k: int|
                0 <= k < i ==> sigs@[k]@ == signature(runtime_type(arg_values@[k]@)),
        decreases arg_values.len() - i,
    {
        sigs.push(get_value_type_signature(&arg_values[i]));
        i = i + 1;
    }
    assert(crate::value::strings_view(sigs@) =~= signatures(values_view(arg_values@)));
    DispatchKey { function_name: String::from_str(name), arg_type_signatures: sigs }
}

/// Multiple dispatch of a call among the overloads `functions` of `name`.
/// Decisions for unguarded overload sets are remembered by the signatures
/// of the arguments and reused.
pub fn dispatch_function(
    name: &str,
    functions: &Vec<&FunctionDeclaration>,
    arg_values: &Vec<EvalValue>,
    defs: &Definitions,
    state: &mut RuntimeState,
    fuel: usize,
) -> (r: Result<EvalValue, ValidationError>)
    requires
        cache_sound(old(state).cache(), defs@),
        decls_view(functions@) == defs@.overloads(name@),
    ensures
        ({
            let o = dispatch(
                name@,
                decls_view(functions@),
                values_view(arg_values@),
                defs@,
                old(state)@,
                fuel as nat,
            );
            &&& value_result(r) == o.result
            &&& final(state)@ == o.store
            &&& cache_sound(final(state).cache(), defs@)
        }),
    decreases 8 * fuel + 6, functions, 0nat,
{
    let ghost fs = decls_view(functions@);
    let ghost vals = values_view(arg_values@);
    let ghost types = runtime_types(vals);
    let ghost start = state@;
    let key: Option<DispatchKey> = if arguments_cacheable(arg_values) {
        Some(create_dispatch_key(name, arg_values))
    } else {
        None
    };
    match &key {
        Some(k) => {
            match state.cached_target(k) {
                Some(target) => {
                    proof {
                        crate::value::lemma_recalled_is_remembered(
                            state.cache(),
                            0,
                            name@,
                            signatures(vals),
                        );
                        lemma_cache_consistent(fs, vals, defs@, start, fuel as nat);
                        let scores = signature_scores(fs, signatures(vals));
                        assert(select(scores) == Selection::Unique(target as int));
                        assert(is_unique_best(scores, target as int));
                        lemma_applicable_by_signature(fs[target as int], vals);
                    }
                    let f = functions[target];
                    assert(fs[target as int] == f@);
                    let bound = bind_parameters(&f.parameters, arg_values);
                    return eval_expr(&f.body, &bound, defs, state, fuel);
                },
                None => {},
            }
        },
        None => {},
    }
    let mut scores: Vec<Option<u128>> = Vec::new();
    let mut i: usize = 0;
    while i < functions.len()
        invariant
            i <= functions.len(),
            fs == decls_view(functions@),
            vals == values_view(arg_values@),
            types == runtime_types(vals),
            start == old(state)@,
            cache_sound(state.cache(), defs@),
            scores.len() == i,
            survivors(fs, i as nat, vals, defs@, start, fuel as nat).store == state@,
            survivors(fs, i as nat, vals, defs@, start, fuel as nat).passes.len() == i,
            forall|j: int|
                0 <= j < i ==> score_view(#[trigger] scores@[j]) == (if applicable(fs[j], types)
                    && survivors(fs, i as nat, vals, defs@, start, fuel as nat).passes[j] {
                    Some(specificity(fs[j]))
                } else {
                    None
                }),
        decreases functions.len() - i,
    {
        let f = functions[i];
        assert(fs[i as int] == f@);
        let ghost before = survivors(fs, i as nat, vals, defs@, start, fuel as nat);
        let mut score: Option<u128> = None;
        if is_applicable(f, arg_values) {
            let bound = bind_parameters(&f.parameters, arg_values);
            if check_guards(&f.parameters, &bound, defs, state, fuel) {
                score = Some(calculate_function_specificity(f));
            }
        }
        scores.push(score);
        proof {
            let after = survivors(fs, (i + 1) as nat, vals, defs@, start, fuel as nat);
            assert(after.passes.len() == i + 1);
            assert forall|j: int| 0 <= j < i + 1 implies score_view(#[trigger] scores@[j]) == (
            if applicable(fs[j], types) && after.passes[j] {
                Some(specificity(fs[j]))
            } else {
                None
            }) by {
                if j < i {
                    assert(after.passes[j] == before.passes[j]);
                }
            }
        }
        i = i + 1;
    }
    let ghost s = survivors(fs, fs.len(), vals, defs@, start, fuel as nat);
    assert(scores_view(scores@) =~= survivor_scores(fs, types, s.passes));
    match select_overload(&scores) {
        Chosen::Unique(best) => {
            assert(is_unique_best(scores_view(scores@), best as int));
            let f = functions[best];
            assert(fs[best as int] == f@);
            assert(applicable(f@, types));
            match key {
                Some(k) => {
                    if all_unguarded(functions) {
                        proof {
                            lemma_cache_consistent(fs, vals, defs@, start, fuel as nat);
                        }
                        state.remember_target(k, best);
                    }
                },
                None => {},
            }
            let bound = bind_parameters(&f.parameters, arg_values);
            eval_expr(&f.body, &bound, defs, state, fuel)
        },
        Chosen::Ambiguous => {
            let mut message = String::from_str("Ambiguous call '");
            message.append(name);
            message.append("'");
            Err(ValidationError { message, value_type: String::from_str("function") })
        },
        Chosen::NoMatch => Err(
            ValidationError::named(
                "No overload applies to the arguments of ",
                name,
                String::from_str("function"),
            ),
        ),
    }
}

/// Constructs a value of the named type from a payload and registers it.
pub fn construct_value(
    value_type: &str,
    payload: Primitive,
    defs: &Definitions,
    state: &mut RuntimeState,
    fuel: usize,
) -> (r: Result<Instance, ValidationError>)
    requires
        cache_sound(old(state).cache(), defs@),
    ensures
        ({
            let o = construct(value_type@, payload@, defs@, old(state)@, fuel as nat);
            &&& match r {
                Ok(instance) => o.result == Ok::<InstanceView, Fault>(instance@),
                Err(e) => o.result == Err::<InstanceView, Fault>(e@),
            }
            &&& final(state)@ == o.store
            &&& cache_sound(final(state).cache(), defs@)
        }),
    decreases 8 * fuel + 4, payload, 0nat,
{
    let constructor = match defs.constructor(value_type) {
        None => {
            return Err(
                ValidationError::named(
                    "Unknown value type: ",
                    value_type,
                    String::from_str(value_type),
                ),
            );
        },
        Some(c) => c,
    };
    let decl = &constructor.declaration;
    let normal: Primitive = match &decl.body.normalize {
        None => payload,
        Some(e) => {
            let mut ctx: Vec<Binding> = Vec::new();
            ctx.push(
                Binding { name: decl.parameter.name.clone(), value: primitive_to_value(&payload) },
            );
            assert(bindings_view(ctx@) =~= seq![
                BindingView { name: decl@.parameter.name, value: primitive_value(payload@) },
            ]);
            match eval_expr(e, &ctx, defs, state, fuel) {
                Err(f) => {
                    return Err(f);
                },
                Ok(v) => match value_to_primitive(&v) {
                    Some(p) => p,
                    None => {
                        return Err(
                            ValidationError::named(
                                "Normalizer did not yield a primitive value for ",
                                decl.name.as_str(),
                                decl.name.clone(),
                            ),
                        );
                    },
                },
            }
        },
    };
    match &decl.body.validate {
        None => {},
        Some(e) => {
            let mut ctx: Vec<Binding> = Vec::new();
            ctx.push(
                Binding { name: decl.parameter.name.clone(), value: primitive_to_value(&normal) },
            );
            assert(bindings_view(ctx@) =~= seq![
                BindingView { name: decl@.parameter.name, value: primitive_value(normal@) },
            ]);
            match eval_expr(e, &ctx, defs, state, fuel) {
                Ok(EvalValue::Boolean(true)) => {},
                Ok(_) => {
                    return Err(
                        ValidationError {
                            message: String::from_str("Validation failed"),
                            value_type: String::from_str(value_type),
                        },
                    );
                },
                Err(f) => {
                    return Err(
                        ValidationError {
                            message: f.message,
                            value_type: String::from_str(value_type),
                        },
                    );
                },
            }
        },
    }
    let unique = match decl.body.unique {
        Some(true) => true,
        _ => false,
    };
    if unique && state.holds_payload(value_type, &normal) {
        return Err(
            ValidationError::named(
                "Duplicate value for unique type ",
                value_type,
                String::from_str(value_type),
            ),
        );
    }
    let instance = Instance {
        value_type: String::from_str(value_type),
        field: decl.parameter.name.clone(),
        payload: normal,
    };
    state.add_instance(instance.clone());
    Ok(instance)
}

/// The mathematical content of a public evaluation result.
pub open spec fn public_result(r: Result<EvalValue, Error>) -> Result<ValueView, ErrorView> {
    match r {
        Ok(v) => Ok(v@),
        Err(e) => Err(e@),
    }
}

/// Evaluates an expression against a registry, with the names of `context`
/// bound: the value or the validation error that [`eval`] gives with
/// [`MAX_CALL_DEPTH`] nested calls allowed, and the registry with the
/// instances that the evaluation constructed.
pub fn evaluate_expression(
    expr: &Expression,
    context: &Vec<Binding>,
    registry: &mut crate::value::ValueRegistry,
) -> (r: Result<EvalValue, Error>)
    requires
        old(registry).wf(),
    ensures
        final(registry).wf(),
        final(registry)@.definitions == old(registry)@.definitions,
        ({
            let o = eval(
                expr@,
                bindings_view(context@),
                old(registry)@.definitions,
                old(registry)@.instances,
                MAX_CALL_DEPTH as nat,
            );
            &&& public_result(r) == reported(o.result)
            &&& final(registry)@.instances == o.store
        }),
{
    registry.evaluate(expr, context)
}

} // verus!
