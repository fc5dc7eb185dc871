//! Specialization of call sites ahead of evaluation: where the static
//! types of the arguments single out one overload, the choice is
//! remembered. Specializations are advice; dispatch decides.

use crate::ast::{
    BinaryOp, Expression, ExprView, FunctionDeclaration, FunctionDeclView, GuardedParameterView,
    Literal, UnaryOp,
};
use crate::evaluator::{Chosen, decls_view, score_view, scores_view, select_overload};
use crate::semantics::{select, Selection};
use crate::text::str_equal;
use crate::typechecker::{Local, locals_view};
use crate::typing::{literal_type, local_type, LocalView};
use crate::types::{clone_type, Type, type_equals, types_view, TypeView};
use crate::value::{DefinitionsView, ValueRegistry};
use vstd::prelude::*;
use vstd::string::*;

verus! {

/// A call site that was specialized: for this function and these static
/// argument types the overload at index `target_function` was chosen.
#[derive(Debug)]
pub struct SpecializedCall {
    pub function_name: String,
    pub arg_types: Vec<Type>,
    pub target_function: usize,
}

/// The mathematical content of a [`SpecializedCall`].
pub struct SpecializedCallView {
    pub function_name: Seq<char>,
    pub arg_types: Seq<TypeView>,
    pub target_function: int,
}

impl View for SpecializedCall {
    type V = SpecializedCallView;

    open spec fn view(&self) -> SpecializedCallView {
        SpecializedCallView {
            function_name: self.function_name@,
            arg_types: types_view(self.arg_types@),
            target_function: self.target_function as int,
        }
    }
}

/// The target remembered last for a function and argument types, if any.
pub open spec fn remembered(
    entries: Seq<SpecializedCallView>,
    name: Seq<char>,
    types: Seq<TypeView>,
) -> Option<int>
    decreases entries.len(),
{
    if entries.len() == 0 {
        None
    } else if entries.last().function_name == name && entries.last().arg_types == types {
        Some(entries.last().target_function)
    } else {
        remembered(entries.drop_last(), name, types)
    }
}

/// Whether an argument of static type `arg` can be passed to a parameter
/// of type `param`: `Any` takes everything, a primitive or value type
/// takes itself, and an unknown type on either side is compatible.
pub open spec fn compatible(param: TypeView, arg: TypeView) -> bool {
    match (param, arg) {
        (TypeView::Any, _) => true,
        (TypeView::Int, TypeView::Int) => true,
        (TypeView::String, TypeView::String) => true,
        (TypeView::Bool, TypeView::Bool) => true,
        (TypeView::Value(a), TypeView::Value(b)) => a == b,
        (_, TypeView::Unknown) => true,
        (TypeView::Unknown, _) => true,
        _ => false,
    }
}

/// The specificity of a parameter type: 3 for a specific type, 1 for
/// `Any`, 0 for `Unknown`.
pub open spec fn specificity_of(ty: TypeView) -> nat {
    match ty {
        TypeView::Any => 1,
        TypeView::Unknown => 0,
        _ => 3,
    }
}

/// The static score of the first `n` parameters: their specificities, and
/// 1 more for each guard.
pub open spec fn static_score_upto(params: Seq<GuardedParameterView>, n: nat) -> nat
    decreases n,
{
    if n == 0 {
        0
    } else {
        static_score_upto(params, (n - 1) as nat) + specificity_of(params[n - 1].ty) + (
        if params[n - 1].guard is Some {
            1nat
        } else {
            0nat
        })
    }
}

/// Every parameter is compatible with its argument type.
pub open spec fn statically_applicable(f: FunctionDeclView, types: Seq<TypeView>) -> bool {
    &&& f.parameters.len() == types.len()
    &&& forall|k: int| 0 <= k < types.len() ==> compatible(#[trigger] f.parameters[k].ty, types[k])
}

/// The static score of an overload for arguments of the given static
/// types, if it is applicable to them.
pub open spec fn static_score_of(f: FunctionDeclView, types: Seq<TypeView>) -> Option<nat> {
    if statically_applicable(f, types) {
        Some(static_score_upto(f.parameters, f.parameters.len()))
    } else {
        None
    }
}

/// The static scores of the overloads of a set.
pub open spec fn static_scores(fs: Seq<FunctionDeclView>, types: Seq<TypeView>) -> Seq<
    Option<nat>,
> {
    Seq::new(fs.len(), |i: int| static_score_of(fs[i], types))
}

/// The overload that static types single out: the only overload of the
/// set, or else the one applicable overload with the highest static score.
pub open spec fn specialized_target(fs: Seq<FunctionDeclView>, types: Seq<TypeView>) -> Option<
    int,
> {
    if fs.len() == 0 {
        None
    } else if fs.len() == 1 {
        Some(0)
    } else {
        match select(static_scores(fs, types)) {
            Selection::Unique(i) => Some(i),
            _ => None,
        }
    }
}

/// What an attempt to specialize yields: the target that is remembered
/// already, or else the target that static types single out.
pub open spec fn specialization(
    entries: Seq<SpecializedCallView>,
    fs: Seq<FunctionDeclView>,
    name: Seq<char>,
    types: Seq<TypeView>,
) -> Option<int> {
    match remembered(entries, name, types) {
        Some(t) => Some(t),
        None => specialized_target(fs, types),
    }
}

/// The entries after an attempt to specialize: a fresh target is
/// remembered.
pub open spec fn after_specialization(
    entries: Seq<SpecializedCallView>,
    fs: Seq<FunctionDeclView>,
    name: Seq<char>,
    types: Seq<TypeView>,
) -> Seq<SpecializedCallView> {
    match remembered(entries, name, types) {
        Some(_) => entries,
        None => match specialized_target(fs, types) {
            Some(t) => entries.push(
                SpecializedCallView { function_name: name, arg_types: types, target_function: t },
            ),
            None => entries,
        },
    }
}

/// Whether an argument of static type `arg_type` can be passed to a
/// parameter of type `param_type`.
pub fn types_compatible(param_type: &Type, arg_type: &Type) -> (r: bool)
    ensures
        r == compatible(param_type@, arg_type@),
{
    match param_type {
        Type::Any => true,
        Type::Int => match arg_type {
            Type::Int => true,
            Type::Unknown => true,
            _ => false,
        },
        Type::String => match arg_type {
            Type::String => true,
            Type::Unknown => true,
            _ => false,
        },
        Type::Bool => match arg_type {
            Type::Bool => true,
            Type::Unknown => true,
            _ => false,
        },
        Type::Value(a) => match arg_type {
            Type::Value(b) => str_equal(a.as_str(), b.as_str()),
            Type::Unknown => true,
            _ => false,
        },
        Type::Unknown => true,
        _ => match arg_type {
            Type::Unknown => true,
            _ => false,
        },
    }
}

/// The specificity of a parameter type.
pub fn type_specificity(ty: &Type) -> (r: u32)
    ensures
        r == specificity_of(ty@),
{
    match ty {
        Type::Any => 1,
        Type::Unknown => 0,
        _ => 3,
    }
}

fn slice_types_equal(a: &Vec<Type>, b: &[Type]) -> (r: bool)
    ensures
        r == (types_view(a@) == types_view(b@)),
{
    if a.len() != b.len() {
        assert(types_view(a@).len() != types_view(b@).len());
        return false;
    }
    let mut i: usize = 0;
    while i < a.len()
        invariant
            i <= a.len(),
            a.len() == b.len(),
            forall|k: int| 0 <= k < i ==> a@[k]@ == b@[k]@,
        decreases a.len() - i,
    {
        if !type_equals(&a[i], &b[i]) {
            assert(types_view(a@)[i as int] != types_view(b@)[i as int]);
            return false;
        }
        i = i + 1;
    }
    assert(types_view(a@) =~= types_view(b@));
    true
}

fn copy_types(types: &[Type]) -> (r: Vec<Type>)
    ensures
        types_view(r@) == types_view(types@),
{
    let mut out: Vec<Type> = Vec::new();
    let mut i: usize = 0;
    while i < types.len()
        invariant
            i <= types.len(),
            out.len() == i,
            forall|k: int| 0 <= k < i ==> out@[k]@ == types@[k]@,
        decreases types.len() - i,
    {
        out.push(clone_type(&types[i]));
        i = i + 1;
    }
    assert(types_view(out@) =~= types_view(types@));
    out
}

fn static_score(f: &FunctionDeclaration, types: &[Type]) -> (r: Option<u128>)
    ensures
        score_view(r) == static_score_of(f@, types_view(types@)),
{
    let ghost tv = types_view(types@);
    if f.parameters.len() != types.len() {
        return None;
    }
    let ghost params = f@.parameters;
    let mut score: u128 = 0;
    let mut k: usize = 0;
    while k < types.len()
        invariant
            k <= types.len(),
            f.parameters.len() == types.len(),
            params == f@.parameters,
            tv == types_view(types@),
            forall|j: int| 0 <= j < k ==> compatible(#[trigger] params[j].ty, tv[j]),
            score == static_score_upto(params, k as nat),
            score <= 4 * k,
        decreases types.len() - k,
    {
        let p = &f.parameters[k];
        assert(params[k as int] == p@);
        assert(tv[k as int] == types@[k as int]@);
        if !types_compatible(&p.ty, &types[k]) {
            assert(!compatible(params[k as int].ty, tv[k as int]));
            return None;
        }
        let bonus: u128 = if p.guard.is_some() {
            1
        } else {
            0
        };
        score = score + (type_specificity(&p.ty) as u128) + bonus;
        k = k + 1;
    }
    Some(score)
}

/// The specializations found so far.
pub struct SpecializationCache {
    cache: Vec<SpecializedCall>,
}

impl View for SpecializationCache {
    type V = Seq<SpecializedCallView>;

    closed spec fn view(&self) -> Seq<SpecializedCallView> {
        Seq::new(self.cache@.len(), |i: int| self.cache@[i]@)
    }
}

impl SpecializationCache {
    /// No specializations.
    pub fn new() -> (r: SpecializationCache)
        ensures
            r@ == Seq::<SpecializedCallView>::empty(),
    {
        let r = SpecializationCache { cache: Vec::new() };
        assert(r@ =~= Seq::<SpecializedCallView>::empty());
        r
    }

    /// The target remembered for a function and argument types, if any.
    pub fn get_specialization(&self, function_name: &str, arg_types: &[Type]) -> (r: Option<
        usize,
    >)
        ensures
            match r {
                Some(t) => remembered(self@, function_name@, types_view(arg_types@)) == Some(
                    t as int,
                ),
                None => remembered(self@, function_name@, types_view(arg_types@)) is None,
            },
    {
        let ghost entries = self@;
        let mut i: usize = self.cache.len();
        assert(entries.take(i as int) =~= entries);
        while i > 0
            invariant
                i <= self.cache.len(),
                entries == self@,
                remembered(entries, function_name@, types_view(arg_types@)) == remembered(
                    entries.take(i as int),
                    function_name@,
                    types_view(arg_types@),
                ),
            decreases i,
        {
            let entry = &self.cache[i - 1];
            assert(entries.take(i as int).last() == entries[i - 1]);
            assert(entries.take(i as int).drop_last() =~= entries.take(i - 1));
            if str_equal(entry.function_name.as_str(), function_name) && slice_types_equal(
                &entry.arg_types,
                arg_types,
            ) {
                return Some(entry.target_function);
            }
            i = i - 1;
        }
        None
    }

    /// Specializes a call of `function_name` on arguments of the given
    /// static types: the target that is remembered already, or else the
    /// target that the static types single out among the registered
    /// overloads, which is then remembered.
    pub fn try_specialize(
        &mut self,
        function_name: &str,
        arg_types: &[Type],
        registry: &ValueRegistry,
    ) -> (r: Option<SpecializedCall>)
        ensures
            ({
                let fs = registry@.definitions.overloads(function_name@);
                let types = types_view(arg_types@);
                &&& final(self)@ == after_specialization(old(self)@, fs, function_name@, types)
                &&& match specialization(old(self)@, fs, function_name@, types) {
                    Some(t) => r matches Some(call) && call@ == (SpecializedCallView {
                        function_name: function_name@,
                        arg_types: types,
                        target_function: t,
                    }),
                    None => r is None,
                }
            }),
    {
        match self.get_specialization(function_name, arg_types) {
            Some(target) => {
                return Some(
                    SpecializedCall {
                        function_name: String::from_str(function_name),
                        arg_types: copy_types(arg_types),
                        target_function: target,
                    },
                );
            },
            None => {},
        }
        let functions = match registry.get_functions(function_name) {
            None => {
                return None;
            },
            Some(fs) => fs,
        };
        let ghost fs = decls_view(functions@);
        let ghost types = types_view(arg_types@);
        let target: usize = if functions.len() == 1 {
            0
        } else {
            let mut scores: Vec<Option<u128>> = Vec::new();
            let mut i: usize = 0;
            while i < functions.len()
                invariant
                    i <= functions.len(),
                    fs == decls_view(functions@),
                    types == types_view(arg_types@),
                    scores.len() == i,
                    forall|j: int|
                        0 <= j < i ==> score_view(#[trigger] scores@[j]) == static_scores(
                            fs,
                            types,
                        )[j],
                decreases functions.len() - i,
            {
                let f = functions[i];
                assert(fs[i as int] == f@);
                let s = static_score(f, arg_types);
                scores.push(s);
                i = i + 1;
            }
            assert(scores_view(scores@) =~= static_scores(fs, types));
            match select_overload(&scores) {
                Chosen::Unique(best) => best,
                _ => {
                    return None;
                },
            }
        };
        self.cache.push(
            SpecializedCall {
                function_name: String::from_str(function_name),
                arg_types: copy_types(arg_types),
                target_function: target,
            },
        );
        assert(self@ =~= old(self)@.push(
            SpecializedCallView {
                function_name: function_name@,
                arg_types: types,
                target_function: target as int,
            },
        ));
        Some(
            SpecializedCall {
                function_name: String::from_str(function_name),
                arg_types: copy_types(arg_types),
                target_function: target,
            },
        )
    }
}

/// The static type of an expression as far as its shape shows it:
/// literals, typed identifiers, operators and type literals have one,
/// everything else is `Unknown`.
pub open spec fn inferred(e: ExprView, env: Seq<LocalView>) -> TypeView {
    match e {
        ExprView::Literal(l) => literal_type(l),
        ExprView::Identifier(name) => match local_type(env, name) {
            Some(t) => t,
            None => TypeView::Unknown,
        },
        ExprView::Binary(op, _, _) => match op {
            BinaryOp::And | BinaryOp::Or => TypeView::Bool,
            _ => TypeView::Int,
        },
        ExprView::Unary(op, _) => match op {
            UnaryOp::Not => TypeView::Bool,
            UnaryOp::Minus => TypeView::Int,
        },
        ExprView::Comparison(_, _, _) => TypeView::Bool,
        ExprView::TypeLiteral(_) => TypeView::Type,
        _ => TypeView::Unknown,
    }
}

/// The static type of an expression as far as its shape shows it.
pub fn infer_expression_type(expr: &Expression, type_env: &Vec<Local>) -> (r: Type)
    ensures
        r@ == inferred(expr@, locals_view(type_env@)),
{
    match expr {
        Expression::Literal(l) => match l {
            Literal::String(_) => Type::String,
            Literal::Integer(_) => Type::Int,
            Literal::Boolean(_) => Type::Bool,
        },
        Expression::Identifier(name) => match crate::typechecker::lookup_local(
            type_env,
            name.as_str(),
        ) {
            Some(t) => clone_type(t),
            None => Type::Unknown,
        },
        Expression::Binary(op, _, _) => match op {
            BinaryOp::And | BinaryOp::Or => Type::Bool,
            _ => Type::Int,
        },
        Expression::Unary(op, _) => match op {
            UnaryOp::Not => Type::Bool,
            UnaryOp::Minus => Type::Int,
        },
        Expression::Comparison(_, _, _) => Type::Bool,
        Expression::TypeLiteral(_) => Type::Type,
        _ => Type::Unknown,
    }
}

/// No type is `Unknown`.
pub open spec fn all_known(types: Seq<TypeView>) -> bool {
    forall|i: int| 0 <= i < types.len() ==> #[trigger] types[i] != TypeView::Unknown
}

/// The static types of a sequence of expressions, element by element.
pub open spec fn inferred_all(args: Seq<ExprView>, env: Seq<LocalView>) -> Seq<TypeView> {
    Seq::new(args.len(), |i: int| inferred(args[i], env))
}

/// The entries after a call site: where every argument type is known, the
/// call is specialized.
pub open spec fn call_site(
    name: Seq<char>,
    types: Seq<TypeView>,
    entries: Seq<SpecializedCallView>,
    defs: DefinitionsView,
) -> Seq<SpecializedCallView> {
    if all_known(types) {
        after_specialization(entries, defs.overloads(name), name, types)
    } else {
        entries
    }
}

/// The entries after every call site of an expression has been visited,
/// inner call sites first and left to right. The arms of a match are not
/// visited.
pub open spec fn specialized(
    e: ExprView,
    env: Seq<LocalView>,
    entries: Seq<SpecializedCallView>,
    defs: DefinitionsView,
) -> Seq<SpecializedCallView>
    decreases e, 0nat,
{
    match e {
        ExprView::FunctionCall(name, args) => call_site(
            name,
            inferred_all(args, env),
            specialized_all(args, args.len(), env, entries, defs),
            defs,
        ),
        ExprView::MethodCall(receiver, method, args) => call_site(
            method,
            seq![inferred(*receiver, env)] + inferred_all(args, env),
            specialized_all(
                args,
                args.len(),
                env,
                specialized(*receiver, env, entries, defs),
                defs,
            ),
            defs,
        ),
        ExprView::Binary(_, l, r) => specialized(
            *r,
            env,
            specialized(*l, env, entries, defs),
            defs,
        ),
        ExprView::Comparison(_, l, r) => specialized(
            *r,
            env,
            specialized(*l, env, entries, defs),
            defs,
        ),
        ExprView::Pipeline(l, r) => specialized(
            *r,
            env,
            specialized(*l, env, entries, defs),
            defs,
        ),
        ExprView::Unary(_, a) => specialized(*a, env, entries, defs),
        ExprView::MemberAccess(obj, _) => specialized(*obj, env, entries, defs),
        ExprView::Let(name, binding, body) => specialized(
            *body,
            env.push(LocalView { name, ty: inferred(*binding, env) }),
            specialized(*binding, env, entries, defs),
            defs,
        ),
        ExprView::Match(scrutinee, _) => specialized(*scrutinee, env, entries, defs),
        _ => entries,
    }
}

/// The entries after the first `n` expressions have been visited.
pub open spec fn specialized_all(
    args: Seq<ExprView>,
    n: nat,
    env: Seq<LocalView>,
    entries: Seq<SpecializedCallView>,
    defs: DefinitionsView,
) -> Seq<SpecializedCallView>
    decreases args, n,
{
    if n == 0 || n > args.len() {
        entries
    } else {
        specialized(
            args[n - 1],
            env,
            specialized_all(args, (n - 1) as nat, env, entries, defs),
            defs,
        )
    }
}

fn infer_all(args: &Vec<Expression>, type_env: &Vec<Local>) -> (r: Vec<Type>)
    ensures
        types_view(r@) == inferred_all(crate::ast::exprs_view(args@), locals_view(type_env@)),
{
    let mut out: Vec<Type> = Vec::new();
    let mut i: usize = 0;
    while i < args.len()
        invariant
            i <= args.len(),
            out.len() == i,
            forall|k: int|
                0 <= k < i ==> out@[k]@ == inferred(args@[k]@, locals_view(type_env@)),
        decreases args.len() - i,
    {
        out.push(infer_expression_type(&args[i], type_env));
        i = i + 1;
    }
    assert(types_view(out@) =~= inferred_all(
        crate::ast::exprs_view(args@),
        locals_view(type_env@),
    ));
    out
}

fn types_known(types: &Vec<Type>) -> (r: bool)
    ensures
        r == all_known(types_view(types@)),
{
    let mut i: usize = 0;
    while i < types.len()
        invariant
            i <= types.len(),
            forall|k: int| 0 <= k < i ==> #[trigger] types_view(types@)[k] != TypeView::Unknown,
        decreases types.len() - i,
    {
        assert(types_view(types@)[i as int] == types@[i as int]@);
        match &types[i] {
            Type::Unknown => {
                return false;
            },
            _ => {},
        }
        i = i + 1;
    }
    true
}

fn visit_call_site(
    name: &str,
    types: &Vec<Type>,
    specialization_cache: &mut SpecializationCache,
    registry: &ValueRegistry,
)
    ensures
        final(specialization_cache)@ == call_site(
            name@,
            types_view(types@),
            old(specialization_cache)@,
            registry@.definitions,
        ),
{
    if types_known(types) {
        let _ = specialization_cache.try_specialize(name, types.as_slice(), registry);
    }
}

fn specialize_all(
    args: &Vec<Expression>,
    type_env: &Vec<Local>,
    specialization_cache: &mut SpecializationCache,
    registry: &ValueRegistry,
)
    ensures
        final(specialization_cache)@ == specialized_all(
            crate::ast::exprs_view(args@),
            args@.len(),
            locals_view(type_env@),
            old(specialization_cache)@,
            registry@.definitions,
        ),
    decreases args, 0nat,
{
    let ghost views = crate::ast::exprs_view(args@);
    let mut i: usize = 0;
    while i < args.len()
        invariant
            i <= args.len(),
            views == crate::ast::exprs_view(args@),
            specialization_cache@ == specialized_all(
                views,
                i as nat,
                locals_view(type_env@),
                old(specialization_cache)@,
                registry@.definitions,
            ),
        decreases args.len() - i,
    {
        assert(views[i as int] == args@[i as int]@);
        specialize_function_calls(&args[i], type_env, specialization_cache, registry);
        i = i + 1;
    }
}

/// Visits every call site of an expression and specializes those whose
/// argument types are all known.
pub fn specialize_function_calls(
    expr: &Expression,
    type_env: &Vec<Local>,
    specialization_cache: &mut SpecializationCache,
    registry: &ValueRegistry,
)
    ensures
        final(specialization_cache)@ == specialized(
            expr@,
            locals_view(type_env@),
            old(specialization_cache)@,
            registry@.definitions,
        ),
    decreases expr, 1nat,
{
    match expr {
        Expression::FunctionCall(name, args) => {
            specialize_all(args, type_env, specialization_cache, registry);
            let types = infer_all(args, type_env);
            visit_call_site(name.as_str(), &types, specialization_cache, registry);
        },
        Expression::MethodCall(receiver, method, args) => {
            specialize_function_calls(receiver, type_env, specialization_cache, registry);
            specialize_all(args, type_env, specialization_cache, registry);
            let mut types = infer_all(args, type_env);
            let ghost rest = types_view(types@);
            let first = infer_expression_type(receiver, type_env);
            types.insert(0, first);
            assert(types_view(types@) =~= seq![first@] + rest);
            visit_call_site(method.as_str(), &types, specialization_cache, registry);
        },
        Expression::Binary(_, l, r) => {
            specialize_function_calls(l, type_env, specialization_cache, registry);
            specialize_function_calls(r, type_env, specialization_cache, registry);
        },
        Expression::Comparison(_, l, r) => {
            specialize_function_calls(l, type_env, specialization_cache, registry);
            specialize_function_calls(r, type_env, specialization_cache, registry);
        },
        Expression::Pipeline(l, r) => {
            specialize_function_calls(l, type_env, specialization_cache, registry);
            specialize_function_calls(r, type_env, specialization_cache, registry);
        },
        Expression::Unary(_, a) => {
            specialize_function_calls(a, type_env, specialization_cache, registry);
        },
        Expression::MemberAccess(obj, _) => {
            specialize_function_calls(obj, type_env, specialization_cache, registry);
        },
        Expression::Let(name, binding, body) => {
            specialize_function_calls(binding, type_env, specialization_cache, registry);
            let mut inner: Vec<Local> = Vec::new();
            let mut i: usize = 0;
            while i < type_env.len()
                invariant
                    i <= type_env.len(),
                    inner.len() == i,
                    forall|k: int| 0 <= k < i ==> inner@[k]@ == type_env@[k]@,
                decreases type_env.len() - i,
            {
                inner.push(
                    Local { name: type_env[i].name.clone(), ty: clone_type(&type_env[i].ty) },
                );
                i = i + 1;
            }
            let ty = infer_expression_type(binding, type_env);
            inner.push(Local { name: name.clone(), ty });
            assert(locals_view(inner@) =~= locals_view(type_env@).push(
                LocalView { name: name@, ty: ty@ },
            ));
            specialize_function_calls(body, &inner, specialization_cache, registry);
        },
        Expression::Match(scrutinee, _) => {
            specialize_function_calls(scrutinee, type_env, specialization_cache, registry);
        },
        _ => {},
    }
}

} // verus!
