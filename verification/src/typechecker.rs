//! The type checker: it applies the typing rules to the declarations of a
//! program, one after the other, and records what it accepts.

use crate::ast::{
    BinaryOp, ComparisonOp, Declaration, Expression, FunctionDeclView, Literal, ParameterWithGuard,
    Pattern, Program, UnaryOp, ValueDeclaration,
};
use crate::error::{Error, ErrorView};
use crate::text::{concat2, str_equal};
use crate::typing::{
    arms_type, binary_type, builtin_method_type, call_type, check, check_all, check_arms,
    check_declaration, check_declarations, check_function_declaration, check_value_declaration,
    Checked, clashes, clause_typed, comparison_type, fault, fault_about, first_exact, guard_flags,
    guards_typed, has_guards, lemma_check_all_error_sticks, lemma_check_arms_error_sticks,
    lemma_check_declarations_error_sticks, lemma_guards_error_sticks, local_type, LocalView,
    member_type, parameter_locals, parameter_types, unary_type, value_info,
};
use crate::types::{
    clone_type, Constraints, FunctionType, FunctionTypeView, MethodSignature, Type, type_equals,
    TypeEnvironment, TypeEnvView, types_equal, types_view, TypeView, ValueType,
};
use vstd::prelude::*;
use vstd::string::*;

verus! {

/// A local name and its type.
#[derive(Debug)]
pub struct Local {
    pub name: String,
    pub ty: Type,
}

impl View for Local {
    type V = LocalView;

    open spec fn view(&self) -> LocalView {
        LocalView { name: self.name@, ty: self.ty@ }
    }
}

/// The views of a sequence of locals, element by element.
pub open spec fn locals_view(s: Seq<Local>) -> Seq<LocalView> {
    Seq::new(s.len(), |i: int| s[i]@)
}

/// The mathematical content of a result of the type checker.
pub open spec fn type_result(r: Result<Type, Error>) -> Result<TypeView, ErrorView> {
    match r {
        Ok(t) => Ok(t@),
        Err(e) => Err(e@),
    }
}

fn fail<T>(message: &str) -> (r: Result<T, Error>)
    ensures
        r matches Err(e) && e@ == fault(message@),
{
    Err(Error::type_error(String::from_str(message)))
}

fn fail_about<T>(prefix: &str, name: &str) -> (r: Result<T, Error>)
    ensures
        r matches Err(e) && e@ == fault_about(prefix@, name@),
{
    Err(Error::type_error(concat2(prefix, name)))
}

/// The type that the innermost binding of `name` gives it, if any.
pub fn lookup_local<'a>(locals: &'a Vec<Local>, name: &str) -> (r: Option<&'a Type>)
    ensures
        match r {
            Some(t) => local_type(locals_view(locals@), name@) == Some(t@),
            None => local_type(locals_view(locals@), name@) is None,
        },
{
    let ghost all = locals_view(locals@);
    let mut i: usize = locals.len();
    assert(all.take(i as int) =~= all);
    while i > 0
        invariant
            i <= locals.len(),
            all == locals_view(locals@),
            local_type(all, name@) == local_type(all.take(i as int), name@),
        decreases i,
    {
        let l = &locals[i - 1];
        assert(all.take(i as int).last() == all[i - 1]);
        assert(all.take(i as int).drop_last() =~= all.take(i - 1));
        if str_equal(l.name.as_str(), name) {
            return Some(&l.ty);
        }
        i = i - 1;
    }
    None
}

fn extend_locals(locals: &Vec<Local>, name: &String, ty: Type) -> (r: Vec<Local>)
    ensures
        locals_view(r@) == locals_view(locals@).push(LocalView { name: name@, ty: ty@ }),
{
    let mut out: Vec<Local> = Vec::new();
    let mut i: usize = 0;
    while i < locals.len()
        invariant
            i <= locals.len(),
            out.len() == i,
            forall|k: int| 0 <= k < i ==> out@[k]@ == locals@[k]@,
        decreases locals.len() - i,
    {
        out.push(Local { name: locals[i].name.clone(), ty: clone_type(&locals[i].ty) });
        i = i + 1;
    }
    out.push(Local { name: name.clone(), ty });
    assert(locals_view(out@) =~= locals_view(locals@).push(LocalView { name: name@, ty: ty@ }));
    out
}

fn is_bool(t: &Type) -> (r: bool)
    ensures
        r == (t@ == TypeView::Bool),
{
    match t {
        Type::Bool => true,
        _ => false,
    }
}

fn is_int(t: &Type) -> (r: bool)
    ensures
        r == (t@ == TypeView::Int),
{
    match t {
        Type::Int => true,
        _ => false,
    }
}

fn is_string(t: &Type) -> (r: bool)
    ensures
        r == (t@ == TypeView::String),
{
    match t {
        Type::String => true,
        _ => false,
    }
}

fn check_binary(op: &BinaryOp, l: &Type, r: &Type) -> (res: Result<Type, Error>)
    ensures
        type_result(res) == binary_type(*op, l@, r@),
{
    match op {
        BinaryOp::And | BinaryOp::Or => if is_bool(l) && is_bool(r) {
            Ok(Type::Bool)
        } else {
            fail("Logical operators require Bool operands")
        },
        _ => if is_int(l) && is_int(r) {
            Ok(Type::Int)
        } else {
            fail("Arithmetic operators require Int operands")
        },
    }
}

fn check_unary(op: &UnaryOp, t: &Type) -> (res: Result<Type, Error>)
    ensures
        type_result(res) == unary_type(*op, t@),
{
    match op {
        UnaryOp::Not => if is_bool(t) {
            Ok(Type::Bool)
        } else {
            fail("Not operator requires a Bool operand")
        },
        UnaryOp::Minus => if is_int(t) {
            Ok(Type::Int)
        } else {
            fail("Unary minus requires an Int operand")
        },
    }
}

fn check_comparison(op: &ComparisonOp, l: &Type, r: &Type) -> (res: Result<Type, Error>)
    ensures
        type_result(res) == comparison_type(*op, l@, r@),
{
    match op {
        ComparisonOp::Contains => if is_string(l) && is_string(r) {
            Ok(Type::Bool)
        } else {
            fail("Contains operator requires String operands")
        },
        _ => if type_equals(l, r) {
            Ok(Type::Bool)
        } else {
            fail("Comparison requires operands of one type")
        },
    }
}

fn check_member(t: &Type, member: &str) -> (res: Result<Type, Error>)
    ensures
        type_result(res) == member_type(t@, member@),
{
    if is_string(t) && str_equal(member, "length") {
        Ok(Type::Int)
    } else if is_string(t) && (str_equal(member, "toLowerCase") || str_equal(
        member,
        "toUpperCase",
    )) {
        Ok(Type::String)
    } else {
        fail_about("Type has no member: ", member)
    }
}

fn check_builtin_method(t: &Type, method: &str, argc: usize) -> (res: Result<Type, Error>)
    ensures
        type_result(res) == builtin_method_type(t@, method@, argc as nat),
{
    if is_string(t) && (str_equal(method, "toLowerCase") || str_equal(method, "toUpperCase")) {
        if argc == 0 {
            Ok(Type::String)
        } else {
            fail_about("Method takes no arguments: ", method)
        }
    } else {
        fail_about("Type has no method: ", method)
    }
}

/// The views of a sequence of borrowed signatures, element by element.
pub open spec fn signatures_view(s: Seq<&FunctionType>) -> Seq<FunctionTypeView> {
    Seq::new(s.len(), |i: int| s[i]@)
}

fn check_call(name: &str, sigs: &Vec<&FunctionType>, args: &Vec<Type>) -> (res: Result<
    Type,
    Error,
>)
    ensures
        type_result(res) == call_type(name@, signatures_view(sigs@), types_view(args@)),
{
    let ghost views = signatures_view(sigs@);
    if sigs.len() == 0 {
        return fail_about("Undefined function: ", name);
    }
    if sigs.len() == 1 {
        let f = sigs[0];
        assert(views[0] == f@);
        if f.parameter_types.len() != args.len() {
            assert(types_view(f.parameter_types@).len() != types_view(args@).len());
            return fail_about("Wrong number of arguments in call of ", name);
        }
        if !types_equal(&f.parameter_types, args) {
            return fail_about("Argument type mismatch in call of ", name);
        }
        return Ok(clone_type(&f.return_type));
    }
    let mut k: usize = 0;
    while k < sigs.len()
        invariant
            k <= sigs.len(),
            views == signatures_view(sigs@),
            first_exact(views, 0, types_view(args@)) == first_exact(
                views,
                k as nat,
                types_view(args@),
            ),
        decreases sigs.len() - k,
    {
        let f = sigs[k];
        assert(views[k as int] == f@);
        if types_equal(&f.parameter_types, args) {
            return Ok(clone_type(&f.return_type));
        }
        k = k + 1;
    }
    fail_about("No matching overload in call of ", name)
}

/// The type of an expression under the given locals and environment.
pub fn check_in(e: &Expression, locals: &Vec<Local>, env: &TypeEnvironment) -> (r: Result<
    Type,
    Error,
>)
    ensures
        type_result(r) == check(e@, locals_view(locals@), env@),
    decreases e, 1nat,
{
    match e {
        Expression::Literal(l) => match l {
            Literal::String(_) => Ok(Type::String),
            Literal::Integer(_) => Ok(Type::Int),
            Literal::Boolean(_) => Ok(Type::Bool),
        },
        Expression::Identifier(name) => match lookup_local(locals, name.as_str()) {
            Some(t) => Ok(clone_type(t)),
            None => fail_about("Undefined identifier: ", name.as_str()),
        },
        Expression::TypeLiteral(name) => if env.get_value(name.as_str()).is_some() {
            Ok(Type::Type)
        } else {
            fail_about("Unknown value type: ", name.as_str())
        },
        Expression::Binary(op, l, r) => {
            let lt = match check_in(l, locals, env) {
                Err(e) => {
                    return Err(e);
                },
                Ok(t) => t,
            };
            let rt = match check_in(r, locals, env) {
                Err(e) => {
                    return Err(e);
                },
                Ok(t) => t,
            };
            check_binary(op, &lt, &rt)
        },
        Expression::Unary(op, a) => match check_in(a, locals, env) {
            Err(e) => Err(e),
            Ok(t) => check_unary(op, &t),
        },
        Expression::Comparison(op, l, r) => {
            let lt = match check_in(l, locals, env) {
                Err(e) => {
                    return Err(e);
                },
                Ok(t) => t,
            };
            let rt = match check_in(r, locals, env) {
                Err(e) => {
                    return Err(e);
                },
                Ok(t) => t,
            };
            check_comparison(op, &lt, &rt)
        },
        Expression::MemberAccess(obj, member) => match check_in(obj, locals, env) {
            Err(e) => Err(e),
            Ok(t) => check_member(&t, member.as_str()),
        },
        Expression::FunctionCall(_, _) => check_function_call(e, locals, env),
        Expression::MethodCall(_, _, _) => check_method_call(e, locals, env),
        Expression::Pipeline(l, r) => match check_in(l, locals, env) {
            Err(e) => Err(e),
            Ok(_) => check_in(r, locals, env),
        },
        Expression::Let(name, value, body) => match check_in(value, locals, env) {
            Err(e) => Err(e),
            Ok(t) => {
                let inner = extend_locals(locals, name, t);
                check_in(body, &inner, env)
            },
        },
        Expression::Match(_, _) => check_match(e, locals, env),
    }
}

fn check_function_call(e: &Expression, locals: &Vec<Local>, env: &TypeEnvironment) -> (r: Result<
    Type,
    Error,
>)
    requires
        e is FunctionCall,
    ensures
        type_result(r) == check(e@, locals_view(locals@), env@),
    decreases e, 0nat,
{
    match e {
        Expression::FunctionCall(name, args) => {
            let sigs = env.signatures(name.as_str());
            if sigs.len() == 0 {
                return fail_about("Undefined function: ", name.as_str());
            }
            let types = match check_arguments(args, locals, env) {
                Err(e) => {
                    return Err(e);
                },
                Ok(t) => t,
            };
            assert(signatures_view(sigs@) =~= env@.signatures(name@));
            check_call(name.as_str(), &sigs, &types)
        },
        _ => unreached(),
    }
}

fn check_method_call(e: &Expression, locals: &Vec<Local>, env: &TypeEnvironment) -> (r: Result<
    Type,
    Error,
>)
    requires
        e is MethodCall,
    ensures
        type_result(r) == check(e@, locals_view(locals@), env@),
    decreases e, 0nat,
{
    match e {
        Expression::MethodCall(obj, method, args) => {
            let t = match check_in(obj, locals, env) {
                Err(e) => {
                    return Err(e);
                },
                Ok(t) => t,
            };
            let types = match check_arguments(args, locals, env) {
                Err(e) => {
                    return Err(e);
                },
                Ok(t) => t,
            };
            let sigs = env.signatures(method.as_str());
            if sigs.len() > 0 {
                let mut all = types;
                let ghost rest = types_view(all@);
                let receiver = clone_type(&t);
                all.insert(0, receiver);
                assert(types_view(all@) =~= seq![t@] + rest);
                assert(signatures_view(sigs@) =~= env@.signatures(method@));
                check_call(method.as_str(), &sigs, &all)
            } else {
                check_builtin_method(&t, method.as_str(), args.len())
            }
        },
        _ => unreached(),
    }
}

fn check_arguments(args: &Vec<Expression>, locals: &Vec<Local>, env: &TypeEnvironment) -> (r:
    Result<Vec<Type>, Error>)
    ensures
        match check_all(crate::ast::exprs_view(args@), args@.len(), locals_view(locals@), env@) {
            Ok(types) => r matches Ok(v) && types_view(v@) == types,
            Err(e) => r matches Err(x) && x@ == e,
        },
    decreases args, 0nat,
{
    let ghost views = crate::ast::exprs_view(args@);
    let mut types: Vec<Type> = Vec::new();
    let mut i: usize = 0;
    assert(types_view(types@) =~= Seq::<TypeView>::empty());
    while i < args.len()
        invariant
            i <= args.len(),
            views == crate::ast::exprs_view(args@),
            check_all(views, i as nat, locals_view(locals@), env@) == Ok::<
                Seq<TypeView>,
                ErrorView,
            >(types_view(types@)),
        decreases args.len() - i,
    {
        let ghost before = types_view(types@);
        assert(views[i as int] == args@[i as int]@);
        match check_in(&args[i], locals, env) {
            Ok(t) => {
                types.push(t);
                assert(types_view(types@) =~= before.push(t@));
            },
            Err(e) => {
                proof {
                    assert(check_all(views, (i + 1) as nat, locals_view(locals@), env@) is Err);
                    lemma_check_all_error_sticks(
                        views,
                        (i + 1) as nat,
                        args@.len(),
                        locals_view(locals@),
                        env@,
                    );
                }
                return Err(e);
            },
        }
        i = i + 1;
    }
    Ok(types)
}

fn check_match(e: &Expression, locals: &Vec<Local>, env: &TypeEnvironment) -> (r: Result<
    Type,
    Error,
>)
    requires
        e is Match,
    ensures
        type_result(r) == check(e@, locals_view(locals@), env@),
    decreases e, 0nat,
{
    match e {
        Expression::Match(scrutinee, arms) => {
            let t = match check_in(scrutinee, locals, env) {
                Err(e) => {
                    return Err(e);
                },
                Ok(t) => t,
            };
            let name = match &t {
                Type::Value(name) => name,
                _ => {
                    return fail("Can only match on value types");
                },
            };
            let info = match env.get_value(name.as_str()) {
                None => {
                    return fail_about("Unknown value type: ", name.as_str());
                },
                Some(info) => info,
            };
            let ghost views = crate::ast::arms_view(arms@);
            let ghost payload = info@.parameter_type;
            let mut common: Option<Type> = None;
            let mut i: usize = 0;
            assert(check(e@, locals_view(locals@), env@) == arms_type(
                check_arms(views, views.len(), name@, payload, locals_view(locals@), env@),
            ));
            while i < arms.len()
                invariant
                    i <= arms.len(),
                    *e is Match,
                    (*e)->Match_1 == *arms,
                    views == crate::ast::arms_view(arms@),
                    payload == info@.parameter_type,
                    check(e@, locals_view(locals@), env@) == arms_type(
                        check_arms(views, views.len(), name@, payload, locals_view(locals@), env@),
                    ),
                    match check_arms(
                        views,
                        i as nat,
                        name@,
                        payload,
                        locals_view(locals@),
                        env@,
                    ) {
                        Ok(Some(t)) => common matches Some(c) && c@ == t,
                        Ok(None) => common is None,
                        Err(_) => false,
                    },
                decreases arms.len() - i,
            {
                let arm = &arms[i];
                assert(views[i as int] == arm@);
                match &arm.pattern {
                    Pattern::Constructor(constructor, binding) => {
                        if !str_equal(constructor.as_str(), name.as_str()) {
                            proof {
                                assert(check_arms(
                                    views,
                                    (i + 1) as nat,
                                    name@,
                                    payload,
                                    locals_view(locals@),
                                    env@,
                                ) is Err);
                                lemma_check_arms_error_sticks(
                                    views,
                                    (i + 1) as nat,
                                    arms@.len(),
                                    name@,
                                    payload,
                                    locals_view(locals@),
                                    env@,
                                );
                            }
                            return fail_about(
                                "Pattern constructor does not match value type ",
                                name.as_str(),
                            );
                        }
                        let inner = extend_locals(
                            locals,
                            binding,
                            clone_type(&info.parameter_type),
                        );
                        match check_in(&arm.body, &inner, env) {
                            Err(e) => {
                                proof {
                                    assert(check_arms(
                                        views,
                                        (i + 1) as nat,
                                        name@,
                                        payload,
                                        locals_view(locals@),
                                        env@,
                                    ) is Err);
                                    lemma_check_arms_error_sticks(
                                        views,
                                        (i + 1) as nat,
                                        arms@.len(),
                                        name@,
                                        payload,
                                        locals_view(locals@),
                                        env@,
                                    );
                                }
                                return Err(e);
                            },
                            Ok(t) => {
                                match &common {
                                    None => {
                                        common = Some(t);
                                    },
                                    Some(c) => {
                                        if !type_equals(c, &t) {
                                            proof {
                                                assert(check_arms(
                                                    views,
                                                    (i + 1) as nat,
                                                    name@,
                                                    payload,
                                                    locals_view(locals@),
                                                    env@,
                                                ) is Err);
                                                lemma_check_arms_error_sticks(
                                                    views,
                                                    (i + 1) as nat,
                                                    arms@.len(),
                                                    name@,
                                                    payload,
                                                    locals_view(locals@),
                                                    env@,
                                                );
                                            }
                                            return fail("Match arms have different types");
                                        }
                                    },
                                }
                            },
                        }
                    },
                }
                i = i + 1;
            }
            match common {
                Some(t) => Ok(t),
                None => fail("Match expression has no arms"),
            }
        },
        _ => unreached(),
    }
}

fn check_clause(
    clause: &Option<Expression>,
    wanted: &Type,
    otherwise: &str,
    locals: &Vec<Local>,
    env: &TypeEnvironment,
) -> (r: Result<(), Error>)
    ensures
        match clause_typed(
            crate::ast::option_expr_view(*clause),
            wanted@,
            otherwise@,
            locals_view(locals@),
            env@,
        ) {
            Ok(_) => r is Ok,
            Err(e) => r matches Err(x) && x@ == e,
        },
{
    match clause {
        None => Ok(()),
        Some(e) => match check_in(e, locals, env) {
            Err(x) => Err(x),
            Ok(t) => if type_equals(&t, wanted) {
                Ok(())
            } else {
                fail(otherwise)
            },
        },
    }
}

fn locals_of(params: &Vec<ParameterWithGuard>) -> (r: Vec<Local>)
    ensures
        locals_view(r@) == parameter_locals(crate::ast::parameters_view(params@)),
{
    let mut out: Vec<Local> = Vec::new();
    let mut i: usize = 0;
    while i < params.len()
        invariant
            i <= params.len(),
            out.len() == i,
            forall|k: int|
                0 <= k < i ==> out@[k]@ == (LocalView {
                    name: params@[k].name@,
                    ty: params@[k].ty@,
                }),
        decreases params.len() - i,
    {
        out.push(Local { name: params[i].name.clone(), ty: clone_type(&params[i].ty) });
        i = i + 1;
    }
    assert(locals_view(out@) =~= parameter_locals(crate::ast::parameters_view(params@)));
    out
}

fn types_of(params: &Vec<ParameterWithGuard>) -> (r: Vec<Type>)
    ensures
        types_view(r@) == parameter_types(crate::ast::parameters_view(params@)),
{
    let mut out: Vec<Type> = Vec::new();
    let mut i: usize = 0;
    while i < params.len()
        invariant
            i <= params.len(),
            out.len() == i,
            forall|k: int| 0 <= k < i ==> out@[k]@ == params@[k].ty@,
        decreases params.len() - i,
    {
        out.push(clone_type(&params[i].ty));
        i = i + 1;
    }
    assert(types_view(out@) =~= parameter_types(crate::ast::parameters_view(params@)));
    out
}

fn guards_of(params: &Vec<ParameterWithGuard>) -> (r: Vec<Option<String>>)
    ensures
        crate::types::guard_presence(r@) == guard_flags(crate::ast::parameters_view(params@)),
{
    let ghost views = crate::ast::parameters_view(params@);
    let mut out: Vec<Option<String>> = Vec::new();
    let mut i: usize = 0;
    while i < params.len()
        invariant
            i <= params.len(),
            out.len() == i,
            views == crate::ast::parameters_view(params@),
            forall|k: int|
                0 <= k < i ==> ((#[trigger] out@[k]) is Some <==> views[k].guard is Some),
        decreases params.len() - i,
    {
        assert(views[i as int] == params@[i as int]@);
        let g = match &params[i].guard {
            Some(_) => Some(String::from_str("custom")),
            None => None,
        };
        out.push(g);
        i = i + 1;
    }
    assert(crate::types::guard_presence(out@) =~= guard_flags(views));
    out
}

fn check_guard_types(params: &Vec<ParameterWithGuard>, locals: &Vec<Local>, env: &TypeEnvironment)
    -> (r: Result<(), Error>)
    ensures
        match guards_typed(
            crate::ast::parameters_view(params@),
            params@.len(),
            locals_view(locals@),
            env@,
        ) {
            Ok(_) => r is Ok,
            Err(e) => r matches Err(x) && x@ == e,
        },
{
    let ghost views = crate::ast::parameters_view(params@);
    let mut i: usize = 0;
    while i < params.len()
        invariant
            i <= params.len(),
            views == crate::ast::parameters_view(params@),
            guards_typed(views, i as nat, locals_view(locals@), env@) is Ok,
        decreases params.len() - i,
    {
        assert(views[i as int] == params@[i as int]@);
        match check_clause(
            &params[i].guard,
            &Type::Bool,
            "Function guard must return Bool",
            locals,
            env,
        ) {
            Ok(_) => {},
            Err(e) => {
                proof {
                    assert(guards_typed(views, (i + 1) as nat, locals_view(locals@), env@) is Err);
                    lemma_guards_error_sticks(
                        views,
                        (i + 1) as nat,
                        params@.len(),
                        locals_view(locals@),
                        env@,
                    );
                }
                return Err(e);
            },
        }
        i = i + 1;
    }
    Ok(())
}

fn has_clash(sigs: &Vec<&FunctionType>, types: &Vec<Type>, guarded: bool) -> (r: bool)
    ensures
        r == clashes(signatures_view(sigs@), types_view(types@), guarded),
{
    if guarded {
        return false;
    }
    let ghost views = signatures_view(sigs@);
    let mut k: usize = 0;
    while k < sigs.len()
        invariant
            k <= sigs.len(),
            !guarded,
            views == signatures_view(sigs@),
            forall|j: int|
                0 <= j < k ==> !((#[trigger] views[j]).parameter_types == types_view(types@)
                    && !views[j].guarded()),
        decreases sigs.len() - k,
    {
        let f = sigs[k];
        assert(views[k as int] == f@);
        if !f.is_guarded() && types_equal(&f.parameter_types, types) {
            assert(views[k as int].parameter_types == types_view(types@)
                && !views[k as int].guarded());
            return true;
        }
        k = k + 1;
    }
    false
}

fn has_any_guard(params: &Vec<ParameterWithGuard>) -> (r: bool)
    ensures
        r == has_guards(crate::ast::parameters_view(params@)),
{
    let ghost views = crate::ast::parameters_view(params@);
    let mut i: usize = 0;
    while i < params.len()
        invariant
            i <= params.len(),
            views == crate::ast::parameters_view(params@),
            forall|k: int| 0 <= k < i ==> (#[trigger] views[k]).guard is None,
        decreases params.len() - i,
    {
        assert(views[i as int] == params@[i as int]@);
        if params[i].guard.is_some() {
            return true;
        }
        i = i + 1;
    }
    false
}

/// The type checker: the environment that it has filled so far.
pub struct TypeChecker {
    env: TypeEnvironment,
    locals: Vec<Local>,
}

impl TypeChecker {
    /// The environment that the checker has filled.
    pub closed spec fn environment(&self) -> TypeEnvView {
        self.env@
    }

    /// The locals under which [`TypeChecker::check_expression`] checks.
    pub closed spec fn scope(&self) -> Seq<LocalView> {
        locals_view(self.locals@)
    }

    /// A checker with an empty environment and no locals.
    pub fn new() -> (r: TypeChecker)
        ensures
            r.environment().values == Seq::<crate::types::ValueEntryView>::empty(),
            r.environment().functions == Seq::<FunctionTypeView>::empty(),
            r.scope() == Seq::<LocalView>::empty(),
    {
        let r = TypeChecker { env: TypeEnvironment::new(), locals: Vec::new() };
        assert(r.scope() =~= Seq::<LocalView>::empty());
        r
    }

    /// Checks the declarations of a program one after the other and
    /// records each that is accepted; the first error ends the check, and
    /// what was recorded before it stays.
    pub fn check_program(&mut self, program: &Program) -> (r: Result<(), Error>)
        ensures
            ({
                let c = check_declarations(
                    program@.declarations,
                    program@.declarations.len(),
                    old(self).environment(),
                );
                &&& final(self).environment() == c.env
                &&& match c.error {
                    None => r is Ok,
                    Some(e) => r matches Err(x) && x@ == e,
                }
            }),
            final(self).scope() == Seq::<LocalView>::empty(),
    {
        let ghost ds = program@.declarations;
        let ghost start = self.environment();
        self.locals = Vec::new();
        assert(self.scope() =~= Seq::<LocalView>::empty());
        let mut i: usize = 0;
        while i < program.declarations.len()
            invariant
                i <= program.declarations.len(),
                ds == program@.declarations,
                ds.len() == program.declarations.len(),
                start == old(self).environment(),
                self.scope() == Seq::<LocalView>::empty(),
                check_declarations(ds, i as nat, start) == (Checked {
                    env: self.environment(),
                    error: None,
                }),
            decreases program.declarations.len() - i,
        {
            assert(ds[i as int] == program.declarations@[i as int]@);
            match self.check_declaration(&program.declarations[i]) {
                Ok(_) => {},
                Err(e) => {
                    proof {
                        assert(check_declarations(ds, (i + 1) as nat, start).error is Some);
                        lemma_check_declarations_error_sticks(ds, (i + 1) as nat, ds.len(), start);
                    }
                    return Err(e);
                },
            }
            i = i + 1;
        }
        Ok(())
    }

    fn check_declaration(&mut self, declaration: &Declaration) -> (r: Result<(), Error>)
        requires
            old(self).scope() == Seq::<LocalView>::empty(),
        ensures
            final(self).scope() == Seq::<LocalView>::empty(),
            match check_declaration(declaration@, old(self).environment()) {
                Ok(env) => r is Ok && final(self).environment() == env,
                Err(e) => r matches Err(x) && x@ == e && final(self).environment() == old(
                    self,
                ).environment(),
            },
    {
        match declaration {
            Declaration::Value(d) => self.check_value_declaration(d),
            Declaration::Function(d) => self.check_function_declaration(d),
            Declaration::Method(d) => self.check_method_declaration(d),
        }
    }

    fn check_value_declaration(&mut self, decl: &ValueDeclaration) -> (r: Result<(), Error>)
        requires
            old(self).scope() == Seq::<LocalView>::empty(),
        ensures
            final(self).scope() == Seq::<LocalView>::empty(),
            match check_value_declaration(decl@, old(self).environment()) {
                Ok(env) => r is Ok && final(self).environment() == env,
                Err(e) => r matches Err(x) && x@ == e && final(self).environment() == old(
                    self,
                ).environment(),
            },
    {
        if self.env.get_value(decl.name.as_str()).is_some() {
            return fail_about("Value type is already defined: ", decl.name.as_str());
        }
        let mut locals: Vec<Local> = Vec::new();
        locals.push(
            Local { name: decl.parameter.name.clone(), ty: clone_type(&decl.parameter.ty) },
        );
        assert(locals_view(locals@) =~= seq![
            LocalView { name: decl@.parameter.name, ty: decl@.parameter.ty },
        ]);
        match check_clause(
            &decl.body.validate,
            &Type::Bool,
            "Validation expression must return Bool",
            &locals,
            &self.env,
        ) {
            Err(e) => {
                return Err(e);
            },
            Ok(_) => {},
        }
        match check_clause(
            &decl.body.normalize,
            &decl.parameter.ty,
            "Normalization expression must return the parameter type",
            &locals,
            &self.env,
        ) {
            Err(e) => {
                return Err(e);
            },
            Ok(_) => {},
        }
        let value_type = ValueType {
            name: decl.name.clone(),
            parameter_type: clone_type(&decl.parameter.ty),
            constraints: Constraints {
                validate: match &decl.body.validate {
                    Some(_) => Some(String::from_str("custom")),
                    None => None,
                },
                normalize: match &decl.body.normalize {
                    Some(_) => Some(String::from_str("custom")),
                    None => None,
                },
                unique: match decl.body.unique {
                    Some(true) => true,
                    _ => false,
                },
            },
        };
        assert(value_type@ == value_info(decl@));
        self.env.define_value(decl.name.clone(), value_type);
        Ok(())
    }

    fn check_function(
        &mut self,
        name: &String,
        parameters: &Vec<ParameterWithGuard>,
        return_type: &Type,
        body: &Expression,
        Ghost(d): Ghost<FunctionDeclView>,
    ) -> (r: Result<(), Error>)
        requires
            old(self).scope() == Seq::<LocalView>::empty(),
            d == (FunctionDeclView {
                name: name@,
                parameters: crate::ast::parameters_view(parameters@),
                return_type: return_type@,
                body: body@,
            }),
        ensures
            final(self).scope() == Seq::<LocalView>::empty(),
            match check_function_declaration(d, old(self).environment()) {
                Ok(env) => r is Ok && final(self).environment() == env,
                Err(e) => r matches Err(x) && x@ == e && final(self).environment() == old(
                    self,
                ).environment(),
            },
    {
        let locals = locals_of(parameters);
        match check_guard_types(parameters, &locals, &self.env) {
            Err(e) => {
                return Err(e);
            },
            Ok(_) => {},
        }
        let body_type = match check_in(body, &locals, &self.env) {
            Err(e) => {
                return Err(e);
            },
            Ok(t) => t,
        };
        if !type_equals(&body_type, return_type) {
            return fail("Function body does not have the declared return type");
        }
        let types = types_of(parameters);
        let guarded = has_any_guard(parameters);
        let sigs = self.env.signatures(name.as_str());
        assert(signatures_view(sigs@) =~= self.env@.signatures(name@));
        if has_clash(&sigs, &types, guarded) {
            return fail_about(
                "Ambiguous declaration: same parameter types and no guard as an earlier ",
                name.as_str(),
            );
        }
        let signature = MethodSignature {
            parameter_types: types,
            return_type: clone_type(return_type),
            guards: guards_of(parameters),
        };
        self.env.define_method(name.clone(), signature);
        Ok(())
    }

    /// Checks a function declaration and records its signature.
    fn check_function_declaration(&mut self, decl: &crate::ast::FunctionDeclaration) -> (r:
        Result<(), Error>)
        requires
            old(self).scope() == Seq::<LocalView>::empty(),
        ensures
            final(self).scope() == Seq::<LocalView>::empty(),
            match check_function_declaration(decl@, old(self).environment()) {
                Ok(env) => r is Ok && final(self).environment() == env,
                Err(e) => r matches Err(x) && x@ == e && final(self).environment() == old(
                    self,
                ).environment(),
            },
    {
        self.check_function(
            &decl.name,
            &decl.parameters,
            &decl.return_type,
            &decl.body,
            Ghost(decl@),
        )
    }

    /// Checks a method declaration, which is a function declaration.
    fn check_method_declaration(&mut self, decl: &crate::ast::MethodDeclaration) -> (r:
        Result<(), Error>)
        requires
            old(self).scope() == Seq::<LocalView>::empty(),
        ensures
            final(self).scope() == Seq::<LocalView>::empty(),
            match check_function_declaration(decl@, old(self).environment()) {
                Ok(env) => r is Ok && final(self).environment() == env,
                Err(e) => r matches Err(x) && x@ == e && final(self).environment() == old(
                    self,
                ).environment(),
            },
    {
        self.check_function(
            &decl.name,
            &decl.parameters,
            &decl.return_type,
            &decl.body,
            Ghost(decl@),
        )
    }

    /// The type of an expression under the checker's locals and
    /// environment, or the type error that it has.
    pub fn check_expression(&self, expr: &Expression) -> (r: Result<Type, Error>)
        ensures
            type_result(r) == check(expr@, self.scope(), self.environment()),
    {
        check_in(expr, &self.locals, &self.env)
    }

    /// The environment that the checker has filled.
    pub fn get_environment(&self) -> (r: &TypeEnvironment)
        ensures
            r@ == self.environment(),
    {
        &self.env
    }
}

} // verus!
