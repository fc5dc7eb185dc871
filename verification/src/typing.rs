//! The typing rules of the language: the type of an expression under
//! locals and an environment, and what a declaration must satisfy to be
//! recorded.

use crate::ast::{
    BinaryOp, ComparisonOp, DeclarationView, ExprView, FunctionDeclView, GuardedParameterView,
    LiteralView, MatchArmView, UnaryOp, ValueDeclView,
};
use crate::error::ErrorView;
use crate::types::{FunctionTypeView, TypeEnvView, TypeView, ValueTypeView};
use vstd::prelude::*;

verus! {

/// A local name and its type.
pub struct LocalView {
    pub name: Seq<char>,
    pub ty: TypeView,
}

/// The type that the innermost binding of `name` gives it, if any.
pub open spec fn local_type(locals: Seq<LocalView>, name: Seq<char>) -> Option<TypeView>
    decreases locals.len(),
{
    if locals.len() == 0 {
        None
    } else if locals.last().name == name {
        Some(locals.last().ty)
    } else {
        local_type(locals.drop_last(), name)
    }
}

/// A type error with a fixed message.
pub open spec fn fault(message: Seq<char>) -> ErrorView {
    ErrorView::Type { message }
}

/// A type error whose message ends in a name.
pub open spec fn fault_about(prefix: Seq<char>, name: Seq<char>) -> ErrorView {
    ErrorView::Type { message: prefix + name }
}

/// The type of a literal.
pub open spec fn literal_type(l: LiteralView) -> TypeView {
    match l {
        LiteralView::String(_) => TypeView::String,
        LiteralView::Integer(_) => TypeView::Int,
        LiteralView::Boolean(_) => TypeView::Bool,
    }
}

/// The logical operators take booleans to a boolean, the arithmetic ones
/// integers to an integer.
pub open spec fn binary_type(op: BinaryOp, l: TypeView, r: TypeView) -> Result<
    TypeView,
    ErrorView,
> {
    match op {
        BinaryOp::And | BinaryOp::Or => if l == TypeView::Bool && r == TypeView::Bool {
            Ok(TypeView::Bool)
        } else {
            Err(fault("Logical operators require Bool operands"@))
        },
        _ => if l == TypeView::Int && r == TypeView::Int {
            Ok(TypeView::Int)
        } else {
            Err(fault("Arithmetic operators require Int operands"@))
        },
    }
}

/// `!` takes a boolean to a boolean, unary `-` an integer to an integer.
pub open spec fn unary_type(op: UnaryOp, t: TypeView) -> Result<TypeView, ErrorView> {
    match op {
        UnaryOp::Not => if t == TypeView::Bool {
            Ok(TypeView::Bool)
        } else {
            Err(fault("Not operator requires a Bool operand"@))
        },
        UnaryOp::Minus => if t == TypeView::Int {
            Ok(TypeView::Int)
        } else {
            Err(fault("Unary minus requires an Int operand"@))
        },
    }
}

/// `contains` takes two strings, every other comparison two operands of
/// one type; the result is a boolean.
pub open spec fn comparison_type(op: ComparisonOp, l: TypeView, r: TypeView) -> Result<
    TypeView,
    ErrorView,
> {
    match op {
        ComparisonOp::Contains => if l == TypeView::String && r == TypeView::String {
            Ok(TypeView::Bool)
        } else {
            Err(fault("Contains operator requires String operands"@))
        },
        _ => if l == r {
            Ok(TypeView::Bool)
        } else {
            Err(fault("Comparison requires operands of one type"@))
        },
    }
}

/// The members of a string: its length, an integer, and its two case
/// mappings, strings.
pub open spec fn member_type(t: TypeView, member: Seq<char>) -> Result<TypeView, ErrorView> {
    if t == TypeView::String && member == "length"@ {
        Ok(TypeView::Int)
    } else if t == TypeView::String && (member == "toLowerCase"@ || member == "toUpperCase"@) {
        Ok(TypeView::String)
    } else {
        Err(fault_about("Type has no member: "@, member))
    }
}

/// The built-in methods: case mapping on strings, without arguments.
pub open spec fn builtin_method_type(t: TypeView, method: Seq<char>, argc: nat) -> Result<
    TypeView,
    ErrorView,
> {
    if t == TypeView::String && (method == "toLowerCase"@ || method == "toUpperCase"@) {
        if argc == 0 {
            Ok(TypeView::String)
        } else {
            Err(fault_about("Method takes no arguments: "@, method))
        }
    } else {
        Err(fault_about("Type has no method: "@, method))
    }
}

/// The return type of the first signature from index `k` on whose
/// parameter types are exactly `args`.
pub open spec fn first_exact(sigs: Seq<FunctionTypeView>, k: nat, args: Seq<TypeView>) -> Option<
    TypeView,
>
    decreases sigs.len() - k,
{
    if k >= sigs.len() {
        None
    } else if sigs[k as int].parameter_types == args {
        Some(sigs[k as int].return_type)
    } else {
        first_exact(sigs, k + 1, args)
    }
}

/// The type of a call of `name`, whose overload set is `sigs`, on
/// arguments of the types `args`: with one overload its arity and types
/// must be those of the arguments; with several, the first whose parameter
/// types are exactly the argument types decides.
pub open spec fn call_type(name: Seq<char>, sigs: Seq<FunctionTypeView>, args: Seq<TypeView>)
    -> Result<TypeView, ErrorView> {
    if sigs.len() == 0 {
        Err(fault_about("Undefined function: "@, name))
    } else if sigs.len() == 1 {
        if sigs[0].parameter_types.len() != args.len() {
            Err(fault_about("Wrong number of arguments in call of "@, name))
        } else if sigs[0].parameter_types != args {
            Err(fault_about("Argument type mismatch in call of "@, name))
        } else {
            Ok(sigs[0].return_type)
        }
    } else {
        match first_exact(sigs, 0, args) {
            Some(t) => Ok(t),
            None => Err(fault_about("No matching overload in call of "@, name)),
        }
    }
}

/// The type of a match, given the common type of its arms.
pub open spec fn arms_type(arms: Result<Option<TypeView>, ErrorView>) -> Result<
    TypeView,
    ErrorView,
> {
    match arms {
        Err(e) => Err(e),
        Ok(Some(t)) => Ok(t),
        Ok(None) => Err(fault("Match expression has no arms"@)),
    }
}

/// The type of an expression under the locals and the environment, or the
/// type error that it has.
pub open spec fn check(e: ExprView, locals: Seq<LocalView>, env: TypeEnvView) -> Result<
    TypeView,
    ErrorView,
>
    decreases e, 0nat,
{
    match e {
        ExprView::Literal(l) => Ok(literal_type(l)),
        ExprView::Identifier(name) => match local_type(locals, name) {
            Some(t) => Ok(t),
            None => Err(fault_about("Undefined identifier: "@, name)),
        },
        ExprView::TypeLiteral(name) => if env.value(name) is Some {
            Ok(TypeView::Type)
        } else {
            Err(fault_about("Unknown value type: "@, name))
        },
        ExprView::Binary(op, l, r) => match check(*l, locals, env) {
            Err(e) => Err(e),
            Ok(lt) => match check(*r, locals, env) {
                Err(e) => Err(e),
                Ok(rt) => binary_type(op, lt, rt),
            },
        },
        ExprView::Unary(op, a) => match check(*a, locals, env) {
            Err(e) => Err(e),
            Ok(t) => unary_type(op, t),
        },
        ExprView::Comparison(op, l, r) => match check(*l, locals, env) {
            Err(e) => Err(e),
            Ok(lt) => match check(*r, locals, env) {
                Err(e) => Err(e),
                Ok(rt) => comparison_type(op, lt, rt),
            },
        },
        ExprView::MemberAccess(obj, member) => match check(*obj, locals, env) {
            Err(e) => Err(e),
            Ok(t) => member_type(t, member),
        },
        ExprView::FunctionCall(name, args) => if env.signatures(name).len() == 0 {
            Err(fault_about("Undefined function: "@, name))
        } else {
            match check_all(args, args.len(), locals, env) {
                Err(e) => Err(e),
                Ok(types) => call_type(name, env.signatures(name), types),
            }
        },
        ExprView::MethodCall(obj, method, args) => match check(*obj, locals, env) {
            Err(e) => Err(e),
            Ok(t) => match check_all(args, args.len(), locals, env) {
                Err(e) => Err(e),
                Ok(types) => if env.signatures(method).len() > 0 {
                    call_type(method, env.signatures(method), seq![t] + types)
                } else {
                    builtin_method_type(t, method, args.len())
                },
            },
        },
        ExprView::Pipeline(l, r) => match check(*l, locals, env) {
            Err(e) => Err(e),
            Ok(_) => check(*r, locals, env),
        },
        ExprView::Let(name, value, body) => match check(*value, locals, env) {
            Err(e) => Err(e),
            Ok(t) => check(*body, locals.push(LocalView { name, ty: t }), env),
        },
        ExprView::Match(scrutinee, arms) => match check(*scrutinee, locals, env) {
            Err(e) => Err(e),
            Ok(TypeView::Value(name)) => match env.value(name) {
                None => Err(fault_about("Unknown value type: "@, name)),
                Some(info) => arms_type(
                    check_arms(arms, arms.len(), name, info.parameter_type, locals, env),
                ),
            },
            Ok(_) => Err(fault("Can only match on value types"@)),
        },
    }
}

/// The types of the first `n` expressions, checked left to right; the
/// first error ends the check.
pub open spec fn check_all(
    args: Seq<ExprView>,
    n: nat,
    locals: Seq<LocalView>,
    env: TypeEnvView,
) -> Result<Seq<TypeView>, ErrorView>
    decreases args, n,
{
    if n == 0 || n > args.len() {
        Ok(Seq::empty())
    } else {
        match check_all(args, (n - 1) as nat, locals, env) {
            Err(e) => Err(e),
            Ok(types) => match check(args[n - 1], locals, env) {
                Err(e) => Err(e),
                Ok(t) => Ok(types.push(t)),
            },
        }
    }
}

/// The common type of the first `n` arms of a match on the value type
/// `constructor` with payload type `payload`; `None` for no arms. Each
/// arm must name the constructor, and binds its variable to the payload.
pub open spec fn check_arms(
    arms: Seq<MatchArmView>,
    n: nat,
    constructor: Seq<char>,
    payload: TypeView,
    locals: Seq<LocalView>,
    env: TypeEnvView,
) -> Result<Option<TypeView>, ErrorView>
    decreases arms, n,
{
    if n == 0 || n > arms.len() {
        Ok(None)
    } else {
        match check_arms(arms, (n - 1) as nat, constructor, payload, locals, env) {
            Err(e) => Err(e),
            Ok(before) => {
                let arm = arms[n - 1];
                if arm.constructor != constructor {
                    Err(fault_about("Pattern constructor does not match value type "@, constructor))
                } else {
                    match check(
                        arm.body,
                        locals.push(LocalView { name: arm.binding, ty: payload }),
                        env,
                    ) {
                        Err(e) => Err(e),
                        Ok(t) => match before {
                            None => Ok(Some(t)),
                            Some(p) => if p == t {
                                Ok(Some(p))
                            } else {
                                Err(fault("Match arms have different types"@))
                            },
                        },
                    }
                }
            },
        }
    }
}

/// Once an expression of a list has a type error, checking further
/// expressions changes nothing.
pub proof fn lemma_check_all_error_sticks(
    args: Seq<ExprView>,
    m: nat,
    n: nat,
    locals: Seq<LocalView>,
    env: TypeEnvView,
)
    requires
        1 <= m <= n <= args.len(),
        check_all(args, m, locals, env) is Err,
    ensures
        check_all(args, n, locals, env) == check_all(args, m, locals, env),
    decreases n,
{
    if m < n {
        lemma_check_all_error_sticks(args, m, (n - 1) as nat, locals, env);
    }
}

/// Once a match arm has a type error, checking further arms changes
/// nothing.
pub proof fn lemma_check_arms_error_sticks(
    arms: Seq<MatchArmView>,
    m: nat,
    n: nat,
    constructor: Seq<char>,
    payload: TypeView,
    locals: Seq<LocalView>,
    env: TypeEnvView,
)
    requires
        1 <= m <= n <= arms.len(),
        check_arms(arms, m, constructor, payload, locals, env) is Err,
    ensures
        check_arms(arms, n, constructor, payload, locals, env) == check_arms(
            arms,
            m,
            constructor,
            payload,
            locals,
            env,
        ),
    decreases n,
{
    if m < n {
        lemma_check_arms_error_sticks(arms, m, (n - 1) as nat, constructor, payload, locals, env);
    }
}

/// What the environment records of a value declaration.
pub open spec fn value_info(d: ValueDeclView) -> ValueTypeView {
    ValueTypeView {
        name: d.name,
        parameter_type: d.parameter.ty,
        validates: d.body.validate is Some,
        normalizes: d.body.normalize is Some,
        unique: d.body.unique == Some(true),
    }
}

/// An optional expression that must have the type `wanted`, with the
/// error that it has or else the error `otherwise`.
pub open spec fn clause_typed(
    clause: Option<ExprView>,
    wanted: TypeView,
    otherwise: Seq<char>,
    locals: Seq<LocalView>,
    env: TypeEnvView,
) -> Result<(), ErrorView> {
    match clause {
        None => Ok(()),
        Some(e) => match check(e, locals, env) {
            Err(x) => Err(x),
            Ok(t) => if t == wanted {
                Ok(())
            } else {
                Err(fault(otherwise))
            },
        },
    }
}

/// The rule for a value declaration: its name must be new, its validate
/// expression a `Bool` and its normalize expression of the parameter's
/// type, with the parameter in scope. The environment then records the
/// value type.
pub open spec fn check_value_declaration(d: ValueDeclView, env: TypeEnvView) -> Result<
    TypeEnvView,
    ErrorView,
> {
    if env.value(d.name) is Some {
        Err(fault_about("Value type is already defined: "@, d.name))
    } else {
        let locals = seq![LocalView { name: d.parameter.name, ty: d.parameter.ty }];
        match clause_typed(
            d.body.validate,
            TypeView::Bool,
            "Validation expression must return Bool"@,
            locals,
            env,
        ) {
            Err(e) => Err(e),
            Ok(_) => match clause_typed(
                d.body.normalize,
                d.parameter.ty,
                "Normalization expression must return the parameter type"@,
                locals,
                env,
            ) {
                Err(e) => Err(e),
                Ok(_) => Ok(env.with_value(d.name, value_info(d))),
            },
        }
    }
}

/// The parameters of a function as locals, in order.
pub open spec fn parameter_locals(params: Seq<GuardedParameterView>) -> Seq<LocalView> {
    Seq::new(params.len(), |i: int| LocalView { name: params[i].name, ty: params[i].ty })
}

/// The parameter type vector of a function.
pub open spec fn parameter_types(params: Seq<GuardedParameterView>) -> Seq<TypeView> {
    Seq::new(params.len(), |i: int| params[i].ty)
}

/// For each parameter, whether it has a guard.
pub open spec fn guard_flags(params: Seq<GuardedParameterView>) -> Seq<bool> {
    Seq::new(params.len(), |i: int| params[i].guard is Some)
}

/// Some parameter has a guard.
pub open spec fn has_guards(params: Seq<GuardedParameterView>) -> bool {
    exists|i: int| 0 <= i < params.len() && (#[trigger] params[i]).guard is Some
}

/// The guards of the first `n` parameters are of type `Bool`, checked in
/// order with all parameters in scope.
pub open spec fn guards_typed(
    params: Seq<GuardedParameterView>,
    n: nat,
    locals: Seq<LocalView>,
    env: TypeEnvView,
) -> Result<(), ErrorView>
    decreases n,
{
    if n == 0 || n > params.len() {
        Ok(())
    } else {
        match guards_typed(params, (n - 1) as nat, locals, env) {
            Err(e) => Err(e),
            Ok(_) => clause_typed(
                params[n - 1].guard,
                TypeView::Bool,
                "Function guard must return Bool"@,
                locals,
                env,
            ),
        }
    }
}

/// The new overload would stand beside an overload of the same name with
/// the same parameter types, neither of them guarded: dispatch could never
/// tell the two apart.
pub open spec fn clashes(sigs: Seq<FunctionTypeView>, types: Seq<TypeView>, guarded: bool)
    -> bool {
    !guarded && exists|k: int|
        0 <= k < sigs.len() && (#[trigger] sigs[k]).parameter_types == types
            && !sigs[k].guarded()
}

/// The signature that a function declaration has.
pub open spec fn signature_of(d: FunctionDeclView) -> FunctionTypeView {
    FunctionTypeView {
        name: d.name,
        parameter_types: parameter_types(d.parameters),
        return_type: d.return_type,
        guards: guard_flags(d.parameters),
    }
}

/// The rule for a function declaration: with the parameters in scope each
/// guard must be a `Bool` and the body must have exactly the declared
/// return type; and the new overload must not clash with an earlier one.
/// The environment then records its signature.
pub open spec fn check_function_declaration(d: FunctionDeclView, env: TypeEnvView) -> Result<
    TypeEnvView,
    ErrorView,
> {
    let locals = parameter_locals(d.parameters);
    match guards_typed(d.parameters, d.parameters.len(), locals, env) {
        Err(e) => Err(e),
        Ok(_) => match check(d.body, locals, env) {
            Err(e) => Err(e),
            Ok(t) => if t != d.return_type {
                Err(fault("Function body does not have the declared return type"@))
            } else if clashes(
                env.signatures(d.name),
                parameter_types(d.parameters),
                has_guards(d.parameters),
            ) {
                Err(
                    fault_about(
                        "Ambiguous declaration: same parameter types and no guard as an earlier "@,
                        d.name,
                    ),
                )
            } else {
                Ok(env.with_function(signature_of(d)))
            },
        },
    }
}

/// The rule for a declaration: a method is checked as the function that it
/// is.
pub open spec fn check_declaration(d: DeclarationView, env: TypeEnvView) -> Result<
    TypeEnvView,
    ErrorView,
> {
    match d {
        DeclarationView::Value(v) => check_value_declaration(v, env),
        DeclarationView::Function(f) => check_function_declaration(f, env),
        DeclarationView::Method(m) => check_function_declaration(m, env),
    }
}

/// The state of a check of declarations: the environment so far, and the
/// error that ended the check, if one did.
pub struct Checked {
    pub env: TypeEnvView,
    pub error: Option<ErrorView>,
}

/// The check of the first `n` declarations, one after the other, each in
/// the environment that the earlier ones left; the first error ends it.
pub open spec fn check_declarations(ds: Seq<DeclarationView>, n: nat, env: TypeEnvView) -> Checked
    decreases n,
{
    if n == 0 || n > ds.len() {
        Checked { env, error: None }
    } else {
        let before = check_declarations(ds, (n - 1) as nat, env);
        if before.error is Some {
            before
        } else {
            match check_declaration(ds[n - 1], before.env) {
                Ok(after) => Checked { env: after, error: None },
                Err(e) => Checked { env: before.env, error: Some(e) },
            }
        }
    }
}

/// Once a declaration has a type error, the check has ended.
pub proof fn lemma_check_declarations_error_sticks(
    ds: Seq<DeclarationView>,
    m: nat,
    n: nat,
    env: TypeEnvView,
)
    requires
        1 <= m <= n <= ds.len(),
        check_declarations(ds, m, env).error is Some,
    ensures
        check_declarations(ds, n, env) == check_declarations(ds, m, env),
    decreases n,
{
    if m < n {
        lemma_check_declarations_error_sticks(ds, m, (n - 1) as nat, env);
    }
}

/// Once a guard has a type error, checking further guards changes
/// nothing.
pub proof fn lemma_guards_error_sticks(
    params: Seq<GuardedParameterView>,
    m: nat,
    n: nat,
    locals: Seq<LocalView>,
    env: TypeEnvView,
)
    requires
        1 <= m <= n <= params.len(),
        guards_typed(params, m, locals, env) is Err,
    ensures
        guards_typed(params, n, locals, env) == guards_typed(params, m, locals, env),
    decreases n,
{
    if m < n {
        lemma_guards_error_sticks(params, m, (n - 1) as nat, locals, env);
    }
}

} // verus!
