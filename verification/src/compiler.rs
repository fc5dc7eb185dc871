//! The compiler: it lowers the declarations of a program into a registry,
//! and evaluates expressions against what it has compiled.

use crate::ast::{
    Declaration, DeclarationView, Expression, ExprView, FunctionDeclaration, MethodDeclaration,
    Program, ValueDeclaration,
};
use crate::error::{as_error, Error, ErrorView, Fault, plain_fault, ValidationError};
use crate::evaluator::{
    Binding, bindings_view, evaluate_expression, EvalValue, MAX_CALL_DEPTH, public_result,
};
use crate::semantics::{BindingView, eval, reported, ValueView};
use crate::value::{
    ConstructorView, DefinitionsView, InstanceView, RegistryView, ValueConstructor, ValueRegistry,
};
use vstd::prelude::*;
use vstd::string::*;

verus! {

/// The definitions after a declaration has been compiled into them.
pub open spec fn compiled_declaration(d: DeclarationView, defs: DefinitionsView)
    -> DefinitionsView {
    match d {
        DeclarationView::Value(v) => DefinitionsView {
            constructors: defs.constructors.push(ConstructorView { name: v.name, declaration: v }),
            ..defs
        },
        DeclarationView::Function(f) => DefinitionsView {
            functions: defs.functions.push(f),
            ..defs
        },
        DeclarationView::Method(m) => DefinitionsView { functions: defs.functions.push(m), ..defs },
    }
}

/// The definitions after the first `n` declarations have been compiled
/// into them, in order.
pub open spec fn compiled(ds: Seq<DeclarationView>, n: nat, defs: DefinitionsView)
    -> DefinitionsView
    decreases n,
{
    if n == 0 || n > ds.len() {
        defs
    } else {
        compiled_declaration(ds[n - 1], compiled(ds, (n - 1) as nat, defs))
    }
}

/// A registry that grows by the programs compiled into it.
pub struct Compiler {
    registry: ValueRegistry,
    specialization_cache: crate::specialization::SpecializationCache,
}

impl Compiler {
    /// The registry that the compiler has filled.
    pub closed spec fn registry(&self) -> RegistryView {
        self.registry@
    }

    /// The registry of the compiler is well formed.
    pub closed spec fn wf(&self) -> bool {
        self.registry.wf()
    }

    /// A compiler with an empty registry.
    pub fn new() -> (r: Compiler)
        ensures
            r.wf(),
            r.registry().definitions.constructors == Seq::<ConstructorView>::empty(),
            r.registry().definitions.functions == Seq::<crate::ast::FunctionDeclView>::empty(),
            r.registry().instances == Seq::<InstanceView>::empty(),
    {
        Compiler {
            registry: ValueRegistry::new(),
            specialization_cache: crate::specialization::SpecializationCache::new(),
        }
    }

    /// The call sites specialized so far.
    pub closed spec fn specializations(&self) -> Seq<crate::specialization::SpecializedCallView> {
        self.specialization_cache@
    }

    /// Compiles the declarations of a program into the registry, in order:
    /// a value declaration registers its constructor, a function or method
    /// declaration joins the overload set of its name.
    pub fn compile_program(&mut self, program: &Program) -> (r: Result<(), Error>)
        requires
            old(self).wf(),
        ensures
            r is Ok,
            final(self).wf(),
            final(self).registry().definitions == compiled(
                program@.declarations,
                program@.declarations.len(),
                old(self).registry().definitions,
            ),
            final(self).registry().instances == old(self).registry().instances,
    {
        let ghost ds = program@.declarations;
        let ghost start = self.registry().definitions;
        let mut i: usize = 0;
        while i < program.declarations.len()
            invariant
                i <= program.declarations.len(),
                ds == program@.declarations,
                ds.len() == program.declarations.len(),
                self.wf(),
                self.registry().definitions == compiled(ds, i as nat, start),
                self.registry().instances == old(self).registry().instances,
            decreases program.declarations.len() - i,
        {
            assert(ds[i as int] == program.declarations@[i as int]@);
            let _ = self.compile_declaration(&program.declarations[i]);
            i = i + 1;
        }
        Ok(())
    }

    fn compile_declaration(&mut self, declaration: &Declaration) -> (r: Result<(), Error>)
        requires
            old(self).wf(),
        ensures
            r is Ok,
            final(self).wf(),
            final(self).registry().definitions == compiled_declaration(
                declaration@,
                old(self).registry().definitions,
            ),
            final(self).registry().instances == old(self).registry().instances,
    {
        match declaration {
            Declaration::Value(d) => self.compile_value_declaration(d),
            Declaration::Function(d) => self.compile_function_declaration(d),
            Declaration::Method(d) => self.compile_method_declaration(d),
        }
    }

    fn compile_value_declaration(&mut self, decl: &ValueDeclaration) -> (r: Result<(), Error>)
        requires
            old(self).wf(),
        ensures
            r is Ok,
            final(self).wf(),
            final(self).registry().definitions == compiled_declaration(
                DeclarationView::Value(decl@),
                old(self).registry().definitions,
            ),
            final(self).registry().instances == old(self).registry().instances,
    {
        let constructor = ValueConstructor { declaration: decl.clone() };
        self.registry.register(decl.name.clone(), constructor);
        Ok(())
    }

    fn compile_function_declaration(&mut self, decl: &FunctionDeclaration) -> (r: Result<
        (),
        Error,
    >)
        requires
            old(self).wf(),
        ensures
            r is Ok,
            final(self).wf(),
            final(self).registry().definitions == compiled_declaration(
                DeclarationView::Function(decl@),
                old(self).registry().definitions,
            ),
            final(self).registry().instances == old(self).registry().instances,
    {
        self.registry.register_function(decl.clone());
        Ok(())
    }

    fn compile_method_declaration(&mut self, decl: &MethodDeclaration) -> (r: Result<(), Error>)
        requires
            old(self).wf(),
        ensures
            r is Ok,
            final(self).wf(),
            final(self).registry().definitions == compiled_declaration(
                DeclarationView::Method(decl@),
                old(self).registry().definitions,
            ),
            final(self).registry().instances == old(self).registry().instances,
    {
        self.registry.register_method(decl.clone());
        Ok(())
    }

    /// The registry that the compiler has filled.
    pub fn get_registry(&self) -> (r: &ValueRegistry)
        ensures
            r@ == self.registry(),
            self.wf() ==> r.wf(),
    {
        &self.registry
    }

    /// The registry that the compiler has filled, for the caller to keep.
    pub fn into_registry(self) -> (r: ValueRegistry)
        ensures
            r@ == self.registry(),
            self.wf() ==> r.wf(),
    {
        self.registry
    }

    /// Constructs a value of the named type in the registry.
    pub fn construct(&mut self, value_type: &str, input: crate::value::Primitive) -> (r: Result<
        crate::value::Instance,
        Error,
    >)
        requires
            old(self).wf(),
        ensures
            final(self).wf(),
            final(self).registry().definitions == old(self).registry().definitions,
            ({
                let o = crate::semantics::construct(
                    value_type@,
                    input@,
                    old(self).registry().definitions,
                    old(self).registry().instances,
                    MAX_CALL_DEPTH as nat,
                );
                &&& match r {
                    Ok(instance) => o.result == Ok::<InstanceView, Fault>(instance@),
                    Err(e) => o.result is Err && e@ == as_error(o.result->Err_0),
                }
                &&& final(self).registry().instances == o.store
            }),
    {
        self.registry.construct(value_type, input)
    }

    /// Evaluates an expression against the registry, with no names bound.
    pub fn evaluate_expression(&mut self, expr: &Expression) -> (r: Result<EvalValue, Error>)
        requires
            old(self).wf(),
        ensures
            final(self).wf(),
            final(self).registry().definitions == old(self).registry().definitions,
            ({
                let o = eval(
                    expr@,
                    Seq::empty(),
                    old(self).registry().definitions,
                    old(self).registry().instances,
                    MAX_CALL_DEPTH as nat,
                );
                &&& public_result(r) == reported(o.result)
                &&& final(self).registry().instances == o.store
            }),
    {
        let context: Vec<Binding> = Vec::new();
        assert(bindings_view(context@) =~= Seq::<BindingView>::empty());
        evaluate_expression(expr, &context, &mut self.registry)
    }
}

impl Compiler {
    /// Specializes the call sites of an expression and evaluates it: the
    /// value is that of plain evaluation.
    pub fn evaluate_expression_with_optimization(&mut self, expr: &Expression) -> (r: Result<
        EvalValue,
        Error,
    >)
        requires
            old(self).wf(),
        ensures
            final(self).wf(),
            final(self).registry().definitions == old(self).registry().definitions,
            final(self).specializations() == crate::specialization::specialized(
                expr@,
                Seq::empty(),
                old(self).specializations(),
                old(self).registry().definitions,
            ),
            ({
                let o = eval(
                    expr@,
                    Seq::empty(),
                    old(self).registry().definitions,
                    old(self).registry().instances,
                    MAX_CALL_DEPTH as nat,
                );
                &&& public_result(r) == reported(o.result)
                &&& final(self).registry().instances == o.store
            }),
    {
        let type_env: Vec<crate::typechecker::Local> = Vec::new();
        assert(crate::typechecker::locals_view(type_env@) =~= Seq::<
            crate::typing::LocalView,
        >::empty());
        crate::specialization::specialize_function_calls(
            expr,
            &type_env,
            &mut self.specialization_cache,
            &self.registry,
        );
        let context: Vec<Binding> = Vec::new();
        assert(bindings_view(context@) =~= Seq::<BindingView>::empty());
        crate::optimized_evaluator::evaluate_expression_optimized(
            expr,
            &context,
            &mut self.registry,
            &self.specialization_cache,
            &type_env,
        )
    }
}

/// The bindings `context` with the parameter bound innermost.
pub open spec fn with_parameter(context: Seq<BindingView>, name: Seq<char>, value: ValueView)
    -> Seq<BindingView> {
    context.push(BindingView { name, value })
}

/// The value of an expression with one more name bound.
pub open spec fn eval_with_parameter(
    e: ExprView,
    name: Seq<char>,
    value: ValueView,
    context: Seq<BindingView>,
    registry: RegistryView,
) -> crate::semantics::Outcome<ValueView> {
    eval(
        e,
        with_parameter(context, name, value),
        registry.definitions,
        registry.instances,
        MAX_CALL_DEPTH as nat,
    )
}

fn evaluate_with_parameter(
    expr: &Expression,
    param_name: &str,
    value: EvalValue,
    context: &Vec<Binding>,
    registry: &mut ValueRegistry,
) -> (r: Result<EvalValue, Error>)
    requires
        old(registry).wf(),
    ensures
        final(registry).wf(),
        final(registry)@.definitions == old(registry)@.definitions,
        ({
            let o = eval_with_parameter(
                expr@,
                param_name@,
                value@,
                bindings_view(context@),
                old(registry)@,
            );
            &&& public_result(r) == reported(o.result)
            &&& final(registry)@.instances == o.store
        }),
{
    let mut inner: Vec<Binding> = Vec::new();
    let mut i: usize = 0;
    while i < context.len()
        invariant
            i <= context.len(),
            inner.len() == i,
            forall|k: int| 0 <= k < i ==> inner@[k]@ == context@[k]@,
        decreases context.len() - i,
    {
        inner.push(Binding { name: context[i].name.clone(), value: context[i].value.clone() });
        i = i + 1;
    }
    inner.push(Binding { name: String::from_str(param_name), value });
    assert(bindings_view(inner@) =~= with_parameter(bindings_view(context@), param_name@, value@));
    evaluate_expression(expr, &inner, registry)
}

/// Whether a validation result is the value `true`.
pub open spec fn holds(r: Result<ValueView, Fault>) -> Result<bool, ErrorView> {
    match r {
        Ok(ValueView::Boolean(b)) => Ok(b),
        Ok(_) => Ok(false),
        Err(f) => Err(as_error(f)),
    }
}

fn truth(r: Result<EvalValue, Error>) -> (t: Result<bool, Error>)
    ensures
        match r {
            Ok(EvalValue::Boolean(b)) => t == Ok::<bool, Error>(b),
            Ok(_) => t == Ok::<bool, Error>(false),
            Err(e) => t matches Err(x) && x@ == e@,
        },
{
    match r {
        Ok(EvalValue::Boolean(b)) => Ok(b),
        Ok(_) => Ok(false),
        Err(e) => Err(e),
    }
}

/// Whether a validate expression holds of a string payload: whether it
/// evaluates to `true` with the parameter bound to the payload.
pub fn evaluate_string_validation(
    value: &str,
    expr: &Expression,
    param_name: &str,
    registry: &mut ValueRegistry,
) -> (r: Result<bool, Error>)
    requires
        old(registry).wf(),
    ensures
        final(registry).wf(),
        final(registry)@.definitions == old(registry)@.definitions,
        ({
            let o = eval_with_parameter(
                expr@,
                param_name@,
                ValueView::String(value@),
                Seq::empty(),
                old(registry)@,
            );
            &&& match holds(o.result) {
                Ok(b) => r == Ok::<bool, Error>(b),
                Err(e) => r matches Err(x) && x@ == e,
            }
            &&& final(registry)@.instances == o.store
        }),
{
    let context: Vec<Binding> = Vec::new();
    assert(bindings_view(context@) =~= Seq::<BindingView>::empty());
    evaluate_string_validation_with_context(value, expr, param_name, &context, registry)
}

/// Whether a validate expression holds of a string payload, with further
/// names bound.
pub fn evaluate_string_validation_with_context(
    value: &str,
    expr: &Expression,
    param_name: &str,
    context: &Vec<Binding>,
    registry: &mut ValueRegistry,
) -> (r: Result<bool, Error>)
    requires
        old(registry).wf(),
    ensures
        final(registry).wf(),
        final(registry)@.definitions == old(registry)@.definitions,
        ({
            let o = eval_with_parameter(
                expr@,
                param_name@,
                ValueView::String(value@),
                bindings_view(context@),
                old(registry)@,
            );
            &&& match holds(o.result) {
                Ok(b) => r == Ok::<bool, Error>(b),
                Err(e) => r matches Err(x) && x@ == e,
            }
            &&& final(registry)@.instances == o.store
        }),
{
    truth(
        evaluate_with_parameter(
            expr,
            param_name,
            EvalValue::String(String::from_str(value)),
            context,
            registry,
        ),
    )
}

/// Whether a validate expression holds of an integer payload: whether it
/// evaluates to `true` with the parameter bound to the payload.
pub fn evaluate_int_validation(
    value: i64,
    expr: &Expression,
    param_name: &str,
    registry: &mut ValueRegistry,
) -> (r: Result<bool, Error>)
    requires
        old(registry).wf(),
    ensures
        final(registry).wf(),
        final(registry)@.definitions == old(registry)@.definitions,
        ({
            let o = eval_with_parameter(
                expr@,
                param_name@,
                ValueView::Integer(value),
                Seq::empty(),
                old(registry)@,
            );
            &&& match holds(o.result) {
                Ok(b) => r == Ok::<bool, Error>(b),
                Err(e) => r matches Err(x) && x@ == e,
            }
            &&& final(registry)@.instances == o.store
        }),
{
    let context: Vec<Binding> = Vec::new();
    assert(bindings_view(context@) =~= Seq::<BindingView>::empty());
    evaluate_int_validation_with_context(value, expr, param_name, &context, registry)
}

/// Whether a validate expression holds of an integer payload, with
/// further names bound.
pub fn evaluate_int_validation_with_context(
    value: i64,
    expr: &Expression,
    param_name: &str,
    context: &Vec<Binding>,
    registry: &mut ValueRegistry,
) -> (r: Result<bool, Error>)
    requires
        old(registry).wf(),
    ensures
        final(registry).wf(),
        final(registry)@.definitions == old(registry)@.definitions,
        ({
            let o = eval_with_parameter(
                expr@,
                param_name@,
                ValueView::Integer(value),
                bindings_view(context@),
                old(registry)@,
            );
            &&& match holds(o.result) {
                Ok(b) => r == Ok::<bool, Error>(b),
                Err(e) => r matches Err(x) && x@ == e,
            }
            &&& final(registry)@.instances == o.store
        }),
{
    truth(evaluate_with_parameter(expr, param_name, EvalValue::Integer(value), context, registry))
}

/// The value of an expression with the parameter bound to a string
/// payload.
pub fn evaluate_expression_to_value(
    expr: &Expression,
    param_value: &str,
    param_name: &str,
    context: &Vec<Binding>,
    registry: &mut ValueRegistry,
) -> (r: Result<EvalValue, Error>)
    requires
        old(registry).wf(),
    ensures
        final(registry).wf(),
        final(registry)@.definitions == old(registry)@.definitions,
        ({
            let o = eval_with_parameter(
                expr@,
                param_name@,
                ValueView::String(param_value@),
                bindings_view(context@),
                old(registry)@,
            );
            &&& public_result(r) == reported(o.result)
            &&& final(registry)@.instances == o.store
        }),
{
    evaluate_with_parameter(
        expr,
        param_name,
        EvalValue::String(String::from_str(param_value)),
        context,
        registry,
    )
}

/// The value of an expression with the parameter bound to an integer
/// payload.
pub fn evaluate_expression_to_value_int(
    expr: &Expression,
    param_value: i64,
    param_name: &str,
    context: &Vec<Binding>,
    registry: &mut ValueRegistry,
) -> (r: Result<EvalValue, Error>)
    requires
        old(registry).wf(),
    ensures
        final(registry).wf(),
        final(registry)@.definitions == old(registry)@.definitions,
        ({
            let o = eval_with_parameter(
                expr@,
                param_name@,
                ValueView::Integer(param_value),
                bindings_view(context@),
                old(registry)@,
            );
            &&& public_result(r) == reported(o.result)
            &&& final(registry)@.instances == o.store
        }),
{
    evaluate_with_parameter(expr, param_name, EvalValue::Integer(param_value), context, registry)
}

/// An evaluation result that must be an integer.
pub open spec fn as_integer(r: Result<ValueView, Fault>) -> Result<i64, ErrorView> {
    match r {
        Ok(ValueView::Integer(n)) => Ok(n),
        Ok(_) => Err(as_error(plain_fault("Cannot evaluate expression as integer"@))),
        Err(f) => Err(as_error(f)),
    }
}

/// An evaluation result that must be a string.
pub open spec fn as_text(r: Result<ValueView, Fault>) -> Result<Seq<char>, ErrorView> {
    match r {
        Ok(ValueView::String(s)) => Ok(s),
        Ok(_) => Err(as_error(plain_fault("Cannot evaluate expression as string"@))),
        Err(f) => Err(as_error(f)),
    }
}

/// The integer that an expression evaluates to with the parameter bound to
/// an integer payload.
pub fn evaluate_int_expr(
    expr: &Expression,
    param_value: i64,
    param_name: &str,
    context: &Vec<Binding>,
    registry: &mut ValueRegistry,
) -> (r: Result<i64, Error>)
    requires
        old(registry).wf(),
    ensures
        final(registry).wf(),
        final(registry)@.definitions == old(registry)@.definitions,
        ({
            let o = eval_with_parameter(
                expr@,
                param_name@,
                ValueView::Integer(param_value),
                bindings_view(context@),
                old(registry)@,
            );
            &&& match as_integer(o.result) {
                Ok(n) => r == Ok::<i64, Error>(n),
                Err(e) => r matches Err(x) && x@ == e,
            }
            &&& final(registry)@.instances == o.store
        }),
{
    match evaluate_with_parameter(
        expr,
        param_name,
        EvalValue::Integer(param_value),
        context,
        registry,
    ) {
        Ok(EvalValue::Integer(n)) => Ok(n),
        Ok(_) => Err(
            Error::from_validation(ValidationError::plain("Cannot evaluate expression as integer")),
        ),
        Err(e) => Err(e),
    }
}

/// The string that an expression evaluates to with the parameter bound to
/// a string payload.
pub fn evaluate_string_expr(
    expr: &Expression,
    param_value: &str,
    param_name: &str,
    context: &Vec<Binding>,
    registry: &mut ValueRegistry,
) -> (r: Result<String, Error>)
    requires
        old(registry).wf(),
    ensures
        final(registry).wf(),
        final(registry)@.definitions == old(registry)@.definitions,
        ({
            let o = eval_with_parameter(
                expr@,
                param_name@,
                ValueView::String(param_value@),
                bindings_view(context@),
                old(registry)@,
            );
            &&& match as_text(o.result) {
                Ok(s) => r matches Ok(v) && v@ == s,
                Err(e) => r matches Err(x) && x@ == e,
            }
            &&& final(registry)@.instances == o.store
        }),
{
    match evaluate_with_parameter(
        expr,
        param_name,
        EvalValue::String(String::from_str(param_value)),
        context,
        registry,
    ) {
        Ok(EvalValue::String(s)) => Ok(s),
        Ok(_) => Err(
            Error::from_validation(ValidationError::plain("Cannot evaluate expression as string")),
        ),
        Err(e) => Err(e),
    }
}

} // verus!
