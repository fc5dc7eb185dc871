//! The standard library: the one built-in function `all`.

use crate::ast::{
    Expression, ExprView, FunctionDeclaration, FunctionDeclView, GuardedParameterView, Literal,
    LiteralView, ParameterWithGuard,
};
use crate::types::{Type, TypeView};
use crate::value::ValueRegistry;
use vstd::prelude::*;
use vstd::string::*;

verus! {

/// The declaration of `all(t: Type) -> List`. The evaluator answers calls
/// of `all` on a type itself; the body stands for that.
pub open spec fn all_declaration() -> FunctionDeclView {
    FunctionDeclView {
        name: "all"@,
        parameters: seq![GuardedParameterView { name: "t"@, ty: TypeView::Type, guard: None }],
        return_type: TypeView::List(Box::new(TypeView::Any)),
        body: ExprView::Literal(LiteralView::String("built-in"@)),
    }
}

/// Registers the standard library.
pub fn register_stdlib(registry: &mut ValueRegistry)
    requires
        old(registry).wf(),
    ensures
        final(registry).wf(),
        final(registry)@.definitions.functions == old(registry)@.definitions.functions.push(
            all_declaration(),
        ),
        final(registry)@.definitions.constructors == old(registry)@.definitions.constructors,
        final(registry)@.instances == old(registry)@.instances,
{
    register_all_function(registry);
}

/// Registers `all(t: Type) -> List`.
fn register_all_function(registry: &mut ValueRegistry)
    requires
        old(registry).wf(),
    ensures
        final(registry).wf(),
        final(registry)@.definitions.functions == old(registry)@.definitions.functions.push(
            all_declaration(),
        ),
        final(registry)@.definitions.constructors == old(registry)@.definitions.constructors,
        final(registry)@.instances == old(registry)@.instances,
{
    let mut parameters: Vec<ParameterWithGuard> = Vec::new();
    parameters.push(
        ParameterWithGuard { name: String::from_str("t"), ty: Type::Type, guard: None },
    );
    let all_function = FunctionDeclaration {
        name: String::from_str("all"),
        parameters,
        return_type: Type::List(Box::new(Type::Any)),
        body: Expression::Literal(Literal::String(String::from_str("built-in"))),
    };
    proof {
        reveal_with_fuel(crate::types::type_view, 2);
        assert(all_function@.parameters =~= all_declaration().parameters);
        assert(all_function@.return_type == all_declaration().return_type);
        assert(all_function@.body == all_declaration().body);
        assert(all_function@ == all_declaration());
    }
    registry.register_function(all_function);
}

} // verus!
