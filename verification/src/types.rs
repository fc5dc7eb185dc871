//! The static types of the language and the environment that the type
//! checker fills.

use crate::text::str_equal;
use vstd::prelude::*;
use vstd::string::*;

verus! {

/// A static type. Equality is structural.
#[derive(Debug, PartialEq)]
pub enum Type {
    String,
    Int,
    Bool,
    /// A declared refinement type, by name.
    Value(String),
    /// The type of a type literal.
    Type,
    List(Box<Type>),
    /// Accepts every value.
    Any,
    /// Inference gave up.
    Unknown,
}

/// The mathematical content of a [`Type`].
pub enum TypeView {
    String,
    Int,
    Bool,
    Value(Seq<char>),
    Type,
    List(Box<TypeView>),
    Any,
    Unknown,
}

/// The mathematical content of a type.
pub open spec fn type_view(t: Type) -> TypeView
    decreases t,
{
    match t {
        Type::String => TypeView::String,
        Type::Int => TypeView::Int,
        Type::Bool => TypeView::Bool,
        Type::Value(name) => TypeView::Value(name@),
        Type::Type => TypeView::Type,
        Type::List(element) => TypeView::List(Box::new(type_view(*element))),
        Type::Any => TypeView::Any,
        Type::Unknown => TypeView::Unknown,
    }
}

impl View for Type {
    type V = TypeView;

    open spec fn view(&self) -> TypeView {
        type_view(*self)
    }
}

/// The views of a sequence of types, element by element.
pub open spec fn types_view(s: Seq<Type>) -> Seq<TypeView> {
    Seq::new(s.len(), |i: int| s[i]@)
}

/// A copy of a type.
pub fn clone_type(t: &Type) -> (r: Type)
    ensures
        r@ == t@,
    decreases t,
{
    match t {
        Type::String => Type::String,
        Type::Int => Type::Int,
        Type::Bool => Type::Bool,
        Type::Value(name) => Type::Value(name.clone()),
        Type::Type => Type::Type,
        Type::List(element) => Type::List(Box::new(clone_type(element))),
        Type::Any => Type::Any,
        Type::Unknown => Type::Unknown,
    }
}

impl Clone for Type {
    fn clone(&self) -> (r: Self)
        ensures
            r@ == self@,
    {
        clone_type(self)
    }
}

/// Structural equality of two types.
pub fn type_equals(a: &Type, b: &Type) -> (r: bool)
    ensures
        r == (a@ == b@),
    decreases a,
{
    match (a, b) {
        (Type::String, Type::String) => true,
        (Type::Int, Type::Int) => true,
        (Type::Bool, Type::Bool) => true,
        (Type::Value(x), Type::Value(y)) => str_equal(x.as_str(), y.as_str()),
        (Type::Type, Type::Type) => true,
        (Type::List(x), Type::List(y)) => type_equals(x, y),
        (Type::Any, Type::Any) => true,
        (Type::Unknown, Type::Unknown) => true,
        _ => false,
    }
}

/// Whether two lists of types are equal element by element.
pub fn types_equal(a: &Vec<Type>, b: &Vec<Type>) -> (r: bool)
    ensures
        r == (types_view(a@) == types_view(b@)),
{
    if a.len() != b.len() {
        assert(types_view(a@).len() != types_view(b@).len());
        return false;
    }
    let mut i: usize = 0;
    while i < a.len()
        invariant
            i <= a.len(),
            a.len() == b.len(),
            forall|k: int| 0 <= k < i ==> a@[k]@ == b@[k]@,
        decreases a.len() - i,
    {
        if !type_equals(&a[i], &b[i]) {
            assert(types_view(a@)[i as int] != types_view(b@)[i as int]);
            return false;
        }
        i = i + 1;
    }
    assert(types_view(a@) =~= types_view(b@));
    true
}

/// The signature of one overload of a function.
#[derive(Debug)]
pub struct FunctionType {
    pub name: String,
    pub parameter_types: Vec<Type>,
    pub return_type: Type,
    /// For each parameter, whether it has a guard.
    pub guards: Vec<bool>,
}

/// The mathematical content of a [`FunctionType`].
pub struct FunctionTypeView {
    pub name: Seq<char>,
    pub parameter_types: Seq<TypeView>,
    pub return_type: TypeView,
    pub guards: Seq<bool>,
}

impl FunctionTypeView {
    /// Some parameter of the overload has a guard.
    pub open spec fn guarded(self) -> bool {
        exists|i: int| 0 <= i < self.guards.len() && #[trigger] self.guards[i]
    }
}

impl View for FunctionType {
    type V = FunctionTypeView;

    open spec fn view(&self) -> FunctionTypeView {
        FunctionTypeView {
            name: self.name@,
            parameter_types: types_view(self.parameter_types@),
            return_type: self.return_type@,
            guards: self.guards@,
        }
    }
}

impl FunctionType {
    /// Whether some parameter of the overload has a guard.
    pub fn is_guarded(&self) -> (r: bool)
        ensures
            r == self@.guarded(),
    {
        let mut i: usize = 0;
        while i < self.guards.len()
            invariant
                i <= self.guards.len(),
                forall|k: int| 0 <= k < i ==> !(#[trigger] self.guards@[k]),
            decreases self.guards.len() - i,
        {
            if self.guards[i] {
                assert(self@.guards[i as int]);
                return true;
            }
            i = i + 1;
        }
        false
    }
}

/// The signature of a method: its types, and for each parameter the guard
/// that it has, if any.
#[derive(Debug)]
pub struct MethodSignature {
    pub parameter_types: Vec<Type>,
    pub return_type: Type,
    pub guards: Vec<Option<String>>,
}

/// The constraints that a value type declares.
#[derive(Debug)]
pub struct Constraints {
    pub validate: Option<String>,
    pub normalize: Option<String>,
    pub unique: bool,
}

/// What the type checker records of a value type.
#[derive(Debug)]
pub struct ValueType {
    pub name: String,
    pub parameter_type: Type,
    pub constraints: Constraints,
}

/// The mathematical content of a [`ValueType`]: of the constraints only
/// whether they are present.
pub struct ValueTypeView {
    pub name: Seq<char>,
    pub parameter_type: TypeView,
    pub validates: bool,
    pub normalizes: bool,
    pub unique: bool,
}

impl View for ValueType {
    type V = ValueTypeView;

    open spec fn view(&self) -> ValueTypeView {
        ValueTypeView {
            name: self.name@,
            parameter_type: self.parameter_type@,
            validates: self.constraints.validate is Some,
            normalizes: self.constraints.normalize is Some,
            unique: self.constraints.unique,
        }
    }
}

/// A value type under the name it was defined with.
pub struct ValueEntryView {
    pub name: Seq<char>,
    pub info: ValueTypeView,
}

/// The value type defined last under `name`, if any.
pub open spec fn find_value(entries: Seq<ValueEntryView>, name: Seq<char>) -> Option<
    ValueTypeView,
>
    decreases entries.len(),
{
    if entries.len() == 0 {
        None
    } else if entries.last().name == name {
        Some(entries.last().info)
    } else {
        find_value(entries.drop_last(), name)
    }
}

/// The signatures named `name` among `all`, in declaration order.
pub open spec fn signatures_named(all: Seq<FunctionTypeView>, name: Seq<char>) -> Seq<
    FunctionTypeView,
>
    decreases all.len(),
{
    if all.len() == 0 {
        Seq::empty()
    } else {
        let earlier = signatures_named(all.drop_last(), name);
        if all.last().name == name {
            earlier.push(all.last())
        } else {
            earlier
        }
    }
}

/// The mathematical content of a [`TypeEnvironment`].
pub struct TypeEnvView {
    pub values: Seq<ValueEntryView>,
    pub functions: Seq<FunctionTypeView>,
}

impl TypeEnvView {
    /// What is recorded of the value type `name`, if it is defined.
    pub open spec fn value(self, name: Seq<char>) -> Option<ValueTypeView> {
        find_value(self.values, name)
    }

    /// The overload set of `name`, in declaration order; empty if `name` is
    /// no function.
    pub open spec fn signatures(self, name: Seq<char>) -> Seq<FunctionTypeView> {
        signatures_named(self.functions, name)
    }

    /// The environment with one more value type.
    pub open spec fn with_value(self, name: Seq<char>, info: ValueTypeView) -> TypeEnvView {
        TypeEnvView { values: self.values.push(ValueEntryView { name, info }), ..self }
    }

    /// The environment with one more signature.
    pub open spec fn with_function(self, f: FunctionTypeView) -> TypeEnvView {
        TypeEnvView { functions: self.functions.push(f), ..self }
    }
}

struct ValueEntry {
    name: String,
    info: ValueType,
}

/// The declared value types and, per function name, the signatures of its
/// overloads in declaration order.
pub struct TypeEnvironment {
    values: Vec<ValueEntry>,
    functions: Vec<FunctionType>,
}

impl View for TypeEnvironment {
    type V = TypeEnvView;

    closed spec fn view(&self) -> TypeEnvView {
        TypeEnvView {
            values: Seq::new(
                self.values@.len(),
                |i: int|
                    ValueEntryView { name: self.values@[i].name@, info: self.values@[i].info@ },
            ),
            functions: Seq::new(self.functions@.len(), |i: int| self.functions@[i]@),
        }
    }
}

/// For each guard of a method signature, whether it is present.
pub open spec fn guard_presence(guards: Seq<Option<String>>) -> Seq<bool> {
    Seq::new(guards.len(), |i: int| guards[i] is Some)
}

impl TypeEnvironment {
    /// The empty environment.
    pub fn new() -> (r: TypeEnvironment)
        ensures
            r@.values == Seq::<ValueEntryView>::empty(),
            r@.functions == Seq::<FunctionTypeView>::empty(),
    {
        let r = TypeEnvironment { values: Vec::new(), functions: Vec::new() };
        assert(r@.values =~= Seq::<ValueEntryView>::empty());
        assert(r@.functions =~= Seq::<FunctionTypeView>::empty());
        r
    }

    /// Defines a value type under `name`; a later definition under the same
    /// name takes the earlier one's place.
    pub fn define_value(&mut self, name: String, value_type: ValueType)
        ensures
            final(self)@ == old(self)@.with_value(name@, value_type@),
    {
        self.values.push(ValueEntry { name, info: value_type });
        assert(self@.values =~= old(self)@.with_value(name@, value_type@).values);
        assert(self@.functions =~= old(self)@.functions);
    }

    /// What is recorded of the value type `name`, if it is defined.
    pub fn get_value(&self, name: &str) -> (r: Option<&ValueType>)
        ensures
            match r {
                Some(v) => self@.value(name@) == Some(v@),
                None => self@.value(name@) is None,
            },
    {
        let ghost entries = self@.values;
        let mut i: usize = self.values.len();
        assert(entries.take(i as int) =~= entries);
        while i > 0
            invariant
                i <= self.values.len(),
                entries == self@.values,
                find_value(entries, name@) == find_value(entries.take(i as int), name@),
            decreases i,
        {
            let entry = &self.values[i - 1];
            assert(entries.take(i as int).last() == entries[i - 1]);
            assert(entries.take(i as int).drop_last() =~= entries.take(i - 1));
            if str_equal(entry.name.as_str(), name) {
                return Some(&entry.info);
            }
            i = i - 1;
        }
        None
    }

    /// Appends the signature of an overload of `name` without guards.
    pub fn define_function(&mut self, name: String, parameter_types: Vec<Type>, return_type: Type)
        ensures
            final(self)@ == old(self)@.with_function(
                FunctionTypeView {
                    name: name@,
                    parameter_types: types_view(parameter_types@),
                    return_type: return_type@,
                    guards: Seq::new(parameter_types@.len(), |i: int| false),
                },
            ),
    {
        let mut guards: Vec<bool> = Vec::new();
        let mut i: usize = 0;
        while i < parameter_types.len()
            invariant
                i <= parameter_types.len(),
                guards.len() == i,
                forall|k: int| 0 <= k < i ==> !(#[trigger] guards@[k]),
            decreases parameter_types.len() - i,
        {
            guards.push(false);
            i = i + 1;
        }
        assert(guards@ =~= Seq::new(parameter_types@.len(), |i: int| false));
        self.functions.push(FunctionType { name, parameter_types, return_type, guards });
        assert(self@.functions =~= old(self)@.functions.push(
            FunctionTypeView {
                name: name@,
                parameter_types: types_view(parameter_types@),
                return_type: return_type@,
                guards: Seq::new(parameter_types@.len(), |i: int| false),
            },
        ));
        assert(self@.values =~= old(self)@.values);
    }

    /// The one signature of `name`, where its overload set has exactly one
    /// member.
    pub fn get_function(&self, name: &str) -> (r: Option<&FunctionType>)
        ensures
            match r {
                Some(f) => self@.signatures(name@) == seq![f@],
                None => self@.signatures(name@).len() != 1,
            },
    {
        let set = self.signatures(name);
        if set.len() == 1 {
            assert(self@.signatures(name@) =~= seq![set@[0]@]);
            Some(set[0])
        } else {
            None
        }
    }

    /// The overload set of `name` in declaration order.
    pub fn signatures(&self, name: &str) -> (r: Vec<&FunctionType>)
        ensures
            r@.len() == self@.signatures(name@).len(),
            forall|k: int| 0 <= k < r@.len() ==> (#[trigger] r@[k])@ == self@.signatures(name@)[k],
    {
        let ghost all = self@.functions;
        let mut out: Vec<&FunctionType> = Vec::new();
        let mut i: usize = 0;
        assert(all.take(0) =~= Seq::<FunctionTypeView>::empty());
        while i < self.functions.len()
            invariant
                i <= self.functions.len(),
                all == self@.functions,
                out@.len() == signatures_named(all.take(i as int), name@).len(),
                forall|k: int|
                    0 <= k < out@.len() ==> (#[trigger] out@[k])@ == signatures_named(
                        all.take(i as int),
                        name@,
                    )[k],
            decreases self.functions.len() - i,
        {
            let f = &self.functions[i];
            assert(all.take(i + 1).last() == all[i as int]);
            assert(all.take(i + 1).drop_last() =~= all.take(i as int));
            if str_equal(f.name.as_str(), name) {
                out.push(f);
            }
            i = i + 1;
        }
        assert(all.take(i as int) =~= all);
        out
    }

    /// The overload set of `name` in declaration order, where `name` is a
    /// function.
    pub fn get_functions(&self, name: &str) -> (r: Option<Vec<&FunctionType>>)
        ensures
            match r {
                Some(set) => set@.len() > 0 && set@.len() == self@.signatures(name@).len()
                    && forall|k: int|
                    0 <= k < set@.len() ==> (#[trigger] set@[k])@ == self@.signatures(name@)[k],
                None => self@.signatures(name@).len() == 0,
            },
    {
        let set = self.signatures(name);
        if set.len() > 0 {
            Some(set)
        } else {
            None
        }
    }

    /// Appends the signature of a method, which is an overload of the
    /// function `name`, with the presence of each guard.
    pub fn define_method(&mut self, name: String, signature: MethodSignature)
        ensures
            final(self)@ == old(self)@.with_function(
                FunctionTypeView {
                    name: name@,
                    parameter_types: types_view(signature.parameter_types@),
                    return_type: signature.return_type@,
                    guards: guard_presence(signature.guards@),
                },
            ),
    {
        let mut guards: Vec<bool> = Vec::new();
        let mut i: usize = 0;
        while i < signature.guards.len()
            invariant
                i <= signature.guards.len(),
                guards.len() == i,
                forall|k: int|
                    0 <= k < i ==> (#[trigger] guards@[k]) == (signature.guards@[k] is Some),
            decreases signature.guards.len() - i,
        {
            guards.push(signature.guards[i].is_some());
            i = i + 1;
        }
        assert(guards@ =~= guard_presence(signature.guards@));
        self.functions.push(
            FunctionType {
                name,
                parameter_types: signature.parameter_types,
                return_type: signature.return_type,
                guards,
            },
        );
        assert(self@.functions =~= old(self)@.functions.push(
            FunctionTypeView {
                name: name@,
                parameter_types: types_view(signature.parameter_types@),
                return_type: signature.return_type@,
                guards: guard_presence(signature.guards@),
            },
        ));
        assert(self@.values =~= old(self)@.values);
    }

    /// Methods are functions: there is no separate table of them.
    pub fn get_methods(&self, _name: &str) -> (r: Option<Vec<&MethodSignature>>)
        ensures
            r is None,
    {
        None
    }
}

} // verus!
