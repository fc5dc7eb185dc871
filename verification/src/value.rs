//! Payloads, instances and the registry that owns value constructors,
//! function overloads and every instance ever constructed.

use crate::ast::{
    FunctionDeclaration, FunctionDeclView, MethodDeclaration, ValueDeclaration, ValueDeclView,
};
use crate::error::Error;
use crate::text::str_equal;
use vstd::prelude::*;
use vstd::string::*;

verus! {

/// The payload of a refinement type: one primitive value.
#[derive(Debug, PartialEq)]
pub enum Primitive {
    String(String),
    Integer(i64),
    Boolean(bool),
}

/// The mathematical content of a [`Primitive`].
pub enum PrimitiveView {
    String(Seq<char>),
    Integer(i64),
    Boolean(bool),
}

impl View for Primitive {
    type V = PrimitiveView;

    open spec fn view(&self) -> PrimitiveView {
        match self {
            Primitive::String(s) => PrimitiveView::String(s@),
            Primitive::Integer(n) => PrimitiveView::Integer(*n),
            Primitive::Boolean(b) => PrimitiveView::Boolean(*b),
        }
    }
}

impl Clone for Primitive {
    fn clone(&self) -> (r: Self)
        ensures
            r@ == self@,
    {
        match self {
            Primitive::String(s) => Primitive::String(s.clone()),
            Primitive::Integer(n) => Primitive::Integer(*n),
            Primitive::Boolean(b) => Primitive::Boolean(*b),
        }
    }
}

impl Primitive {
    /// Payload equality: equal kind and equal content.
    pub fn equals(&self, other: &Primitive) -> (r: bool)
        ensures
            r == (self@ == other@),
    {
        match (self, other) {
            (Primitive::String(a), Primitive::String(b)) => str_equal(a.as_str(), b.as_str()),
            (Primitive::Integer(a), Primitive::Integer(b)) => *a == *b,
            (Primitive::Boolean(a), Primitive::Boolean(b)) => *a == *b,
            _ => false,
        }
    }
}

/// A constructed value of a refinement type: the type's name, the name of
/// its one field and the validated payload.
#[derive(Debug, PartialEq)]
pub struct Instance {
    pub value_type: String,
    pub field: String,
    pub payload: Primitive,
}

/// The mathematical content of an [`Instance`].
pub struct InstanceView {
    pub value_type: Seq<char>,
    pub field: Seq<char>,
    pub payload: PrimitiveView,
}

impl View for Instance {
    type V = InstanceView;

    open spec fn view(&self) -> InstanceView {
        InstanceView { value_type: self.value_type@, field: self.field@, payload: self.payload@ }
    }
}

impl Clone for Instance {
    fn clone(&self) -> (r: Self)
        ensures
            r@ == self@,
    {
        Instance {
            value_type: self.value_type.clone(),
            field: self.field.clone(),
            payload: self.payload.clone(),
        }
    }
}

/// The text of a payload: a string as it is, an integer in decimal, a
/// boolean as `true` or `false`.
pub open spec fn primitive_text(p: PrimitiveView) -> Seq<char> {
    match p {
        PrimitiveView::String(s) => s,
        PrimitiveView::Integer(n) => crate::text::signed_decimal(n as int),
        PrimitiveView::Boolean(b) => if b {
            "true"@
        } else {
            "false"@
        },
    }
}

/// The text of an instance: the name of its type and, in parentheses, its
/// payload.
pub open spec fn instance_text(i: InstanceView) -> Seq<char> {
    i.value_type + "("@ + primitive_text(i.payload) + ")"@
}

/// The texts of the first `n` instances, separated by `, `.
pub open spec fn instances_text(items: Seq<InstanceView>, n: nat) -> Seq<char>
    decreases n,
{
    if n == 0 || n > items.len() {
        Seq::empty()
    } else if n == 1 {
        instance_text(items[0])
    } else {
        instances_text(items, (n - 1) as nat) + ", "@ + instance_text(items[n - 1])
    }
}

impl Primitive {
    /// The payload as text.
    pub fn to_string(&self) -> (r: String)
        ensures
            r@ == primitive_text(self@),
    {
        match self {
            Primitive::String(s) => s.clone(),
            Primitive::Integer(n) => crate::text::integer_string(*n),
            Primitive::Boolean(b) => if *b {
                String::from_str("true")
            } else {
                String::from_str("false")
            },
        }
    }
}

impl Instance {
    /// The instance as text.
    pub fn to_string(&self) -> (r: String)
        ensures
            r@ == instance_text(self@),
    {
        let payload = self.payload.to_string();
        let mut out = crate::text::concat2(self.value_type.as_str(), "(");
        out.append(payload.as_str());
        out.append(")");
        out
    }
}

/// The texts of the instances, separated by `, `.
pub fn instances_to_string(items: &Vec<Instance>) -> (r: String)
    ensures
        r@ == instances_text(instances_view(items@), items@.len()),
{
    let ghost views = instances_view(items@);
    let mut out = String::new();
    let mut i: usize = 0;
    while i < items.len()
        invariant
            i <= items.len(),
            views == instances_view(items@),
            out@ == instances_text(views, i as nat),
        decreases items.len() - i,
    {
        assert(views[i as int] == items@[i as int]@);
        let text = items[i].to_string();
        if i > 0 {
            out.append(", ");
            out.append(text.as_str());
        } else {
            out.append(text.as_str());
            assert(out@ =~= instance_text(views[0]));
        }
        i = i + 1;
    }
    out
}

/// The views of a sequence of instances, element by element.
pub open spec fn instances_view(s: Seq<Instance>) -> Seq<InstanceView> {
    Seq::new(s.len(), |i: int| s[i]@)
}

/// The instances of one type among `all`, in the order in which they stand.
pub open spec fn of_type(all: Seq<InstanceView>, value_type: Seq<char>) -> Seq<InstanceView>
    decreases all.len(),
{
    if all.len() == 0 {
        Seq::empty()
    } else {
        let earlier = of_type(all.drop_last(), value_type);
        if all.last().value_type == value_type {
            earlier.push(all.last())
        } else {
            earlier
        }
    }
}

/// Some instance among `items` has the payload `payload`.
pub open spec fn has_payload(items: Seq<InstanceView>, payload: PrimitiveView) -> bool {
    exists|i: int| 0 <= i < items.len() && #[trigger] items[i].payload == payload
}

/// No two instances among `items` have equal payloads.
pub open spec fn distinct_payloads(items: Seq<InstanceView>) -> bool {
    forall|i: int, j: int|
        0 <= i < j < items.len() ==> #[trigger] items[i].payload != #[trigger] items[j].payload
}

/// What a value declaration contributes to the registry. The validator and
/// the normalizer are the declaration's own expressions, interpreted at each
/// construction.
#[derive(Debug)]
pub struct ValueConstructor {
    pub declaration: ValueDeclaration,
}

/// A constructor under the name it was registered with.
pub struct ConstructorView {
    pub name: Seq<char>,
    pub declaration: ValueDeclView,
}

/// The declaration registered last under `name`, if any.
pub open spec fn find_constructor(entries: Seq<ConstructorView>, name: Seq<char>) -> Option<
    ValueDeclView,
>
    decreases entries.len(),
{
    if entries.len() == 0 {
        None
    } else if entries.last().name == name {
        Some(entries.last().declaration)
    } else {
        find_constructor(entries.drop_last(), name)
    }
}

/// The declarations named `name` among `all`, in declaration order.
pub open spec fn named(all: Seq<FunctionDeclView>, name: Seq<char>) -> Seq<FunctionDeclView>
    decreases all.len(),
{
    if all.len() == 0 {
        Seq::empty()
    } else {
        let earlier = named(all.drop_last(), name);
        if all.last().name == name {
            earlier.push(all.last())
        } else {
            earlier
        }
    }
}

/// The mathematical content of [`Definitions`].
pub struct DefinitionsView {
    pub constructors: Seq<ConstructorView>,
    pub functions: Seq<FunctionDeclView>,
}

impl DefinitionsView {
    /// The declaration of the value type `name`, if it is declared.
    pub open spec fn constructor(self, name: Seq<char>) -> Option<ValueDeclView> {
        find_constructor(self.constructors, name)
    }

    /// The overload set of `name`, in declaration order; empty if `name` is
    /// no function.
    pub open spec fn overloads(self, name: Seq<char>) -> Seq<FunctionDeclView> {
        named(self.functions, name)
    }
}

struct ConstructorEntry {
    name: String,
    constructor: ValueConstructor,
}

/// The declared part of a registry: value constructors and function
/// overloads. It grows while a program is compiled and is only read while
/// expressions are evaluated.
pub struct Definitions {
    constructors: Vec<ConstructorEntry>,
    functions: Vec<FunctionDeclaration>,
}

impl View for Definitions {
    type V = DefinitionsView;

    closed spec fn view(&self) -> DefinitionsView {
        DefinitionsView {
            constructors: Seq::new(
                self.constructors@.len(),
                |i: int|
                    ConstructorView {
                        name: self.constructors@[i].name@,
                        declaration: self.constructors@[i].constructor.declaration@,
                    },
            ),
            functions: Seq::new(self.functions@.len(), |i: int| self.functions@[i]@),
        }
    }
}

impl Definitions {
    /// No constructors and no functions.
    pub fn new() -> (r: Definitions)
        ensures
            r@.constructors == Seq::<ConstructorView>::empty(),
            r@.functions == Seq::<FunctionDeclView>::empty(),
    {
        let r = Definitions { constructors: Vec::new(), functions: Vec::new() };
        assert(r@.constructors =~= Seq::<ConstructorView>::empty());
        assert(r@.functions =~= Seq::<FunctionDeclView>::empty());
        r
    }

    /// Registers a constructor under `name`; a later registration under the
    /// same name takes the earlier one's place.
    pub fn add_constructor(&mut self, name: String, constructor: ValueConstructor)
        ensures
            final(self)@.constructors == old(self)@.constructors.push(
                ConstructorView { name: name@, declaration: constructor.declaration@ },
            ),
            final(self)@.functions == old(self)@.functions,
    {
        self.constructors.push(ConstructorEntry { name, constructor });
        assert(self@.constructors =~= old(self)@.constructors.push(
            ConstructorView { name: name@, declaration: constructor.declaration@ },
        ));
        assert(self@.functions =~= old(self)@.functions);
    }

    /// Appends a declaration to the overload set of its name.
    pub fn add_function(&mut self, declaration: FunctionDeclaration)
        ensures
            final(self)@.functions == old(self)@.functions.push(declaration@),
            final(self)@.constructors == old(self)@.constructors,
    {
        self.functions.push(declaration);
        assert(self@.functions =~= old(self)@.functions.push(declaration@));
        assert(self@.constructors =~= old(self)@.constructors);
    }

    /// The declaration of the value type `name`, if it is declared.
    pub fn constructor(&self, name: &str) -> (r: Option<&ValueConstructor>)
        ensures
            match r {
                Some(c) => self@.constructor(name@) == Some(c.declaration@),
                None => self@.constructor(name@) is None,
            },
    {
        let ghost entries = self@.constructors;
        let mut i: usize = self.constructors.len();
        assert(entries.take(i as int) =~= entries);
        while i > 0
            invariant
                i <= self.constructors.len(),
                entries == self@.constructors,
                find_constructor(entries, name@) == find_constructor(
                    entries.take(i as int),
                    name@,
                ),
            decreases i,
        {
            let entry = &self.constructors[i - 1];
            assert(entries.take(i as int).last() == entries[i - 1]);
            assert(entries.take(i as int).drop_last() =~= entries.take(i - 1));
            if str_equal(entry.name.as_str(), name) {
                return Some(&entry.constructor);
            }
            i = i - 1;
        }
        None
    }

    /// The overload set of `name`, in declaration order.
    pub fn overloads(&self, name: &str) -> (r: Vec<&FunctionDeclaration>)
        ensures
            r@.len() == self@.overloads(name@).len(),
            forall|k: int| 0 <= k < r@.len() ==> (#[trigger] r@[k])@ == self@.overloads(name@)[k],
    {
        let ghost all = self@.functions;
        let mut out: Vec<&FunctionDeclaration> = Vec::new();
        let mut i: usize = 0;
        assert(all.take(0) =~= Seq::<FunctionDeclView>::empty());
        while i < self.functions.len()
            invariant
                i <= self.functions.len(),
                all == self@.functions,
                out@.len() == named(all.take(i as int), name@).len(),
                forall|k: int|
                    0 <= k < out@.len() ==> (#[trigger] out@[k])@ == named(
                        all.take(i as int),
                        name@,
                    )[k],
            decreases self.functions.len() - i,
        {
            let f = &self.functions[i];
            assert(all.take(i + 1).last() == all[i as int]);
            assert(all.take(i + 1).drop_last() =~= all.take(i as int));
            if str_equal(f.name.as_str(), name) {
                out.push(f);
            }
            i = i + 1;
        }
        assert(all.take(i as int) =~= all);
        out
    }
}

/// The part of a registry that evaluation changes: every instance
/// constructed so far, in construction order.
pub struct RuntimeState {
    instances: Vec<Instance>,
    cache: Vec<CacheEntry>,
}

/// The key of a dispatch decision: the function's name and the signature of
/// each argument.
#[derive(Debug, PartialEq)]
pub struct DispatchKey {
    pub function_name: String,
    pub arg_type_signatures: Vec<String>,
}

struct CacheEntry {
    key: DispatchKey,
    target: usize,
}

/// A remembered dispatch decision: for this name and these signatures the
/// overload at index `target` of the set was chosen.
pub struct CacheEntryView {
    pub name: Seq<char>,
    pub signatures: Seq<Seq<char>>,
    pub target: int,
}

/// The decision remembered for a name and signatures among the entries
/// from index `k` on: that of the first entry with this key.
pub open spec fn recalled(
    cache: Seq<CacheEntryView>,
    k: nat,
    name: Seq<char>,
    signatures: Seq<Seq<char>>,
) -> Option<int>
    decreases cache.len() - k,
{
    if k >= cache.len() {
        None
    } else if cache[k as int].name == name && cache[k as int].signatures == signatures {
        Some(cache[k as int].target)
    } else {
        recalled(cache, k + 1, name, signatures)
    }
}

/// A decision that is recalled is the decision of an entry.
pub proof fn lemma_recalled_is_remembered(
    cache: Seq<CacheEntryView>,
    k: nat,
    name: Seq<char>,
    signatures: Seq<Seq<char>>,
)
    ensures
        recalled(cache, k, name, signatures) matches Some(t) ==> exists|j: int|
            0 <= j < cache.len() && #[trigger] cache[j] == (CacheEntryView {
                name,
                signatures,
                target: t,
            }),
    decreases cache.len() - k,
{
    if k < cache.len() {
        if cache[k as int].name == name && cache[k as int].signatures == signatures {
            assert(cache[k as int] == (CacheEntryView {
                name,
                signatures,
                target: cache[k as int].target,
            }));
        } else {
            lemma_recalled_is_remembered(cache, k + 1, name, signatures);
        }
    }
}

/// The views of a sequence of strings, element by element.
pub open spec fn strings_view(s: Seq<String>) -> Seq<Seq<char>> {
    Seq::new(s.len(), |i: int| s[i]@)
}

fn strings_equal(a: &Vec<String>, b: &Vec<String>) -> (r: bool)
    ensures
        r == (strings_view(a@) == strings_view(b@)),
{
    if a.len() != b.len() {
        assert(strings_view(a@).len() != strings_view(b@).len());
        return false;
    }
    let mut i: usize = 0;
    while i < a.len()
        invariant
            i <= a.len(),
            a.len() == b.len(),
            forall|k: int| 0 <= k < i ==> a@[k]@ == b@[k]@,
        decreases a.len() - i,
    {
        if !str_equal(a[i].as_str(), b[i].as_str()) {
            assert(strings_view(a@)[i as int] != strings_view(b@)[i as int]);
            return false;
        }
        i = i + 1;
    }
    assert(strings_view(a@) =~= strings_view(b@));
    true
}

impl View for RuntimeState {
    type V = Seq<InstanceView>;

    closed spec fn view(&self) -> Seq<InstanceView> {
        instances_view(self.instances@)
    }
}

impl RuntimeState {
    /// No instances.
    pub fn new() -> (r: RuntimeState)
        ensures
            r@ == Seq::<InstanceView>::empty(),
            r.cache() == Seq::<CacheEntryView>::empty(),
    {
        let r = RuntimeState { instances: Vec::new(), cache: Vec::new() };
        assert(r@ =~= Seq::<InstanceView>::empty());
        assert(r.cache() =~= Seq::<CacheEntryView>::empty());
        r
    }

    /// The dispatch decisions that are remembered.
    pub closed spec fn cache(&self) -> Seq<CacheEntryView> {
        Seq::new(
            self.cache@.len(),
            |i: int|
                CacheEntryView {
                    name: self.cache@[i].key.function_name@,
                    signatures: strings_view(self.cache@[i].key.arg_type_signatures@),
                    target: self.cache@[i].target as int,
                },
        )
    }

    /// Appends an instance.
    pub fn add_instance(&mut self, instance: Instance)
        ensures
            final(self)@ == old(self)@.push(instance@),
            final(self).cache() == old(self).cache(),
    {
        self.instances.push(instance);
        assert(self@ =~= old(self)@.push(instance@));
        assert(self.cache() =~= old(self).cache());
    }

    /// The decision remembered for a key, if there is one.
    pub fn cached_target(&self, key: &DispatchKey) -> (r: Option<usize>)
        ensures
            match r {
                Some(t) => recalled(
                    self.cache(),
                    0,
                    key.function_name@,
                    strings_view(key.arg_type_signatures@),
                ) == Some(t as int),
                None => recalled(
                    self.cache(),
                    0,
                    key.function_name@,
                    strings_view(key.arg_type_signatures@),
                ) is None,
            },
    {
        let ghost cache = self.cache();
        let ghost name = key.function_name@;
        let ghost signatures = strings_view(key.arg_type_signatures@);
        let mut i: usize = 0;
        while i < self.cache.len()
            invariant
                i <= self.cache.len(),
                cache == self.cache(),
                cache.len() == self.cache.len(),
                name == key.function_name@,
                signatures == strings_view(key.arg_type_signatures@),
                recalled(cache, 0, name, signatures) == recalled(cache, i as nat, name, signatures),
            decreases self.cache.len() - i,
        {
            let entry = &self.cache[i];
            assert(cache[i as int].name == entry.key.function_name@);
            assert(cache[i as int].signatures == strings_view(entry.key.arg_type_signatures@));
            assert(cache[i as int].target == entry.target);
            if str_equal(entry.key.function_name.as_str(), key.function_name.as_str())
                && strings_equal(&entry.key.arg_type_signatures, &key.arg_type_signatures) {
                return Some(entry.target);
            }
            i = i + 1;
        }
        None
    }

    /// Remembers a dispatch decision.
    pub fn remember_target(&mut self, key: DispatchKey, target: usize)
        ensures
            final(self)@ == old(self)@,
            final(self).cache() == old(self).cache().push(
                CacheEntryView {
                    name: key.function_name@,
                    signatures: strings_view(key.arg_type_signatures@),
                    target: target as int,
                },
            ),
    {
        self.cache.push(CacheEntry { key, target });
        assert(self@ =~= old(self)@);
        assert(self.cache() =~= old(self).cache().push(
            CacheEntryView {
                name: key.function_name@,
                signatures: strings_view(key.arg_type_signatures@),
                target: target as int,
            },
        ));
    }

    /// Forgets every remembered decision.
    pub fn forget_targets(&mut self)
        ensures
            final(self)@ == old(self)@,
            final(self).cache() == Seq::<CacheEntryView>::empty(),
    {
        self.cache = Vec::new();
        assert(self@ =~= old(self)@);
        assert(self.cache() =~= Seq::<CacheEntryView>::empty());
    }

    /// Every instance of the named type, in construction order.
    pub fn instances_of(&self, value_type: &str) -> (r: Vec<Instance>)
        ensures
            instances_view(r@) == of_type(self@, value_type@),
    {
        let ghost all = self@;
        let mut out: Vec<Instance> = Vec::new();
        let mut i: usize = 0;
        assert(all.take(0) =~= Seq::<InstanceView>::empty());
        assert(instances_view(out@) =~= Seq::<InstanceView>::empty());
        while i < self.instances.len()
            invariant
                i <= self.instances.len(),
                all == self@,
                all.len() == self.instances.len(),
                instances_view(out@) == of_type(all.take(i as int), value_type@),
            decreases self.instances.len() - i,
        {
            let item = &self.instances[i];
            assert(all.take(i + 1).last() == all[i as int]);
            assert(all.take(i + 1).drop_last() =~= all.take(i as int));
            if str_equal(item.value_type.as_str(), value_type) {
                let ghost before = instances_view(out@);
                let copy = item.clone();
                out.push(copy);
                assert(instances_view(out@) =~= before.push(all[i as int]));
            }
            i = i + 1;
        }
        assert(all.take(i as int) =~= all);
        out
    }

    /// The number of instances of the named type.
    pub fn count_of(&self, value_type: &str) -> (r: usize)
        ensures
            r == of_type(self@, value_type@).len(),
    {
        let ghost all = self@;
        let mut n: usize = 0;
        let mut i: usize = 0;
        assert(all.take(0) =~= Seq::<InstanceView>::empty());
        while i < self.instances.len()
            invariant
                i <= self.instances.len(),
                all == self@,
                all.len() == self.instances.len(),
                n == of_type(all.take(i as int), value_type@).len(),
                n <= i,
            decreases self.instances.len() - i,
        {
            let item = &self.instances[i];
            assert(all.take(i + 1).last() == all[i as int]);
            assert(all.take(i + 1).drop_last() =~= all.take(i as int));
            if str_equal(item.value_type.as_str(), value_type) {
                n = n + 1;
            }
            i = i + 1;
        }
        assert(all.take(i as int) =~= all);
        n
    }

    /// Whether some instance of the named type has the given payload.
    pub fn holds_payload(&self, value_type: &str, payload: &Primitive) -> (r: bool)
        ensures
            r == has_payload(of_type(self@, value_type@), payload@),
    {
        let ghost all = self@;
        let mut i: usize = 0;
        assert(all.take(0) =~= Seq::<InstanceView>::empty());
        while i < self.instances.len()
            invariant
                i <= self.instances.len(),
                all == self@,
                all.len() == self.instances.len(),
                !has_payload(of_type(all.take(i as int), value_type@), payload@),
            decreases self.instances.len() - i,
        {
            let item = &self.instances[i];
            let ghost earlier = of_type(all.take(i as int), value_type@);
            assert(all.take(i + 1).last() == all[i as int]);
            assert(all.take(i + 1).drop_last() =~= all.take(i as int));
            if str_equal(item.value_type.as_str(), value_type) {
                if item.payload.equals(payload) {
                    proof {
                        lemma_of_type_prefix(all, (i + 1) as int, value_type@);
                        let later = of_type(all.take(i + 1), value_type@);
                        let whole = of_type(all, value_type@);
                        assert(later[later.len() - 1].payload == payload@);
                        assert(whole[later.len() - 1].payload == payload@);
                    }
                    return true;
                }
                proof {
                    let later = earlier.push(all[i as int]);
                    assert forall|k: int| 0 <= k < later.len() implies #[trigger] later[k].payload
                        != payload@ by {
                        if k < earlier.len() {
                            assert(earlier[k].payload != payload@);
                        }
                    }
                }
            }
            i = i + 1;
        }
        assert(all.take(i as int) =~= all);
        false
    }
}

/// The instances of a type among a prefix are a prefix of those among the
/// whole.
pub proof fn lemma_of_type_prefix(all: Seq<InstanceView>, n: int, value_type: Seq<char>)
    requires
        0 <= n <= all.len(),
    ensures
        of_type(all.take(n), value_type).len() <= of_type(all, value_type).len(),
        forall|k: int|
            0 <= k < of_type(all.take(n), value_type).len() ==> of_type(all.take(n), value_type)[k]
                == of_type(all, value_type)[k],
    decreases all.len() - n,
{
    if n == all.len() {
        assert(all.take(n) =~= all);
    } else {
        lemma_of_type_prefix(all, n + 1, value_type);
        assert(all.take(n + 1).last() == all[n]);
        assert(all.take(n + 1).drop_last() =~= all.take(n));
    }
}

/// The mathematical content of a [`ValueRegistry`].
pub struct RegistryView {
    pub definitions: DefinitionsView,
    /// Every instance constructed so far, in construction order.
    pub instances: Seq<InstanceView>,
}

impl RegistryView {
    /// The instances of the named type, in construction order.
    pub open spec fn instances_of(self, value_type: Seq<char>) -> Seq<InstanceView> {
        of_type(self.instances, value_type)
    }
}

/// The registry: value constructors, function overloads, and every
/// instance constructed so far.
pub struct ValueRegistry {
    definitions: Definitions,
    state: RuntimeState,
}

impl View for ValueRegistry {
    type V = RegistryView;

    closed spec fn view(&self) -> RegistryView {
        RegistryView { definitions: self.definitions@, instances: self.state@ }
    }
}

impl ValueRegistry {
    /// The remembered dispatch decisions agree with the registered
    /// overloads.
    pub closed spec fn wf(&self) -> bool {
        crate::semantics::cache_sound(self.state.cache(), self.definitions@)
    }

    /// The empty registry.
    pub fn new() -> (r: ValueRegistry)
        ensures
            r.wf(),
            r@.definitions.constructors == Seq::<ConstructorView>::empty(),
            r@.definitions.functions == Seq::<FunctionDeclView>::empty(),
            r@.instances == Seq::<InstanceView>::empty(),
    {
        ValueRegistry { definitions: Definitions::new(), state: RuntimeState::new() }
    }

    /// Registers a value constructor under `name`; a later registration
    /// under the same name takes the earlier one's place.
    pub fn register(&mut self, name: String, constructor: ValueConstructor)
        requires
            old(self).wf(),
        ensures
            final(self).wf(),
            final(self)@.definitions.constructors == old(self)@.definitions.constructors.push(
                ConstructorView { name: name@, declaration: constructor.declaration@ },
            ),
            final(self)@.definitions.constructor(name@) == Some(constructor.declaration@),
            final(self)@.definitions.functions == old(self)@.definitions.functions,
            final(self)@.instances == old(self)@.instances,
    {
        proof {
            let pushed = old(self)@.definitions.constructors.push(
                ConstructorView { name: name@, declaration: constructor.declaration@ },
            );
            assert(pushed.last().name == name@);
        }
        self.definitions.add_constructor(name, constructor);
    }

    /// Appends a declaration to the overload set of its name. Remembered
    /// dispatch decisions are forgotten.
    pub fn register_function(&mut self, func_decl: FunctionDeclaration)
        requires
            old(self).wf(),
        ensures
            final(self).wf(),
            final(self)@.definitions.functions == old(self)@.definitions.functions.push(
                func_decl@,
            ),
            final(self)@.definitions.overloads(func_decl@.name) == old(
                self,
            )@.definitions.overloads(func_decl@.name).push(func_decl@),
            final(self)@.definitions.constructors == old(self)@.definitions.constructors,
            final(self)@.instances == old(self)@.instances,
    {
        proof {
            let pushed = old(self)@.definitions.functions.push(func_decl@);
            assert(pushed.drop_last() =~= old(self)@.definitions.functions);
        }
        self.state.forget_targets();
        self.definitions.add_function(func_decl);
    }

    /// Registers a method declaration as the function that it is.
    pub fn register_method(&mut self, method_decl: MethodDeclaration)
        requires
            old(self).wf(),
        ensures
            final(self).wf(),
            final(self)@.definitions.functions == old(self)@.definitions.functions.push(
                method_decl@,
            ),
            final(self)@.definitions.constructors == old(self)@.definitions.constructors,
            final(self)@.instances == old(self)@.instances,
    {
        let func_decl = FunctionDeclaration {
            name: method_decl.name,
            parameters: method_decl.parameters,
            return_type: method_decl.return_type,
            body: method_decl.body,
        };
        self.register_function(func_decl);
    }

    /// The declaration of the value type `name`, if it is declared.
    pub fn get_constructor(&self, name: &str) -> (r: Option<&ValueConstructor>)
        ensures
            match r {
                Some(c) => self@.definitions.constructor(name@) == Some(c.declaration@),
                None => self@.definitions.constructor(name@) is None,
            },
    {
        self.definitions.constructor(name)
    }

    /// The one declaration of `name`, where its overload set has exactly
    /// one member.
    pub fn get_function(&self, name: &str) -> (r: Option<&FunctionDeclaration>)
        ensures
            match r {
                Some(f) => self@.definitions.overloads(name@) == seq![f@],
                None => self@.definitions.overloads(name@).len() != 1,
            },
    {
        let set = self.definitions.overloads(name);
        if set.len() == 1 {
            assert(self@.definitions.overloads(name@) =~= seq![set@[0]@]);
            Some(set[0])
        } else {
            None
        }
    }

    /// The overload set of `name` in declaration order, where `name` is a
    /// function.
    pub fn get_functions(&self, name: &str) -> (r: Option<Vec<&FunctionDeclaration>>)
        ensures
            match r {
                Some(set) => set@.len() > 0 && crate::evaluator::decls_view(set@)
                    == self@.definitions.overloads(name@),
                None => self@.definitions.overloads(name@).len() == 0,
            },
    {
        let set = self.definitions.overloads(name);
        if set.len() > 0 {
            assert(crate::evaluator::decls_view(set@) =~= self@.definitions.overloads(name@));
            Some(set)
        } else {
            None
        }
    }

    /// Methods are functions: there is no separate table of them.
    pub fn get_methods(&self, _name: &str) -> (r: Option<Vec<&MethodDeclaration>>)
        ensures
            r is None,
    {
        None
    }

    /// Calls the function `name` on argument values by multiple dispatch.
    pub fn execute_function(&mut self, name: &str, args: Vec<crate::evaluator::EvalValue>) -> (r:
        Result<crate::evaluator::EvalValue, Error>)
        requires
            old(self).wf(),
        ensures
            final(self).wf(),
            final(self)@.definitions == old(self)@.definitions,
            ({
                let fs = old(self)@.definitions.overloads(name@);
                let o = if fs.len() == 0 {
                    crate::semantics::Outcome {
                        result: Err(
                            crate::error::named_fault("Unknown function: "@, name@, "function"@),
                        ),
                        store: old(self)@.instances,
                    }
                } else {
                    crate::semantics::dispatch(
                        name@,
                        fs,
                        crate::evaluator::values_view(args@),
                        old(self)@.definitions,
                        old(self)@.instances,
                        crate::evaluator::MAX_CALL_DEPTH as nat,
                    )
                };
                &&& crate::evaluator::public_result(r) == crate::semantics::reported(o.result)
                &&& final(self)@.instances == o.store
            }),
    {
        let set = self.definitions.overloads(name);
        if set.len() == 0 {
            return Err(
                Error::from_validation(
                    crate::error::ValidationError::named(
                        "Unknown function: ",
                        name,
                        String::from_str("function"),
                    ),
                ),
            );
        }
        assert(crate::evaluator::decls_view(set@) =~= self@.definitions.overloads(name@));
        match crate::evaluator::dispatch_function(
            name,
            &set,
            &args,
            &self.definitions,
            &mut self.state,
            crate::evaluator::MAX_CALL_DEPTH,
        ) {
            Ok(v) => Ok(v),
            Err(f) => Err(Error::from_validation(f)),
        }
    }

    /// Constructs a value of the named type: the new instance, appended to
    /// the instances of its type, or the validation error that
    /// [`crate::semantics::construct`] gives.
    pub fn construct(&mut self, value_type: &str, input: Primitive) -> (r: Result<Instance, Error>)
        requires
            old(self).wf(),
        ensures
            final(self).wf(),
            final(self)@.definitions == old(self)@.definitions,
            ({
                let o = crate::semantics::construct(
                    value_type@,
                    input@,
                    old(self)@.definitions,
                    old(self)@.instances,
                    crate::evaluator::MAX_CALL_DEPTH as nat,
                );
                &&& match r {
                    Ok(instance) => o.result == Ok::<InstanceView, crate::error::Fault>(instance@),
                    Err(e) => o.result is Err && e@ == crate::error::as_error(o.result->Err_0),
                }
                &&& final(self)@.instances == o.store
            }),
    {
        match crate::evaluator::construct_value(
            value_type,
            input,
            &self.definitions,
            &mut self.state,
            crate::evaluator::MAX_CALL_DEPTH,
        ) {
            Ok(instance) => Ok(instance),
            Err(f) => Err(Error::from_validation(f)),
        }
    }

    /// Evaluates an expression with the names of `context` bound.
    pub fn evaluate(
        &mut self,
        expr: &crate::ast::Expression,
        context: &Vec<crate::evaluator::Binding>,
    ) -> (r: Result<crate::evaluator::EvalValue, Error>)
        requires
            old(self).wf(),
        ensures
            final(self).wf(),
            final(self)@.definitions == old(self)@.definitions,
            ({
                let o = crate::semantics::eval(
                    expr@,
                    crate::evaluator::bindings_view(context@),
                    old(self)@.definitions,
                    old(self)@.instances,
                    crate::evaluator::MAX_CALL_DEPTH as nat,
                );
                &&& crate::evaluator::public_result(r) == crate::semantics::reported(o.result)
                &&& final(self)@.instances == o.store
            }),
    {
        match crate::evaluator::eval_expr(
            expr,
            context,
            &self.definitions,
            &mut self.state,
            crate::evaluator::MAX_CALL_DEPTH,
        ) {
            Ok(v) => Ok(v),
            Err(f) => Err(Error::from_validation(f)),
        }
    }

    /// Every instance of the named type, in construction order.
    pub fn get_all_instances(&self, value_type: &str) -> (r: Vec<Instance>)
        ensures
            instances_view(r@) == self@.instances_of(value_type@),
    {
        self.state.instances_of(value_type)
    }

    /// The number of instances of the named type.
    pub fn count_instances(&self, value_type: &str) -> (r: usize)
        ensures
            r == self@.instances_of(value_type@).len(),
    {
        self.state.count_of(value_type)
    }
}

/// What every value object offers, whatever its type.
pub trait ValueObject {
    /// The name of the value's type.
    spec fn type_label(&self) -> Seq<char>;

    /// The value as text: the name of its type and, in parentheses, its
    /// content.
    spec fn text(&self) -> Seq<char>;

    /// Whether the value satisfies the rule of its type.
    fn validate(&self) -> Result<(), Error>;

    /// Brings the value into the normal form of its type.
    fn normalize(&mut self) -> Result<(), Error>;

    /// The name of the value's type.
    fn value_type_name(&self) -> (r: String)
        ensures
            r@ == self.type_label(),
    ;

    /// The value as text.
    fn to_text(&self) -> (r: String)
        ensures
            r@ == self.text(),
    ;

    /// A hash of the value as text.
    fn hash_value(&self) -> (r: u64)
        ensures
            r == crate::text::text_hash(self.text()),
    ;
}

/// Whether two value objects have the same type and the same content:
/// the same type name and the same text.
pub fn values_equal(a: &dyn ValueObject, b: &dyn ValueObject) -> (r: bool)
    ensures
        r == (a.type_label() == b.type_label() && a.text() == b.text()),
{
    let left_name = a.value_type_name();
    let right_name = b.value_type_name();
    let left_text = a.to_text();
    let right_text = b.to_text();
    str_equal(left_name.as_str(), right_name.as_str()) && str_equal(
        left_text.as_str(),
        right_text.as_str(),
    )
}

impl ValueObject for Instance {
    open spec fn type_label(&self) -> Seq<char> {
        self@.value_type
    }

    open spec fn text(&self) -> Seq<char> {
        instance_text(self@)
    }

    /// An instance was validated when it was constructed.
    fn validate(&self) -> (r: Result<(), Error>)
        ensures
            r is Ok,
    {
        Ok(())
    }

    /// An instance was normalized when it was constructed.
    fn normalize(&mut self) -> (r: Result<(), Error>)
        ensures
            r is Ok,
            *final(self) == *old(self),
    {
        Ok(())
    }

    fn value_type_name(&self) -> (r: String) {
        self.value_type.clone()
    }

    fn to_text(&self) -> (r: String) {
        self.to_string()
    }

    fn hash_value(&self) -> (r: u64) {
        let text = self.to_string();
        crate::text::hash_text(text.as_str())
    }
}

/// What an email address must be: it holds an `@` and more than three
/// characters.
pub open spec fn valid_email(raw: Seq<char>) -> bool {
    crate::text::has_substring(raw, seq!['@']) && raw.len() > 3
}

/// The text of an email address as a value object.
pub open spec fn email_text(value: Seq<char>) -> Seq<char> {
    "EmailAddress("@ + value + ")"@
}

/// The error for a text that is no email address.
pub open spec fn invalid_email() -> crate::error::ErrorView {
    crate::error::ErrorView::Validation {
        message: "Invalid email address"@,
        value_type: "EmailAddress"@,
    }
}

/// An email address in lower case: a value type written by hand.
#[derive(Debug, PartialEq, Eq, Hash)]
pub struct EmailAddress {
    value: String,
}

impl Clone for EmailAddress {
    fn clone(&self) -> (r: Self)
        ensures
            r@ == self@,
    {
        EmailAddress { value: self.value.clone() }
    }
}

impl View for EmailAddress {
    type V = Seq<char>;

    closed spec fn view(&self) -> Seq<char> {
        self.value@
    }
}

fn is_valid_email(raw: &str) -> (r: bool)
    ensures
        r == valid_email(raw@),
{
    proof {
        reveal_strlit("@");
        assert("@"@ =~= seq!['@']);
    }
    crate::text::contains_text(raw, "@") && raw.unicode_len() > 3
}

fn invalid_email_error() -> (r: Error)
    ensures
        r@ == invalid_email(),
{
    Error::validation(String::from_str("Invalid email address"), String::from_str("EmailAddress"))
}

impl EmailAddress {
    /// The address of a valid text, in lower case; a validation error for
    /// any other text.
    pub fn from(raw: String) -> (r: Result<EmailAddress, Error>)
        ensures
            match r {
                Ok(e) => valid_email(raw@) && e@ == crate::text::lowercase_of(raw@),
                Err(x) => !valid_email(raw@) && x@ == invalid_email(),
            },
    {
        if !is_valid_email(raw.as_str()) {
            return Err(invalid_email_error());
        }
        Ok(EmailAddress { value: crate::text::to_lowercase(raw.as_str()) })
    }

    /// The address.
    pub fn value(&self) -> (r: &str)
        ensures
            r@ == self@,
    {
        self.value.as_str()
    }

    /// The address as text: `EmailAddress(` and `)` around it.
    pub fn to_string(&self) -> (r: String)
        ensures
            r@ == email_text(self@),
    {
        crate::text::concat3("EmailAddress(", self.value.as_str(), ")")
    }

    /// Whether the address is valid as it stands.
    pub fn is_valid(&self) -> (r: bool)
        ensures
            r == valid_email(self@),
    {
        is_valid_email(self.value.as_str())
    }

    /// Whether the other value object is an email address with the same
    /// content.
    pub fn equals(&self, other: &dyn ValueObject) -> (r: bool)
        ensures
            r == (other.type_label() == "EmailAddress"@ && other.text() == email_text(self@)),
    {
        let name = other.value_type_name();
        let theirs = other.to_text();
        let mine = self.to_string();
        str_equal(name.as_str(), "EmailAddress") && str_equal(theirs.as_str(), mine.as_str())
    }

    /// The hash of the address as text.
    pub fn hash_code(&self) -> (r: u64)
        ensures
            r == crate::text::text_hash(email_text(self@)),
    {
        let text = self.to_string();
        crate::text::hash_text(text.as_str())
    }
}

impl ValueObject for EmailAddress {
    open spec fn type_label(&self) -> Seq<char> {
        "EmailAddress"@
    }

    open spec fn text(&self) -> Seq<char> {
        email_text(self@)
    }

    fn validate(&self) -> (r: Result<(), Error>)
        ensures
            match r {
                Ok(_) => valid_email(self@),
                Err(x) => !valid_email(self@) && x@ == invalid_email(),
            },
    {
        if self.is_valid() {
            Ok(())
        } else {
            Err(invalid_email_error())
        }
    }

    fn normalize(&mut self) -> (r: Result<(), Error>)
        ensures
            r is Ok,
            final(self)@ == crate::text::lowercase_of(old(self)@),
    {
        self.value = crate::text::to_lowercase(self.value.as_str());
        Ok(())
    }

    fn value_type_name(&self) -> (r: String) {
        String::from_str("EmailAddress")
    }

    fn to_text(&self) -> (r: String) {
        self.to_string()
    }

    fn hash_value(&self) -> (r: u64) {
        self.hash_code()
    }
}

} // verus!
