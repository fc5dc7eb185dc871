//! The list of instances that `all` returns.

use crate::value::{Instance, instances_view, InstanceView};
use vstd::prelude::*;
use vstd::string::*;

verus! {

/// Instances of one type, in insertion order.
#[derive(Debug, PartialEq)]
pub struct List {
    pub items: Vec<Instance>,
    /// The name of the type of the elements.
    pub element_type: String,
}

/// The mathematical content of a [`List`].
pub struct ListView {
    pub items: Seq<InstanceView>,
    pub element_type: Seq<char>,
}

impl View for List {
    type V = ListView;

    open spec fn view(&self) -> ListView {
        ListView { items: instances_view(self.items@), element_type: self.element_type@ }
    }
}

/// A copy of a list of instances.
pub fn clone_instances(v: &Vec<Instance>) -> (r: Vec<Instance>)
    ensures
        instances_view(r@) == instances_view(v@),
{
    let mut out: Vec<Instance> = Vec::new();
    let mut i: usize = 0;
    while i < v.len()
        invariant
            i <= v.len(),
            out.len() == i,
            forall|k: int| 0 <= k < i ==> out@[k]@ == v@[k]@,
        decreases v.len() - i,
    {
        out.push(v[i].clone());
        i = i + 1;
    }
    assert(instances_view(out@) =~= instances_view(v@));
    out
}

impl Clone for List {
    fn clone(&self) -> (r: Self)
        ensures
            r@ == self@,
    {
        List { items: clone_instances(&self.items), element_type: self.element_type.clone() }
    }
}

/// The text of a list: `List[`, the element type, `]([`, the items and
/// `])`.
pub open spec fn list_text(l: ListView) -> Seq<char> {
    "List["@ + l.element_type + "](["@ + crate::value::instances_text(l.items, l.items.len())
        + "])"@
}

impl List {
    /// The list as text.
    pub fn to_string(&self) -> (r: String)
        ensures
            r@ == list_text(self@),
    {
        let items = crate::value::instances_to_string(&self.items);
        let mut out = String::from_str("List[");
        out.append(self.element_type.as_str());
        out.append("]([");
        out.append(items.as_str());
        out.append("])");
        out
    }

    /// The empty list of elements of the named type.
    pub fn new(element_type: String) -> (r: List)
        ensures
            r@ == (ListView { items: Seq::empty(), element_type: element_type@ }),
    {
        let r = List { items: Vec::new(), element_type };
        assert(r@.items =~= Seq::<InstanceView>::empty());
        r
    }

    /// The list of the given items.
    pub fn from_items(items: Vec<Instance>, element_type: String) -> (r: List)
        ensures
            r@ == (ListView { items: instances_view(items@), element_type: element_type@ }),
    {
        List { items, element_type }
    }

    /// The number of items.
    pub fn len(&self) -> (r: usize)
        ensures
            r == self@.items.len(),
    {
        self.items.len()
    }

    /// Whether the list has no items.
    pub fn is_empty(&self) -> (r: bool)
        ensures
            r == (self@.items.len() == 0),
    {
        self.items.len() == 0
    }

    /// Appends an item.
    pub fn push(&mut self, item: Instance)
        ensures
            final(self)@ == (ListView {
                items: old(self)@.items.push(item@),
                element_type: old(self)@.element_type,
            }),
    {
        self.items.push(item);
        assert(self@.items =~= old(self)@.items.push(item@));
    }

    /// The item at `index`, if there is one.
    pub fn get(&self, index: usize) -> (r: Option<&Instance>)
        ensures
            match r {
                Some(item) => index < self@.items.len() && item@ == self@.items[index as int],
                None => index >= self@.items.len(),
            },
    {
        if index < self.items.len() {
            Some(&self.items[index])
        } else {
            None
        }
    }
}

impl crate::value::ValueObject for List {
    open spec fn type_label(&self) -> Seq<char> {
        "List"@
    }

    open spec fn text(&self) -> Seq<char> {
        list_text(self@)
    }

    /// A list is valid as it stands: its items were validated one by one.
    fn validate(&self) -> (r: Result<(), crate::error::Error>)
        ensures
            r is Ok,
    {
        Ok(())
    }

    /// A list has no normal form of its own.
    fn normalize(&mut self) -> (r: Result<(), crate::error::Error>)
        ensures
            r is Ok,
            *final(self) == *old(self),
    {
        Ok(())
    }

    fn value_type_name(&self) -> (r: String) {
        String::from_str("List")
    }

    fn to_text(&self) -> (r: String) {
        self.to_string()
    }

    fn hash_value(&self) -> (r: u64) {
        let text = self.to_string();
        crate::text::hash_text(text.as_str())
    }
}

/// `out` is what a filter by `f` makes of the first `n` of `items`: the
/// items that `f` accepted, in order.
pub open spec fn filtered<F: Fn(&Instance) -> bool>(
    items: Seq<Instance>,
    f: F,
    n: nat,
    out: Seq<InstanceView>,
) -> bool
    decreases n,
{
    if n == 0 || n > items.len() {
        out == Seq::<InstanceView>::empty()
    } else {
        ||| f.ensures((&items[n - 1],), true) && out.len() > 0 && out.last() == items[n - 1]@
            && filtered(items, f, (n - 1) as nat, out.drop_last())
        ||| f.ensures((&items[n - 1],), false) && filtered(items, f, (n - 1) as nat, out)
    }
}

impl List {
    /// The items, in order.
    pub fn iter(&self) -> (r: &Vec<Instance>)
        ensures
            instances_view(r@) == self@.items,
    {
        &self.items
    }

    /// The list of the items that the predicate accepts, in order.
    pub fn filter<F: Fn(&Instance) -> bool>(&self, predicate: F) -> (r: List)
        requires
            forall|x: &Instance| #[trigger] predicate.requires((x,)),
        ensures
            r@.element_type == self@.element_type,
            filtered(self.items@, predicate, self.items@.len(), r@.items),
    {
        let mut out: Vec<Instance> = Vec::new();
        let mut i: usize = 0;
        assert(instances_view(out@) =~= Seq::<InstanceView>::empty());
        while i < self.items.len()
            invariant
                i <= self.items.len(),
                forall|x: &Instance| #[trigger] predicate.requires((x,)),
                filtered(self.items@, predicate, i as nat, instances_view(out@)),
            decreases self.items.len() - i,
        {
            let ghost before = instances_view(out@);
            if predicate(&self.items[i]) {
                out.push(self.items[i].clone());
                assert(instances_view(out@) =~= before.push(self.items@[i as int]@));
                assert(instances_view(out@).drop_last() =~= before);
            }
            i = i + 1;
        }
        List { items: out, element_type: self.element_type.clone() }
    }

    /// The list of what the mapper makes of each item, in order.
    pub fn map<F: Fn(&Instance) -> Instance>(&self, mapper: F) -> (r: List)
        requires
            forall|x: &Instance| #[trigger] mapper.requires((x,)),
        ensures
            r@.element_type == self@.element_type,
            r.items@.len() == self.items@.len(),
            forall|i: int|
                0 <= i < self.items@.len() ==> mapper.ensures(
                    (&self.items@[i],),
                    #[trigger] r.items@[i],
                ),
    {
        let mut out: Vec<Instance> = Vec::new();
        let mut i: usize = 0;
        while i < self.items.len()
            invariant
                i <= self.items.len(),
                out.len() == i,
                forall|x: &Instance| #[trigger] mapper.requires((x,)),
                forall|k: int|
                    0 <= k < i ==> mapper.ensures((&self.items@[k],), #[trigger] out@[k]),
            decreases self.items.len() - i,
        {
            let mapped = mapper(&self.items[i]);
            out.push(mapped);
            i = i + 1;
        }
        List { items: out, element_type: self.element_type.clone() }
    }

    /// The first item that the predicate accepts.
    pub fn find<F: Fn(&Instance) -> bool>(&self, predicate: F) -> (r: Option<Instance>)
        requires
            forall|x: &Instance| #[trigger] predicate.requires((x,)),
        ensures
            match r {
                Some(found) => exists|i: int|
                    0 <= i < self.items@.len() && found@ == self.items@[i]@ && predicate.ensures(
                        (&self.items@[i],),
                        true,
                    ) && forall|k: int|
                        0 <= k < i ==> predicate.ensures((&#[trigger] self.items@[k],), false),
                None => forall|k: int|
                    0 <= k < self.items@.len() ==> predicate.ensures(
                        (&#[trigger] self.items@[k],),
                        false,
                    ),
            },
    {
        let mut i: usize = 0;
        while i < self.items.len()
            invariant
                i <= self.items.len(),
                forall|x: &Instance| #[trigger] predicate.requires((x,)),
                forall|k: int|
                    0 <= k < i ==> predicate.ensures((&#[trigger] self.items@[k],), false),
            decreases self.items.len() - i,
        {
            if predicate(&self.items[i]) {
                return Some(self.items[i].clone());
            }
            i = i + 1;
        }
        None
    }

    /// Whether the predicate accepts some item.
    pub fn any<F: Fn(&Instance) -> bool>(&self, predicate: F) -> (r: bool)
        requires
            forall|x: &Instance| #[trigger] predicate.requires((x,)),
        ensures
            r ==> exists|i: int|
                0 <= i < self.items@.len() && predicate.ensures(
                    (&#[trigger] self.items@[i],),
                    true,
                ),
            !r ==> forall|k: int|
                0 <= k < self.items@.len() ==> predicate.ensures(
                    (&#[trigger] self.items@[k],),
                    false,
                ),
    {
        let mut i: usize = 0;
        while i < self.items.len()
            invariant
                i <= self.items.len(),
                forall|x: &Instance| #[trigger] predicate.requires((x,)),
                forall|k: int|
                    0 <= k < i ==> predicate.ensures((&#[trigger] self.items@[k],), false),
            decreases self.items.len() - i,
        {
            if predicate(&self.items[i]) {
                return true;
            }
            i = i + 1;
        }
        false
    }

    /// Whether the predicate accepts every item.
    pub fn all<F: Fn(&Instance) -> bool>(&self, predicate: F) -> (r: bool)
        requires
            forall|x: &Instance| #[trigger] predicate.requires((x,)),
        ensures
            r ==> forall|k: int|
                0 <= k < self.items@.len() ==> predicate.ensures(
                    (&#[trigger] self.items@[k],),
                    true,
                ),
            !r ==> exists|i: int|
                0 <= i < self.items@.len() && predicate.ensures(
                    (&#[trigger] self.items@[i],),
                    false,
                ),
    {
        let mut i: usize = 0;
        while i < self.items.len()
            invariant
                i <= self.items.len(),
                forall|x: &Instance| #[trigger] predicate.requires((x,)),
                forall|k: int|
                    0 <= k < i ==> predicate.ensures((&#[trigger] self.items@[k],), true),
            decreases self.items.len() - i,
        {
            if !predicate(&self.items[i]) {
                return false;
            }
            i = i + 1;
        }
        true
    }
}

} // verus!
