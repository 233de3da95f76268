//! Name-keyed maps built on vectors.
//!
//! The cascade accumulates, per layer, a mapping from property name to the
//! value last assigned to it, and a mapping from layer name to that layer's
//! properties.  Both are ordered association vectors: a key's first
//! occurrence is its binding, and assigning to a present key updates it in
//! place, so stylesheet order is preserved exactly.

use vstd::prelude::*;

use crate::model::{PropValueView, Property, PropertyValue, PropertyView};

verus! {

/// The value bound to a name: the first entry with that name.
pub open spec fn spec_prop_lookup(props: Seq<PropertyView>, name: Seq<char>) -> Option<PropValueView>
    decreases props.len(),
{
    if props.len() == 0 {
        None
    } else if props[0].name == name {
        Some(props[0].value)
    } else {
        spec_prop_lookup(props.drop_first(), name)
    }
}

/// Binds a name to a value: updates the first entry with that name in
/// place, or appends a new entry when the name is absent.
pub open spec fn spec_prop_set(
    props: Seq<PropertyView>,
    name: Seq<char>,
    value: PropValueView,
) -> Seq<PropertyView>
    decreases props.len(),
{
    if props.len() == 0 {
        seq![PropertyView { name, value }]
    } else if props[0].name == name {
        seq![PropertyView { name, value }] + props.drop_first()
    } else {
        seq![props[0]] + spec_prop_set(props.drop_first(), name, value)
    }
}

/// Setting one name leaves every other name's binding unchanged and binds
/// that name to the new value.
pub proof fn lemma_prop_set_lookup(
    props: Seq<PropertyView>,
    name: Seq<char>,
    value: PropValueView,
    other: Seq<char>,
)
    ensures
        spec_prop_lookup(spec_prop_set(props, name, value), other) == if other == name {
            Some(value)
        } else {
            spec_prop_lookup(props, other)
        },
    decreases props.len(),
{
    let result = spec_prop_set(props, name, value);
    if props.len() == 0 {
        assert(result[0] == PropertyView { name, value });
        assert(result.drop_first() =~= Seq::<PropertyView>::empty());
        assert(spec_prop_lookup(result.drop_first(), other) is None);
        if other == name {
            assert(spec_prop_lookup(result, other) == Some(value));
        } else {
            assert(spec_prop_lookup(result, other) is None);
        }
    } else if props[0].name == name {
        assert(result[0] == PropertyView { name, value });
        assert(result.drop_first() =~= props.drop_first());
        if other == name {
            assert(spec_prop_lookup(result, other) == Some(value));
        } else {
            assert(spec_prop_lookup(result, other) == spec_prop_lookup(props.drop_first(), other));
            assert(spec_prop_lookup(props, other) == spec_prop_lookup(props.drop_first(), other));
        }
    } else {
        lemma_prop_set_lookup(props.drop_first(), name, value, other);
        assert(result[0] == props[0]);
        assert(result.len() > 0);
        assert(result.drop_first() =~= spec_prop_set(props.drop_first(), name, value));
        if props[0].name == other {
            assert(other != name);
            assert(spec_prop_lookup(result, other) == Some(props[0].value));
            assert(spec_prop_lookup(props, other) == Some(props[0].value));
        } else {
            assert(spec_prop_lookup(result, other) == spec_prop_lookup(result.drop_first(), other));
            assert(spec_prop_lookup(props, other) == spec_prop_lookup(props.drop_first(), other));
        }
    }
}

/// A property map: an ordered association vector from property name to the
/// value last assigned to it.
#[derive(Debug)]
pub struct PropMap {
    pub entries: Vec<Property>,
}

impl View for PropMap {
    type V = Seq<PropertyView>;

    open spec fn view(&self) -> Seq<PropertyView> {
        self.entries@.map_values(|p: Property| p@)
    }
}

impl PropMap {
    /// An empty map.
    pub fn new() -> (r: PropMap)
        ensures
            r@ =~= Seq::<PropertyView>::empty(),
    {
        PropMap { entries: Vec::new() }
    }

    /// The value bound to a name, if any.
    pub fn get<'a>(&'a self, name: &String) -> (r: Option<&'a PropertyValue>)
        ensures
            match r {
                Some(v) => spec_prop_lookup(self@, name@) == Some(v@),
                None => spec_prop_lookup(self@, name@) is None,
            },
    {
        let n = self.entries.len();
        let mut i: usize = 0;
        proof {
            assert(self@.skip(0) =~= self@);
        }
        while i < n
            invariant
                i <= n,
                n == self.entries@.len(),
                self@.len() == n,
                spec_prop_lookup(self@, name@) == spec_prop_lookup(self@.skip(i as int), name@),
            decreases n - i,
        {
            let entry = &self.entries[i];
            proof {
                assert(self@.skip(i as int)[0] == self@[i as int]);
                assert(self@[i as int] == self.entries@[i as int]@);
            }
            if entry.name == *name {
                return Some(&entry.value);
            }
            proof {
                assert(self@.skip(i as int).drop_first() =~= self@.skip(i + 1));
            }
            i = i + 1;
        }
        proof {
            assert(self@.skip(n as int).len() == 0);
        }
        None
    }

    /// Binds a name to a value, overwriting an earlier binding of the same
    /// name.
    pub fn set(&mut self, name: &String, value: PropertyValue)
        ensures
            final(self)@ =~= spec_prop_set(old(self)@, name@, value@),
    {
        let ghost spec_result = spec_prop_set(old(self)@, name@, value@);
        let n = self.entries.len();
        let mut i: usize = 0;
        while i < n
            invariant
                i <= n,
                n == self.entries@.len(),
                *self == *old(self),
                forall|k: int| 0 <= k < i ==> (#[trigger] self@[k]).name != name@,
            decreases n - i,
        {
            let entry = &self.entries[i];
            proof {
                assert(self@[i as int] == self.entries@[i as int]@);
            }
            if entry.name == *name {
                self.entries.set(i, Property { name: name.clone(), value });
                proof {
                    assert(self@ =~= old(self)@.update(i as int, PropertyView { name: name@, value: value@ }));
                    lemma_prop_set_update(old(self)@, name@, value@, i as int);
                }
                return ;
            }
            i = i + 1;
        }
        self.entries.push(Property { name: name.clone(), value });
        proof {
            assert(self@ =~= old(self)@.push(PropertyView { name: name@, value: value@ }));
            lemma_prop_set_push(old(self)@, name@, value@);
        }
    }

    /// An owned copy with the same mathematical value.
    pub fn duplicate(&self) -> (r: PropMap)
        ensures
            r@ =~= self@,
    {
        let n = self.entries.len();
        let mut entries: Vec<Property> = Vec::new();
        let mut i: usize = 0;
        while i < n
            invariant
                i <= n,
                n == self.entries@.len(),
                entries@.len() == i,
                forall|k: int| 0 <= k < i ==> #[trigger] entries@[k]@ == self.entries@[k]@,
            decreases n - i,
        {
            let entry = &self.entries[i];
            entries.push(Property { name: entry.name.clone(), value: entry.value.duplicate() });
            i = i + 1;
        }
        let result = PropMap { entries };
        proof {
            assert(result@ =~= self@);
        }
        result
    }
}

/// Setting a name whose first occurrence is at index `i` updates that entry
/// in place.
proof fn lemma_prop_set_update(props: Seq<PropertyView>, name: Seq<char>, value: PropValueView, i: int)
    requires
        0 <= i < props.len(),
        props[i].name == name,
        forall|k: int| 0 <= k < i ==> (#[trigger] props[k]).name != name,
    ensures
        spec_prop_set(props, name, value) =~= props.update(i, PropertyView { name, value }),
    decreases props.len(),
{
    if i == 0 {
        assert(spec_prop_set(props, name, value) =~= props.update(0, PropertyView { name, value }));
    } else {
        assert(forall|k: int| 0 <= k < i - 1 ==> (#[trigger] props.drop_first()[k]).name != name);
        lemma_prop_set_update(props.drop_first(), name, value, i - 1);
        assert(spec_prop_set(props, name, value) =~= props.update(i, PropertyView { name, value }));
    }
}

/// Setting an absent name appends a new entry.
proof fn lemma_prop_set_push(props: Seq<PropertyView>, name: Seq<char>, value: PropValueView)
    requires
        forall|k: int| 0 <= k < props.len() ==> (#[trigger] props[k]).name != name,
    ensures
        spec_prop_set(props, name, value) =~= props.push(PropertyView { name, value }),
    decreases props.len(),
{
    if props.len() == 0 {
    } else {
        assert(forall|k: int| 0 <= k < props.drop_first().len() ==> (#[trigger] props.drop_first()[k]).name
            != name);
        lemma_prop_set_push(props.drop_first(), name, value);
        assert(spec_prop_set(props, name, value) =~= props.push(PropertyView { name, value }));
    }
}

} // verus!
