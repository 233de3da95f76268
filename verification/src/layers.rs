//! The layer map: an ordered association vector from layer name to that
//! layer's accumulated properties.
//!
//! Layers are created in first-encounter order.  A layer created while the
//! wildcard layer `*` already exists starts as a copy of the wildcard's
//! properties at that moment.

use vstd::prelude::*;

use crate::model::PropertyView;
use crate::propmap::PropMap;

verus! {

/// The mathematical value of a [`Layer`].
pub ghost struct LayerView {
    pub name: Seq<char>,
    pub props: Seq<PropertyView>,
}

/// One named layer and its accumulated properties.
#[derive(Debug)]
pub struct Layer {
    pub name: String,
    pub props: PropMap,
}

impl View for Layer {
    type V = LayerView;

    open spec fn view(&self) -> LayerView {
        LayerView { name: self.name@, props: self.props@ }
    }
}

/// The properties of the first layer with the given name, if any.
pub open spec fn spec_layer_lookup(layers: Seq<LayerView>, name: Seq<char>) -> Option<
    Seq<PropertyView>,
>
    decreases layers.len(),
{
    if layers.len() == 0 {
        None
    } else if layers[0].name == name {
        Some(layers[0].props)
    } else {
        spec_layer_lookup(layers.drop_first(), name)
    }
}

/// Whether a layer with the given name exists.
pub open spec fn spec_layer_contains(layers: Seq<LayerView>, name: Seq<char>) -> bool {
    spec_layer_lookup(layers, name) is Some
}

/// The contents the wildcard layer seeds a new layer with: its properties,
/// or nothing while it has not been populated.
pub open spec fn spec_wildcard_props(layers: Seq<LayerView>) -> Seq<PropertyView> {
    match spec_layer_lookup(layers, "*"@) {
        Some(props) => props,
        None => Seq::empty(),
    }
}

/// First encounter of a layer name creates the layer, seeded from the
/// wildcard layer's current contents; a present name is left as it is.
pub open spec fn spec_seed_layer(layers: Seq<LayerView>, name: Seq<char>) -> Seq<LayerView> {
    if spec_layer_contains(layers, name) {
        layers
    } else {
        layers.push(LayerView { name, props: spec_wildcard_props(layers) })
    }
}

/// A layer map: an ordered association vector from layer name to that
/// layer's properties.
#[derive(Debug)]
pub struct LayerMap {
    pub layers: Vec<Layer>,
}

impl View for LayerMap {
    type V = Seq<LayerView>;

    open spec fn view(&self) -> Seq<LayerView> {
        self.layers@.map_values(|l: Layer| l@)
    }
}

impl LayerMap {
    /// An empty map.
    pub fn new() -> (r: LayerMap)
        ensures
            r@ =~= Seq::<LayerView>::empty(),
    {
        LayerMap { layers: Vec::new() }
    }

    /// The index of the first layer with the given name, if any.
    pub fn find_index(&self, name: &String) -> (r: Option<usize>)
        ensures
            match r {
                Some(i) => {
                    &&& i < self@.len()
                    &&& self@[i as int].name == name@
                    &&& forall|k: int| 0 <= k < i ==> (#[trigger] self@[k]).name != name@
                    &&& spec_layer_lookup(self@, name@) == Some(self@[i as int].props)
                },
                None => spec_layer_lookup(self@, name@) is None,
            },
    {
        let n = self.layers.len();
        let mut i: usize = 0;
        proof {
            assert(self@.skip(0) =~= self@);
        }
        while i < n
            invariant
                i <= n,
                n == self.layers@.len(),
                self@.len() == n,
                spec_layer_lookup(self@, name@) == spec_layer_lookup(self@.skip(i as int), name@),
                forall|k: int| 0 <= k < i ==> (#[trigger] self@[k]).name != name@,
            decreases n - i,
        {
            let layer = &self.layers[i];
            proof {
                assert(self@.skip(i as int)[0] == self@[i as int]);
                assert(self@[i as int] == self.layers@[i as int]@);
            }
            if layer.name == *name {
                return Some(i);
            }
            proof {
                assert(self@.skip(i as int).drop_first() =~= self@.skip(i + 1));
            }
            i = i + 1;
        }
        proof {
            assert(self@.skip(n as int).len() == 0);
        }
        None
    }

    /// Creates the named layer if it does not exist yet, seeded with a copy
    /// of the wildcard layer's current contents.
    pub fn seed(&mut self, name: &String)
        ensures
            final(self)@ =~= spec_seed_layer(old(self)@, name@),
            spec_layer_contains(final(self)@, name@),
    {
        match self.find_index(name) {
            Some(_) => {},
            None => {
                let wildcard: String = "*".to_owned();
                let props = match self.find_index(&wildcard) {
                    Some(j) => self.layers[j].props.duplicate(),
                    None => PropMap::new(),
                };
                let seeded = Layer { name: name.clone(), props };
                proof {
                    assert(seeded@ == LayerView { name: name@, props: spec_wildcard_props(old(self)@) });
                }
                self.layers.push(seeded);
                proof {
                    assert(self@ =~= old(self)@.push(LayerView {
                        name: name@,
                        props: spec_wildcard_props(old(self)@),
                    }));
                    lemma_lookup_in_pushed(old(self)@, name@, spec_wildcard_props(old(self)@));
                }
            },
        }
    }
}

/// Looking a name up in a map extended by one layer: an existing binding is
/// unaffected; an absent name finds the new layer exactly when it bears it.
pub proof fn lemma_layer_lookup_push(layers: Seq<LayerView>, lv: LayerView, other: Seq<char>)
    ensures
        spec_layer_lookup(layers.push(lv), other) == if spec_layer_contains(layers, other) {
            spec_layer_lookup(layers, other)
        } else if lv.name == other {
            Some(lv.props)
        } else {
            None
        },
    decreases layers.len(),
{
    let pushed = layers.push(lv);
    if layers.len() == 0 {
        assert(pushed[0] == lv);
        assert(pushed.drop_first() =~= Seq::<LayerView>::empty());
        assert(spec_layer_lookup(pushed.drop_first(), other) is None);
    } else {
        lemma_layer_lookup_push(layers.drop_first(), lv, other);
        assert(pushed[0] == layers[0]);
        assert(pushed.drop_first() =~= layers.drop_first().push(lv));
        if layers[0].name == other {
            assert(spec_layer_lookup(pushed, other) == Some(layers[0].props));
            assert(spec_layer_lookup(layers, other) == Some(layers[0].props));
        } else {
            assert(spec_layer_lookup(pushed, other) == spec_layer_lookup(
                layers.drop_first().push(lv),
                other,
            ));
            assert(spec_layer_lookup(layers, other) == spec_layer_lookup(
                layers.drop_first(),
                other,
            ));
        }
    }
}

/// Looking a name up in a map extended with that name finds the new layer.
proof fn lemma_lookup_in_pushed(layers: Seq<LayerView>, name: Seq<char>, props: Seq<PropertyView>)
    requires
        !spec_layer_contains(layers, name),
    ensures
        spec_layer_lookup(layers.push(LayerView { name, props }), name) == Some(props),
    decreases layers.len(),
{
    let pushed = layers.push(LayerView { name, props });
    if layers.len() == 0 {
        assert(pushed[0] == LayerView { name, props });
    } else {
        lemma_lookup_in_pushed(layers.drop_first(), name, props);
        assert(pushed[0] == layers[0]);
        assert(pushed.drop_first() =~= layers.drop_first().push(LayerView { name, props }));
    }
}

} // verus!
