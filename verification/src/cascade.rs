//! The cascade: evaluating a stylesheet's rules against one feature.
//!
//! Rules are visited in stylesheet order and, within each rule, its
//! selectors in declared order.  A matching selector's property assignments
//! go to its target layer, creating it (seeded from the wildcard layer `*`)
//! at first encounter; assignments to the wildcard layer are also propagated
//! to every already-existing layer.

use vstd::prelude::*;

use crate::feature::Feature;
use crate::layers::{
    spec_layer_contains, spec_seed_layer, LayerMap, LayerView,
};
use crate::matcher::{area_matches, get_layer_id, spec_layer_id, spec_selector_matches};
use crate::model::{Property, PropertyView, Rule, Selector};
use crate::propmap::{spec_prop_set, PropMap};

verus! {

/// The property assignments of a rule as mathematical values.
pub open spec fn spec_assignments(props: Seq<Property>) -> Seq<PropertyView> {
    props.map_values(|p: Property| p@)
}

/// Applies assignments to a property map in order, each overwriting an
/// earlier binding of the same name.
pub open spec fn spec_apply_props(
    props: Seq<PropertyView>,
    assignments: Seq<PropertyView>,
) -> Seq<PropertyView>
    decreases assignments.len(),
{
    if assignments.len() == 0 {
        props
    } else {
        spec_apply_props(
            spec_prop_set(props, assignments[0].name, assignments[0].value),
            assignments.drop_first(),
        )
    }
}

/// Applies assignments to one layer's properties.
pub open spec fn spec_apply_to_layer(l: LayerView, assignments: Seq<PropertyView>) -> LayerView {
    LayerView { name: l.name, props: spec_apply_props(l.props, assignments) }
}

/// Applies assignments to the first layer with the given name.
pub open spec fn spec_update_first_layer(
    layers: Seq<LayerView>,
    name: Seq<char>,
    assignments: Seq<PropertyView>,
) -> Seq<LayerView>
    decreases layers.len(),
{
    if layers.len() == 0 {
        layers
    } else if layers[0].name == name {
        seq![spec_apply_to_layer(layers[0], assignments)] + layers.drop_first()
    } else {
        seq![layers[0]] + spec_update_first_layer(layers.drop_first(), name, assignments)
    }
}

/// The full effect of one matching selector: seed the target layer, apply
/// the assignments to it, and for the wildcard layer propagate them to every
/// layer.
pub open spec fn spec_apply_selector_props(
    layers: Seq<LayerView>,
    layer_id: Seq<char>,
    assignments: Seq<PropertyView>,
) -> Seq<LayerView> {
    let seeded = spec_seed_layer(layers, layer_id);
    if layer_id == "*"@ {
        Seq::new(seeded.len(), |i: int| spec_apply_to_layer(seeded[i], assignments))
    } else {
        spec_update_first_layer(seeded, layer_id, assignments)
    }
}

/// Applies a rule's assignments through each of its matching selectors, in
/// declared order.
pub open spec fn spec_apply_selectors(
    layers: Seq<LayerView>,
    f: Feature,
    selectors: Seq<Selector>,
    assignments: Seq<PropertyView>,
    zoom: u8,
) -> Seq<LayerView>
    decreases selectors.len(),
{
    if selectors.len() == 0 {
        layers
    } else {
        let next = if spec_selector_matches(f, selectors[0], zoom) {
            spec_apply_selector_props(layers, spec_layer_id(selectors[0]), assignments)
        } else {
            layers
        };
        spec_apply_selectors(next, f, selectors.drop_first(), assignments, zoom)
    }
}

/// The effect of one rule on the layer map.
pub open spec fn spec_apply_rule(
    layers: Seq<LayerView>,
    f: Feature,
    rule: Rule,
    zoom: u8,
) -> Seq<LayerView> {
    spec_apply_selectors(layers, f, rule.selectors@, spec_assignments(rule.properties@), zoom)
}

/// Folds the rules over a starting layer map, in stylesheet order.
pub open spec fn spec_cascade_from(
    layers: Seq<LayerView>,
    f: Feature,
    rules: Seq<Rule>,
    zoom: u8,
) -> Seq<LayerView>
    decreases rules.len(),
{
    if rules.len() == 0 {
        layers
    } else {
        spec_cascade_from(spec_apply_rule(layers, f, rules[0], zoom), f, rules.drop_first(), zoom)
    }
}

/// The layer map a stylesheet resolves to for one feature at one zoom.
pub open spec fn spec_cascade(f: Feature, rules: Seq<Rule>, zoom: u8) -> Seq<LayerView> {
    spec_cascade_from(Seq::empty(), f, rules, zoom)
}

/// Applies every property assignment of a rule to one property map, in
/// order, each overwriting an earlier binding of the same name.
pub fn apply_assignments(props: &mut PropMap, assignments: &Vec<Property>)
    ensures
        final(props)@ == spec_apply_props(old(props)@, spec_assignments(assignments@)),
{
    let ghost asg = spec_assignments(assignments@);
    let n = assignments.len();
    let mut i: usize = 0;
    proof {
        assert(asg.skip(0) =~= asg);
    }
    while i < n
        invariant
            i <= n,
            n == assignments@.len(),
            asg == spec_assignments(assignments@),
            asg.len() == n,
            spec_apply_props(props@, asg.skip(i as int)) == spec_apply_props(old(props)@, asg),
        decreases n - i,
    {
        let a = &assignments[i];
        proof {
            assert(asg[i as int] == assignments@[i as int]@);
            assert(asg.skip(i as int)[0] == asg[i as int]);
            assert(asg.skip(i as int).drop_first() =~= asg.skip(i + 1));
        }
        let ghost before = props@;
        props.set(&a.name, a.value.duplicate());
        proof {
            assert(props@ == spec_prop_set(before, asg[i as int].name, asg[i as int].value));
            assert(spec_apply_props(before, asg.skip(i as int)) == spec_apply_props(
                props@,
                asg.skip(i + 1),
            ));
        }
        i = i + 1;
    }
    proof {
        assert(asg.skip(n as int).len() == 0);
    }
}

/// The effect of a matching selector on the layer map: seeds the target
/// layer and applies the rule's assignments; assignments to the wildcard
/// layer reach every layer.
pub fn apply_selector_assignments(map: &mut LayerMap, layer_id: &String, assignments: &Vec<Property>)
    ensures
        final(map)@ == spec_apply_selector_props(old(map)@, layer_id@, spec_assignments(assignments@)),
{
    let ghost asg = spec_assignments(assignments@);
    map.seed(layer_id);
    let ghost seeded = map@;
    proof {
        assert(seeded == spec_seed_layer(old(map)@, layer_id@));
    }
    let wildcard: String = "*".to_owned();
    if *layer_id == wildcard {
        let n = map.layers.len();
        let mut j: usize = 0;
        while j < n
            invariant
                j <= n,
                n == map.layers@.len(),
                map@.len() == n,
                seeded.len() == n,
                asg == spec_assignments(assignments@),
                forall|k: int| 0 <= k < j ==> map@[k] == spec_apply_to_layer(
                    #[trigger] seeded[k],
                    asg,
                ),
                forall|k: int| j <= k < n ==> #[trigger] map@[k] == seeded[k],
            decreases n - j,
        {
            let ghost pre = map@;
            let ghost pre_layers = map.layers@;
            let layer = &mut map.layers[j];
            apply_assignments(&mut layer.props, assignments);
            proof {
                assert(map.layers@ =~= pre_layers.update(j as int, map.layers@[j as int]));
                assert(forall|k: int| 0 <= k < n ==> #[trigger] map@[k] == map.layers@[k]@);
                assert(forall|k: int| 0 <= k < n ==> #[trigger] pre[k] == pre_layers[k]@);
                assert(map@[j as int].name == pre[j as int].name);
                assert(map@[j as int].props == spec_apply_props(pre[j as int].props, asg));
                assert(map@[j as int] == spec_apply_to_layer(seeded[j as int], asg));
                assert(forall|k: int| 0 <= k < n && k != j ==> #[trigger] map@[k] == pre[k]);
            }
            j = j + 1;
        }
        proof {
            assert(map@ =~= Seq::new(seeded.len(), |i: int| spec_apply_to_layer(seeded[i], asg)));
        }
    } else {
        if let Some(j) = map.find_index(layer_id) {
            let ghost before = map@;
            let layer = &mut map.layers[j];
            apply_assignments(&mut layer.props, assignments);
            proof {
                assert(map@ =~= before.update(j as int, spec_apply_to_layer(before[j as int], asg)));
                lemma_update_first_at_index(before, layer_id@, asg, j as int);
            }
        } else {
            proof {
                assert(spec_layer_contains(seeded, layer_id@));
                assert(false);
            }
        }
    }
}

/// Updating the first layer with a name whose first occurrence is at index
/// `i` updates that entry in place.
proof fn lemma_update_first_at_index(
    layers: Seq<LayerView>,
    name: Seq<char>,
    assignments: Seq<PropertyView>,
    i: int,
)
    requires
        0 <= i < layers.len(),
        layers[i].name == name,
        forall|k: int| 0 <= k < i ==> (#[trigger] layers[k]).name != name,
    ensures
        spec_update_first_layer(layers, name, assignments) =~= layers.update(
            i,
            spec_apply_to_layer(layers[i], assignments),
        ),
    decreases layers.len(),
{
    if i == 0 {
        assert(spec_update_first_layer(layers, name, assignments) =~= layers.update(
            0,
            spec_apply_to_layer(layers[0], assignments),
        ));
    } else {
        assert(forall|k: int| 0 <= k < i - 1 ==> (#[trigger] layers.drop_first()[k]).name != name);
        lemma_update_first_at_index(layers.drop_first(), name, assignments, i - 1);
        assert(spec_update_first_layer(layers, name, assignments) =~= layers.update(
            i,
            spec_apply_to_layer(layers[i], assignments),
        ));
    }
}

/// Builds the layer map for one feature: visits every rule in stylesheet
/// order and, within each rule, its selectors in declared order, applying
/// the assignments of each matching selector.
pub fn cascade_rules(rules: &Vec<Rule>, feature: &Feature, zoom: u8) -> (r: LayerMap)
    ensures
        r@ == spec_cascade(*feature, rules@, zoom),
{
    let mut map = LayerMap::new();
    let n = rules.len();
    let mut i: usize = 0;
    proof {
        assert(rules@.skip(0) =~= rules@);
    }
    while i < n
        invariant
            i <= n,
            n == rules@.len(),
            spec_cascade_from(map@, *feature, rules@.skip(i as int), zoom) == spec_cascade(
                *feature,
                rules@,
                zoom,
            ),
        decreases n - i,
    {
        let rule = &rules[i];
        let ghost asg = spec_assignments(rule.properties@);
        let ghost sels = rule.selectors@;
        let ghost rule_start = map@;
        proof {
            assert(rules@.skip(i as int)[0] == rules@[i as int]);
            assert(rules@.skip(i as int).drop_first() =~= rules@.skip(i + 1));
            assert(sels.skip(0) =~= sels);
        }
        let m = rule.selectors.len();
        let mut j: usize = 0;
        while j < m
            invariant
                j <= m,
                m == rule.selectors@.len(),
                sels == rule.selectors@,
                asg == spec_assignments(rule.properties@),
                spec_apply_selectors(map@, *feature, sels.skip(j as int), asg, zoom)
                    == spec_apply_selectors(rule_start, *feature, sels, asg, zoom),
            decreases m - j,
        {
            let sel = &rule.selectors[j];
            proof {
                assert(sels.skip(j as int)[0] == sels[j as int]);
                assert(sels.skip(j as int).drop_first() =~= sels.skip(j + 1));
            }
            if area_matches(feature, sel, zoom) {
                let layer_id = get_layer_id(sel);
                apply_selector_assignments(&mut map, &layer_id, &rule.properties);
            }
            j = j + 1;
        }
        proof {
            assert(sels.skip(m as int).len() == 0);
            assert(map@ == spec_apply_rule(rule_start, *feature, rules@[i as int], zoom));
        }
        i = i + 1;
    }
    proof {
        assert(rules@.skip(n as int).len() == 0);
    }
    map
}

} // verus!
