//! Laws of the cascade.
//!
//! These proof functions state, once and for all inputs, the ordering and
//! inheritance guarantees of the cascade: a rule that matches nothing
//! contributes nothing; the later of two rules wins for a contested
//! property; a newly created layer inherits the wildcard layer's current
//! contents; a wildcard assignment reaches every existing layer.

use vstd::prelude::*;

use crate::cascade::{
    spec_apply_props, spec_apply_rule, spec_apply_selector_props, spec_apply_selectors,
    spec_apply_to_layer, spec_assignments, spec_cascade, spec_cascade_from,
    spec_update_first_layer,
};
use crate::feature::Feature;
use crate::layers::{
    lemma_layer_lookup_push, spec_layer_contains, spec_layer_lookup, spec_seed_layer,
    spec_wildcard_props, LayerView,
};
use crate::matcher::{
    lemma_contradictory_tests_never_match, spec_is_exists_test, spec_is_not_exists_test,
    spec_layer_id, spec_selector_matches,
};
use crate::model::{PropValueView, PropertyView, Rule, Selector};
use crate::propmap::{lemma_prop_set_lookup, spec_prop_lookup};

verus! {

/// The value the last assignment of a name carries, if the name is assigned
/// at all.
pub open spec fn spec_last_assignment(
    assignments: Seq<PropertyView>,
    name: Seq<char>,
) -> Option<PropValueView>
    decreases assignments.len(),
{
    if assignments.len() == 0 {
        None
    } else {
        let rest = spec_last_assignment(assignments.drop_first(), name);
        if rest is Some {
            rest
        } else if assignments[0].name == name {
            Some(assignments[0].value)
        } else {
            None
        }
    }
}

/// Last write wins: after applying assignments, a name is bound to its last
/// assigned value; a name never assigned keeps its old binding.
pub proof fn lemma_apply_props_lookup(
    props: Seq<PropertyView>,
    assignments: Seq<PropertyView>,
    name: Seq<char>,
)
    ensures
        spec_prop_lookup(spec_apply_props(props, assignments), name) == match spec_last_assignment(
            assignments,
            name,
        ) {
            Some(v) => Some(v),
            None => spec_prop_lookup(props, name),
        },
    decreases assignments.len(),
{
    if assignments.len() == 0 {
    } else {
        let next = crate::propmap::spec_prop_set(props, assignments[0].name, assignments[0].value);
        lemma_apply_props_lookup(next, assignments.drop_first(), name);
        lemma_prop_set_lookup(props, assignments[0].name, assignments[0].value, name);
    }
}

/// Applying assignments to the first layer of a name changes exactly that
/// layer's binding, to the assignments' effect on its properties.
pub proof fn lemma_update_first_lookup(
    layers: Seq<LayerView>,
    name: Seq<char>,
    assignments: Seq<PropertyView>,
    other: Seq<char>,
)
    ensures
        spec_layer_lookup(spec_update_first_layer(layers, name, assignments), other) == if other
            == name {
            match spec_layer_lookup(layers, name) {
                Some(p) => Some(spec_apply_props(p, assignments)),
                None => None,
            }
        } else {
            spec_layer_lookup(layers, other)
        },
    decreases layers.len(),
{
    let result = spec_update_first_layer(layers, name, assignments);
    if layers.len() == 0 {
    } else if layers[0].name == name {
        assert(result[0] == spec_apply_to_layer(layers[0], assignments));
        assert(result.drop_first() =~= layers.drop_first());
    } else {
        lemma_update_first_lookup(layers.drop_first(), name, assignments, other);
        assert(result[0] == layers[0]);
        assert(result.drop_first() =~= spec_update_first_layer(
            layers.drop_first(),
            name,
            assignments,
        ));
    }
}

/// Applying assignments to every layer changes every layer's binding to the
/// assignments' effect on its properties.
pub proof fn lemma_apply_all_lookup(
    layers: Seq<LayerView>,
    assignments: Seq<PropertyView>,
    other: Seq<char>,
)
    ensures
        spec_layer_lookup(
            Seq::new(layers.len(), |i: int| spec_apply_to_layer(layers[i], assignments)),
            other,
        ) == match spec_layer_lookup(layers, other) {
            Some(p) => Some(spec_apply_props(p, assignments)),
            None => None,
        },
    decreases layers.len(),
{
    let applied = Seq::new(layers.len(), |i: int| spec_apply_to_layer(layers[i], assignments));
    if layers.len() == 0 {
    } else {
        lemma_apply_all_lookup(layers.drop_first(), assignments, other);
        assert(applied[0] == spec_apply_to_layer(layers[0], assignments));
        assert(applied.drop_first() =~= Seq::new(
            layers.drop_first().len(),
            |i: int| spec_apply_to_layer(layers.drop_first()[i], assignments),
        ));
    }
}

/// Wildcard seeding: a layer created by a selector application, at a moment
/// when it does not exist yet, starts from the wildcard layer's current
/// contents and then receives the assignments.
pub proof fn lemma_seeding_inherits_wildcard(
    layers: Seq<LayerView>,
    layer_id: Seq<char>,
    assignments: Seq<PropertyView>,
)
    requires
        layer_id != "*"@,
        !spec_layer_contains(layers, layer_id),
    ensures
        spec_layer_lookup(spec_apply_selector_props(layers, layer_id, assignments), layer_id)
            == Some(spec_apply_props(spec_wildcard_props(layers), assignments)),
{
    let seeded = spec_seed_layer(layers, layer_id);
    lemma_layer_lookup_push(
        layers,
        LayerView { name: layer_id, props: spec_wildcard_props(layers) },
        layer_id,
    );
    assert(spec_layer_lookup(seeded, layer_id) == Some(spec_wildcard_props(layers)));
    lemma_update_first_lookup(seeded, layer_id, assignments, layer_id);
}

/// Retroactive propagation: an assignment to the wildcard layer reaches
/// every layer that exists at that moment.
pub proof fn lemma_wildcard_propagates(
    layers: Seq<LayerView>,
    assignments: Seq<PropertyView>,
    other: Seq<char>,
    props: Seq<PropertyView>,
)
    requires
        spec_layer_lookup(layers, other) == Some(props),
    ensures
        spec_layer_lookup(spec_apply_selector_props(layers, "*"@, assignments), other) == Some(
            spec_apply_props(props, assignments),
        ),
{
    let seeded = spec_seed_layer(layers, "*"@);
    if spec_layer_contains(layers, "*"@) {
        assert(seeded == layers);
    } else {
        lemma_layer_lookup_push(
            layers,
            LayerView { name: "*"@, props: spec_wildcard_props(layers) },
            other,
        );
    }
    assert(spec_layer_lookup(seeded, other) == Some(props));
    lemma_apply_all_lookup(seeded, assignments, other);
}

/// A selector application never touches a layer other than its target,
/// except through the wildcard layer.
pub proof fn lemma_other_layers_untouched(
    layers: Seq<LayerView>,
    layer_id: Seq<char>,
    assignments: Seq<PropertyView>,
    other: Seq<char>,
)
    requires
        layer_id != "*"@,
        other != layer_id,
        spec_layer_contains(layers, other),
    ensures
        spec_layer_lookup(spec_apply_selector_props(layers, layer_id, assignments), other)
            == spec_layer_lookup(layers, other),
{
    let seeded = spec_seed_layer(layers, layer_id);
    if !spec_layer_contains(layers, layer_id) {
        lemma_layer_lookup_push(
            layers,
            LayerView { name: layer_id, props: spec_wildcard_props(layers) },
            other,
        );
    }
    assert(spec_layer_lookup(seeded, other) == spec_layer_lookup(layers, other));
    lemma_update_first_lookup(seeded, layer_id, assignments, other);
}

/// A rule none of whose selectors matches leaves the layer map unchanged.
pub proof fn lemma_unmatched_selectors_no_effect(
    layers: Seq<LayerView>,
    f: Feature,
    selectors: Seq<Selector>,
    assignments: Seq<PropertyView>,
    zoom: u8,
)
    requires
        forall|k: int| 0 <= k < selectors.len() ==> !spec_selector_matches(
            f,
            #[trigger] selectors[k],
            zoom,
        ),
    ensures
        spec_apply_selectors(layers, f, selectors, assignments, zoom) == layers,
    decreases selectors.len(),
{
    if selectors.len() == 0 {
    } else {
        assert(!spec_selector_matches(f, selectors[0], zoom));
        assert(forall|k: int| 0 <= k < selectors.drop_first().len() ==> !spec_selector_matches(
            f,
            #[trigger] selectors.drop_first()[k],
            zoom,
        ));
        lemma_unmatched_selectors_no_effect(layers, f, selectors.drop_first(), assignments, zoom);
    }
}

/// The cascade over concatenated rule lists is the cascade over the second
/// list, started from the result of the first.
pub proof fn lemma_cascade_concat(
    layers: Seq<LayerView>,
    f: Feature,
    s1: Seq<Rule>,
    s2: Seq<Rule>,
    zoom: u8,
)
    ensures
        spec_cascade_from(layers, f, s1 + s2, zoom) == spec_cascade_from(
            spec_cascade_from(layers, f, s1, zoom),
            f,
            s2,
            zoom,
        ),
    decreases s1.len(),
{
    if s1.len() == 0 {
        assert(s1 + s2 =~= s2);
    } else {
        lemma_cascade_concat(spec_apply_rule(layers, f, s1[0], zoom), f, s1.drop_first(), s2, zoom);
        assert((s1 + s2)[0] == s1[0]);
        assert((s1 + s2).drop_first() =~= s1.drop_first() + s2);
    }
}

/// A rule none of whose selectors matches can be dropped from the
/// stylesheet without changing the cascade's result for this feature.
pub proof fn lemma_unmatched_rule_dropped(
    f: Feature,
    before: Seq<Rule>,
    rule: Rule,
    after: Seq<Rule>,
    zoom: u8,
)
    requires
        forall|k: int| 0 <= k < rule.selectors@.len() ==> !spec_selector_matches(
            f,
            #[trigger] rule.selectors@[k],
            zoom,
        ),
    ensures
        spec_cascade(f, before + seq![rule] + after, zoom) == spec_cascade(f, before + after, zoom),
{
    let empty = Seq::<LayerView>::empty();
    let mid = spec_cascade_from(empty, f, before, zoom);
    lemma_cascade_concat(empty, f, before + seq![rule], after, zoom);
    lemma_cascade_concat(empty, f, before, seq![rule], zoom);
    lemma_cascade_concat(empty, f, before, after, zoom);
    assert(spec_cascade_from(mid, f, seq![rule], zoom) == spec_apply_rule(mid, f, rule, zoom)) by {
        let one = seq![rule];
        assert(one.len() == 1);
        assert(one[0] == rule);
        assert(one.drop_first() =~= Seq::<Rule>::empty());
        assert(spec_cascade_from(mid, f, one, zoom) == spec_cascade_from(
            spec_apply_rule(mid, f, rule, zoom),
            f,
            one.drop_first(),
            zoom,
        ));
        assert(spec_cascade_from(spec_apply_rule(mid, f, rule, zoom), f, one.drop_first(), zoom)
            == spec_apply_rule(mid, f, rule, zoom));
    }
    lemma_unmatched_selectors_no_effect(
        mid,
        f,
        rule.selectors@,
        spec_assignments(rule.properties@),
        zoom,
    );
}

/// A rule whose single selector carries an unsatisfiable pair of tag tests
/// (the same tag demanded present and absent) contributes nothing to any
/// feature at any zoom.
pub proof fn lemma_unsatisfiable_rule_dropped(
    f: Feature,
    before: Seq<Rule>,
    rule: Rule,
    after: Seq<Rule>,
    zoom: u8,
    ti: int,
    tj: int,
    key: Seq<char>,
)
    requires
        rule.selectors@.len() == 1,
        rule.selectors@[0] matches Selector::Single(s) && 0 <= ti < s.tests@.len() && 0 <= tj
            < s.tests@.len() && spec_is_exists_test(s.tests@[ti], key) && spec_is_not_exists_test(
            s.tests@[tj],
            key,
        ),
    ensures
        spec_cascade(f, before + seq![rule] + after, zoom) == spec_cascade(f, before + after, zoom),
{
    let sel = rule.selectors@[0];
    match sel {
        Selector::Single(s) => {
            lemma_contradictory_tests_never_match(f, s, zoom, ti, tj, key);
        },
        Selector::Nested { .. } => {},
    }
    assert(forall|k: int| 0 <= k < rule.selectors@.len() ==> !spec_selector_matches(
        f,
        #[trigger] rule.selectors@[k],
        zoom,
    ));
    lemma_unmatched_rule_dropped(f, before, rule, after, zoom);
}

/// A wildcard rule followed by a rule creating a named layer: the new layer
/// holds the later rule's own assignments, and for every name the later rule
/// does not assign, what the wildcard rule assigned — both inherited and own
/// properties are present.
pub proof fn lemma_layer_seeded_after_wildcard(
    f: Feature,
    rw: Rule,
    rl: Rule,
    zoom: u8,
    layer: Seq<char>,
    pname: Seq<char>,
)
    requires
        layer != "*"@,
        rw.selectors@.len() == 1,
        rl.selectors@.len() == 1,
        spec_selector_matches(f, rw.selectors@[0], zoom),
        spec_selector_matches(f, rl.selectors@[0], zoom),
        spec_layer_id(rw.selectors@[0]) == "*"@,
        spec_layer_id(rl.selectors@[0]) == layer,
    ensures
        spec_layer_lookup(spec_cascade(f, seq![rw, rl], zoom), layer) matches Some(props)
            && spec_prop_lookup(props, pname) == (match spec_last_assignment(
            spec_assignments(rl.properties@),
            pname,
        ) {
            Some(own) => Some(own),
            None => spec_last_assignment(spec_assignments(rw.properties@), pname),
        }),
{
    let empty = Seq::<LayerView>::empty();
    let rules = seq![rw, rl];
    let asgw = spec_assignments(rw.properties@);
    let asgl = spec_assignments(rl.properties@);
    let after_w = spec_apply_rule(empty, f, rw, zoom);
    let after_l = spec_apply_rule(after_w, f, rl, zoom);
    assert(spec_cascade(f, rules, zoom) == after_l) by {
        assert(rules.len() == 2);
        assert(rules[0] == rw);
        assert(rules.drop_first() =~= seq![rl]);
        assert(spec_cascade_from(empty, f, rules, zoom) == spec_cascade_from(
            after_w,
            f,
            rules.drop_first(),
            zoom,
        ));
        assert(rules.drop_first()[0] == rl);
        assert(rules.drop_first().drop_first() =~= Seq::<Rule>::empty());
        assert(spec_cascade_from(after_w, f, rules.drop_first(), zoom) == spec_cascade_from(
            after_l,
            f,
            rules.drop_first().drop_first(),
            zoom,
        ));
        assert(spec_cascade_from(after_l, f, rules.drop_first().drop_first(), zoom) == after_l);
    }
    assert(after_w == spec_apply_selector_props(empty, "*"@, asgw)) by {
        let sels = rw.selectors@;
        assert(sels.len() == 1);
        assert(spec_selector_matches(f, sels[0], zoom));
        let next = spec_apply_selector_props(empty, spec_layer_id(sels[0]), asgw);
        assert(spec_apply_selectors(empty, f, sels, asgw, zoom) == spec_apply_selectors(
            next,
            f,
            sels.drop_first(),
            asgw,
            zoom,
        ));
        assert(sels.drop_first() =~= Seq::<Selector>::empty());
        assert(spec_apply_selectors(next, f, sels.drop_first(), asgw, zoom) == next);
    }
    assert(after_l == spec_apply_selector_props(after_w, layer, asgl)) by {
        let sels = rl.selectors@;
        assert(sels.len() == 1);
        assert(spec_selector_matches(f, sels[0], zoom));
        let next = spec_apply_selector_props(after_w, spec_layer_id(sels[0]), asgl);
        assert(spec_apply_selectors(after_w, f, sels, asgl, zoom) == spec_apply_selectors(
            next,
            f,
            sels.drop_first(),
            asgl,
            zoom,
        ));
        assert(sels.drop_first() =~= Seq::<Selector>::empty());
        assert(spec_apply_selectors(next, f, sels.drop_first(), asgl, zoom) == next);
    }
    // The wildcard rule leaves exactly one layer, `*`, holding its
    // assignments applied to nothing.
    let seeded_w = spec_seed_layer(empty, "*"@);
    let star = LayerView { name: "*"@, props: spec_wildcard_props(empty) };
    assert(seeded_w == empty.push(star));
    lemma_layer_lookup_push(empty, star, "*"@);
    lemma_layer_lookup_push(empty, star, layer);
    lemma_apply_all_lookup(seeded_w, asgw, "*"@);
    lemma_apply_all_lookup(seeded_w, asgw, layer);
    let wprops = spec_apply_props(Seq::<PropertyView>::empty(), asgw);
    assert(spec_layer_lookup(after_w, "*"@) == Some(wprops));
    assert(spec_layer_lookup(after_w, layer) is None);
    // The later rule creates the layer from the wildcard's contents and
    // applies its own assignments.
    assert(spec_wildcard_props(after_w) == wprops);
    lemma_seeding_inherits_wildcard(after_w, layer, asgl);
    assert(spec_layer_lookup(after_l, layer) == Some(spec_apply_props(wprops, asgl)));
    lemma_apply_props_lookup(wprops, asgl, pname);
    lemma_apply_props_lookup(Seq::<PropertyView>::empty(), asgw, pname);
}

/// Rule order decides: of two rules that both assign a property in the same
/// layer, each through its single matching selector, the later one's (last)
/// assignment is what the layer ends up holding — whatever the earlier rule
/// assigned.
pub proof fn lemma_later_rule_wins(
    f: Feature,
    ra: Rule,
    rb: Rule,
    zoom: u8,
    layer: Seq<char>,
    pname: Seq<char>,
    vb: PropValueView,
)
    requires
        layer != "*"@,
        ra.selectors@.len() == 1,
        rb.selectors@.len() == 1,
        spec_selector_matches(f, ra.selectors@[0], zoom),
        spec_selector_matches(f, rb.selectors@[0], zoom),
        spec_layer_id(ra.selectors@[0]) == layer,
        spec_layer_id(rb.selectors@[0]) == layer,
        spec_last_assignment(spec_assignments(rb.properties@), pname) == Some(vb),
    ensures
        spec_layer_lookup(spec_cascade(f, seq![ra, rb], zoom), layer) matches Some(props)
            && spec_prop_lookup(props, pname) == Some(vb),
{
    let empty = Seq::<LayerView>::empty();
    let rules = seq![ra, rb];
    let asga = spec_assignments(ra.properties@);
    let asgb = spec_assignments(rb.properties@);
    let after_a = spec_apply_rule(empty, f, ra, zoom);
    let after_b = spec_apply_rule(after_a, f, rb, zoom);
    assert(spec_cascade(f, rules, zoom) == after_b) by {
        assert(rules.len() == 2);
        assert(rules[0] == ra);
        assert(rules.drop_first() =~= seq![rb]);
        assert(spec_cascade_from(empty, f, rules, zoom) == spec_cascade_from(
            after_a,
            f,
            rules.drop_first(),
            zoom,
        ));
        assert(rules.drop_first()[0] == rb);
        assert(rules.drop_first().drop_first() =~= Seq::<Rule>::empty());
        assert(spec_cascade_from(after_a, f, rules.drop_first(), zoom) == spec_cascade_from(
            after_b,
            f,
            rules.drop_first().drop_first(),
            zoom,
        ));
        assert(spec_cascade_from(after_b, f, rules.drop_first().drop_first(), zoom) == after_b);
    }
    assert(after_a == spec_apply_selector_props(empty, layer, asga)) by {
        let sels = ra.selectors@;
        assert(sels.len() == 1);
        assert(spec_selector_matches(f, sels[0], zoom));
        let next = spec_apply_selector_props(empty, spec_layer_id(sels[0]), asga);
        assert(spec_apply_selectors(empty, f, sels, asga, zoom) == spec_apply_selectors(
            next,
            f,
            sels.drop_first(),
            asga,
            zoom,
        ));
        assert(sels.drop_first() =~= Seq::<Selector>::empty());
        assert(spec_apply_selectors(next, f, sels.drop_first(), asga, zoom) == next);
    }
    assert(after_b == spec_apply_selector_props(after_a, layer, asgb)) by {
        let sels = rb.selectors@;
        assert(sels.len() == 1);
        assert(spec_selector_matches(f, sels[0], zoom));
        let next = spec_apply_selector_props(after_a, spec_layer_id(sels[0]), asgb);
        assert(spec_apply_selectors(after_a, f, sels, asgb, zoom) == spec_apply_selectors(
            next,
            f,
            sels.drop_first(),
            asgb,
            zoom,
        ));
        assert(sels.drop_first() =~= Seq::<Selector>::empty());
        assert(spec_apply_selectors(next, f, sels.drop_first(), asgb, zoom) == next);
    }
    // The first rule materialises the layer, whatever it puts there.
    assert(!spec_layer_contains(empty, layer));
    lemma_seeding_inherits_wildcard(empty, layer, asga);
    let props_a = spec_apply_props(spec_wildcard_props(empty), asga);
    assert(spec_layer_lookup(after_a, layer) == Some(props_a));
    // The second rule applies its assignments on top; the last one for the
    // contested name wins.
    let seeded_b = spec_seed_layer(after_a, layer);
    assert(seeded_b == after_a);
    lemma_update_first_lookup(after_a, layer, asgb, layer);
    assert(spec_layer_lookup(after_b, layer) == Some(spec_apply_props(props_a, asgb)));
    lemma_apply_props_lookup(props_a, asgb, pname);
}

} // verus!
