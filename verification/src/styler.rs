//! The styler: orchestrates matching, cascading, extraction and ordering.
//!
//! A [`Styler`] owns an immutable rule list and a color-name table for the
//! lifetime of the stylesheet, and derives the canvas background fill color
//! once at construction.  Its bulk operation styles every layer of every
//! feature, discards the wildcard layer, and sorts the result into a
//! deterministic draw order.

use vstd::prelude::*;

use crate::cascade::{cascade_rules, spec_cascade};
use crate::feature::Feature;
use crate::float_bits::{Z_INDEX_BITS_CLOSED, Z_INDEX_BITS_OPEN};
use crate::layers::LayerView;
use crate::model::{Color, ObjectType, PropertyValue, Rule, Selector};
use crate::order::{
    sort_styled, spec_sorted_by_draw_order, styled_views, StyledArea, StyledAreaView,
};
use crate::style::{
    diag_views, property_map_to_style, spec_extract_style, spec_style_diags, ColorTable,
    Diagnostic, DiagnosticView, NamedColorView,
};

verus! {

/// The default z-index of a feature: closed geometry renders beneath open
/// geometry.
pub open spec fn spec_default_z(f: Feature) -> u64 {
    if f.closed {
        Z_INDEX_BITS_CLOSED
    } else {
        Z_INDEX_BITS_OPEN
    }
}

/// Whether a rule has a selector that targets the canvas pseudo-object.
pub open spec fn spec_has_canvas_selector(rule: Rule) -> bool {
    exists|i: int|
        0 <= i < rule.selectors@.len() && ((#[trigger] rule.selectors@[i]) matches
        Selector::Single(s) && s.object_type == ObjectType::Canvas)
}

/// The first `fill-color` property holding a literal color, if any.
pub open spec fn spec_first_fill_color(props: Seq<crate::model::Property>) -> Option<Color>
    decreases props.len(),
{
    if props.len() == 0 {
        None
    } else {
        match props[0].value {
            PropertyValue::Color(c) => if props[0].name@ == "fill-color"@ {
                Some(c)
            } else {
                spec_first_fill_color(props.drop_first())
            },
            _ => spec_first_fill_color(props.drop_first()),
        }
    }
}

/// The canvas background fill color: from the first rule that both targets
/// the canvas and carries a literal `fill-color`, scanning in order.
pub open spec fn spec_canvas_fill_color(rules: Seq<Rule>) -> Option<Color>
    decreases rules.len(),
{
    if rules.len() == 0 {
        None
    } else if spec_has_canvas_selector(rules[0]) && spec_first_fill_color(rules[0].properties@)
        is Some {
        spec_first_fill_color(rules[0].properties@)
    } else {
        spec_canvas_fill_color(rules.drop_first())
    }
}

/// The styled output one feature's layer map yields: one styled pair per
/// layer, in layer order, the wildcard layer excluded.
pub open spec fn spec_styled_layers(
    layers: Seq<LayerView>,
    area_index: int,
    f: Feature,
    table: Seq<NamedColorView>,
) -> Seq<StyledAreaView>
    decreases layers.len(),
{
    if layers.len() == 0 {
        Seq::empty()
    } else {
        let rest = spec_styled_layers(layers.drop_first(), area_index, f, table);
        if layers[0].name == "*"@ {
            rest
        } else {
            seq![
                StyledAreaView {
                    area_index,
                    global_id: f.global_id,
                    style: spec_extract_style(layers[0].props, table, spec_default_z(f)),
                },
            ] + rest
        }
    }
}

/// The diagnostics one feature's layer map yields, in layer order, the
/// wildcard layer excluded.
pub open spec fn spec_layers_diags(
    layers: Seq<LayerView>,
    f: Feature,
    table: Seq<NamedColorView>,
) -> Seq<DiagnosticView>
    decreases layers.len(),
{
    if layers.len() == 0 {
        Seq::empty()
    } else {
        let rest = spec_layers_diags(layers.drop_first(), f, table);
        if layers[0].name == "*"@ {
            rest
        } else {
            spec_style_diags(layers[0].props, table, f.global_id) + rest
        }
    }
}

/// The styled output of a run over the features from `base` on, before
/// sorting: each feature's styled layers, features in input order.
pub open spec fn spec_styled_pairs_from(
    areas: Seq<Feature>,
    base: int,
    rules: Seq<Rule>,
    table: Seq<NamedColorView>,
    zoom: u8,
) -> Seq<StyledAreaView>
    decreases areas.len(),
{
    if areas.len() == 0 {
        Seq::empty()
    } else {
        spec_styled_layers(spec_cascade(areas[0], rules, zoom), base, areas[0], table)
            + spec_styled_pairs_from(areas.drop_first(), base + 1, rules, table, zoom)
    }
}

/// The styled output of a whole run, before sorting.
pub open spec fn spec_styled_pairs(
    areas: Seq<Feature>,
    rules: Seq<Rule>,
    table: Seq<NamedColorView>,
    zoom: u8,
) -> Seq<StyledAreaView> {
    spec_styled_pairs_from(areas, 0, rules, table, zoom)
}

/// The diagnostics of a whole run, in emission order.
pub open spec fn spec_areas_diags(
    areas: Seq<Feature>,
    rules: Seq<Rule>,
    table: Seq<NamedColorView>,
    zoom: u8,
) -> Seq<DiagnosticView>
    decreases areas.len(),
{
    if areas.len() == 0 {
        Seq::empty()
    } else {
        spec_layers_diags(spec_cascade(areas[0], rules, zoom), areas[0], table)
            + spec_areas_diags(areas.drop_first(), rules, table, zoom)
    }
}

/// Derives the canvas background fill color from the rule list.
pub fn extract_canvas_fill_color(rules: &Vec<Rule>) -> (r: Option<Color>)
    ensures
        r == spec_canvas_fill_color(rules@),
{
    let fill_color_name: String = "fill-color".to_owned();
    let n = rules.len();
    let mut i: usize = 0;
    proof {
        assert(rules@.skip(0) =~= rules@);
    }
    while i < n
        invariant
            i <= n,
            n == rules@.len(),
            fill_color_name@ == "fill-color"@,
            spec_canvas_fill_color(rules@) == spec_canvas_fill_color(rules@.skip(i as int)),
        decreases n - i,
    {
        let rule = &rules[i];
        proof {
            assert(rules@.skip(i as int)[0] == rules@[i as int]);
            assert(rules@.skip(i as int).drop_first() =~= rules@.skip(i + 1));
        }
        let mut has_canvas = false;
        let m = rule.selectors.len();
        let mut j: usize = 0;
        while j < m && !has_canvas
            invariant
                j <= m,
                m == rule.selectors@.len(),
                has_canvas ==> spec_has_canvas_selector(*rule),
                !has_canvas ==> forall|k: int|
                    0 <= k < j ==> !((#[trigger] rule.selectors@[k]) matches Selector::Single(s)
                        && s.object_type == ObjectType::Canvas),
            decreases m - j,
        {
            if let Selector::Single(single) = &rule.selectors[j] {
                if let ObjectType::Canvas = single.object_type {
                    has_canvas = true;
                }
            }
            j = j + 1;
        }
        if has_canvas {
            let k = rule.properties.len();
            let mut l: usize = 0;
            proof {
                assert(rule.properties@.skip(0) =~= rule.properties@);
            }
            while l < k
                invariant
                    l <= k,
                    k == rule.properties@.len(),
                    fill_color_name@ == "fill-color"@,
                    i < n,
                    n == rules@.len(),
                    *rule == rules@[i as int],
                    spec_has_canvas_selector(rules@[i as int]),
                    spec_canvas_fill_color(rules@) == spec_canvas_fill_color(
                        rules@.skip(i as int),
                    ),
                    spec_first_fill_color(rule.properties@) == spec_first_fill_color(
                        rule.properties@.skip(l as int),
                    ),
                decreases k - l,
            {
                let prop = &rule.properties[l];
                proof {
                    assert(rule.properties@.skip(l as int)[0] == rule.properties@[l as int]);
                    assert(rule.properties@.skip(l as int).drop_first() =~= rule.properties@.skip(
                        l + 1,
                    ));
                }
                if prop.name == fill_color_name {
                    if let PropertyValue::Color(c) = &prop.value {
                        proof {
                            assert(rule.properties@.skip(l as int)[0] == *prop);
                            assert(prop.value == PropertyValue::Color(*c));
                            assert(prop.name@ == "fill-color"@);
                            assert(spec_first_fill_color(rule.properties@.skip(l as int)) == Some(
                                *c,
                            ));
                            assert(*rule == rules@[i as int]);
                            assert(spec_has_canvas_selector(rules@[i as int]));
                            assert(spec_first_fill_color(rules@[i as int].properties@) == Some(*c));
                            assert(rules@.skip(i as int)[0] == rules@[i as int]);
                            assert(spec_canvas_fill_color(rules@.skip(i as int)) == Some(*c));
                        }
                        return Some(*c);
                    }
                }
                l = l + 1;
            }
            proof {
                assert(rule.properties@.skip(k as int).len() == 0);
                assert(spec_first_fill_color(rule.properties@) is None);
            }
        }
        proof {
            if !has_canvas {
                assert(!spec_has_canvas_selector(rules@[i as int]));
            }
            assert(spec_canvas_fill_color(rules@.skip(i as int)) == spec_canvas_fill_color(
                rules@.skip(i + 1),
            ));
        }
        i = i + 1;
    }
    proof {
        assert(rules@.skip(n as int).len() == 0);
    }
    None
}

/// Resolves styles for features against an immutable stylesheet.
pub struct Styler {
    /// The canvas background fill color, derived once at construction.
    pub canvas_fill_color: Option<Color>,
    /// The ordered rule list.
    pub rules: Vec<Rule>,
    /// The color-name table identifiers are resolved through.
    pub colors: ColorTable,
}

impl Styler {
    /// Takes ownership of the rule list and the color table and derives the
    /// canvas background fill color.
    pub fn new(rules: Vec<Rule>, colors: ColorTable) -> (r: Styler)
        ensures
            r.rules == rules,
            r.colors == colors,
            r.canvas_fill_color == spec_canvas_fill_color(rules@),
    {
        let canvas_fill_color = extract_canvas_fill_color(&rules);
        Styler { canvas_fill_color, rules, colors }
    }

    /// The layer map one feature's cascade resolves to.
    pub fn style_area(&self, area: &Feature, zoom: u8) -> (r: crate::layers::LayerMap)
        ensures
            r@ == spec_cascade(*area, self.rules@, zoom),
    {
        cascade_rules(&self.rules, area, zoom)
    }

    /// Styles every feature: cascades, drops the wildcard layer, extracts a
    /// typed style per remaining layer, and sorts the whole output by
    /// z-index with the feature identifier as tie-break.
    pub fn style_areas(
        &self,
        areas: &Vec<Feature>,
        zoom: u8,
        diags: &mut Vec<Diagnostic>,
    ) -> (r: Vec<StyledArea>)
        ensures
            spec_sorted_by_draw_order(styled_views(r@)),
            styled_views(r@).to_multiset() == spec_styled_pairs(
                areas@,
                self.rules@,
                self.colors@,
                zoom,
            ).to_multiset(),
            diag_views(final(diags)@) == diag_views(old(diags)@) + spec_areas_diags(
                areas@,
                self.rules@,
                self.colors@,
                zoom,
            ),
    {
        let ghost base_diags = diag_views(old(diags)@);
        let ghost goal = spec_styled_pairs(areas@, self.rules@, self.colors@, zoom);
        let ghost goal_diags = spec_areas_diags(areas@, self.rules@, self.colors@, zoom);
        let wildcard: String = "*".to_owned();
        let mut out: Vec<StyledArea> = Vec::new();
        let n = areas.len();
        let mut i: usize = 0;
        proof {
            assert(areas@.skip(0) =~= areas@);
            assert(styled_views(out@) =~= Seq::empty());
            assert(diag_views(diags@) =~= base_diags + Seq::<DiagnosticView>::empty());
            assert(Seq::<StyledAreaView>::empty() + goal =~= goal);
        }
        while i < n
            invariant
                i <= n,
                n == areas@.len(),
                wildcard@ == "*"@,
                goal == spec_styled_pairs(areas@, self.rules@, self.colors@, zoom),
                goal_diags == spec_areas_diags(areas@, self.rules@, self.colors@, zoom),
                styled_views(out@) + spec_styled_pairs_from(
                    areas@.skip(i as int),
                    i as int,
                    self.rules@,
                    self.colors@,
                    zoom,
                ) == goal,
                diag_views(diags@) + spec_areas_diags(
                    areas@.skip(i as int),
                    self.rules@,
                    self.colors@,
                    zoom,
                ) == base_diags + goal_diags,
            decreases n - i,
        {
            let f = &areas[i];
            proof {
                assert(areas@.skip(i as int)[0] == areas@[i as int]);
                assert(areas@.skip(i as int).drop_first() =~= areas@.skip(i + 1));
            }
            let default_z = if f.closed {
                Z_INDEX_BITS_CLOSED
            } else {
                Z_INDEX_BITS_OPEN
            };
            let map = cascade_rules(&self.rules, f, zoom);
            let ghost layer_views = map@;
            let m = map.layers.len();
            let mut j: usize = 0;
            proof {
                assert(layer_views.skip(0) =~= layer_views);
            }
            while j < m
                invariant
                    j <= m,
                    m == map.layers@.len(),
                    map@ == layer_views,
                    layer_views.len() == m,
                    wildcard@ == "*"@,
                    i < n,
                    n == areas@.len(),
                    *f == areas@[i as int],
                    default_z == spec_default_z(*f),
                    goal == spec_styled_pairs(areas@, self.rules@, self.colors@, zoom),
                    goal_diags == spec_areas_diags(areas@, self.rules@, self.colors@, zoom),
                    styled_views(out@) + spec_styled_layers(
                        layer_views.skip(j as int),
                        i as int,
                        *f,
                        self.colors@,
                    ) + spec_styled_pairs_from(
                        areas@.skip(i + 1),
                        i + 1,
                        self.rules@,
                        self.colors@,
                        zoom,
                    ) == goal,
                    diag_views(diags@) + spec_layers_diags(
                        layer_views.skip(j as int),
                        *f,
                        self.colors@,
                    ) + spec_areas_diags(areas@.skip(i + 1), self.rules@, self.colors@, zoom)
                        == base_diags + goal_diags,
                decreases m - j,
            {
                let layer = &map.layers[j];
                proof {
                    assert(layer_views.skip(j as int)[0] == layer_views[j as int]);
                    assert(layer_views[j as int] == map.layers@[j as int]@);
                    assert(layer_views.skip(j as int).drop_first() =~= layer_views.skip(j + 1));
                }
                if layer.name != wildcard {
                    let ghost out_before = styled_views(out@);
                    let ghost diags_before = diag_views(diags@);
                    let style = property_map_to_style(
                        &layer.props,
                        default_z,
                        f.global_id,
                        &self.colors,
                        diags,
                    );
                    let entry = StyledArea { area_index: i, global_id: f.global_id, style };
                    proof {
                        assert(entry@ == StyledAreaView {
                            area_index: i as int,
                            global_id: f.global_id,
                            style: spec_extract_style(
                                layer_views[j as int].props,
                                self.colors@,
                                spec_default_z(*f),
                            ),
                        });
                    }
                    out.push(entry);
                    proof {
                        assert(styled_views(out@) =~= out_before.push(entry@));
                        assert(styled_views(out@) + spec_styled_layers(
                            layer_views.skip(j + 1),
                            i as int,
                            *f,
                            self.colors@,
                        ) =~= out_before + spec_styled_layers(
                            layer_views.skip(j as int),
                            i as int,
                            *f,
                            self.colors@,
                        ));
                        assert(diag_views(diags@) + spec_layers_diags(
                            layer_views.skip(j + 1),
                            *f,
                            self.colors@,
                        ) =~= diags_before + spec_layers_diags(
                            layer_views.skip(j as int),
                            *f,
                            self.colors@,
                        ));
                    }
                } else {
                    proof {
                        assert(layer_views[j as int].name == "*"@);
                        assert(spec_styled_layers(
                            layer_views.skip(j as int),
                            i as int,
                            *f,
                            self.colors@,
                        ) == spec_styled_layers(layer_views.skip(j + 1), i as int, *f, self.colors@));
                        assert(spec_layers_diags(layer_views.skip(j as int), *f, self.colors@)
                            == spec_layers_diags(layer_views.skip(j + 1), *f, self.colors@));
                    }
                }
                j = j + 1;
            }
            proof {
                assert(layer_views.skip(m as int).len() == 0);
                assert(spec_styled_layers(layer_views.skip(m as int), i as int, *f, self.colors@)
                    =~= Seq::<StyledAreaView>::empty());
                assert(spec_layers_diags(layer_views.skip(m as int), *f, self.colors@)
                    =~= Seq::<DiagnosticView>::empty());
                assert(styled_views(out@) + spec_styled_pairs_from(
                    areas@.skip(i + 1),
                    i + 1,
                    self.rules@,
                    self.colors@,
                    zoom,
                ) =~= goal);
                assert(diag_views(diags@) + spec_areas_diags(
                    areas@.skip(i + 1),
                    self.rules@,
                    self.colors@,
                    zoom,
                ) =~= base_diags + goal_diags);
            }
            i = i + 1;
        }
        proof {
            assert(areas@.skip(n as int).len() == 0);
            assert(spec_styled_pairs_from(areas@.skip(n as int), n as int, self.rules@, self.colors@, zoom)
                =~= Seq::<StyledAreaView>::empty());
            assert(spec_areas_diags(areas@.skip(n as int), self.rules@, self.colors@, zoom)
                =~= Seq::<DiagnosticView>::empty());
            assert(styled_views(out@) =~= goal);
            assert(diag_views(diags@) =~= base_diags + goal_diags);
        }
        sort_styled(&mut out);
        out
    }
}

/// A wildcard layer contributes nothing to the styled output: removing it
/// from a layer map leaves the styled pairs unchanged.
pub proof fn lemma_wildcard_layer_not_styled(
    layers: Seq<LayerView>,
    i: int,
    area_index: int,
    f: Feature,
    table: Seq<NamedColorView>,
)
    requires
        0 <= i < layers.len(),
        layers[i].name == "*"@,
    ensures
        spec_styled_layers(layers.remove(i), area_index, f, table) == spec_styled_layers(
            layers,
            area_index,
            f,
            table,
        ),
    decreases layers.len(),
{
    if i == 0 {
        assert(layers.remove(0) =~= layers.drop_first());
    } else {
        lemma_wildcard_layer_not_styled(layers.drop_first(), i - 1, area_index, f, table);
        assert(layers.remove(i)[0] == layers[0]);
        assert(layers.remove(i).drop_first() =~= layers.drop_first().remove(i - 1));
    }
}

} // verus!
