use mapcss_styler::feature::{Feature, Tag};
use mapcss_styler::model::{
    BinaryNumericTestType, BinaryStringTestType, Color, ObjectType, Property, PropertyValue, Rule,
    Selector, SingleSelector, Test, UnaryTestType,
};
use mapcss_styler::style::{ColorTable, Diagnostic, DiagnosticKind, LineCap, LineJoin, NamedColor};
use mapcss_styler::styler::Styler;

fn tag(key: &str, value: &str) -> Tag {
    Tag {
        key: key.to_string(),
        value: value.to_string(),
        numeric_value: value.parse::<f64>().ok().map(f64::to_bits),
    }
}

fn feature(global_id: u64, closed: bool, tags: &[(&str, &str)]) -> Feature {
    Feature {
        global_id,
        closed,
        tags: tags.iter().map(|(k, v)| tag(k, v)).collect(),
    }
}

fn way_selector(tests: Vec<Test>, layer: Option<&str>) -> Selector {
    Selector::Single(SingleSelector {
        object_type: ObjectType::Way { should_be_closed: None },
        min_zoom: None,
        max_zoom: None,
        tests,
        layer_id: layer.map(|s| s.to_string()),
    })
}

fn eq_test(key: &str, value: &str) -> Test {
    Test::BinaryStringCompare {
        tag_name: key.to_string(),
        value: value.to_string(),
        test_type: BinaryStringTestType::Equal,
    }
}

fn rule(selectors: Vec<Selector>, props: Vec<(&str, PropertyValue)>) -> Rule {
    Rule {
        selectors,
        properties: props
            .into_iter()
            .map(|(name, value)| Property { name: name.to_string(), value })
            .collect(),
    }
}

fn num(x: f64) -> PropertyValue {
    PropertyValue::Numbers(vec![x.to_bits()])
}

fn color(r: u8, g: u8, b: u8) -> PropertyValue {
    PropertyValue::Color(Color { r, g, b })
}

fn ident(s: &str) -> PropertyValue {
    PropertyValue::Identifier(s.to_string())
}

fn no_colors() -> ColorTable {
    ColorTable { entries: Vec::new() }
}

fn style_one(
    rules: Vec<Rule>,
    f: Feature,
    zoom: u8,
) -> (Vec<mapcss_styler::order::StyledArea>, Vec<Diagnostic>) {
    let styler = Styler::new(rules, no_colors());
    let mut diags = Vec::new();
    let styled = styler.style_areas(&vec![f], zoom, &mut diags);
    (styled, diags)
}

#[test]
fn residential_way_gets_color_width_and_default_z() {
    let r = rule(
        vec![way_selector(vec![eq_test("highway", "residential")], None)],
        vec![("color", color(255, 0, 0)), ("width", num(2.0))],
    );
    let f = feature(7, false, &[("highway", "residential")]);
    let (styled, diags) = style_one(vec![r], f, 14);
    assert_eq!(styled.len(), 1);
    let s = &styled[0].style;
    assert_eq!(s.color, Some(Color { r: 255, g: 0, b: 0 }));
    assert_eq!(s.width, Some(2.0f64.to_bits()));
    assert_eq!(s.z_index, 3.0f64.to_bits());
    assert_eq!(s.fill_color, None);
    assert_eq!(s.opacity, None);
    assert_eq!(s.fill_opacity, None);
    assert_eq!(s.dashes, None);
    assert_eq!(s.line_join, None);
    assert_eq!(s.line_cap, None);
    assert!(diags.is_empty());
}

#[test]
fn wrong_shape_dashes_gives_none_and_one_diagnostic() {
    let r = rule(vec![way_selector(vec![], None)], vec![("dashes", ident("red"))]);
    let f = feature(3, false, &[]);
    let (styled, diags) = style_one(vec![r], f, 10);
    assert_eq!(styled.len(), 1);
    assert_eq!(styled[0].style.dashes, None);
    assert_eq!(diags.len(), 1);
    assert_eq!(diags[0].property, "dashes");
    assert_eq!(diags[0].kind, DiagnosticKind::ExpectedNumberSequence);
    assert_eq!(diags[0].entity_id, 3);
}

#[test]
fn layer_created_after_wildcard_inherits_its_properties() {
    let wild = rule(vec![way_selector(vec![], Some("*"))], vec![("z-index", num(5.0))]);
    let named = rule(vec![way_selector(vec![], None)], vec![("color", color(0, 255, 0))]);
    let f = feature(1, false, &[]);
    let (styled, diags) = style_one(vec![wild, named], f, 10);
    assert_eq!(styled.len(), 1);
    assert_eq!(styled[0].style.z_index, 5.0f64.to_bits());
    assert_eq!(styled[0].style.color, Some(Color { r: 0, g: 255, b: 0 }));
    assert!(diags.is_empty());
}

#[test]
fn later_rule_overrides_same_property_in_same_layer() {
    let first = rule(vec![way_selector(vec![], None)], vec![("width", num(1.0))]);
    let second = rule(vec![way_selector(vec![], None)], vec![("width", num(2.0))]);
    let (styled, _) = style_one(vec![first, second], feature(1, false, &[]), 10);
    assert_eq!(styled.len(), 1);
    assert_eq!(styled[0].style.width, Some(2.0f64.to_bits()));
}

#[test]
fn wildcard_rule_reaches_layers_created_before_it() {
    let named = rule(vec![way_selector(vec![], None)], vec![("color", color(1, 2, 3))]);
    let wild = rule(vec![way_selector(vec![], Some("*"))], vec![("width", num(3.0))]);
    let (styled, _) = style_one(vec![named, wild], feature(1, false, &[]), 10);
    assert_eq!(styled.len(), 1);
    assert_eq!(styled[0].style.color, Some(Color { r: 1, g: 2, b: 3 }));
    assert_eq!(styled[0].style.width, Some(3.0f64.to_bits()));
}

#[test]
fn wildcard_layer_alone_produces_no_output() {
    let wild = rule(vec![way_selector(vec![], Some("*"))], vec![("width", num(3.0))]);
    let (styled, diags) = style_one(vec![wild], feature(1, false, &[]), 10);
    assert!(styled.is_empty());
    assert!(diags.is_empty());
}

#[test]
fn default_z_index_depends_on_closedness() {
    let r = rule(vec![way_selector(vec![], None)], vec![("width", num(1.0))]);
    let (closed_styled, _) = style_one(vec![r], feature(1, true, &[]), 10);
    assert_eq!(closed_styled[0].style.z_index, 1.0f64.to_bits());

    let r = rule(vec![way_selector(vec![], None)], vec![("width", num(1.0))]);
    let (open_styled, _) = style_one(vec![r], feature(1, false, &[]), 10);
    assert_eq!(open_styled[0].style.z_index, 3.0f64.to_bits());
}

#[test]
fn output_sorted_by_z_index_then_global_id() {
    let r = rule(vec![way_selector(vec![], None)], vec![]);
    let z5 = rule(
        vec![way_selector(vec![eq_test("kind", "high")], None)],
        vec![("z-index", num(5.0))],
    );
    let rules = vec![r, z5];
    let features = vec![
        feature(30, false, &[("kind", "high")]),
        feature(20, false, &[]),
        feature(10, false, &[]),
    ];
    let styler = Styler::new(rules, no_colors());
    let mut diags = Vec::new();
    let styled = styler.style_areas(&features, 10, &mut diags);
    assert_eq!(styled.len(), 3);
    let ids: Vec<u64> = styled.iter().map(|s| s.global_id).collect();
    assert_eq!(ids, vec![10, 20, 30]);
    assert_eq!(styled[0].style.z_index, 3.0f64.to_bits());
    assert_eq!(styled[2].style.z_index, 5.0f64.to_bits());
    for w in styled.windows(2) {
        let ka = w[0].style.z_index;
        let kb = w[1].style.z_index;
        assert!(f64::from_bits(ka) <= f64::from_bits(kb));
    }
}

#[test]
fn zoom_bounds_are_inclusive() {
    for (zoom, expect) in [(9u8, false), (10, true), (11, true), (12, true), (13, false)] {
        let sel = Selector::Single(SingleSelector {
            object_type: ObjectType::Way { should_be_closed: None },
            min_zoom: Some(10),
            max_zoom: Some(12),
            tests: vec![],
            layer_id: None,
        });
        let r = rule(vec![sel], vec![("width", num(1.0))]);
        let (styled, _) = style_one(vec![r], feature(1, false, &[]), zoom);
        assert_eq!(styled.len(), if expect { 1 } else { 0 }, "zoom {}", zoom);
    }
}

#[test]
fn contradictory_tests_contribute_nothing() {
    let contradictory = rule(
        vec![way_selector(
            vec![
                Test::Unary {
                    tag_name: "name".to_string(),
                    test_type: UnaryTestType::Exists,
                },
                Test::Unary {
                    tag_name: "name".to_string(),
                    test_type: UnaryTestType::NotExists,
                },
            ],
            None,
        )],
        vec![("width", num(9.0))],
    );
    let plain = rule(vec![way_selector(vec![], None)], vec![("width", num(1.0))]);
    let (styled, _) = style_one(
        vec![contradictory, plain],
        feature(1, false, &[("name", "x")]),
        10,
    );
    assert_eq!(styled.len(), 1);
    assert_eq!(styled[0].style.width, Some(1.0f64.to_bits()));
}

#[test]
fn unary_true_accepts_exactly_yes_true_one() {
    for (value, expect) in [
        ("yes", true),
        ("true", true),
        ("1", true),
        ("Yes", false),
        ("TRUE", false),
        ("0", false),
        ("no", false),
    ] {
        let r = rule(
            vec![way_selector(
                vec![Test::Unary {
                    tag_name: "oneway".to_string(),
                    test_type: UnaryTestType::True,
                }],
                None,
            )],
            vec![("width", num(1.0))],
        );
        let (styled, _) = style_one(vec![r], feature(1, false, &[("oneway", value)]), 10);
        assert_eq!(styled.len(), if expect { 1 } else { 0 }, "value {}", value);
    }
}

#[test]
fn unary_false_holds_for_absent_tag() {
    let r = rule(
        vec![way_selector(
            vec![Test::Unary {
                tag_name: "oneway".to_string(),
                test_type: UnaryTestType::False,
            }],
            None,
        )],
        vec![("width", num(1.0))],
    );
    let (styled, _) = style_one(vec![r], feature(1, false, &[]), 10);
    assert_eq!(styled.len(), 1);
}

#[test]
fn string_not_equal_holds_for_absent_tag() {
    let r = rule(
        vec![way_selector(
            vec![Test::BinaryStringCompare {
                tag_name: "highway".to_string(),
                value: "residential".to_string(),
                test_type: BinaryStringTestType::NotEqual,
            }],
            None,
        )],
        vec![("width", num(1.0))],
    );
    let (styled, _) = style_one(vec![r], feature(1, false, &[]), 10);
    assert_eq!(styled.len(), 1);
}

#[test]
fn numeric_compare_parses_tag_value() {
    let cases: [(&str, BinaryNumericTestType, f64, bool); 6] = [
        ("2.5", BinaryNumericTestType::Less, 3.0, true),
        ("2.5", BinaryNumericTestType::Greater, 3.0, false),
        ("3.0", BinaryNumericTestType::LessOrEqual, 3.0, true),
        ("3.0", BinaryNumericTestType::Less, 3.0, false),
        ("4", BinaryNumericTestType::GreaterOrEqual, 3.0, true),
        ("wide", BinaryNumericTestType::Less, 3.0, false),
    ];
    for (value, test_type, threshold, expect) in cases {
        let r = rule(
            vec![way_selector(
                vec![Test::BinaryNumericCompare {
                    tag_name: "lanes".to_string(),
                    value: threshold.to_bits(),
                    test_type,
                }],
                None,
            )],
            vec![("width", num(1.0))],
        );
        let (styled, _) = style_one(vec![r], feature(1, false, &[("lanes", value)]), 10);
        assert_eq!(styled.len(), if expect { 1 } else { 0 }, "value {}", value);
    }
}

#[test]
fn numeric_compare_fails_on_missing_tag() {
    let r = rule(
        vec![way_selector(
            vec![Test::BinaryNumericCompare {
                tag_name: "lanes".to_string(),
                value: 3.0f64.to_bits(),
                test_type: BinaryNumericTestType::Less,
            }],
            None,
        )],
        vec![("width", num(1.0))],
    );
    let (styled, _) = style_one(vec![r], feature(1, false, &[]), 10);
    assert!(styled.is_empty());
}

#[test]
fn nested_selector_never_matches() {
    let single = SingleSelector {
        object_type: ObjectType::Way { should_be_closed: None },
        min_zoom: None,
        max_zoom: None,
        tests: vec![],
        layer_id: None,
    };
    let child = SingleSelector {
        object_type: ObjectType::Way { should_be_closed: None },
        min_zoom: None,
        max_zoom: None,
        tests: vec![],
        layer_id: None,
    };
    let r = rule(
        vec![Selector::Nested { parent: single, child }],
        vec![("width", num(1.0))],
    );
    let (styled, _) = style_one(vec![r], feature(1, false, &[]), 10);
    assert!(styled.is_empty());
}

#[test]
fn closedness_constraint_must_match() {
    for (required, closed, expect) in [
        (Some(true), true, true),
        (Some(true), false, false),
        (Some(false), false, true),
        (Some(false), true, false),
        (None, true, true),
        (None, false, true),
    ] {
        let sel = Selector::Single(SingleSelector {
            object_type: ObjectType::Way { should_be_closed: required },
            min_zoom: None,
            max_zoom: None,
            tests: vec![],
            layer_id: None,
        });
        let r = rule(vec![sel], vec![("width", num(1.0))]);
        let (styled, _) = style_one(vec![r], feature(1, closed, &[]), 10);
        assert_eq!(styled.len(), if expect { 1 } else { 0 });
    }
}

#[test]
fn canvas_selector_never_styles_a_feature() {
    let sel = Selector::Single(SingleSelector {
        object_type: ObjectType::Canvas,
        min_zoom: None,
        max_zoom: None,
        tests: vec![],
        layer_id: None,
    });
    let r = rule(vec![sel], vec![("width", num(1.0))]);
    let (styled, _) = style_one(vec![r], feature(1, false, &[]), 10);
    assert!(styled.is_empty());
}

#[test]
fn canvas_fill_color_comes_from_first_canvas_rule_with_literal_color() {
    let canvas_sel = || {
        Selector::Single(SingleSelector {
            object_type: ObjectType::Canvas,
            min_zoom: None,
            max_zoom: None,
            tests: vec![],
            layer_id: None,
        })
    };
    let no_color = rule(vec![canvas_sel()], vec![("fill-color", ident("red"))]);
    let first = rule(vec![canvas_sel()], vec![("fill-color", color(9, 9, 9))]);
    let second = rule(vec![canvas_sel()], vec![("fill-color", color(1, 1, 1))]);
    let styler = Styler::new(vec![no_color, first, second], no_colors());
    assert_eq!(styler.canvas_fill_color, Some(Color { r: 9, g: 9, b: 9 }));

    let plain = rule(vec![way_selector(vec![], None)], vec![("fill-color", color(5, 5, 5))]);
    let styler = Styler::new(vec![plain], no_colors());
    assert_eq!(styler.canvas_fill_color, None);
}

#[test]
fn identifier_colors_resolve_through_the_table() {
    let table = ColorTable {
        entries: vec![NamedColor {
            name: "red".to_string(),
            color: Color { r: 255, g: 0, b: 0 },
        }],
    };
    let known = rule(vec![way_selector(vec![], None)], vec![("color", ident("red"))]);
    let styler = Styler::new(vec![known], table);
    let mut diags = Vec::new();
    let styled = styler.style_areas(&vec![feature(1, false, &[])], 10, &mut diags);
    assert_eq!(styled[0].style.color, Some(Color { r: 255, g: 0, b: 0 }));
    assert!(diags.is_empty());
}

#[test]
fn unknown_color_name_gives_none_and_a_diagnostic() {
    let r = rule(vec![way_selector(vec![], None)], vec![("color", ident("blurple"))]);
    let (styled, diags) = style_one(vec![r], feature(4, false, &[]), 10);
    assert_eq!(styled[0].style.color, None);
    assert_eq!(diags.len(), 1);
    assert_eq!(diags[0].kind, DiagnosticKind::UnknownColor);
    assert_eq!(diags[0].property, "color");
    assert_eq!(diags[0].entity_id, 4);
}

#[test]
fn color_of_wrong_shape_gives_none_and_a_diagnostic() {
    let r = rule(vec![way_selector(vec![], None)], vec![("fill-color", num(1.0))]);
    let (styled, diags) = style_one(vec![r], feature(4, false, &[]), 10);
    assert_eq!(styled[0].style.fill_color, None);
    assert_eq!(diags.len(), 1);
    assert_eq!(diags[0].kind, DiagnosticKind::ExpectedColor);
    assert_eq!(diags[0].property, "fill-color");
}

#[test]
fn opacity_requires_exactly_one_number() {
    let two = PropertyValue::Numbers(vec![1.0f64.to_bits(), 2.0f64.to_bits()]);
    let r = rule(vec![way_selector(vec![], None)], vec![("opacity", two)]);
    let (styled, diags) = style_one(vec![r], feature(1, false, &[]), 10);
    assert_eq!(styled[0].style.opacity, None);
    assert_eq!(diags.len(), 1);
    assert_eq!(diags[0].kind, DiagnosticKind::ExpectedNumber);
    assert_eq!(diags[0].property, "opacity");
}

#[test]
fn line_join_and_cap_values_are_mapped() {
    let r = rule(
        vec![way_selector(vec![], None)],
        vec![("linejoin", ident("miter")), ("linecap", ident("none"))],
    );
    let (styled, diags) = style_one(vec![r], feature(1, false, &[]), 10);
    assert_eq!(styled[0].style.line_join, Some(LineJoin::Miter));
    assert_eq!(styled[0].style.line_cap, Some(LineCap::Butt));
    assert!(diags.is_empty());

    let r = rule(
        vec![way_selector(vec![], None)],
        vec![("linejoin", ident("round")), ("linecap", ident("square"))],
    );
    let (styled, _) = style_one(vec![r], feature(1, false, &[]), 10);
    assert_eq!(styled[0].style.line_join, Some(LineJoin::Round));
    assert_eq!(styled[0].style.line_cap, Some(LineCap::Square));
}

#[test]
fn unknown_line_join_identifier_gives_one_diagnostic() {
    let r = rule(vec![way_selector(vec![], None)], vec![("linejoin", ident("zigzag"))]);
    let (styled, diags) = style_one(vec![r], feature(1, false, &[]), 10);
    assert_eq!(styled[0].style.line_join, None);
    assert_eq!(diags.len(), 1);
    assert_eq!(diags[0].kind, DiagnosticKind::UnknownLineJoin);
}

#[test]
fn non_identifier_line_cap_gives_two_diagnostics() {
    let r = rule(vec![way_selector(vec![], None)], vec![("linecap", num(1.0))]);
    let (styled, diags) = style_one(vec![r], feature(1, false, &[]), 10);
    assert_eq!(styled[0].style.line_cap, None);
    assert_eq!(diags.len(), 2);
    assert_eq!(diags[0].kind, DiagnosticKind::ExpectedIdentifier);
    assert_eq!(diags[1].kind, DiagnosticKind::UnknownLineCap);
    assert_eq!(diags[0].property, "linecap");
}

#[test]
fn malformed_z_index_falls_back_silently() {
    let r = rule(vec![way_selector(vec![], None)], vec![("z-index", ident("top"))]);
    let (styled, diags) = style_one(vec![r], feature(1, true, &[]), 10);
    assert_eq!(styled[0].style.z_index, 1.0f64.to_bits());
    assert!(diags.is_empty());
}

#[test]
fn selectors_of_one_rule_apply_in_declared_order() {
    let r = rule(
        vec![
            way_selector(vec![], Some("casing")),
            way_selector(vec![], None),
        ],
        vec![("width", num(4.0))],
    );
    let (styled, _) = style_one(vec![r], feature(1, false, &[]), 10);
    assert_eq!(styled.len(), 2);
    assert!(styled.iter().all(|s| s.style.width == Some(4.0f64.to_bits())));
}

#[test]
fn multiple_layers_of_one_feature_are_styled_independently() {
    let casing = rule(vec![way_selector(vec![], Some("casing"))], vec![("width", num(6.0))]);
    let fill = rule(vec![way_selector(vec![], Some("fill"))], vec![("width", num(4.0))]);
    let (styled, _) = style_one(vec![casing, fill], feature(1, false, &[]), 10);
    assert_eq!(styled.len(), 2);
    let widths: Vec<Option<u64>> = styled.iter().map(|s| s.style.width).collect();
    assert!(widths.contains(&Some(6.0f64.to_bits())));
    assert!(widths.contains(&Some(4.0f64.to_bits())));
}

#[test]
fn no_rules_and_no_features_give_empty_output() {
    let styler = Styler::new(Vec::new(), no_colors());
    let mut diags = Vec::new();
    let styled = styler.style_areas(&vec![feature(1, false, &[])], 10, &mut diags);
    assert!(styled.is_empty());
    assert_eq!(styler.canvas_fill_color, None);

    let r = rule(vec![way_selector(vec![], None)], vec![("width", num(1.0))]);
    let styler = Styler::new(vec![r], no_colors());
    let styled = styler.style_areas(&Vec::new(), 10, &mut diags);
    assert!(styled.is_empty());
    assert!(diags.is_empty());
}

#[test]
fn duplicate_property_in_one_rule_keeps_the_last_value() {
    let r = rule(
        vec![way_selector(vec![], None)],
        vec![("width", num(1.0)), ("width", num(7.0))],
    );
    let (styled, _) = style_one(vec![r], feature(1, false, &[]), 10);
    assert_eq!(styled[0].style.width, Some(7.0f64.to_bits()));
}

#[test]
fn equal_z_index_breaks_ties_by_global_id() {
    let r = rule(vec![way_selector(vec![], None)], vec![("z-index", num(2.0))]);
    let styler = Styler::new(vec![r], no_colors());
    let mut diags = Vec::new();
    let features = vec![
        feature(9, false, &[]),
        feature(4, false, &[]),
        feature(6, false, &[]),
    ];
    let styled = styler.style_areas(&features, 10, &mut diags);
    let ids: Vec<u64> = styled.iter().map(|s| s.global_id).collect();
    assert_eq!(ids, vec![4, 6, 9]);
}

#[test]
fn style_area_keeps_the_wildcard_layer_itself() {
    let wild = rule(vec![way_selector(vec![], Some("*"))], vec![("width", num(3.0))]);
    let named = rule(vec![way_selector(vec![], None)], vec![]);
    let styler = Styler::new(vec![wild, named], no_colors());
    let map = styler.style_area(&feature(1, false, &[]), 10);
    let names: Vec<&str> = map.layers.iter().map(|l| l.name.as_str()).collect();
    assert!(names.contains(&"*"));
    assert!(names.contains(&"default"));
}
