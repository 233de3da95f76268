use mapcss_styler::float_bits::{
    draw_order_key, is_nan_bits, le_bits, lt_bits, Z_INDEX_BITS_CLOSED, Z_INDEX_BITS_OPEN,
};
use mapcss_styler::model::Color;
use mapcss_styler::style::{is_non_trivial_cap, LineCap, Style, StyleHashKey};

fn sample_values() -> Vec<f64> {
    vec![
        f64::NEG_INFINITY,
        -1.0e300,
        -3.5,
        -1.0,
        -0.0,
        0.0,
        5.0e-324,
        0.25,
        1.0,
        3.0,
        1.0e300,
        f64::INFINITY,
    ]
}

#[test]
fn bit_comparisons_agree_with_ieee_on_ordinary_values() {
    let values = sample_values();
    for &a in &values {
        for &b in &values {
            assert_eq!(
                lt_bits(a.to_bits(), b.to_bits()),
                a < b,
                "lt {} {}",
                a,
                b
            );
            assert_eq!(
                le_bits(a.to_bits(), b.to_bits()),
                a <= b,
                "le {} {}",
                a,
                b
            );
        }
    }
}

#[test]
fn nan_compares_with_nothing() {
    let nan = f64::NAN.to_bits();
    assert!(is_nan_bits(nan));
    assert!(!is_nan_bits(1.0f64.to_bits()));
    for &x in &sample_values() {
        assert!(!lt_bits(nan, x.to_bits()));
        assert!(!lt_bits(x.to_bits(), nan));
        assert!(!le_bits(nan, x.to_bits()));
        assert!(!le_bits(x.to_bits(), nan));
    }
    assert!(!le_bits(nan, nan));
}

#[test]
fn draw_order_key_is_monotonic_in_the_value() {
    let values = sample_values();
    for &a in &values {
        for &b in &values {
            if a < b {
                assert!(
                    draw_order_key(a.to_bits()) < draw_order_key(b.to_bits()),
                    "key order {} {}",
                    a,
                    b
                );
            }
        }
    }
}

#[test]
fn draw_order_key_collapses_the_two_zeros() {
    assert_eq!(draw_order_key((-0.0f64).to_bits()), draw_order_key(0.0f64.to_bits()));
}

#[test]
fn z_index_default_constants_are_one_and_three() {
    assert_eq!(Z_INDEX_BITS_CLOSED, 1.0f64.to_bits());
    assert_eq!(Z_INDEX_BITS_OPEN, 3.0f64.to_bits());
}

fn plain_style() -> Style {
    Style {
        z_index: 1.0f64.to_bits(),
        color: None,
        fill_color: None,
        opacity: None,
        fill_opacity: None,
        width: None,
        dashes: None,
        line_join: None,
        line_cap: None,
    }
}

#[test]
fn equal_styles_give_equal_hash_keys() {
    let a = plain_style();
    let mut b = plain_style();
    b.color = Some(Color { r: 1, g: 2, b: 3 });
    b.dashes = Some(vec![2.0f64.to_bits(), 1.0f64.to_bits()]);
    let mut c = plain_style();
    c.color = Some(Color { r: 1, g: 2, b: 3 });
    c.dashes = Some(vec![2.0f64.to_bits(), 1.0f64.to_bits()]);
    assert_eq!(a.to_hash_key(), plain_style().to_hash_key());
    assert_eq!(b.to_hash_key(), c.to_hash_key());
    assert_ne!(a.to_hash_key(), b.to_hash_key());
}

#[test]
fn unset_field_differs_from_field_set_to_default() {
    let unset = plain_style();
    let mut set = plain_style();
    set.opacity = Some(1.0f64.to_bits());
    assert_ne!(unset.to_hash_key(), set.to_hash_key());
}

#[test]
fn distinct_nan_bit_patterns_stay_distinct() {
    let quiet = f64::NAN.to_bits();
    let other = quiet ^ 1;
    let mut a = plain_style();
    a.z_index = quiet;
    let mut b = plain_style();
    b.z_index = other;
    assert_ne!(a.to_hash_key(), b.to_hash_key());
    let mut c = plain_style();
    c.z_index = quiet;
    assert_eq!(a.to_hash_key(), c.to_hash_key());
}

#[test]
fn hash_key_keeps_every_field() {
    let mut s = plain_style();
    s.z_index = 4.5f64.to_bits();
    s.color = Some(Color { r: 1, g: 2, b: 3 });
    s.fill_color = Some(Color { r: 4, g: 5, b: 6 });
    s.opacity = Some(0.5f64.to_bits());
    s.fill_opacity = Some(0.25f64.to_bits());
    s.width = Some(2.0f64.to_bits());
    s.dashes = Some(vec![1.0f64.to_bits()]);
    s.line_join = Some(mapcss_styler::style::LineJoin::Bevel);
    s.line_cap = Some(LineCap::Round);
    let key: StyleHashKey = s.to_hash_key();
    assert_eq!(key.z_index, 4.5f64.to_bits());
    assert_eq!(key.color, Some(Color { r: 1, g: 2, b: 3 }));
    assert_eq!(key.fill_color, Some(Color { r: 4, g: 5, b: 6 }));
    assert_eq!(key.opacity, Some(0.5f64.to_bits()));
    assert_eq!(key.fill_opacity, Some(0.25f64.to_bits()));
    assert_eq!(key.width, Some(2.0f64.to_bits()));
    assert_eq!(key.dashes, Some(vec![1.0f64.to_bits()]));
    assert_eq!(key.line_join, Some(mapcss_styler::style::LineJoin::Bevel));
    assert_eq!(key.line_cap, Some(LineCap::Round));
}

#[test]
fn only_round_and_square_caps_are_non_trivial() {
    assert!(is_non_trivial_cap(&Some(LineCap::Round)));
    assert!(is_non_trivial_cap(&Some(LineCap::Square)));
    assert!(!is_non_trivial_cap(&Some(LineCap::Butt)));
    assert!(!is_non_trivial_cap(&None));
}
