//! Selector matching: does a selector apply to a feature at a zoom level?
//!
//! A single selector matches when the zoom lies in its inclusive zoom range,
//! its geometry constraint fits the feature, and every one of its tag tests
//! passes.  A nested selector never matches.

use vstd::prelude::*;

use crate::feature::{spec_tag_lookup, Feature, Tag};
use crate::float_bits::{le_bits, lt_bits, spec_le_bits, spec_lt_bits};
use crate::model::{
    BinaryNumericTestType, BinaryStringTestType, ObjectType, Selector, SingleSelector, Test,
    UnaryTestType,
};

verus! {

/// The exact set of tag values counted as true: `yes`, `true`, `1`.
pub open spec fn spec_is_true_value(v: Seq<char>) -> bool {
    v == "yes"@ || v == "true"@ || v == "1"@
}

/// Whether one tag test passes against the given tags.
pub open spec fn spec_test_passes(tags: Seq<Tag>, test: Test) -> bool {
    match test {
        Test::Unary { tag_name, test_type } => {
            let tag = spec_tag_lookup(tags, tag_name@);
            match test_type {
                UnaryTestType::Exists => tag is Some,
                UnaryTestType::NotExists => tag is None,
                UnaryTestType::True => tag matches Some(t) && spec_is_true_value(t.value@),
                UnaryTestType::False => !(tag matches Some(t) && spec_is_true_value(t.value@)),
            }
        },
        Test::BinaryStringCompare { tag_name, value, test_type } => {
            let tag = spec_tag_lookup(tags, tag_name@);
            match test_type {
                BinaryStringTestType::Equal => tag matches Some(t) && t.value@ == value@,
                BinaryStringTestType::NotEqual => !(tag matches Some(t) && t.value@ == value@),
            }
        },
        Test::BinaryNumericCompare { tag_name, value, test_type } => {
            let tag = spec_tag_lookup(tags, tag_name@);
            tag matches Some(t) && t.numeric_value matches Some(x) && match test_type {
                BinaryNumericTestType::Less => spec_lt_bits(x, value),
                BinaryNumericTestType::LessOrEqual => spec_le_bits(x, value),
                BinaryNumericTestType::Greater => spec_lt_bits(value, x),
                BinaryNumericTestType::GreaterOrEqual => spec_le_bits(value, x),
            }
        },
    }
}

/// Whether every test of a selector passes.
pub open spec fn spec_all_tests_pass(tags: Seq<Tag>, tests: Seq<Test>) -> bool {
    forall|i: int| 0 <= i < tests.len() ==> spec_test_passes(tags, #[trigger] tests[i])
}

/// Whether the zoom lies in the selector's inclusive zoom range; an absent
/// bound is unconstrained.
pub open spec fn spec_zoom_in_range(sel: SingleSelector, zoom: u8) -> bool {
    &&& (sel.min_zoom matches Some(mz) ==> mz <= zoom)
    &&& (sel.max_zoom matches Some(mz) ==> zoom <= mz)
}

/// Whether the selector's geometry constraint fits a feature with the given
/// closed/open state.  Only way constraints can fit a feature.
pub open spec fn spec_object_type_matches(object_type: ObjectType, closed: bool) -> bool {
    match object_type {
        ObjectType::Way { should_be_closed: None } => true,
        ObjectType::Way { should_be_closed: Some(expected) } => expected == closed,
        ObjectType::Canvas => false,
    }
}

/// Whether a single selector matches a feature at a zoom level.
pub open spec fn spec_single_selector_matches(f: Feature, sel: SingleSelector, zoom: u8) -> bool {
    &&& spec_zoom_in_range(sel, zoom)
    &&& spec_object_type_matches(sel.object_type, f.closed)
    &&& spec_all_tests_pass(f.tags@, sel.tests@)
}

/// Whether a selector matches a feature at a zoom level.  Nested selectors
/// never match.
pub open spec fn spec_selector_matches(f: Feature, sel: Selector, zoom: u8) -> bool {
    match sel {
        Selector::Nested { .. } => false,
        Selector::Single(s) => spec_single_selector_matches(f, s, zoom),
    }
}

/// The layer a selector's properties go to: its explicit layer name, or
/// `default` when it has none.  A nested selector's layer is its child's.
pub open spec fn spec_layer_id(sel: Selector) -> Seq<char> {
    let single = match sel {
        Selector::Single(s) => s,
        Selector::Nested { child, .. } => child,
    };
    match single.layer_id {
        Some(id) => id@,
        None => "default"@,
    }
}

/// Whether a tag value is one of `yes`, `true`, `1`.
pub fn is_true_value(v: &String) -> (r: bool)
    ensures
        r == spec_is_true_value(v@),
{
    let yes: String = "yes".to_owned();
    let tru: String = "true".to_owned();
    let one: String = "1".to_owned();
    *v == yes || *v == tru || *v == one
}

/// Whether one tag test passes for a feature.
pub fn matches_by_tags(feature: &Feature, test: &Test) -> (r: bool)
    ensures
        r == spec_test_passes(feature.tags@, *test),
{
    match test {
        Test::Unary { tag_name, test_type } => {
            let tag = feature.lookup_tag(tag_name);
            match test_type {
                UnaryTestType::Exists => tag.is_some(),
                UnaryTestType::NotExists => tag.is_none(),
                UnaryTestType::True => match tag {
                    Some(t) => is_true_value(&t.value),
                    None => false,
                },
                UnaryTestType::False => match tag {
                    Some(t) => !is_true_value(&t.value),
                    None => true,
                },
            }
        },
        Test::BinaryStringCompare { tag_name, value, test_type } => {
            let tag = feature.lookup_tag(tag_name);
            match test_type {
                BinaryStringTestType::Equal => match tag {
                    Some(t) => t.value == *value,
                    None => false,
                },
                BinaryStringTestType::NotEqual => match tag {
                    Some(t) => t.value != *value,
                    None => true,
                },
            }
        },
        Test::BinaryNumericCompare { tag_name, value, test_type } => {
            let tag = feature.lookup_tag(tag_name);
            match tag {
                Some(t) => match t.numeric_value {
                    Some(x) => match test_type {
                        BinaryNumericTestType::Less => lt_bits(x, *value),
                        BinaryNumericTestType::LessOrEqual => le_bits(x, *value),
                        BinaryNumericTestType::Greater => lt_bits(*value, x),
                        BinaryNumericTestType::GreaterOrEqual => le_bits(*value, x),
                    },
                    None => false,
                },
                None => false,
            }
        },
    }
}

/// Whether a single selector matches a feature at a zoom level.
pub fn area_matches_single(feature: &Feature, selector: &SingleSelector, zoom: u8) -> (r: bool)
    ensures
        r == spec_single_selector_matches(*feature, *selector, zoom),
{
    if let Some(min_zoom) = selector.min_zoom {
        if zoom < min_zoom {
            return false;
        }
    }

    if let Some(max_zoom) = selector.max_zoom {
        if zoom > max_zoom {
            return false;
        }
    }

    let good_object_type = match selector.object_type {
        ObjectType::Way { should_be_closed: None } => true,
        ObjectType::Way { should_be_closed: Some(expected) } => expected == feature.closed,
        ObjectType::Canvas => false,
    };
    if !good_object_type {
        return false;
    }

    let n = selector.tests.len();
    let mut i: usize = 0;
    while i < n
        invariant
            i <= n,
            n == selector.tests@.len(),
            forall|j: int| 0 <= j < i ==> spec_test_passes(feature.tags@, #[trigger] selector.tests@[j]),
        decreases n - i,
    {
        if !matches_by_tags(feature, &selector.tests[i]) {
            return false;
        }
        i = i + 1;
    }
    true
}

/// Whether a selector matches a feature at a zoom level.
pub fn area_matches(feature: &Feature, selector: &Selector, zoom: u8) -> (r: bool)
    ensures
        r == spec_selector_matches(*feature, *selector, zoom),
{
    match selector {
        Selector::Nested { .. } => false,
        Selector::Single(sel) => area_matches_single(feature, sel, zoom),
    }
}

/// The layer a selector's properties go to.
pub fn get_layer_id(selector: &Selector) -> (r: String)
    ensures
        r@ == spec_layer_id(*selector),
{
    let single = match selector {
        Selector::Single(single) => single,
        Selector::Nested { child, .. } => child,
    };
    match &single.layer_id {
        Some(id) => id.clone(),
        None => "default".to_owned(),
    }
}

/// Whether a test demands that a tag with the given name exists.
pub open spec fn spec_is_exists_test(t: Test, key: Seq<char>) -> bool {
    t matches Test::Unary { tag_name, test_type: UnaryTestType::Exists } && tag_name@ == key
}

/// Whether a test demands that no tag with the given name exists.
pub open spec fn spec_is_not_exists_test(t: Test, key: Seq<char>) -> bool {
    t matches Test::Unary { tag_name, test_type: UnaryTestType::NotExists } && tag_name@ == key
}

/// A selector whose tests demand both the presence and the absence of the
/// same tag is unsatisfiable: it matches no feature at any zoom.
pub proof fn lemma_contradictory_tests_never_match(
    f: Feature,
    sel: SingleSelector,
    zoom: u8,
    i: int,
    j: int,
    key: Seq<char>,
)
    requires
        0 <= i < sel.tests@.len(),
        0 <= j < sel.tests@.len(),
        spec_is_exists_test(sel.tests@[i], key),
        spec_is_not_exists_test(sel.tests@[j], key),
    ensures
        !spec_single_selector_matches(f, sel, zoom),
{
    if spec_single_selector_matches(f, sel, zoom) {
        assert(spec_test_passes(f.tags@, sel.tests@[i]));
        assert(spec_test_passes(f.tags@, sel.tests@[j]));
        assert(spec_tag_lookup(f.tags@, key) is Some);
        assert(spec_tag_lookup(f.tags@, key) is None);
    }
}

/// A zoom below an explicit minimum or above an explicit maximum excludes a
/// selector from matching; within the range, the boundary values included,
/// the zoom check is no obstacle and matching is decided by the geometry
/// constraint and the tag tests alone.
pub proof fn lemma_zoom_bounds(f: Feature, sel: SingleSelector, zoom: u8)
    ensures
        sel.min_zoom matches Some(mz) && zoom < mz ==> !spec_single_selector_matches(f, sel, zoom),
        sel.max_zoom matches Some(mz) && zoom > mz ==> !spec_single_selector_matches(f, sel, zoom),
        spec_zoom_in_range(sel, zoom) ==> spec_single_selector_matches(f, sel, zoom) == (
        spec_object_type_matches(sel.object_type, f.closed) && spec_all_tests_pass(
            f.tags@,
            sel.tests@,
        )),
{
}

} // verus!
