//! The stylesheet data model: rules, selectors, tests and property values.
//!
//! A stylesheet is an ordered list of [`Rule`]s.  Each rule carries an
//! ordered list of [`Selector`]s (predicates over a feature's geometry type,
//! zoom range and tags) and an ordered list of [`Property`] assignments.
//! Rule order defines cascade precedence: a later matching rule overrides an
//! earlier one for the same layer and property name.

use vstd::prelude::*;

verus! {

/// An RGB color value.
#[derive(Clone, Copy, Debug, PartialEq, Eq, Structural, Hash)]
pub struct Color {
    pub r: u8,
    pub g: u8,
    pub b: u8,
}

/// An untyped property value as the stylesheet parser delivers it.  Numbers
/// are IEEE 754 bit patterns (see [`crate::float_bits`]).
#[derive(Debug)]
pub enum PropertyValue {
    Color(Color),
    Identifier(String),
    Numbers(Vec<u64>),
}

/// The mathematical value of a [`PropertyValue`].
pub ghost enum PropValueView {
    Color(Color),
    Identifier(Seq<char>),
    Numbers(Seq<u64>),
}

impl View for PropertyValue {
    type V = PropValueView;

    open spec fn view(&self) -> PropValueView {
        match self {
            PropertyValue::Color(c) => PropValueView::Color(*c),
            PropertyValue::Identifier(id) => PropValueView::Identifier(id@),
            PropertyValue::Numbers(nums) => PropValueView::Numbers(nums@),
        }
    }
}

impl PropertyValue {
    /// An owned copy with the same mathematical value.
    pub fn duplicate(&self) -> (r: PropertyValue)
        ensures
            r@ == self@,
    {
        match self {
            PropertyValue::Color(c) => PropertyValue::Color(*c),
            PropertyValue::Identifier(id) => PropertyValue::Identifier(id.clone()),
            PropertyValue::Numbers(nums) => {
                let copy = nums.clone();
                assert(copy@ =~= nums@);
                PropertyValue::Numbers(copy)
            },
        }
    }
}

/// One property assignment of a rule: a name and an untyped value.
#[derive(Debug)]
pub struct Property {
    pub name: String,
    pub value: PropertyValue,
}

/// The mathematical value of a [`Property`].
pub ghost struct PropertyView {
    pub name: Seq<char>,
    pub value: PropValueView,
}

impl View for Property {
    type V = PropertyView;

    open spec fn view(&self) -> PropertyView {
        PropertyView { name: self.name@, value: self.value@ }
    }
}

/// A test over a single tag without a comparison value.
#[derive(Clone, Copy, Debug, PartialEq, Eq, Structural)]
pub enum UnaryTestType {
    /// The tag is present.
    Exists,
    /// The tag is absent.
    NotExists,
    /// The tag is present with one of the values `yes`, `true`, `1`.
    True,
    /// The tag is absent, or present with none of the values `yes`, `true`, `1`.
    False,
}

/// String comparison against a tag value.
#[derive(Clone, Copy, Debug, PartialEq, Eq, Structural)]
pub enum BinaryStringTestType {
    Equal,
    NotEqual,
}

/// Numeric comparison against a tag value parsed as a 64-bit float.
#[derive(Clone, Copy, Debug, PartialEq, Eq, Structural)]
pub enum BinaryNumericTestType {
    Less,
    LessOrEqual,
    Greater,
    GreaterOrEqual,
}

/// One tag test of a selector.  All tests of a selector must pass.
#[derive(Debug)]
pub enum Test {
    Unary { tag_name: String, test_type: UnaryTestType },
    BinaryStringCompare { tag_name: String, value: String, test_type: BinaryStringTestType },
    /// `value` is the IEEE 754 bit pattern of the comparison threshold.
    BinaryNumericCompare { tag_name: String, value: u64, test_type: BinaryNumericTestType },
}

/// The geometry constraint of a selector.
#[derive(Clone, Copy, Debug, PartialEq, Eq, Structural)]
pub enum ObjectType {
    /// The canvas pseudo-object: carries stylesheet-wide settings such as the
    /// background fill color and never matches a feature.
    Canvas,
    /// A way, optionally constrained to closed (`Some(true)`) or open
    /// (`Some(false)`) geometry.
    Way { should_be_closed: Option<bool> },
}

/// A selector without nesting: geometry constraint, inclusive zoom range,
/// conjunction of tag tests and an optional explicit layer name.
#[derive(Debug)]
pub struct SingleSelector {
    pub object_type: ObjectType,
    pub min_zoom: Option<u8>,
    pub max_zoom: Option<u8>,
    pub tests: Vec<Test>,
    pub layer_id: Option<String>,
}

/// A selector of a rule.  The nested form is accepted by the grammar but
/// never matches a feature.
#[derive(Debug)]
pub enum Selector {
    Single(SingleSelector),
    Nested { parent: SingleSelector, child: SingleSelector },
}

/// One stylesheet rule: its selectors and its property assignments, both in
/// declared order.
#[derive(Debug)]
pub struct Rule {
    pub selectors: Vec<Selector>,
    pub properties: Vec<Property>,
}

} // verus!
