//! Typed style extraction with soft-fail diagnostics.
//!
//! A layer's accumulated raw properties are converted field by field into a
//! typed [`Style`].  Every conversion failure is soft: the field becomes
//! `None` and one diagnostic is recorded; no failure aborts the extraction
//! of the other fields.  The z-index is the exception both ways: it always
//! has a value — the caller-supplied default where the property is absent or
//! malformed — and it never produces a diagnostic.

use vstd::prelude::*;

use crate::model::{Color, PropValueView, PropertyValue};
use crate::propmap::{spec_prop_lookup, PropMap};

verus! {

/// How two stroke segments are joined.
#[derive(Clone, Copy, Debug, PartialEq, Eq, Structural, Hash)]
pub enum LineJoin {
    Round,
    Miter,
    Bevel,
}

/// How a stroke end is capped.
#[derive(Clone, Copy, Debug, PartialEq, Eq, Structural, Hash)]
pub enum LineCap {
    Butt,
    Round,
    Square,
}

/// Whether a cap extends a segment beyond its endpoint: true only for the
/// round and square caps; the butt cap and an absent cap are trivial.
pub open spec fn spec_is_non_trivial_cap(line_cap: Option<LineCap>) -> bool {
    line_cap == Some(LineCap::Square) || line_cap == Some(LineCap::Round)
}

/// Whether a cap extends a segment beyond its endpoint.
pub fn is_non_trivial_cap(line_cap: &Option<LineCap>) -> (r: bool)
    ensures
        r == spec_is_non_trivial_cap(*line_cap),
{
    match *line_cap {
        Some(LineCap::Square) | Some(LineCap::Round) => true,
        _ => false,
    }
}

/// The resolved style of one layer of one feature.  Every numeric field is
/// an IEEE 754 bit pattern; all fields but the z-index are optional.
#[derive(Clone, Debug)]
pub struct Style {
    pub z_index: u64,
    pub color: Option<Color>,
    pub fill_color: Option<Color>,
    pub opacity: Option<u64>,
    pub fill_opacity: Option<u64>,
    pub width: Option<u64>,
    pub dashes: Option<Vec<u64>>,
    pub line_join: Option<LineJoin>,
    pub line_cap: Option<LineCap>,
}

/// The mathematical value of a [`Style`] and of a [`StyleHashKey`].
pub ghost struct StyleView {
    pub z_index: u64,
    pub color: Option<Color>,
    pub fill_color: Option<Color>,
    pub opacity: Option<u64>,
    pub fill_opacity: Option<u64>,
    pub width: Option<u64>,
    pub dashes: Option<Seq<u64>>,
    pub line_join: Option<LineJoin>,
    pub line_cap: Option<LineCap>,
}

impl View for Style {
    type V = StyleView;

    open spec fn view(&self) -> StyleView {
        StyleView {
            z_index: self.z_index,
            color: self.color,
            fill_color: self.fill_color,
            opacity: self.opacity,
            fill_opacity: self.fill_opacity,
            width: self.width,
            dashes: match self.dashes {
                Some(d) => Some(d@),
                None => None,
            },
            line_join: self.line_join,
            line_cap: self.line_cap,
        }
    }
}

/// A canonical, comparable projection of a [`Style`]: field for field the
/// same bit patterns.  Two keys are equal exactly when every field of the
/// two styles is bit-identical, so distinct `NaN` payloads stay distinct and
/// an unset field never equals a field set to the default.
#[derive(Clone, Debug, PartialEq, Eq, Hash)]
pub struct StyleHashKey {
    pub z_index: u64,
    pub color: Option<Color>,
    pub fill_color: Option<Color>,
    pub opacity: Option<u64>,
    pub fill_opacity: Option<u64>,
    pub width: Option<u64>,
    pub dashes: Option<Vec<u64>>,
    pub line_join: Option<LineJoin>,
    pub line_cap: Option<LineCap>,
}

impl View for StyleHashKey {
    type V = StyleView;

    open spec fn view(&self) -> StyleView {
        StyleView {
            z_index: self.z_index,
            color: self.color,
            fill_color: self.fill_color,
            opacity: self.opacity,
            fill_opacity: self.fill_opacity,
            width: self.width,
            dashes: match self.dashes {
                Some(d) => Some(d@),
                None => None,
            },
            line_join: self.line_join,
            line_cap: self.line_cap,
        }
    }
}

impl Style {
    /// The style's hash key: the same fields, bit for bit.
    pub fn to_hash_key(&self) -> (r: StyleHashKey)
        ensures
            r@ == self@,
    {
        let dashes = match &self.dashes {
            Some(d) => {
                let copy = d.clone();
                proof {
                    assert(copy@ =~= d@);
                }
                Some(copy)
            },
            None => None,
        };
        StyleHashKey {
            z_index: self.z_index,
            color: self.color,
            fill_color: self.fill_color,
            opacity: self.opacity,
            fill_opacity: self.fill_opacity,
            width: self.width,
            dashes,
            line_join: self.line_join,
            line_cap: self.line_cap,
        }
    }
}

/// Hash keys are equal exactly when every field of the two styles is
/// bit-identical: equality of the key views is field-for-field equality of
/// the style views, so an unset optional field never collides with a set
/// one, and distinct `NaN` bit patterns stay distinct.
pub proof fn lemma_hash_key_exact(a: Style, b: Style)
    ensures
        (a@ == b@) <==> {
            &&& a@.z_index == b@.z_index
            &&& a@.color == b@.color
            &&& a@.fill_color == b@.fill_color
            &&& a@.opacity == b@.opacity
            &&& a@.fill_opacity == b@.fill_opacity
            &&& a@.width == b@.width
            &&& a@.dashes == b@.dashes
            &&& a@.line_join == b@.line_join
            &&& a@.line_cap == b@.line_cap
        },
{
}

/// One entry of the color-name table.
#[derive(Debug)]
pub struct NamedColor {
    pub name: String,
    pub color: Color,
}

/// The mathematical value of a [`NamedColor`].
pub ghost struct NamedColorView {
    pub name: Seq<char>,
    pub color: Color,
}

impl View for NamedColor {
    type V = NamedColorView;

    open spec fn view(&self) -> NamedColorView {
        NamedColorView { name: self.name@, color: self.color }
    }
}

/// The color-name table: maps identifier strings to color values.  The
/// first entry with a name is its binding.
#[derive(Debug)]
pub struct ColorTable {
    pub entries: Vec<NamedColor>,
}

impl View for ColorTable {
    type V = Seq<NamedColorView>;

    open spec fn view(&self) -> Seq<NamedColorView> {
        self.entries@.map_values(|c: NamedColor| c@)
    }
}

/// The color bound to a name, if any.
pub open spec fn spec_color_lookup(table: Seq<NamedColorView>, name: Seq<char>) -> Option<Color>
    decreases table.len(),
{
    if table.len() == 0 {
        None
    } else if table[0].name == name {
        Some(table[0].color)
    } else {
        spec_color_lookup(table.drop_first(), name)
    }
}

impl ColorTable {
    /// The color bound to a name, if any.
    pub fn lookup(&self, name: &String) -> (r: Option<Color>)
        ensures
            r == spec_color_lookup(self@, name@),
    {
        let n = self.entries.len();
        let mut i: usize = 0;
        proof {
            assert(self@.skip(0) =~= self@);
        }
        while i < n
            invariant
                i <= n,
                n == self.entries@.len(),
                self@.len() == n,
                spec_color_lookup(self@, name@) == spec_color_lookup(self@.skip(i as int), name@),
            decreases n - i,
        {
            let entry = &self.entries[i];
            proof {
                assert(self@.skip(i as int)[0] == self@[i as int]);
                assert(self@[i as int] == self.entries@[i as int]@);
            }
            if entry.name == *name {
                return Some(entry.color);
            }
            proof {
                assert(self@.skip(i as int).drop_first() =~= self@.skip(i + 1));
            }
            i = i + 1;
        }
        proof {
            assert(self@.skip(n as int).len() == 0);
        }
        None
    }
}

/// Why a property could not be converted.
#[derive(Clone, Copy, Debug, PartialEq, Eq, Structural)]
pub enum DiagnosticKind {
    /// A color property held neither a color nor an identifier.
    ExpectedColor,
    /// A color property named a color the table does not know.
    UnknownColor,
    /// A scalar property did not hold exactly one number.
    ExpectedNumber,
    /// The line join or cap property did not hold an identifier.
    ExpectedIdentifier,
    /// The line join identifier is not one of `round`, `miter`, `bevel`.
    UnknownLineJoin,
    /// The line cap identifier is not one of `none`, `round`, `square`.
    UnknownLineCap,
    /// The dash property did not hold a sequence of numbers.
    ExpectedNumberSequence,
}

/// One soft-fail record: which feature, which property, the offending raw
/// value and why it was rejected.
#[derive(Debug)]
pub struct Diagnostic {
    pub entity_id: u64,
    pub property: String,
    pub value: PropertyValue,
    pub kind: DiagnosticKind,
}

/// The mathematical value of a [`Diagnostic`].
pub ghost struct DiagnosticView {
    pub entity_id: u64,
    pub property: Seq<char>,
    pub value: PropValueView,
    pub kind: DiagnosticKind,
}

impl View for Diagnostic {
    type V = DiagnosticView;

    open spec fn view(&self) -> DiagnosticView {
        DiagnosticView {
            entity_id: self.entity_id,
            property: self.property@,
            value: self.value@,
            kind: self.kind,
        }
    }
}

/// The mathematical values of a diagnostic list.
pub open spec fn diag_views(s: Seq<Diagnostic>) -> Seq<DiagnosticView> {
    s.map_values(|d: Diagnostic| d@)
}

/// A color property's value: a direct color, or an identifier resolved
/// through the color table; anything else is no color.
pub open spec fn spec_get_color(
    props: Seq<crate::model::PropertyView>,
    table: Seq<NamedColorView>,
    name: Seq<char>,
) -> Option<Color> {
    match spec_prop_lookup(props, name) {
        Some(PropValueView::Color(c)) => Some(c),
        Some(PropValueView::Identifier(id)) => spec_color_lookup(table, id),
        _ => None,
    }
}

/// A scalar property's value: the single number it holds, if it holds
/// exactly one.
pub open spec fn spec_get_num(props: Seq<crate::model::PropertyView>, name: Seq<char>) -> Option<
    u64,
> {
    match spec_prop_lookup(props, name) {
        Some(PropValueView::Numbers(nums)) => if nums.len() == 1 {
            Some(nums[0])
        } else {
            None
        },
        _ => None,
    }
}

/// The z-index: the single number of the `z-index` property, or the default
/// where the property is absent or malformed.
pub open spec fn spec_z_index(props: Seq<crate::model::PropertyView>, default_z: u64) -> u64 {
    match spec_get_num(props, "z-index"@) {
        Some(x) => x,
        None => default_z,
    }
}

/// The dash pattern: any sequence of numbers.
pub open spec fn spec_get_dashes(props: Seq<crate::model::PropertyView>) -> Option<Seq<u64>> {
    match spec_prop_lookup(props, "dashes"@) {
        Some(PropValueView::Numbers(nums)) => Some(nums),
        _ => None,
    }
}

/// The line join: an identifier equal to `round`, `miter` or `bevel`.
pub open spec fn spec_get_line_join(props: Seq<crate::model::PropertyView>) -> Option<LineJoin> {
    match spec_prop_lookup(props, "linejoin"@) {
        Some(PropValueView::Identifier(id)) => if id == "round"@ {
            Some(LineJoin::Round)
        } else if id == "miter"@ {
            Some(LineJoin::Miter)
        } else if id == "bevel"@ {
            Some(LineJoin::Bevel)
        } else {
            None
        },
        _ => None,
    }
}

/// The line cap: an identifier equal to `none`, `round` or `square`, mapped
/// to the butt, round and square caps.
pub open spec fn spec_get_line_cap(props: Seq<crate::model::PropertyView>) -> Option<LineCap> {
    match spec_prop_lookup(props, "linecap"@) {
        Some(PropValueView::Identifier(id)) => if id == "none"@ {
            Some(LineCap::Butt)
        } else if id == "round"@ {
            Some(LineCap::Round)
        } else if id == "square"@ {
            Some(LineCap::Square)
        } else {
            None
        },
        _ => None,
    }
}

/// The diagnostics a color property produces: one for a value of the wrong
/// shape, one for an unknown color name, none when the property is absent.
pub open spec fn spec_color_diags(
    props: Seq<crate::model::PropertyView>,
    table: Seq<NamedColorView>,
    name: Seq<char>,
    entity_id: u64,
) -> Seq<DiagnosticView> {
    match spec_prop_lookup(props, name) {
        None => Seq::empty(),
        Some(PropValueView::Color(_)) => Seq::empty(),
        Some(PropValueView::Identifier(id)) => if spec_color_lookup(table, id) is Some {
            Seq::empty()
        } else {
            seq![
                DiagnosticView {
                    entity_id,
                    property: name,
                    value: PropValueView::Identifier(id),
                    kind: DiagnosticKind::UnknownColor,
                },
            ]
        },
        Some(v) => seq![
            DiagnosticView { entity_id, property: name, value: v, kind: DiagnosticKind::ExpectedColor },
        ],
    }
}

/// The diagnostic a scalar property produces when present but not a single
/// number.
pub open spec fn spec_num_diags(
    props: Seq<crate::model::PropertyView>,
    name: Seq<char>,
    entity_id: u64,
) -> Seq<DiagnosticView> {
    match spec_prop_lookup(props, name) {
        None => Seq::empty(),
        Some(v) => if v matches PropValueView::Numbers(nums) && nums.len() == 1 {
            Seq::empty()
        } else {
            seq![
                DiagnosticView {
                    entity_id,
                    property: name,
                    value: v,
                    kind: DiagnosticKind::ExpectedNumber,
                },
            ]
        },
    }
}

/// The diagnostic the dash property produces when present but not a
/// sequence of numbers.
pub open spec fn spec_dashes_diags(
    props: Seq<crate::model::PropertyView>,
    entity_id: u64,
) -> Seq<DiagnosticView> {
    match spec_prop_lookup(props, "dashes"@) {
        None => Seq::empty(),
        Some(PropValueView::Numbers(_)) => Seq::empty(),
        Some(v) => seq![
            DiagnosticView {
                entity_id,
                property: "dashes"@,
                value: v,
                kind: DiagnosticKind::ExpectedNumberSequence,
            },
        ],
    }
}

/// The diagnostics the line join property produces: one for an unknown
/// identifier, two for a value that is no identifier at all.
pub open spec fn spec_line_join_diags(
    props: Seq<crate::model::PropertyView>,
    entity_id: u64,
) -> Seq<DiagnosticView> {
    match spec_prop_lookup(props, "linejoin"@) {
        None => Seq::empty(),
        Some(PropValueView::Identifier(id)) => if id == "round"@ || id == "miter"@ || id
            == "bevel"@ {
            Seq::empty()
        } else {
            seq![
                DiagnosticView {
                    entity_id,
                    property: "linejoin"@,
                    value: PropValueView::Identifier(id),
                    kind: DiagnosticKind::UnknownLineJoin,
                },
            ]
        },
        Some(v) => seq![
            DiagnosticView {
                entity_id,
                property: "linejoin"@,
                value: v,
                kind: DiagnosticKind::ExpectedIdentifier,
            },
            DiagnosticView {
                entity_id,
                property: "linejoin"@,
                value: v,
                kind: DiagnosticKind::UnknownLineJoin,
            },
        ],
    }
}

/// The diagnostics the line cap property produces: one for an unknown
/// identifier, two for a value that is no identifier at all.
pub open spec fn spec_line_cap_diags(
    props: Seq<crate::model::PropertyView>,
    entity_id: u64,
) -> Seq<DiagnosticView> {
    match spec_prop_lookup(props, "linecap"@) {
        None => Seq::empty(),
        Some(PropValueView::Identifier(id)) => if id == "none"@ || id == "round"@ || id
            == "square"@ {
            Seq::empty()
        } else {
            seq![
                DiagnosticView {
                    entity_id,
                    property: "linecap"@,
                    value: PropValueView::Identifier(id),
                    kind: DiagnosticKind::UnknownLineCap,
                },
            ]
        },
        Some(v) => seq![
            DiagnosticView {
                entity_id,
                property: "linecap"@,
                value: v,
                kind: DiagnosticKind::ExpectedIdentifier,
            },
            DiagnosticView {
                entity_id,
                property: "linecap"@,
                value: v,
                kind: DiagnosticKind::UnknownLineCap,
            },
        ],
    }
}

/// All diagnostics one layer's extraction produces, in emission order.
pub open spec fn spec_style_diags(
    props: Seq<crate::model::PropertyView>,
    table: Seq<NamedColorView>,
    entity_id: u64,
) -> Seq<DiagnosticView> {
    spec_color_diags(props, table, "color"@, entity_id) + spec_color_diags(
        props,
        table,
        "fill-color"@,
        entity_id,
    ) + spec_num_diags(props, "opacity"@, entity_id) + spec_num_diags(
        props,
        "fill-opacity"@,
        entity_id,
    ) + spec_num_diags(props, "width"@, entity_id) + spec_dashes_diags(props, entity_id)
        + spec_line_join_diags(props, entity_id) + spec_line_cap_diags(props, entity_id)
}

/// The typed style one layer's raw properties resolve to.
pub open spec fn spec_extract_style(
    props: Seq<crate::model::PropertyView>,
    table: Seq<NamedColorView>,
    default_z: u64,
) -> StyleView {
    StyleView {
        z_index: spec_z_index(props, default_z),
        color: spec_get_color(props, table, "color"@),
        fill_color: spec_get_color(props, table, "fill-color"@),
        opacity: spec_get_num(props, "opacity"@),
        fill_opacity: spec_get_num(props, "fill-opacity"@),
        width: spec_get_num(props, "width"@),
        dashes: spec_get_dashes(props),
        line_join: spec_get_line_join(props),
        line_cap: spec_get_line_cap(props),
    }
}

/// Resolves a color property, recording a diagnostic for a wrong shape or
/// an unknown color name.
fn get_color_field(
    props: &PropMap,
    colors: &ColorTable,
    name: &String,
    entity_id: u64,
    diags: &mut Vec<Diagnostic>,
) -> (r: Option<Color>)
    ensures
        r == spec_get_color(props@, colors@, name@),
        diag_views(final(diags)@) == diag_views(old(diags)@) + spec_color_diags(
            props@,
            colors@,
            name@,
            entity_id,
        ),
{
    let ghost base = diag_views(old(diags)@);
    let ghost expected = spec_color_diags(props@, colors@, name@, entity_id);
    match props.get(name) {
        None => {
            proof {
                assert(diag_views(diags@) =~= base + expected);
            }
            None
        },
        Some(v) => match v {
            PropertyValue::Color(c) => {
                proof {
                    assert(diag_views(diags@) =~= base + expected);
                }
                Some(*c)
            },
            PropertyValue::Identifier(id) => {
                let c = colors.lookup(id);
                if c.is_none() {
                    let d = Diagnostic {
                        entity_id,
                        property: name.clone(),
                        value: v.duplicate(),
                        kind: DiagnosticKind::UnknownColor,
                    };
                    proof {
                        assert(d@ == expected[0]);
                    }
                    diags.push(d);
                    proof {
                        assert(diag_views(diags@) =~= base + expected);
                    }
                }
                proof {
                    assert(diag_views(diags@) =~= base + expected);
                }
                c
            },
            PropertyValue::Numbers(_) => {
                let d = Diagnostic {
                    entity_id,
                    property: name.clone(),
                    value: v.duplicate(),
                    kind: DiagnosticKind::ExpectedColor,
                };
                proof {
                    assert(d@ == expected[0]);
                }
                diags.push(d);
                proof {
                    assert(diag_views(diags@) =~= base + expected);
                }
                None
            },
        },
    }
}

/// Resolves a scalar numeric property, recording a diagnostic when it is
/// present but not a single number.
fn get_num_field(
    props: &PropMap,
    name: &String,
    entity_id: u64,
    diags: &mut Vec<Diagnostic>,
) -> (r: Option<u64>)
    ensures
        r == spec_get_num(props@, name@),
        diag_views(final(diags)@) == diag_views(old(diags)@) + spec_num_diags(
            props@,
            name@,
            entity_id,
        ),
{
    let ghost base = diag_views(old(diags)@);
    let ghost expected = spec_num_diags(props@, name@, entity_id);
    match props.get(name) {
        None => {
            proof {
                assert(diag_views(diags@) =~= base + expected);
            }
            None
        },
        Some(v) => {
            let mut result: Option<u64> = None;
            let mut ok = false;
            if let PropertyValue::Numbers(nums) = v {
                if nums.len() == 1 {
                    result = Some(nums[0]);
                    ok = true;
                }
            }
            if !ok {
                let d = Diagnostic {
                    entity_id,
                    property: name.clone(),
                    value: v.duplicate(),
                    kind: DiagnosticKind::ExpectedNumber,
                };
                proof {
                    assert(d@ == expected[0]);
                }
                diags.push(d);
            }
            proof {
                assert(diag_views(diags@) =~= base + expected);
            }
            result
        },
    }
}

/// The z-index: the `z-index` property's single number, or the default; no
/// diagnostic either way.
fn get_z_index(props: &PropMap, default_z: u64) -> (r: u64)
    ensures
        r == spec_z_index(props@, default_z),
{
    let name: String = "z-index".to_owned();
    match props.get(&name) {
        Some(PropertyValue::Numbers(nums)) => if nums.len() == 1 {
            nums[0]
        } else {
            default_z
        },
        _ => default_z,
    }
}

/// Resolves the dash pattern, recording a diagnostic when the property is
/// present but not a sequence of numbers.
fn get_dashes_field(props: &PropMap, entity_id: u64, diags: &mut Vec<Diagnostic>) -> (r: Option<
    Vec<u64>,
>)
    ensures
        match r {
            Some(d) => spec_get_dashes(props@) == Some(d@),
            None => spec_get_dashes(props@) is None,
        },
        diag_views(final(diags)@) == diag_views(old(diags)@) + spec_dashes_diags(
            props@,
            entity_id,
        ),
{
    let ghost base = diag_views(old(diags)@);
    let ghost expected = spec_dashes_diags(props@, entity_id);
    let name: String = "dashes".to_owned();
    match props.get(&name) {
        None => {
            proof {
                assert(diag_views(diags@) =~= base + expected);
            }
            None
        },
        Some(v) => match v {
            PropertyValue::Numbers(nums) => {
                let copy = nums.clone();
                proof {
                    assert(copy@ =~= nums@);
                    assert(diag_views(diags@) =~= base + expected);
                }
                Some(copy)
            },
            _ => {
                let d = Diagnostic {
                    entity_id,
                    property: name.clone(),
                    value: v.duplicate(),
                    kind: DiagnosticKind::ExpectedNumberSequence,
                };
                proof {
                    assert(d@ == expected[0]);
                }
                diags.push(d);
                proof {
                    assert(diag_views(diags@) =~= base + expected);
                }
                None
            },
        },
    }
}

/// Resolves the line join, recording diagnostics for a non-identifier value
/// or an unknown identifier.
fn get_line_join_field(props: &PropMap, entity_id: u64, diags: &mut Vec<Diagnostic>) -> (r: Option<
    LineJoin,
>)
    ensures
        r == spec_get_line_join(props@),
        diag_views(final(diags)@) == diag_views(old(diags)@) + spec_line_join_diags(
            props@,
            entity_id,
        ),
{
    let ghost base = diag_views(old(diags)@);
    let ghost expected = spec_line_join_diags(props@, entity_id);
    let name: String = "linejoin".to_owned();
    match props.get(&name) {
        None => {
            proof {
                assert(diag_views(diags@) =~= base + expected);
            }
            None
        },
        Some(v) => match v {
            PropertyValue::Identifier(id) => {
                let round: String = "round".to_owned();
                let miter: String = "miter".to_owned();
                let bevel: String = "bevel".to_owned();
                let r = if *id == round {
                    Some(LineJoin::Round)
                } else if *id == miter {
                    Some(LineJoin::Miter)
                } else if *id == bevel {
                    Some(LineJoin::Bevel)
                } else {
                    let d = Diagnostic {
                        entity_id,
                        property: name.clone(),
                        value: v.duplicate(),
                        kind: DiagnosticKind::UnknownLineJoin,
                    };
                    proof {
                        assert(d@ == expected[0]);
                    }
                    diags.push(d);
                    None
                };
                proof {
                    assert(diag_views(diags@) =~= base + expected);
                }
                r
            },
            _ => {
                let d1 = Diagnostic {
                    entity_id,
                    property: name.clone(),
                    value: v.duplicate(),
                    kind: DiagnosticKind::ExpectedIdentifier,
                };
                let d2 = Diagnostic {
                    entity_id,
                    property: name.clone(),
                    value: v.duplicate(),
                    kind: DiagnosticKind::UnknownLineJoin,
                };
                proof {
                    assert(d1@ == expected[0]);
                    assert(d2@ == expected[1]);
                }
                diags.push(d1);
                diags.push(d2);
                proof {
                    assert(diag_views(diags@) =~= base + expected);
                }
                None
            },
        },
    }
}

/// Resolves the line cap, recording diagnostics for a non-identifier value
/// or an unknown identifier.
fn get_line_cap_field(props: &PropMap, entity_id: u64, diags: &mut Vec<Diagnostic>) -> (r: Option<
    LineCap,
>)
    ensures
        r == spec_get_line_cap(props@),
        diag_views(final(diags)@) == diag_views(old(diags)@) + spec_line_cap_diags(
            props@,
            entity_id,
        ),
{
    let ghost base = diag_views(old(diags)@);
    let ghost expected = spec_line_cap_diags(props@, entity_id);
    let name: String = "linecap".to_owned();
    match props.get(&name) {
        None => {
            proof {
                assert(diag_views(diags@) =~= base + expected);
            }
            None
        },
        Some(v) => match v {
            PropertyValue::Identifier(id) => {
                let none_id: String = "none".to_owned();
                let round: String = "round".to_owned();
                let square: String = "square".to_owned();
                let r = if *id == none_id {
                    Some(LineCap::Butt)
                } else if *id == round {
                    Some(LineCap::Round)
                } else if *id == square {
                    Some(LineCap::Square)
                } else {
                    let d = Diagnostic {
                        entity_id,
                        property: name.clone(),
                        value: v.duplicate(),
                        kind: DiagnosticKind::UnknownLineCap,
                    };
                    proof {
                        assert(d@ == expected[0]);
                    }
                    diags.push(d);
                    None
                };
                proof {
                    assert(diag_views(diags@) =~= base + expected);
                }
                r
            },
            _ => {
                let d1 = Diagnostic {
                    entity_id,
                    property: name.clone(),
                    value: v.duplicate(),
                    kind: DiagnosticKind::ExpectedIdentifier,
                };
                let d2 = Diagnostic {
                    entity_id,
                    property: name.clone(),
                    value: v.duplicate(),
                    kind: DiagnosticKind::UnknownLineCap,
                };
                proof {
                    assert(d1@ == expected[0]);
                    assert(d2@ == expected[1]);
                }
                diags.push(d1);
                diags.push(d2);
                proof {
                    assert(diag_views(diags@) =~= base + expected);
                }
                None
            },
        },
    }
}

/// Converts one layer's raw properties into a typed [`Style`].  Every
/// failed field becomes `None` with a recorded diagnostic; the z-index
/// falls back to the default silently.
pub fn property_map_to_style(
    props: &PropMap,
    default_z_index: u64,
    entity_id: u64,
    colors: &ColorTable,
    diags: &mut Vec<Diagnostic>,
) -> (r: Style)
    ensures
        r@ == spec_extract_style(props@, colors@, default_z_index),
        diag_views(final(diags)@) == diag_views(old(diags)@) + spec_style_diags(
            props@,
            colors@,
            entity_id,
        ),
{
    let ghost base = diag_views(old(diags)@);
    let color_name: String = "color".to_owned();
    let fill_color_name: String = "fill-color".to_owned();
    let opacity_name: String = "opacity".to_owned();
    let fill_opacity_name: String = "fill-opacity".to_owned();
    let width_name: String = "width".to_owned();

    let color = get_color_field(props, colors, &color_name, entity_id, diags);
    let fill_color = get_color_field(props, colors, &fill_color_name, entity_id, diags);
    let opacity = get_num_field(props, &opacity_name, entity_id, diags);
    let fill_opacity = get_num_field(props, &fill_opacity_name, entity_id, diags);
    let width = get_num_field(props, &width_name, entity_id, diags);
    let dashes = get_dashes_field(props, entity_id, diags);
    let line_join = get_line_join_field(props, entity_id, diags);
    let line_cap = get_line_cap_field(props, entity_id, diags);
    let z_index = get_z_index(props, default_z_index);

    proof {
        assert(diag_views(diags@) =~= base + spec_style_diags(props@, colors@, entity_id));
    }
    let style = Style {
        z_index,
        color,
        fill_color,
        opacity,
        fill_opacity,
        width,
        dashes,
        line_join,
        line_cap,
    };
    proof {
        assert(style@ == spec_extract_style(props@, colors@, default_z_index));
    }
    style
}

/// A z-index property that is absent or malformed falls back to the
/// caller-supplied default, silently.
pub proof fn lemma_default_z_index(
    props: Seq<crate::model::PropertyView>,
    table: Seq<NamedColorView>,
    default_z: u64,
)
    requires
        !(spec_prop_lookup(props, "z-index"@) matches Some(PropValueView::Numbers(nums))
            && nums.len() == 1),
    ensures
        spec_extract_style(props, table, default_z).z_index == default_z,
{
}

} // verus!
