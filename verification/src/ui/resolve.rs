//! Style value resolution: turning declared style values into concrete
//! values against the parent chain, with clamping and default-sheet
//! fallback.
//!
//! A property is identified by a selector so that `Inherit` and `Cloned`
//! can look the same property up in another element's sheet. Chains are
//! walked with fuel one larger than the arena, enough for every acyclic
//! configuration; running out means the cloned properties form a cycle.

use vstd::prelude::*;

use crate::ui::elements::NodeInfo;
use crate::ui::elements::UiTree;
use crate::ui::styles::{
    default_style, unit_px, uivalue_is_set, ChildAlign, Direction, LayoutField, Origin, Position,
    StyleError, TextFit, UiStyle, UiValue,
};

verus! {

/// The integer-valued layout fields of a style sheet.
#[derive(Clone, Copy, Debug, PartialEq, Eq, Structural)]
pub enum IntField {
    X,
    Y,
    Width,
    Height,
    PaddingTop,
    PaddingBottom,
    PaddingLeft,
    PaddingRight,
    MarginTop,
    MarginBottom,
    MarginLeft,
    MarginRight,
    TextSize,
    TextKerning,
    TextSkew,
}

/// One of the three slots of a layout field.
#[derive(Clone, Copy, Debug, PartialEq, Eq, Structural)]
pub enum FieldSlot {
    Value,
    Min,
    Max,
}

/// An integer-valued property slot of a style sheet.
#[derive(Clone, Copy, Debug, PartialEq, Eq, Structural)]
pub enum IntProp {
    Slot(IntField, FieldSlot),
    Rotation,
    BorderWidth,
}

/// The layout field a selector names.
pub open spec fn int_field_of(s: UiStyle, f: IntField) -> LayoutField<i32> {
    match f {
        IntField::X => s.x,
        IntField::Y => s.y,
        IntField::Width => s.width,
        IntField::Height => s.height,
        IntField::PaddingTop => s.padding.top,
        IntField::PaddingBottom => s.padding.bottom,
        IntField::PaddingLeft => s.padding.left,
        IntField::PaddingRight => s.padding.right,
        IntField::MarginTop => s.margin.top,
        IntField::MarginBottom => s.margin.bottom,
        IntField::MarginLeft => s.margin.left,
        IntField::MarginRight => s.margin.right,
        IntField::TextSize => s.text.size,
        IntField::TextKerning => s.text.kerning,
        IntField::TextSkew => s.text.skew,
    }
}

/// The declared value a selector names.
pub open spec fn int_prop_of(s: UiStyle, p: IntProp) -> UiValue<i32> {
    match p {
        IntProp::Slot(f, sl) => {
            let lf = int_field_of(s, f);
            match sl {
                FieldSlot::Value => lf.value,
                FieldSlot::Min => lf.min,
                FieldSlot::Max => lf.max,
            }
        },
        IntProp::Rotation => s.rotation,
        IntProp::BorderWidth => s.background.border_width,
    }
}

/// Reads the layout field a selector names.
pub fn get_int_field(s: &UiStyle, f: IntField) -> (r: LayoutField<i32>)
    ensures
        r == int_field_of(*s, f),
{
    match f {
        IntField::X => s.x,
        IntField::Y => s.y,
        IntField::Width => s.width,
        IntField::Height => s.height,
        IntField::PaddingTop => s.padding.top,
        IntField::PaddingBottom => s.padding.bottom,
        IntField::PaddingLeft => s.padding.left,
        IntField::PaddingRight => s.padding.right,
        IntField::MarginTop => s.margin.top,
        IntField::MarginBottom => s.margin.bottom,
        IntField::MarginLeft => s.margin.left,
        IntField::MarginRight => s.margin.right,
        IntField::TextSize => s.text.size,
        IntField::TextKerning => s.text.kerning,
        IntField::TextSkew => s.text.skew,
    }
}

/// Reads the declared value a selector names.
pub fn get_int_prop(s: &UiStyle, p: IntProp) -> (r: UiValue<i32>)
    ensures
        r == int_prop_of(*s, p),
{
    match p {
        IntProp::Slot(f, sl) => {
            let lf = get_int_field(s, f);
            match sl {
                FieldSlot::Value => lf.value,
                FieldSlot::Min => lf.min,
                FieldSlot::Max => lf.max,
            }
        },
        IntProp::Rotation => s.rotation,
        IntProp::BorderWidth => s.background.border_width,
    }
}

/// The parent link as a mathematical option.
pub open spec fn opt_int(p: Option<usize>) -> Option<int> {
    match p {
        Some(v) => Some(v as int),
        None => None,
    }
}

/// Resolution of one integer-valued declared value against the parent
/// chain: absent and automatic values resolve to nothing, literals to
/// themselves, measurements through the unit converter, inherited values
/// from the parent's sheet and cloned values from the named element's
/// sheet, each through that element's own chain.
#[verifier::opaque]
pub open spec fn resolve_int_spec(
    ss: Seq<NodeInfo>,
    v: UiValue<i32>,
    p: IntProp,
    parent: Option<int>,
    dpi: int,
    fuel: nat,
) -> Result<Option<i32>, StyleError>
    decreases fuel,
{
    match v {
        UiValue::Unset => Ok(None),
        UiValue::Auto => Ok(None),
        UiValue::Just(x) => Ok(Some(x)),
        UiValue::Measurement(u) => Ok(Some(unit_px(u, dpi) as i32)),
        UiValue::Inherit => match parent {
            None => Err(StyleError::UnresolvableInherit),
            Some(pi) => if !(0 <= pi < ss.len()) {
                Err(StyleError::InvalidReference)
            } else if fuel == 0 {
                Err(StyleError::CircularReference)
            } else {
                resolve_int_spec(
                    ss,
                    int_prop_of(ss[pi].style, p),
                    p,
                    ss[pi].parent,
                    dpi,
                    (fuel - 1) as nat,
                )
            },
        },
        UiValue::Cloned(e) => if !(e < ss.len()) {
            Err(StyleError::InvalidReference)
        } else if fuel == 0 {
            Err(StyleError::CircularReference)
        } else {
            resolve_int_spec(
                ss,
                int_prop_of(ss[e as int].style, p),
                p,
                ss[e as int].parent,
                dpi,
                (fuel - 1) as nat,
            )
        },
    }
}

/// Resolves one integer-valued declared value against the parent chain.
pub fn resolve_int(
    tree: &UiTree,
    v: UiValue<i32>,
    p: IntProp,
    parent: Option<usize>,
    dpi: i32,
    fuel: usize,
) -> (r: Result<Option<i32>, StyleError>)
    ensures
        r == resolve_int_spec(tree.infos(), v, p, opt_int(parent), dpi as int, fuel as nat),
    decreases fuel,
{
    proof {
        reveal_with_fuel(resolve_int_spec, 1);
    }
    match v {
        UiValue::Unset => Ok(None),
        UiValue::Auto => Ok(None),
        UiValue::Just(x) => Ok(Some(x)),
        UiValue::Measurement(u) => Ok(Some(u.as_px(dpi))),
        UiValue::Inherit => match parent {
            None => Err(StyleError::UnresolvableInherit),
            Some(pi) => {
                if pi >= self_len(tree) {
                    Err(StyleError::InvalidReference)
                } else if fuel == 0 {
                    Err(StyleError::CircularReference)
                } else {
                    let pv = get_int_prop(&tree.nodes[pi].style, p);
                    let pp = tree.nodes[pi].state.parent;
                    resolve_int(tree, pv, p, pp, dpi, fuel - 1)
                }
            },
        },
        UiValue::Cloned(e) => {
            if e >= self_len(tree) {
                Err(StyleError::InvalidReference)
            } else if fuel == 0 {
                Err(StyleError::CircularReference)
            } else {
                let ev = get_int_prop(&tree.nodes[e].style, p);
                let ep = tree.nodes[e].state.parent;
                resolve_int(tree, ev, p, ep, dpi, fuel - 1)
            }
        },
    }
}

/// The arena length.
fn self_len(tree: &UiTree) -> (n: usize)
    ensures
        n == tree.infos().len(),
{
    tree.nodes.len()
}

/// Resolution of a whole layout field: the value, then the bounds, then the
/// clamp. An unresolvable value yields nothing whatever the bounds say; each
/// present bound clamps its own side, and only a present, inverted pair is a
/// misconfiguration that leaves the value unclamped.
#[verifier::opaque]
pub open spec fn resolve_field_spec(
    ss: Seq<NodeInfo>,
    fld: LayoutField<i32>,
    f: IntField,
    parent: Option<int>,
    dpi: int,
    fuel: nat,
) -> Result<Option<i32>, StyleError> {
    let rv = resolve_int_spec(ss, fld.value, IntProp::Slot(f, FieldSlot::Value), parent, dpi, fuel);
    let rmin = resolve_int_spec(ss, fld.min, IntProp::Slot(f, FieldSlot::Min), parent, dpi, fuel);
    let rmax = resolve_int_spec(ss, fld.max, IntProp::Slot(f, FieldSlot::Max), parent, dpi, fuel);
    match rv {
        Err(e) => Err(e),
        Ok(ov) => match rmin {
            Err(e) => Err(e),
            Ok(omin) => match rmax {
                Err(e) => Err(e),
                Ok(omax) => match ov {
                    None => Ok(None),
                    Some(v) => Ok(Some(apply_bounds(v as int, omin, omax) as i32)),
                },
            },
        },
    }
}

/// Resolves a whole layout field, clamping the resolved value into its
/// resolved bounds.
pub fn resolve_field(
    tree: &UiTree,
    fld: LayoutField<i32>,
    f: IntField,
    parent: Option<usize>,
    dpi: i32,
    fuel: usize,
) -> (r: Result<Option<i32>, StyleError>)
    ensures
        r == resolve_field_spec(tree.infos(), fld, f, opt_int(parent), dpi as int, fuel as nat),
{
    proof {
        reveal(resolve_field_spec);
    }
    let rv = match resolve_int(tree, fld.value, IntProp::Slot(f, FieldSlot::Value), parent, dpi, fuel) {
        Ok(ov) => ov,
        Err(e) => {
            return Err(e);
        },
    };
    let rmin = match resolve_int(tree, fld.min, IntProp::Slot(f, FieldSlot::Min), parent, dpi, fuel) {
        Ok(om) => om,
        Err(e) => {
            return Err(e);
        },
    };
    let rmax = match resolve_int(tree, fld.max, IntProp::Slot(f, FieldSlot::Max), parent, dpi, fuel) {
        Ok(om) => om,
        Err(e) => {
            return Err(e);
        },
    };
    match rv {
        None => Ok(None),
        Some(v) => {
            let contradictory = match (rmin, rmax) {
                (Some(l), Some(h)) => l > h,
                _ => false,
            };
            if contradictory {
                return Ok(Some(v));
            }
            let v1 = match rmin {
                Some(l) => if v < l {
                    l
                } else {
                    v
                },
                None => v,
            };
            let v2 = match rmax {
                Some(h) => if v1 > h {
                    h
                } else {
                    v1
                },
                None => v1,
            };
            Ok(Some(v2))
        },
    }
}

} // verus!

verus! {

/// The origin-valued properties of a style sheet.
#[derive(Clone, Copy, Debug, PartialEq, Eq, Structural)]
pub enum OriginProp {
    Anchor,
    RotationAnchor,
}

/// The declared origin value a selector names.
pub open spec fn origin_prop_of(s: UiStyle, p: OriginProp) -> UiValue<Origin> {
    match p {
        OriginProp::Anchor => s.origin,
        OriginProp::RotationAnchor => s.rotation_origin,
    }
}

/// Reads the declared origin value a selector names.
pub fn get_origin_prop(s: &UiStyle, p: OriginProp) -> (r: UiValue<Origin>)
    ensures
        r == origin_prop_of(*s, p),
{
    match p {
        OriginProp::Anchor => s.origin,
        OriginProp::RotationAnchor => s.rotation_origin,
    }
}

/// Resolution of an origin-valued declared value. A measurement is not an
/// origin and resolves to nothing.
#[verifier::opaque]
pub open spec fn resolve_origin_spec(
    ss: Seq<NodeInfo>,
    v: UiValue<Origin>,
    p: OriginProp,
    parent: Option<int>,
    fuel: nat,
) -> Result<Option<Origin>, StyleError>
    decreases fuel,
{
    match v {
        UiValue::Unset => Ok(None),
        UiValue::Auto => Ok(None),
        UiValue::Just(x) => Ok(Some(x)),
        UiValue::Measurement(u) => Ok(None),
        UiValue::Inherit => match parent {
            None => Err(StyleError::UnresolvableInherit),
            Some(pi) => if !(0 <= pi < ss.len()) {
                Err(StyleError::InvalidReference)
            } else if fuel == 0 {
                Err(StyleError::CircularReference)
            } else {
                resolve_origin_spec(
                    ss,
                    origin_prop_of(ss[pi].style, p),
                    p,
                    ss[pi].parent,
                    (fuel - 1) as nat,
                )
            },
        },
        UiValue::Cloned(e) => if !(e < ss.len()) {
            Err(StyleError::InvalidReference)
        } else if fuel == 0 {
            Err(StyleError::CircularReference)
        } else {
            resolve_origin_spec(
                ss,
                origin_prop_of(ss[e as int].style, p),
                p,
                ss[e as int].parent,
                (fuel - 1) as nat,
            )
        },
    }
}

/// Resolves an origin-valued declared value against the parent chain.
pub fn resolve_origin(
    tree: &UiTree,
    v: UiValue<Origin>,
    p: OriginProp,
    parent: Option<usize>,
    fuel: usize,
) -> (r: Result<Option<Origin>, StyleError>)
    ensures
        r == resolve_origin_spec(tree.infos(), v, p, opt_int(parent), fuel as nat),
    decreases fuel,
{
    proof {
        reveal_with_fuel(resolve_origin_spec, 1);
    }
    match v {
        UiValue::Unset => Ok(None),
        UiValue::Auto => Ok(None),
        UiValue::Just(x) => Ok(Some(x)),
        UiValue::Measurement(_) => Ok(None),
        UiValue::Inherit => match parent {
            None => Err(StyleError::UnresolvableInherit),
            Some(pi) => {
                if pi >= self_len(tree) {
                    Err(StyleError::InvalidReference)
                } else if fuel == 0 {
                    Err(StyleError::CircularReference)
                } else {
                    let pv = get_origin_prop(&tree.nodes[pi].style, p);
                    let pp = tree.nodes[pi].state.parent;
                    resolve_origin(tree, pv, p, pp, fuel - 1)
                }
            },
        },
        UiValue::Cloned(e) => {
            if e >= self_len(tree) {
                Err(StyleError::InvalidReference)
            } else if fuel == 0 {
                Err(StyleError::CircularReference)
            } else {
                let ev = get_origin_prop(&tree.nodes[e].style, p);
                let ep = tree.nodes[e].state.parent;
                resolve_origin(tree, ev, p, ep, fuel - 1)
            }
        },
    }
}

/// Resolution of the position property.
#[verifier::opaque]
pub open spec fn resolve_position_spec(
    ss: Seq<NodeInfo>,
    v: UiValue<Position>,
    parent: Option<int>,
    fuel: nat,
) -> Result<Option<Position>, StyleError>
    decreases fuel,
{
    match v {
        UiValue::Unset => Ok(None),
        UiValue::Auto => Ok(None),
        UiValue::Just(x) => Ok(Some(x)),
        UiValue::Measurement(u) => Ok(None),
        UiValue::Inherit => match parent {
            None => Err(StyleError::UnresolvableInherit),
            Some(pi) => if !(0 <= pi < ss.len()) {
                Err(StyleError::InvalidReference)
            } else if fuel == 0 {
                Err(StyleError::CircularReference)
            } else {
                resolve_position_spec(ss, ss[pi].style.position, ss[pi].parent, (fuel - 1) as nat)
            },
        },
        UiValue::Cloned(e) => if !(e < ss.len()) {
            Err(StyleError::InvalidReference)
        } else if fuel == 0 {
            Err(StyleError::CircularReference)
        } else {
            resolve_position_spec(
                ss,
                ss[e as int].style.position,
                ss[e as int].parent,
                (fuel - 1) as nat,
            )
        },
    }
}

/// Resolves the position property against the parent chain.
pub fn resolve_position(
    tree: &UiTree,
    v: UiValue<Position>,
    parent: Option<usize>,
    fuel: usize,
) -> (r: Result<Option<Position>, StyleError>)
    ensures
        r == resolve_position_spec(tree.infos(), v, opt_int(parent), fuel as nat),
    decreases fuel,
{
    proof {
        reveal_with_fuel(resolve_position_spec, 1);
    }
    match v {
        UiValue::Unset => Ok(None),
        UiValue::Auto => Ok(None),
        UiValue::Just(x) => Ok(Some(x)),
        UiValue::Measurement(_) => Ok(None),
        UiValue::Inherit => match parent {
            None => Err(StyleError::UnresolvableInherit),
            Some(pi) => {
                if pi >= self_len(tree) {
                    Err(StyleError::InvalidReference)
                } else if fuel == 0 {
                    Err(StyleError::CircularReference)
                } else {
                    let pv = tree.nodes[pi].style.position;
                    let pp = tree.nodes[pi].state.parent;
                    resolve_position(tree, pv, pp, fuel - 1)
                }
            },
        },
        UiValue::Cloned(e) => {
            if e >= self_len(tree) {
                Err(StyleError::InvalidReference)
            } else if fuel == 0 {
                Err(StyleError::CircularReference)
            } else {
                let ev = tree.nodes[e].style.position;
                let ep = tree.nodes[e].state.parent;
                resolve_position(tree, ev, ep, fuel - 1)
            }
        },
    }
}

/// Resolution of the direction property.
#[verifier::opaque]
pub open spec fn resolve_direction_spec(
    ss: Seq<NodeInfo>,
    v: UiValue<Direction>,
    parent: Option<int>,
    fuel: nat,
) -> Result<Option<Direction>, StyleError>
    decreases fuel,
{
    match v {
        UiValue::Unset => Ok(None),
        UiValue::Auto => Ok(None),
        UiValue::Just(x) => Ok(Some(x)),
        UiValue::Measurement(u) => Ok(None),
        UiValue::Inherit => match parent {
            None => Err(StyleError::UnresolvableInherit),
            Some(pi) => if !(0 <= pi < ss.len()) {
                Err(StyleError::InvalidReference)
            } else if fuel == 0 {
                Err(StyleError::CircularReference)
            } else {
                resolve_direction_spec(ss, ss[pi].style.direction, ss[pi].parent, (fuel - 1) as nat)
            },
        },
        UiValue::Cloned(e) => if !(e < ss.len()) {
            Err(StyleError::InvalidReference)
        } else if fuel == 0 {
            Err(StyleError::CircularReference)
        } else {
            resolve_direction_spec(
                ss,
                ss[e as int].style.direction,
                ss[e as int].parent,
                (fuel - 1) as nat,
            )
        },
    }
}

/// Resolves the direction property against the parent chain.
pub fn resolve_direction(
    tree: &UiTree,
    v: UiValue<Direction>,
    parent: Option<usize>,
    fuel: usize,
) -> (r: Result<Option<Direction>, StyleError>)
    ensures
        r == resolve_direction_spec(tree.infos(), v, opt_int(parent), fuel as nat),
    decreases fuel,
{
    proof {
        reveal_with_fuel(resolve_direction_spec, 1);
    }
    match v {
        UiValue::Unset => Ok(None),
        UiValue::Auto => Ok(None),
        UiValue::Just(x) => Ok(Some(x)),
        UiValue::Measurement(_) => Ok(None),
        UiValue::Inherit => match parent {
            None => Err(StyleError::UnresolvableInherit),
            Some(pi) => {
                if pi >= self_len(tree) {
                    Err(StyleError::InvalidReference)
                } else if fuel == 0 {
                    Err(StyleError::CircularReference)
                } else {
                    let pv = tree.nodes[pi].style.direction;
                    let pp = tree.nodes[pi].state.parent;
                    resolve_direction(tree, pv, pp, fuel - 1)
                }
            },
        },
        UiValue::Cloned(e) => {
            if e >= self_len(tree) {
                Err(StyleError::InvalidReference)
            } else if fuel == 0 {
                Err(StyleError::CircularReference)
            } else {
                let ev = tree.nodes[e].style.direction;
                let ep = tree.nodes[e].state.parent;
                resolve_direction(tree, ev, ep, fuel - 1)
            }
        },
    }
}

/// Resolution of the child-alignment property.
#[verifier::opaque]
pub open spec fn resolve_child_align_spec(
    ss: Seq<NodeInfo>,
    v: UiValue<ChildAlign>,
    parent: Option<int>,
    fuel: nat,
) -> Result<Option<ChildAlign>, StyleError>
    decreases fuel,
{
    match v {
        UiValue::Unset => Ok(None),
        UiValue::Auto => Ok(None),
        UiValue::Just(x) => Ok(Some(x)),
        UiValue::Measurement(u) => Ok(None),
        UiValue::Inherit => match parent {
            None => Err(StyleError::UnresolvableInherit),
            Some(pi) => if !(0 <= pi < ss.len()) {
                Err(StyleError::InvalidReference)
            } else if fuel == 0 {
                Err(StyleError::CircularReference)
            } else {
                resolve_child_align_spec(
                    ss,
                    ss[pi].style.child_align,
                    ss[pi].parent,
                    (fuel - 1) as nat,
                )
            },
        },
        UiValue::Cloned(e) => if !(e < ss.len()) {
            Err(StyleError::InvalidReference)
        } else if fuel == 0 {
            Err(StyleError::CircularReference)
        } else {
            resolve_child_align_spec(
                ss,
                ss[e as int].style.child_align,
                ss[e as int].parent,
                (fuel - 1) as nat,
            )
        },
    }
}

/// Resolves the child-alignment property against the parent chain.
pub fn resolve_child_align(
    tree: &UiTree,
    v: UiValue<ChildAlign>,
    parent: Option<usize>,
    fuel: usize,
) -> (r: Result<Option<ChildAlign>, StyleError>)
    ensures
        r == resolve_child_align_spec(tree.infos(), v, opt_int(parent), fuel as nat),
    decreases fuel,
{
    proof {
        reveal_with_fuel(resolve_child_align_spec, 1);
    }
    match v {
        UiValue::Unset => Ok(None),
        UiValue::Auto => Ok(None),
        UiValue::Just(x) => Ok(Some(x)),
        UiValue::Measurement(_) => Ok(None),
        UiValue::Inherit => match parent {
            None => Err(StyleError::UnresolvableInherit),
            Some(pi) => {
                if pi >= self_len(tree) {
                    Err(StyleError::InvalidReference)
                } else if fuel == 0 {
                    Err(StyleError::CircularReference)
                } else {
                    let pv = tree.nodes[pi].style.child_align;
                    let pp = tree.nodes[pi].state.parent;
                    resolve_child_align(tree, pv, pp, fuel - 1)
                }
            },
        },
        UiValue::Cloned(e) => {
            if e >= self_len(tree) {
                Err(StyleError::InvalidReference)
            } else if fuel == 0 {
                Err(StyleError::CircularReference)
            } else {
                let ev = tree.nodes[e].style.child_align;
                let ep = tree.nodes[e].state.parent;
                resolve_child_align(tree, ev, ep, fuel - 1)
            }
        },
    }
}

/// Resolution of the text-fit property.
#[verifier::opaque]
pub open spec fn resolve_text_fit_spec(
    ss: Seq<NodeInfo>,
    v: UiValue<TextFit>,
    parent: Option<int>,
    fuel: nat,
) -> Result<Option<TextFit>, StyleError>
    decreases fuel,
{
    match v {
        UiValue::Unset => Ok(None),
        UiValue::Auto => Ok(None),
        UiValue::Just(x) => Ok(Some(x)),
        UiValue::Measurement(u) => Ok(None),
        UiValue::Inherit => match parent {
            None => Err(StyleError::UnresolvableInherit),
            Some(pi) => if !(0 <= pi < ss.len()) {
                Err(StyleError::InvalidReference)
            } else if fuel == 0 {
                Err(StyleError::CircularReference)
            } else {
                resolve_text_fit_spec(ss, ss[pi].style.text.fit, ss[pi].parent, (fuel - 1) as nat)
            },
        },
        UiValue::Cloned(e) => if !(e < ss.len()) {
            Err(StyleError::InvalidReference)
        } else if fuel == 0 {
            Err(StyleError::CircularReference)
        } else {
            resolve_text_fit_spec(
                ss,
                ss[e as int].style.text.fit,
                ss[e as int].parent,
                (fuel - 1) as nat,
            )
        },
    }
}

/// Resolves the text-fit property against the parent chain.
pub fn resolve_text_fit(
    tree: &UiTree,
    v: UiValue<TextFit>,
    parent: Option<usize>,
    fuel: usize,
) -> (r: Result<Option<TextFit>, StyleError>)
    ensures
        r == resolve_text_fit_spec(tree.infos(), v, opt_int(parent), fuel as nat),
    decreases fuel,
{
    proof {
        reveal_with_fuel(resolve_text_fit_spec, 1);
    }
    match v {
        UiValue::Unset => Ok(None),
        UiValue::Auto => Ok(None),
        UiValue::Just(x) => Ok(Some(x)),
        UiValue::Measurement(_) => Ok(None),
        UiValue::Inherit => match parent {
            None => Err(StyleError::UnresolvableInherit),
            Some(pi) => {
                if pi >= self_len(tree) {
                    Err(StyleError::InvalidReference)
                } else if fuel == 0 {
                    Err(StyleError::CircularReference)
                } else {
                    let pv = tree.nodes[pi].style.text.fit;
                    let pp = tree.nodes[pi].state.parent;
                    resolve_text_fit(tree, pv, pp, fuel - 1)
                }
            },
        },
        UiValue::Cloned(e) => {
            if e >= self_len(tree) {
                Err(StyleError::InvalidReference)
            } else if fuel == 0 {
                Err(StyleError::CircularReference)
            } else {
                let ev = tree.nodes[e].style.text.fit;
                let ep = tree.nodes[e].state.parent;
                resolve_text_fit(tree, ev, ep, fuel - 1)
            }
        },
    }
}

/// Resolution of the font property.
#[verifier::opaque]
pub open spec fn resolve_font_spec(
    ss: Seq<NodeInfo>,
    v: UiValue<u64>,
    parent: Option<int>,
    fuel: nat,
) -> Result<Option<u64>, StyleError>
    decreases fuel,
{
    match v {
        UiValue::Unset => Ok(None),
        UiValue::Auto => Ok(None),
        UiValue::Just(x) => Ok(Some(x)),
        UiValue::Measurement(u) => Ok(None),
        UiValue::Inherit => match parent {
            None => Err(StyleError::UnresolvableInherit),
            Some(pi) => if !(0 <= pi < ss.len()) {
                Err(StyleError::InvalidReference)
            } else if fuel == 0 {
                Err(StyleError::CircularReference)
            } else {
                resolve_font_spec(ss, ss[pi].style.text.font, ss[pi].parent, (fuel - 1) as nat)
            },
        },
        UiValue::Cloned(e) => if !(e < ss.len()) {
            Err(StyleError::InvalidReference)
        } else if fuel == 0 {
            Err(StyleError::CircularReference)
        } else {
            resolve_font_spec(
                ss,
                ss[e as int].style.text.font,
                ss[e as int].parent,
                (fuel - 1) as nat,
            )
        },
    }
}

/// Resolves the font property against the parent chain.
pub fn resolve_font(
    tree: &UiTree,
    v: UiValue<u64>,
    parent: Option<usize>,
    fuel: usize,
) -> (r: Result<Option<u64>, StyleError>)
    ensures
        r == resolve_font_spec(tree.infos(), v, opt_int(parent), fuel as nat),
    decreases fuel,
{
    proof {
        reveal_with_fuel(resolve_font_spec, 1);
    }
    match v {
        UiValue::Unset => Ok(None),
        UiValue::Auto => Ok(None),
        UiValue::Just(x) => Ok(Some(x)),
        UiValue::Measurement(_) => Ok(None),
        UiValue::Inherit => match parent {
            None => Err(StyleError::UnresolvableInherit),
            Some(pi) => {
                if pi >= self_len(tree) {
                    Err(StyleError::InvalidReference)
                } else if fuel == 0 {
                    Err(StyleError::CircularReference)
                } else {
                    let pv = tree.nodes[pi].style.text.font;
                    let pp = tree.nodes[pi].state.parent;
                    resolve_font(tree, pv, pp, fuel - 1)
                }
            },
        },
        UiValue::Cloned(e) => {
            if e >= self_len(tree) {
                Err(StyleError::InvalidReference)
            } else if fuel == 0 {
                Err(StyleError::CircularReference)
            } else {
                let ev = tree.nodes[e].style.text.font;
                let ep = tree.nodes[e].state.parent;
                resolve_font(tree, ev, ep, fuel - 1)
            }
        },
    }
}

} // verus!

verus! {

/// Fuel for one resolution: one more than the arena, enough for every
/// acyclic chain, since a chain visits each element at most once.
pub open spec fn prop_fuel(ss: Seq<NodeInfo>) -> nat {
    ss.len() + 1
}

/// Resolution fuel for the tree at hand.
fn fuel_for(tree: &UiTree) -> (r: usize)
    requires
        tree.infos().len() <= 0x8000_0000,
    ensures
        r == prop_fuel(tree.infos()),
{
    tree.nodes.len() + 1
}

/// A layout field resolved with the default-sheet fallback: when the
/// element's own chain yields nothing, the library-wide default sheet is
/// consulted; if even that yields nothing the configuration is defective.
#[verifier::opaque]
pub open spec fn field_or_default_spec(
    ss: Seq<NodeInfo>,
    i: int,
    f: IntField,
    dpi: int,
) -> Result<i32, StyleError> {
    let fld = int_field_of(ss[i].style, f);
    match resolve_field_spec(ss, fld, f, ss[i].parent, dpi, prop_fuel(ss)) {
        Err(e) => Err(e),
        Ok(Some(v)) => Ok(v),
        Ok(None) => match resolve_field_spec(
            ss,
            int_field_of(default_style(), f),
            f,
            None,
            dpi,
            prop_fuel(ss),
        ) {
            Err(e) => Err(e),
            Ok(Some(v)) => Ok(v),
            Ok(None) => Err(StyleError::UnresolvableDefault),
        },
    }
}

/// Resolves a layout field of element `i` with the default-sheet fallback.
pub fn field_or_default(tree: &UiTree, i: usize, f: IntField, dpi: i32) -> (r: Result<
    i32,
    StyleError,
>)
    requires
        tree.wf(),
        i < tree.infos().len(),
    ensures
        r == field_or_default_spec(tree.infos(), i as int, f, dpi as int),
{
    proof {
        reveal(field_or_default_spec);
    }
    let fuel = fuel_for(tree);
    let fld = get_int_field(&tree.nodes[i].style, f);
    let parent = tree.nodes[i].state.parent;
    match resolve_field(tree, fld, f, parent, dpi, fuel) {
        Err(e) => Err(e),
        Ok(Some(v)) => Ok(v),
        Ok(None) => {
            let dstyle = UiStyle::default();
            let dfld = get_int_field(&dstyle, f);
            match resolve_field(tree, dfld, f, None, dpi, fuel) {
                Err(e) => Err(e),
                Ok(Some(v)) => Ok(v),
                Ok(None) => Err(StyleError::UnresolvableDefault),
            }
        },
    }
}

/// A guarded literal: the resolved field when its value is set, zero when
/// it is absent or automatic.
#[verifier::opaque]
pub open spec fn literal_or_zero_spec(ss: Seq<NodeInfo>, i: int, f: IntField, dpi: int) -> Result<
    i32,
    StyleError,
> {
    if uivalue_is_set(int_field_of(ss[i].style, f).value) {
        field_or_default_spec(ss, i, f, dpi)
    } else {
        Ok(0i32)
    }
}

/// Resolves a guarded literal dimension or coordinate of element `i`.
pub fn literal_or_zero(tree: &UiTree, i: usize, f: IntField, dpi: i32) -> (r: Result<
    i32,
    StyleError,
>)
    requires
        tree.wf(),
        i < tree.infos().len(),
    ensures
        r == literal_or_zero_spec(tree.infos(), i as int, f, dpi as int),
{
    proof {
        reveal(literal_or_zero_spec);
    }
    let fld = get_int_field(&tree.nodes[i].style, f);
    if fld.value.is_set() {
        field_or_default(tree, i, f, dpi)
    } else {
        Ok(0)
    }
}

/// The flow direction of element `i`: the resolved property when set,
/// horizontal otherwise.
#[verifier::opaque]
pub open spec fn direction_of_spec(ss: Seq<NodeInfo>, i: int) -> Result<Direction, StyleError> {
    let v = ss[i].style.direction;
    if uivalue_is_set(v) {
        match resolve_direction_spec(ss, v, ss[i].parent, prop_fuel(ss)) {
            Err(e) => Err(e),
            Ok(Some(d)) => Ok(d),
            Ok(None) => match resolve_direction_spec(
                ss,
                default_style().direction,
                None,
                prop_fuel(ss),
            ) {
                Err(e) => Err(e),
                Ok(Some(d)) => Ok(d),
                Ok(None) => Err(StyleError::UnresolvableDefault),
            },
        }
    } else {
        Ok(Direction::Horizontal)
    }
}

/// Resolves the flow direction of element `i`.
pub fn direction_of(tree: &UiTree, i: usize) -> (r: Result<Direction, StyleError>)
    requires
        tree.wf(),
        i < tree.infos().len(),
    ensures
        r == direction_of_spec(tree.infos(), i as int),
{
    proof {
        reveal(direction_of_spec);
    }
    let fuel = fuel_for(tree);
    let v = tree.nodes[i].style.direction;
    if v.is_set() {
        let parent = tree.nodes[i].state.parent;
        match resolve_direction(tree, v, parent, fuel) {
            Err(e) => Err(e),
            Ok(Some(d)) => Ok(d),
            Ok(None) => {
                let dstyle = UiStyle::default();
                match resolve_direction(tree, dstyle.direction, None, fuel) {
                    Err(e) => Err(e),
                    Ok(Some(d)) => Ok(d),
                    Ok(None) => Err(StyleError::UnresolvableDefault),
                }
            },
        }
    } else {
        Ok(Direction::Horizontal)
    }
}

/// The anchor of element `i`: the resolved origin when set, bottom-left
/// otherwise.
#[verifier::opaque]
pub open spec fn origin_of_spec(ss: Seq<NodeInfo>, i: int) -> Result<Origin, StyleError> {
    let v = ss[i].style.origin;
    if uivalue_is_set(v) {
        match resolve_origin_spec(ss, v, OriginProp::Anchor, ss[i].parent, prop_fuel(ss)) {
            Err(e) => Err(e),
            Ok(Some(o)) => Ok(o),
            Ok(None) => match resolve_origin_spec(
                ss,
                default_style().origin,
                OriginProp::Anchor,
                None,
                prop_fuel(ss),
            ) {
                Err(e) => Err(e),
                Ok(Some(o)) => Ok(o),
                Ok(None) => Err(StyleError::UnresolvableDefault),
            },
        }
    } else {
        Ok(Origin::BottomLeft)
    }
}

/// Resolves the anchor of element `i`.
pub fn origin_of(tree: &UiTree, i: usize) -> (r: Result<Origin, StyleError>)
    requires
        tree.wf(),
        i < tree.infos().len(),
    ensures
        r == origin_of_spec(tree.infos(), i as int),
{
    proof {
        reveal(origin_of_spec);
    }
    let fuel = fuel_for(tree);
    let v = tree.nodes[i].style.origin;
    if v.is_set() {
        let parent = tree.nodes[i].state.parent;
        match resolve_origin(tree, v, OriginProp::Anchor, parent, fuel) {
            Err(e) => Err(e),
            Ok(Some(o)) => Ok(o),
            Ok(None) => {
                let dstyle = UiStyle::default();
                match resolve_origin(tree, dstyle.origin, OriginProp::Anchor, None, fuel) {
                    Err(e) => Err(e),
                    Ok(Some(o)) => Ok(o),
                    Ok(None) => Err(StyleError::UnresolvableDefault),
                }
            },
        }
    } else {
        Ok(Origin::BottomLeft)
    }
}

/// The cross-axis alignment of element `i`'s children: the resolved
/// property when set, start otherwise.
#[verifier::opaque]
pub open spec fn child_align_of_spec(ss: Seq<NodeInfo>, i: int) -> Result<ChildAlign, StyleError> {
    let v = ss[i].style.child_align;
    if uivalue_is_set(v) {
        match resolve_child_align_spec(ss, v, ss[i].parent, prop_fuel(ss)) {
            Err(e) => Err(e),
            Ok(Some(a)) => Ok(a),
            Ok(None) => match resolve_child_align_spec(
                ss,
                default_style().child_align,
                None,
                prop_fuel(ss),
            ) {
                Err(e) => Err(e),
                Ok(Some(a)) => Ok(a),
                Ok(None) => Err(StyleError::UnresolvableDefault),
            },
        }
    } else {
        Ok(ChildAlign::Start)
    }
}

/// Resolves the cross-axis alignment of element `i`'s children.
pub fn child_align_of(tree: &UiTree, i: usize) -> (r: Result<ChildAlign, StyleError>)
    requires
        tree.wf(),
        i < tree.infos().len(),
    ensures
        r == child_align_of_spec(tree.infos(), i as int),
{
    proof {
        reveal(child_align_of_spec);
    }
    let fuel = fuel_for(tree);
    let v = tree.nodes[i].style.child_align;
    if v.is_set() {
        let parent = tree.nodes[i].state.parent;
        match resolve_child_align(tree, v, parent, fuel) {
            Err(e) => Err(e),
            Ok(Some(a)) => Ok(a),
            Ok(None) => {
                let dstyle = UiStyle::default();
                match resolve_child_align(tree, dstyle.child_align, None, fuel) {
                    Err(e) => Err(e),
                    Ok(Some(a)) => Ok(a),
                    Ok(None) => Err(StyleError::UnresolvableDefault),
                }
            },
        }
    } else {
        Ok(ChildAlign::Start)
    }
}

/// The positioning mode of element `i`: the resolved property when set,
/// relative otherwise.
#[verifier::opaque]
pub open spec fn position_of_spec(ss: Seq<NodeInfo>, i: int) -> Result<Position, StyleError> {
    let v = ss[i].style.position;
    if uivalue_is_set(v) {
        match resolve_position_spec(ss, v, ss[i].parent, prop_fuel(ss)) {
            Err(e) => Err(e),
            Ok(Some(x)) => Ok(x),
            Ok(None) => match resolve_position_spec(
                ss,
                default_style().position,
                None,
                prop_fuel(ss),
            ) {
                Err(e) => Err(e),
                Ok(Some(x)) => Ok(x),
                Ok(None) => Err(StyleError::UnresolvableDefault),
            },
        }
    } else {
        Ok(Position::Relative)
    }
}

/// Resolves the positioning mode of element `i`.
pub fn position_of(tree: &UiTree, i: usize) -> (r: Result<Position, StyleError>)
    requires
        tree.wf(),
        i < tree.infos().len(),
    ensures
        r == position_of_spec(tree.infos(), i as int),
{
    proof {
        reveal(position_of_spec);
    }
    let fuel = fuel_for(tree);
    let v = tree.nodes[i].style.position;
    if v.is_set() {
        let parent = tree.nodes[i].state.parent;
        match resolve_position(tree, v, parent, fuel) {
            Err(e) => Err(e),
            Ok(Some(x)) => Ok(x),
            Ok(None) => {
                let dstyle = UiStyle::default();
                match resolve_position(tree, dstyle.position, None, fuel) {
                    Err(e) => Err(e),
                    Ok(Some(x)) => Ok(x),
                    Ok(None) => Err(StyleError::UnresolvableDefault),
                }
            },
        }
    } else {
        Ok(Position::Relative)
    }
}

/// The text-fit policy of element `i`: the resolved property when set;
/// otherwise an absent fit expands the parent and an automatic one crops.
#[verifier::opaque]
pub open spec fn text_fit_of_spec(ss: Seq<NodeInfo>, i: int) -> Result<TextFit, StyleError> {
    let v = ss[i].style.text.fit;
    if uivalue_is_set(v) {
        match resolve_text_fit_spec(ss, v, ss[i].parent, prop_fuel(ss)) {
            Err(e) => Err(e),
            Ok(Some(x)) => Ok(x),
            Ok(None) => match resolve_text_fit_spec(
                ss,
                default_style().text.fit,
                None,
                prop_fuel(ss),
            ) {
                Err(e) => Err(e),
                Ok(Some(x)) => Ok(x),
                Ok(None) => Err(StyleError::UnresolvableDefault),
            },
        }
    } else if v is Unset {
        Ok(TextFit::ExpandParent)
    } else {
        Ok(TextFit::CropText)
    }
}

/// Resolves the text-fit policy of element `i`.
pub fn text_fit_of(tree: &UiTree, i: usize) -> (r: Result<TextFit, StyleError>)
    requires
        tree.wf(),
        i < tree.infos().len(),
    ensures
        r == text_fit_of_spec(tree.infos(), i as int),
{
    proof {
        reveal(text_fit_of_spec);
    }
    let fuel = fuel_for(tree);
    let v = tree.nodes[i].style.text.fit;
    if v.is_set() {
        let parent = tree.nodes[i].state.parent;
        match resolve_text_fit(tree, v, parent, fuel) {
            Err(e) => Err(e),
            Ok(Some(x)) => Ok(x),
            Ok(None) => {
                let dstyle = UiStyle::default();
                match resolve_text_fit(tree, dstyle.text.fit, None, fuel) {
                    Err(e) => Err(e),
                    Ok(Some(x)) => Ok(x),
                    Ok(None) => Err(StyleError::UnresolvableDefault),
                }
            },
        }
    } else if matches!(v, UiValue::Unset) {
        Ok(TextFit::ExpandParent)
    } else {
        Ok(TextFit::CropText)
    }
}

/// The font of element `i`: the resolved identifier when set, the default
/// font identifier zero otherwise.
#[verifier::opaque]
pub open spec fn font_of_spec(ss: Seq<NodeInfo>, i: int) -> Result<u64, StyleError> {
    let v = ss[i].style.text.font;
    if uivalue_is_set(v) {
        match resolve_font_spec(ss, v, ss[i].parent, prop_fuel(ss)) {
            Err(e) => Err(e),
            Ok(Some(x)) => Ok(x),
            Ok(None) => match resolve_font_spec(
                ss,
                default_style().text.font,
                None,
                prop_fuel(ss),
            ) {
                Err(e) => Err(e),
                Ok(Some(x)) => Ok(x),
                Ok(None) => Err(StyleError::UnresolvableDefault),
            },
        }
    } else {
        Ok(0u64)
    }
}

/// Resolves the font of element `i`.
pub fn font_of(tree: &UiTree, i: usize) -> (r: Result<u64, StyleError>)
    requires
        tree.wf(),
        i < tree.infos().len(),
    ensures
        r == font_of_spec(tree.infos(), i as int),
{
    proof {
        reveal(font_of_spec);
    }
    let fuel = fuel_for(tree);
    let v = tree.nodes[i].style.text.font;
    if v.is_set() {
        let parent = tree.nodes[i].state.parent;
        match resolve_font(tree, v, parent, fuel) {
            Err(e) => Err(e),
            Ok(Some(x)) => Ok(x),
            Ok(None) => {
                let dstyle = UiStyle::default();
                match resolve_font(tree, dstyle.text.font, None, fuel) {
                    Err(e) => Err(e),
                    Ok(Some(x)) => Ok(x),
                    Ok(None) => Err(StyleError::UnresolvableDefault),
                }
            },
        }
    } else {
        Ok(0)
    }
}

/// The text size of element `i`, resolved with the default-sheet fallback;
/// the default sheet measures one barleycorn.
#[verifier::opaque]
pub open spec fn text_size_of_spec(ss: Seq<NodeInfo>, i: int, dpi: int) -> Result<
    i32,
    StyleError,
> {
    field_or_default_spec(ss, i, IntField::TextSize, dpi)
}

/// Resolves the text size of element `i`.
pub fn text_size_of(tree: &UiTree, i: usize, dpi: i32) -> (r: Result<i32, StyleError>)
    requires
        tree.wf(),
        i < tree.infos().len(),
    ensures
        r == text_size_of_spec(tree.infos(), i as int, dpi as int),
{
    proof {
        reveal(text_size_of_spec);
    }
    field_or_default(tree, i, IntField::TextSize, dpi)
}

} // verus!

use crate::ui::styles::SideStyle;

verus! {

/// Which per-side style a selector names.
#[derive(Clone, Copy, Debug, PartialEq, Eq, Structural)]
pub enum SideKind {
    Padding,
    Margin,
}

/// The four resolved sides of a padding or margin, in pixels.
#[derive(Clone, Copy, Debug, PartialEq, Eq, Structural)]
pub struct ResolvedSides {
    pub top: i32,
    pub bottom: i32,
    pub left: i32,
    pub right: i32,
}

/// The per-side style a selector names.
pub open spec fn side_style_of(s: UiStyle, k: SideKind) -> SideStyle {
    match k {
        SideKind::Padding => s.padding,
        SideKind::Margin => s.margin,
    }
}

/// The field selectors of the four sides, in top, bottom, left, right
/// order.
pub open spec fn side_fields(k: SideKind) -> (IntField, IntField, IntField, IntField) {
    match k {
        SideKind::Padding => (
            IntField::PaddingTop,
            IntField::PaddingBottom,
            IntField::PaddingLeft,
            IntField::PaddingRight,
        ),
        SideKind::Margin => (
            IntField::MarginTop,
            IntField::MarginBottom,
            IntField::MarginLeft,
            IntField::MarginRight,
        ),
    }
}

/// One side resolved: the field with the default-sheet fallback when its
/// value is set; an absent or automatic side is zero, the domain default.
#[verifier::opaque]
pub open spec fn side_value_spec(ss: Seq<NodeInfo>, i: int, f: IntField, dpi: int) -> Result<
    i32,
    StyleError,
> {
    let fld = int_field_of(ss[i].style, f);
    if uivalue_is_set(fld.value) {
        field_or_default_spec(ss, i, f, dpi)
    } else {
        Ok(0i32)
    }
}

/// Resolves one side of element `i`.
fn side_value(tree: &UiTree, i: usize, f: IntField, dpi: i32) -> (r: Result<i32, StyleError>)
    requires
        tree.wf(),
        i < tree.infos().len(),
    ensures
        r == side_value_spec(tree.infos(), i as int, f, dpi as int),
{
    proof {
        reveal(side_value_spec);
    }
    let fld = get_int_field(&tree.nodes[i].style, f);
    if fld.value.is_set() {
        field_or_default(tree, i, f, dpi)
    } else {
        Ok(0)
    }
}

/// All four sides of element `i`'s padding or margin resolved, in top,
/// bottom, left, right order.
#[verifier::opaque]
pub open spec fn sides_of_spec(ss: Seq<NodeInfo>, i: int, k: SideKind, dpi: int) -> Result<
    ResolvedSides,
    StyleError,
> {
    let (ft, fb, fl, fr) = side_fields(k);
    match side_value_spec(ss, i, ft, dpi) {
        Err(e) => Err(e),
        Ok(top) => match side_value_spec(ss, i, fb, dpi) {
            Err(e) => Err(e),
            Ok(bottom) => match side_value_spec(ss, i, fl, dpi) {
                Err(e) => Err(e),
                Ok(left) => match side_value_spec(ss, i, fr, dpi) {
                    Err(e) => Err(e),
                    Ok(right) => Ok(ResolvedSides { top, bottom, left, right }),
                },
            },
        },
    }
}

/// Resolves all four sides of element `i`'s padding or margin.
pub fn sides_of(tree: &UiTree, i: usize, k: SideKind, dpi: i32) -> (r: Result<
    ResolvedSides,
    StyleError,
>)
    requires
        tree.wf(),
        i < tree.infos().len(),
    ensures
        r == sides_of_spec(tree.infos(), i as int, k, dpi as int),
{
    proof {
        reveal(sides_of_spec);
    }
    let (ft, fb, fl, fr) = match k {
        SideKind::Padding => (
            IntField::PaddingTop,
            IntField::PaddingBottom,
            IntField::PaddingLeft,
            IntField::PaddingRight,
        ),
        SideKind::Margin => (
            IntField::MarginTop,
            IntField::MarginBottom,
            IntField::MarginLeft,
            IntField::MarginRight,
        ),
    };
    let top = match side_value(tree, i, ft, dpi) {
        Ok(v) => v,
        Err(e) => {
            return Err(e);
        },
    };
    let bottom = match side_value(tree, i, fb, dpi) {
        Ok(v) => v,
        Err(e) => {
            return Err(e);
        },
    };
    let left = match side_value(tree, i, fl, dpi) {
        Ok(v) => v,
        Err(e) => {
            return Err(e);
        },
    };
    let right = match side_value(tree, i, fr, dpi) {
        Ok(v) => v,
        Err(e) => {
            return Err(e);
        },
    };
    Ok(ResolvedSides { top, bottom, left, right })
}

impl SideStyle {
    /// Resolves the padding or margin of element `elem` to concrete pixels
    /// per side.
    pub fn get(tree: &UiTree, elem: usize, kind: SideKind, dpi: i32) -> (r: Result<
        ResolvedSides,
        StyleError,
    >)
        requires
            tree.wf(),
            elem < tree.infos().len(),
        ensures
            r == sides_of_spec(tree.infos(), elem as int, kind, dpi as int),
    {
        proof {
            reveal(sides_of_spec);
        }
        sides_of(tree, elem, kind, dpi)
    }
}

/// Bounds applied to an externally computed candidate: each present bound
/// clamps its own side, unless the two bounds contradict each other, in
/// which case the candidate passes unclamped.
pub open spec fn apply_bounds(v: int, lo: Option<i32>, hi: Option<i32>) -> int {
    if lo is Some && hi is Some && lo->0 > hi->0 {
        v
    } else {
        let v1 = if lo is Some && v < lo->0 { lo->0 as int } else { v };
        if hi is Some && v1 > hi->0 {
            hi->0 as int
        } else {
            v1
        }
    }
}

/// A candidate clamped by the resolved bounds of the layout field `fld` of
/// element `i`: the result of growing an auto-sized dimension.
#[verifier::opaque]
pub open spec fn apply_field_spec(
    ss: Seq<NodeInfo>,
    fld: LayoutField<i32>,
    f: IntField,
    i: int,
    value: i32,
    dpi: int,
) -> Result<i32, StyleError> {
    let rmin = resolve_int_spec(
        ss,
        fld.min,
        IntProp::Slot(f, FieldSlot::Min),
        ss[i].parent,
        dpi,
        prop_fuel(ss),
    );
    let rmax = resolve_int_spec(
        ss,
        fld.max,
        IntProp::Slot(f, FieldSlot::Max),
        ss[i].parent,
        dpi,
        prop_fuel(ss),
    );
    match rmin {
        Err(e) => Err(e),
        Ok(lo) => match rmax {
            Err(e) => Err(e),
            Ok(hi) => Ok(apply_bounds(value as int, lo, hi) as i32),
        },
    }
}

impl LayoutField<i32> {
    /// Resolves this field against the parent chain: the value, clamped
    /// into its resolved bounds.
    pub fn resolve(&self, tree: &UiTree, f: IntField, parent: Option<usize>, dpi: i32) -> (r:
        Result<Option<i32>, StyleError>)
        requires
            tree.infos().len() <= 0x8000_0000,
        ensures
            r == resolve_field_spec(
                tree.infos(),
                *self,
                f,
                opt_int(parent),
                dpi as int,
                prop_fuel(tree.infos()),
            ),
    {
        proof {
            reveal(resolve_field_spec);
        }
        let fuel = fuel_for(tree);
        resolve_field(tree, *self, f, parent, dpi, fuel)
    }

    /// Applies only this field's bounds to an externally computed
    /// candidate, resolving them through element `elem`'s chain.
    pub fn apply(&self, value: i32, tree: &UiTree, elem: usize, f: IntField, dpi: i32) -> (r:
        Result<i32, StyleError>)
        requires
            tree.wf(),
            elem < tree.infos().len(),
        ensures
            r == apply_field_spec(tree.infos(), *self, f, elem as int, value, dpi as int),
    {
        proof {
            reveal(apply_field_spec);
        }
        let fuel = fuel_for(tree);
        let parent = tree.nodes[elem].state.parent;
        let lo = match resolve_int(
            tree,
            self.min,
            IntProp::Slot(f, FieldSlot::Min),
            parent,
            dpi,
            fuel,
        ) {
            Ok(v) => v,
            Err(e) => {
                return Err(e);
            },
        };
        let hi = match resolve_int(
            tree,
            self.max,
            IntProp::Slot(f, FieldSlot::Max),
            parent,
            dpi,
            fuel,
        ) {
            Ok(v) => v,
            Err(e) => {
                return Err(e);
            },
        };
        let contradictory = match (lo, hi) {
            (Some(l), Some(h)) => l > h,
            _ => false,
        };
        if contradictory {
            return Ok(value);
        }
        let v1 = match lo {
            Some(l) => if value < l {
                l
            } else {
                value
            },
            None => value,
        };
        let v2 = match hi {
            Some(h) => if v1 > h {
                h
            } else {
                v1
            },
            None => v1,
        };
        Ok(v2)
    }
}

} // verus!
