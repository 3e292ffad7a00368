//! Element tree and the box-model layout engine.
//!
//! Elements live in an arena: a vector of nodes addressed by stable indices,
//! with non-owning parent back-references, so a layout pass can read a
//! just-computed child state without aliasing conflicts. A node created later
//! always has a larger index than its parent, which also bounds every
//! inheritance chain.

use vstd::prelude::*;

use crate::ui::styles::{Dimension, Origin, ResCon, UiStyle};

verus! {

/// A child of an element: another element, addressed by its arena index, or an
/// opaque text leaf.
#[derive(Clone, Debug)]
pub enum Child {
    Element(usize),
    Text(String),
}

impl Child {
    pub fn is_element(&self) -> (r: bool)
        ensures
            r == (*self is Element),
    {
        matches!(self, Child::Element(_))
    }
}

/// The mathematical view of a child.
pub enum ChildView {
    Elem { idx: int },
    Text { s: Seq<char> },
}

/// The view of one child.
pub open spec fn child_view(c: Child) -> ChildView {
    match c {
        Child::Element(i) => ChildView::Elem { idx: i as int },
        Child::Text(s) => ChildView::Text { s: s@ },
    }
}

/// The transform applied to an element when it is drawn.
#[derive(Clone, Copy, Debug)]
pub struct UiTransformations {
    pub translation: Dimension<i32>,
    pub rotation: i32,
    pub scale: Dimension<i32>,
    pub origin: Origin,
}

/// The identity transform.
pub open spec fn identity_transforms() -> UiTransformations {
    UiTransformations {
        translation: Dimension { width: 0i32, height: 0i32 },
        rotation: 0i32,
        scale: Dimension { width: 1i32, height: 1i32 },
        origin: Origin::Center,
    }
}

/// Per-element mutable layout output, recomputed from scratch on every pass:
/// the content, box (content plus padding) and bounding (box plus margin)
/// rectangles, each anchored at its bottom-left corner.
pub struct UiElementState {
    pub ctx: ResCon,
    pub parent: Option<usize>,
    pub children: Vec<Child>,
    pub x: i32,
    pub y: i32,
    pub content_x: i32,
    pub content_y: i32,
    pub bounding_x: i32,
    pub bounding_y: i32,
    pub width: i32,
    pub height: i32,
    pub content_width: i32,
    pub content_height: i32,
    pub bounding_width: i32,
    pub bounding_height: i32,
    pub transforms: UiTransformations,
}

/// The geometric output of one element.
#[derive(Clone, Copy, Debug, PartialEq, Eq, Structural)]
pub struct Geometry {
    pub dpi: i32,
    pub x: i32,
    pub y: i32,
    pub content_x: i32,
    pub content_y: i32,
    pub bounding_x: i32,
    pub bounding_y: i32,
    pub width: i32,
    pub height: i32,
    pub content_width: i32,
    pub content_height: i32,
    pub bounding_width: i32,
    pub bounding_height: i32,
}

/// The geometry of a freshly created element: everything zero.
pub open spec fn zero_geometry() -> Geometry {
    Geometry {
        dpi: 0i32,
        x: 0i32,
        y: 0i32,
        content_x: 0i32,
        content_y: 0i32,
        bounding_x: 0i32,
        bounding_y: 0i32,
        width: 0i32,
        height: 0i32,
        content_width: 0i32,
        content_height: 0i32,
        bounding_width: 0i32,
        bounding_height: 0i32,
    }
}

impl UiElementState {
    /// The geometric part of the state.
    pub open spec fn geometry(&self) -> Geometry {
        Geometry {
            dpi: self.ctx.dpi,
            x: self.x,
            y: self.y,
            content_x: self.content_x,
            content_y: self.content_y,
            bounding_x: self.bounding_x,
            bounding_y: self.bounding_y,
            width: self.width,
            height: self.height,
            content_width: self.content_width,
            content_height: self.content_height,
            bounding_width: self.bounding_width,
            bounding_height: self.bounding_height,
        }
    }

    /// A fresh state: no parent, no children, zero geometry, identity
    /// transform.
    pub fn new() -> (r: UiElementState)
        ensures
            r.geometry() == zero_geometry(),
            r.parent is None,
            r.children@.len() == 0,
            r.transforms == identity_transforms(),
    {
        UiElementState {
            ctx: ResCon { dpi: 0 },
            parent: None,
            children: Vec::new(),
            x: 0,
            y: 0,
            content_x: 0,
            content_y: 0,
            bounding_x: 0,
            bounding_y: 0,
            width: 0,
            height: 0,
            content_width: 0,
            content_height: 0,
            bounding_width: 0,
            bounding_height: 0,
            transforms: UiTransformations {
                translation: Dimension { width: 0, height: 0 },
                rotation: 0,
                scale: Dimension { width: 1, height: 1 },
                origin: Origin::Center,
            },
        }
    }
}

/// The static view of one element: its style sheet, parent link, children and
/// transform, everything a layout pass reads but never writes.
pub struct NodeInfo {
    pub style: UiStyle,
    pub parent: Option<int>,
    pub children: Seq<ChildView>,
    pub transforms: UiTransformations,
}

/// One element of the arena.
pub struct UiNode {
    pub style: UiStyle,
    pub state: UiElementState,
}

impl UiNode {
    /// The static view of the node.
    pub open spec fn info(&self) -> NodeInfo {
        NodeInfo {
            style: self.style,
            parent: match self.state.parent {
                Some(p) => Some(p as int),
                None => None,
            },
            children: self.state.children@.map_values(|c: Child| child_view(c)),
            transforms: self.state.transforms,
        }
    }
}

/// Whether an element child reference is sound: it points forward in the
/// arena, stays in bounds, and the child's parent link points back.
pub open spec fn child_elem_ok(ss: Seq<NodeInfo>, i: int, c: ChildView) -> bool {
    c matches ChildView::Elem { idx } ==> i < idx < ss.len() && ss[idx].parent == Some(i)
}

/// Well-formedness of the static tree: parents precede their children, child
/// references are sound, and sizes stay within machine limits.
pub open spec fn tree_wf(ss: Seq<NodeInfo>) -> bool {
    &&& ss.len() <= 0x8000_0000
    &&& forall|i: int|
        0 <= i < ss.len() ==> (#[trigger] ss[i].children).len() <= 0x8000_0000
    &&& forall|i: int|
        0 <= i < ss.len() ==> ((#[trigger] ss[i].parent) matches Some(p) ==> 0 <= p < i)
    &&& forall|i: int, k: int|
        0 <= i < ss.len() && 0 <= k < ss[i].children.len() ==> child_elem_ok(
            ss,
            i,
            #[trigger] ss[i].children[k],
        )
}

/// The element arena. Ownership flows strictly parent to child through the
/// construction API; the parent back-reference is a plain index used only for
/// reads.
pub struct UiTree {
    pub nodes: Vec<UiNode>,
}

impl UiTree {
    /// The static views of all nodes.
    pub open spec fn infos(&self) -> Seq<NodeInfo> {
        self.nodes@.map_values(|n: UiNode| n.info())
    }

    /// The geometries of all nodes.
    pub open spec fn geometries(&self) -> Seq<Geometry> {
        self.nodes@.map_values(|n: UiNode| n.state.geometry())
    }

    /// Well-formedness of the tree.
    pub open spec fn wf(&self) -> bool {
        tree_wf(self.infos())
    }

    /// An empty arena.
    pub fn new() -> (t: UiTree)
        ensures
            t.infos() =~= Seq::<NodeInfo>::empty(),
            t.geometries() =~= Seq::<Geometry>::empty(),
            t.wf(),
    {
        UiTree { nodes: Vec::new() }
    }

    /// The number of elements.
    pub fn len(&self) -> (n: usize)
        ensures
            n == self.infos().len(),
    {
        self.nodes.len()
    }

    /// Appends an element without a parent and returns its index.
    pub fn push_root(&mut self, style: UiStyle) -> (idx: usize)
        requires
            old(self).wf(),
            old(self).infos().len() < 0x8000_0000,
        ensures
            idx == old(self).infos().len(),
            final(self).infos() =~= old(self).infos().push(
                NodeInfo {
                    style,
                    parent: None,
                    children: Seq::empty(),
                    transforms: identity_transforms(),
                },
            ),
            final(self).geometries() =~= old(self).geometries().push(zero_geometry()),
            final(self).wf(),
    {
        let idx = self.nodes.len();
        let state = UiElementState::new();
        self.nodes.push(UiNode { style, state });
        proof {
            let target = NodeInfo {
                style,
                parent: None,
                children: Seq::empty(),
                transforms: identity_transforms(),
            };
            let n = self.nodes@.len() as int;
            assert forall|i: int| 0 <= i < n implies self.infos()[i] == old(self).infos().push(
                target,
            )[i] by {
                if i == n - 1 {
                    assert(self.nodes@[i].info().children =~= Seq::<ChildView>::empty());
                }
            }
            assert(self.infos() =~= old(self).infos().push(target));
            assert(self.geometries() =~= old(self).geometries().push(zero_geometry()));
            let ss = self.infos();
            let so = old(self).infos();
            assert forall|i: int, k: int|
                0 <= i < ss.len() && 0 <= k < ss[i].children.len() implies child_elem_ok(
                ss,
                i,
                #[trigger] ss[i].children[k],
            ) by {
                if i < n - 1 {
                    assert(child_elem_ok(so, i, so[i].children[k]));
                }
            }
        }
        idx
    }

    /// Appends an element as the last child of `parent` and returns its
    /// index.
    pub fn push_child(&mut self, parent: usize, style: UiStyle) -> (idx: usize)
        requires
            old(self).wf(),
            parent < old(self).infos().len(),
            old(self).infos().len() < 0x8000_0000,
            old(self).infos()[parent as int].children.len() < 0x8000_0000,
        ensures
            idx == old(self).infos().len(),
            final(self).infos() =~= old(self).infos().update(
                parent as int,
                NodeInfo {
                    children: old(self).infos()[parent as int].children.push(
                        ChildView::Elem { idx: old(self).infos().len() as int },
                    ),
                    ..old(self).infos()[parent as int]
                },
            ).push(
                NodeInfo {
                    style,
                    parent: Some(parent as int),
                    children: Seq::empty(),
                    transforms: identity_transforms(),
                },
            ),
            final(self).geometries() =~= old(self).geometries().push(zero_geometry()),
            final(self).wf(),
    {
        let idx = self.nodes.len();
        let pnode = &mut self.nodes[parent];
        pnode.state.children.push(Child::Element(idx));
        let mut state = UiElementState::new();
        state.parent = Some(parent);
        self.nodes.push(UiNode { style, state });
        proof {
            let pi = parent as int;
            let n = self.nodes@.len() as int;
            let ptarget = NodeInfo {
                children: old(self).infos()[pi].children.push(
                    ChildView::Elem { idx: n - 1 },
                ),
                ..old(self).infos()[pi]
            };
            let ctarget = NodeInfo {
                style,
                parent: Some(pi),
                children: Seq::empty(),
                transforms: identity_transforms(),
            };
            let target = old(self).infos().update(pi, ptarget).push(ctarget);
            assert forall|i: int| 0 <= i < n implies self.infos()[i] == target[i] by {
                if i == n - 1 {
                    assert(self.nodes@[i].info().children =~= Seq::<ChildView>::empty());
                } else if i == pi {
                    assert(self.nodes@[i].info().children =~= old(self).infos()[pi].children.push(
                        ChildView::Elem { idx: n - 1 },
                    ));
                }
            }
            assert(self.infos() =~= target);
            assert(self.geometries() =~= old(self).geometries().push(zero_geometry()));
            let ss = self.infos();
            let so = old(self).infos();
            assert forall|i: int, k: int|
                0 <= i < ss.len() && 0 <= k < ss[i].children.len() implies child_elem_ok(
                ss,
                i,
                #[trigger] ss[i].children[k],
            ) by {
                if i < n - 1 && !(i == pi && k == ss[i].children.len() - 1) {
                    assert(child_elem_ok(so, i, so[i].children[k]));
                }
            }
        }
        idx
    }

    /// Appends a text leaf as the last child of `parent`.
    pub fn push_text(&mut self, parent: usize, text: String)
        requires
            old(self).wf(),
            parent < old(self).infos().len(),
            old(self).infos()[parent as int].children.len() < 0x8000_0000,
        ensures
            final(self).infos() =~= old(self).infos().update(
                parent as int,
                NodeInfo {
                    children: old(self).infos()[parent as int].children.push(
                        ChildView::Text { s: text@ },
                    ),
                    ..old(self).infos()[parent as int]
                },
            ),
            final(self).geometries() =~= old(self).geometries(),
            final(self).wf(),
    {
        let ghost tview = text@;
        let pnode = &mut self.nodes[parent];
        pnode.state.children.push(Child::Text(text));
        proof {
            let pi = parent as int;
            let n = self.nodes@.len() as int;
            let ptarget = NodeInfo {
                children: old(self).infos()[pi].children.push(ChildView::Text { s: tview }),
                ..old(self).infos()[pi]
            };
            let target = old(self).infos().update(pi, ptarget);
            assert forall|i: int| 0 <= i < n implies self.infos()[i] == target[i] by {
                if i == pi {
                    assert(self.nodes@[i].info().children =~= old(self).infos()[pi].children.push(
                        ChildView::Text { s: tview },
                    ));
                }
            }
            assert(self.infos() =~= target);
            assert(self.geometries() =~= old(self).geometries());
            let ss = self.infos();
            let so = old(self).infos();
            assert forall|i: int, k: int|
                0 <= i < ss.len() && 0 <= k < ss[i].children.len() implies child_elem_ok(
                ss,
                i,
                #[trigger] ss[i].children[k],
            ) by {
                if !(i == pi && k == ss[i].children.len() - 1) {
                    assert(child_elem_ok(so, i, so[i].children[k]));
                }
            }
        }
    }
}

} // verus!

use crate::ui::styles::{
    clip_i32, half_toward_zero, origin_actual_x, origin_actual_y, sat_i32, StyleError,
};

verus! {

/// A fatal layout failure: a style-resolution error, or an intermediate
/// pixel value that left the machine integer range.
#[derive(Clone, Copy, Debug, PartialEq, Eq, Structural)]
pub enum LayoutError {
    Style(StyleError),
    Overflow,
}

/// A pixel quantity checked into the `i32` range; outside it the layout
/// pass stops with an overflow error rather than wrapping.
pub open spec fn chk(v: int) -> Result<i32, LayoutError> {
    if v > i32::MAX || v < i32::MIN {
        Err(LayoutError::Overflow)
    } else {
        Ok(v as i32)
    }
}

/// Checked addition of two pixel quantities.
fn add_chk(a: i32, b: i32) -> (r: Result<i32, LayoutError>)
    ensures
        r == chk(a + b),
{
    match a.checked_add(b) {
        Some(v) => Ok(v),
        None => Err(LayoutError::Overflow),
    }
}

/// Checked subtraction of two pixel quantities.
fn sub_chk(a: i32, b: i32) -> (r: Result<i32, LayoutError>)
    ensures
        r == chk(a - b),
{
    match a.checked_sub(b) {
        Some(v) => Ok(v),
        None => Err(LayoutError::Overflow),
    }
}

/// Checked `a + b + c`, left to right.
pub open spec fn add3_chk(a: i32, b: i32, c: i32) -> Result<i32, LayoutError> {
    match chk(a + b) {
        Ok(t) => chk(t + c),
        Err(e) => Err(e),
    }
}

/// Halves a pixel quantity, rounding toward zero.
fn half_i32(v: i32) -> (r: i32)
    ensures
        r == crate::ui::styles::div_toward_zero(v as int, 2),
{
    half_toward_zero(v as i64) as i32
}

/// The anchored x coordinate, checked into range.
pub open spec fn anchor_x_chk(o: Origin, x: i32, w: i32) -> Result<i32, LayoutError> {
    chk(origin_actual_x(o, x as int, w as int))
}

/// The anchored y coordinate, checked into range.
pub open spec fn anchor_y_chk(o: Origin, y: i32, h: i32) -> Result<i32, LayoutError> {
    chk(origin_actual_y(o, y as int, h as int))
}

/// Applies the anchor to a styled x coordinate, checked.
fn anchor_x(o: Origin, x: i32, w: i32) -> (r: Result<i32, LayoutError>)
    ensures
        r == anchor_x_chk(o, x, w),
{
    match o {
        Origin::TopLeft => Ok(x),
        Origin::BottomLeft => Ok(x),
        Origin::TopRight => sub_chk(x, w),
        Origin::BottomRight => sub_chk(x, w),
        Origin::Center => sub_chk(x, half_i32(w)),
        Origin::Custom(cx, _) => sub_chk(x, cx),
    }
}

/// Applies the anchor to a styled y coordinate, checked.
fn anchor_y(o: Origin, y: i32, h: i32) -> (r: Result<i32, LayoutError>)
    ensures
        r == anchor_y_chk(o, y, h),
{
    match o {
        Origin::TopLeft => sub_chk(y, h),
        Origin::BottomLeft => Ok(y),
        Origin::TopRight => sub_chk(y, h),
        Origin::BottomRight => Ok(y),
        Origin::Center => sub_chk(y, half_i32(h)),
        Origin::Custom(_, cy) => sub_chk(y, cy),
    }
}

/// The text-measurement capability the engine consumes. `measure` sizes a
/// string for a font and size in pixels; it must be a pure function of its
/// arguments, which its specification method states, so that a pass is
/// deterministic. A provider that cannot size a string returns nothing and
/// the engine substitutes a zero size for that leaf.
pub trait TextMeasure {
    /// What this provider measures, as a function of the text, font and
    /// size alone.
    spec fn measure_spec(&self, text: Seq<char>, font: u64, size: i32) -> Option<Dimension<i32>>;

    /// Measures one string.
    fn measure(&self, text: &str, font: u64, size: i32) -> (r: Option<Dimension<i32>>)
        ensures
            r == self.measure_spec(text@, font, size),
    ;
}

/// A fixed-advance text measurer: every character is `glyph_width` pixels
/// wide and a string is as tall as the requested size.
#[derive(Clone, Copy, Debug)]
pub struct MonospaceMeasure {
    pub glyph_width: i32,
}

impl TextMeasure for MonospaceMeasure {
    open spec fn measure_spec(&self, text: Seq<char>, font: u64, size: i32) -> Option<
        Dimension<i32>,
    > {
        Some(
            Dimension {
                width: sat_i32(text.len() * self.glyph_width) as i32,
                height: size,
            },
        )
    }

    fn measure(&self, text: &str, font: u64, size: i32) -> (r: Option<Dimension<i32>>) {
        let n = text.unicode_len();
        proof {
            assert((n as int) * (self.glyph_width as int)
                <= 0x1_0000_0000_0000_0000_0000_0000_0000 && (n as int) * (self.glyph_width
                as int) >= -0x1_0000_0000_0000_0000_0000_0000_0000) by (nonlinear_arith)
                requires
                    0 <= n as int <= 0xffff_ffff_ffff_ffff,
                    -0x8000_0000 <= self.glyph_width as int <= 0x7fff_ffff,
            ;
        }
        let w = clip_i32((n as i128) * (self.glyph_width as i128));
        Some(Dimension { width: w, height: size })
    }
}

impl UiTree {
    /// Reads the geometry of element `i`.
    pub fn get_geometry(&self, i: usize) -> (g: Geometry)
        requires
            i < self.infos().len(),
        ensures
            g == self.geometries()[i as int],
    {
        let st = &self.nodes[i].state;
        Geometry {
            dpi: st.ctx.dpi,
            x: st.x,
            y: st.y,
            content_x: st.content_x,
            content_y: st.content_y,
            bounding_x: st.bounding_x,
            bounding_y: st.bounding_y,
            width: st.width,
            height: st.height,
            content_width: st.content_width,
            content_height: st.content_height,
            bounding_width: st.bounding_width,
            bounding_height: st.bounding_height,
        }
    }

    /// Overwrites the geometry of element `i`, leaving its style, parent,
    /// children and transform untouched.
    fn set_geometry(&mut self, i: usize, g: Geometry)
        requires
            i < old(self).infos().len(),
        ensures
            final(self).infos() =~= old(self).infos(),
            final(self).geometries() =~= old(self).geometries().update(i as int, g),
    {
        let st = &mut self.nodes[i].state;
        st.ctx.dpi = g.dpi;
        st.x = g.x;
        st.y = g.y;
        st.content_x = g.content_x;
        st.content_y = g.content_y;
        st.bounding_x = g.bounding_x;
        st.bounding_y = g.bounding_y;
        st.width = g.width;
        st.height = g.height;
        st.content_width = g.content_width;
        st.content_height = g.content_height;
        st.bounding_width = g.bounding_width;
        st.bounding_height = g.bounding_height;
        proof {
            assert forall|j: int| 0 <= j < self.infos().len() implies self.infos()[j] == old(
                self,
            ).infos()[j] by {}
            assert(self.infos() =~= old(self).infos());
            assert(self.geometries() =~= old(self).geometries().update(i as int, g));
        }
    }
}

} // verus!

use crate::ui::resolve::{
    apply_field_spec, child_align_of_spec, direction_of_spec, font_of_spec, int_field_of,
    literal_or_zero_spec, origin_of_spec, position_of_spec, sides_of_spec, text_fit_of_spec,
    text_size_of_spec, child_align_of, direction_of, font_of, get_int_field, literal_or_zero,
    origin_of, position_of, sides_of, text_fit_of, text_size_of, IntField, ResolvedSides,
    SideKind,
};
use crate::ui::styles::{ChildAlign, Direction, Position, TextFit};

verus! {

/// Everything resolved before content accumulation: the flow direction,
/// the anchor, the cross-axis alignment, the auto flags and the clamped
/// literal width and height (zero when unset).
pub struct PreSizing {
    pub dir: Direction,
    pub orig: Origin,
    pub align: ChildAlign,
    pub width_auto: bool,
    pub height_auto: bool,
    pub w0: i32,
    pub h0: i32,
}

/// The pre-sizing resolutions for element `i`, in the order the pass makes
/// them.
pub open spec fn pre_sizing_spec(ss: Seq<NodeInfo>, i: int, dpi: int) -> Result<
    PreSizing,
    StyleError,
> {
    match direction_of_spec(ss, i) {
        Err(e) => Err(e),
        Ok(dir) => match origin_of_spec(ss, i) {
            Err(e) => Err(e),
            Ok(orig) => match child_align_of_spec(ss, i) {
                Err(e) => Err(e),
                Ok(align) => {
                    let width_auto = int_field_of(ss[i].style, IntField::Width).value is Auto;
                    let height_auto = int_field_of(ss[i].style, IntField::Height).value is Auto;
                    match literal_or_zero_spec(ss, i, IntField::Width, dpi) {
                        Err(e) => Err(e),
                        Ok(w0) => match literal_or_zero_spec(ss, i, IntField::Height, dpi) {
                            Err(e) => Err(e),
                            Ok(h0) => Ok(
                                PreSizing { dir, orig, align, width_auto, height_auto, w0, h0 },
                            ),
                        },
                    }
                },
            },
        },
    }
}

/// Resolves everything the sizing phase needs for element `i`.
fn pre_sizing(tree: &UiTree, i: usize, dpi: i32) -> (r: Result<PreSizing, StyleError>)
    requires
        tree.wf(),
        i < tree.infos().len(),
    ensures
        r == pre_sizing_spec(tree.infos(), i as int, dpi as int),
{
    let dir = match direction_of(tree, i) {
        Ok(v) => v,
        Err(e) => {
            return Err(e);
        },
    };
    let orig = match origin_of(tree, i) {
        Ok(v) => v,
        Err(e) => {
            return Err(e);
        },
    };
    let align = match child_align_of(tree, i) {
        Ok(v) => v,
        Err(e) => {
            return Err(e);
        },
    };
    let width_auto = get_int_field(&tree.nodes[i].style, IntField::Width).is_auto();
    let height_auto = get_int_field(&tree.nodes[i].style, IntField::Height).is_auto();
    let w0 = match literal_or_zero(tree, i, IntField::Width, dpi) {
        Ok(v) => v,
        Err(e) => {
            return Err(e);
        },
    };
    let h0 = match literal_or_zero(tree, i, IntField::Height, dpi) {
        Ok(v) => v,
        Err(e) => {
            return Err(e);
        },
    };
    Ok(PreSizing { dir, orig, align, width_auto, height_auto, w0, h0 })
}

/// The box dimensions of an element: content, box and bounding sizes with
/// the resolved padding and margin.
pub struct BoxDims {
    pub cw: i32,
    pub ch: i32,
    pub bw: i32,
    pub bh: i32,
    pub ow: i32,
    pub oh: i32,
    pub pad: ResolvedSides,
    pub mar: ResolvedSides,
}

/// The sizing arithmetic after content accumulation: the literal sizes are
/// clamped by their bounds, an auto dimension grows to the occupied size
/// when that is larger, the content sizes are floored at zero, and padding
/// and margin expand the content box to the box and bounding sizes.
pub open spec fn box_dims_spec(
    ss: Seq<NodeInfo>,
    i: int,
    pre: PreSizing,
    occw: i32,
    occh: i32,
    dpi: int,
) -> Result<BoxDims, LayoutError> {
    match apply_field_spec(ss, int_field_of(ss[i].style, IntField::Width), IntField::Width, i, pre.w0, dpi) {
        Err(e) => Err(LayoutError::Style(e)),
        Ok(w1) => match apply_field_spec(
            ss,
            int_field_of(ss[i].style, IntField::Height),
            IntField::Height,
            i,
            pre.h0,
            dpi,
        ) {
            Err(e) => Err(LayoutError::Style(e)),
            Ok(h1) => {
                let cw0 = if pre.width_auto && occw > w1 { occw } else { w1 };
                let ch0 = if pre.height_auto && occh > h1 { occh } else { h1 };
                let cw = if cw0 < 0 { 0i32 } else { cw0 };
                let ch = if ch0 < 0 { 0i32 } else { ch0 };
                match sides_of_spec(ss, i, SideKind::Padding, dpi) {
                    Err(e) => Err(LayoutError::Style(e)),
                    Ok(pad) => match sides_of_spec(ss, i, SideKind::Margin, dpi) {
                        Err(e) => Err(LayoutError::Style(e)),
                        Ok(mar) => match add3_chk(cw, pad.left, pad.right) {
                            Err(e) => Err(e),
                            Ok(bw) => match add3_chk(ch, pad.top, pad.bottom) {
                                Err(e) => Err(e),
                                Ok(bh) => match add3_chk(bw, mar.left, mar.right) {
                                    Err(e) => Err(e),
                                    Ok(ow) => match add3_chk(bh, mar.top, mar.bottom) {
                                        Err(e) => Err(e),
                                        Ok(oh) => Ok(
                                            BoxDims { cw, ch, bw, bh, ow, oh, pad, mar },
                                        ),
                                    },
                                },
                            },
                        },
                    },
                }
            },
        },
    }
}

/// Computes the box dimensions of element `i` after content accumulation.
fn box_dims(tree: &UiTree, i: usize, pre: &PreSizing, occw: i32, occh: i32, dpi: i32) -> (r:
    Result<BoxDims, LayoutError>)
    requires
        tree.wf(),
        i < tree.infos().len(),
    ensures
        r == box_dims_spec(tree.infos(), i as int, *pre, occw, occh, dpi as int),
{
    let wfield = get_int_field(&tree.nodes[i].style, IntField::Width);
    let w1 = match wfield.apply(pre.w0, tree, i, IntField::Width, dpi) {
        Ok(v) => v,
        Err(e) => {
            return Err(LayoutError::Style(e));
        },
    };
    let hfield = get_int_field(&tree.nodes[i].style, IntField::Height);
    let h1 = match hfield.apply(pre.h0, tree, i, IntField::Height, dpi) {
        Ok(v) => v,
        Err(e) => {
            return Err(LayoutError::Style(e));
        },
    };
    let cw0 = if pre.width_auto && occw > w1 {
        occw
    } else {
        w1
    };
    let ch0 = if pre.height_auto && occh > h1 {
        occh
    } else {
        h1
    };
    let cw = if cw0 < 0 {
        0
    } else {
        cw0
    };
    let ch = if ch0 < 0 {
        0
    } else {
        ch0
    };
    let pad = match sides_of(tree, i, SideKind::Padding, dpi) {
        Ok(v) => v,
        Err(e) => {
            return Err(LayoutError::Style(e));
        },
    };
    let mar = match sides_of(tree, i, SideKind::Margin, dpi) {
        Ok(v) => v,
        Err(e) => {
            return Err(LayoutError::Style(e));
        },
    };
    let bw1 = match add_chk(cw, pad.left) {
        Ok(v) => v,
        Err(e) => {
            return Err(e);
        },
    };
    let bw = match add_chk(bw1, pad.right) {
        Ok(v) => v,
        Err(e) => {
            return Err(e);
        },
    };
    let bh1 = match add_chk(ch, pad.top) {
        Ok(v) => v,
        Err(e) => {
            return Err(e);
        },
    };
    let bh = match add_chk(bh1, pad.bottom) {
        Ok(v) => v,
        Err(e) => {
            return Err(e);
        },
    };
    let ow1 = match add_chk(bw, mar.left) {
        Ok(v) => v,
        Err(e) => {
            return Err(e);
        },
    };
    let ow = match add_chk(ow1, mar.right) {
        Ok(v) => v,
        Err(e) => {
            return Err(e);
        },
    };
    let oh1 = match add_chk(bh, mar.top) {
        Ok(v) => v,
        Err(e) => {
            return Err(e);
        },
    };
    let oh = match add_chk(oh1, mar.bottom) {
        Ok(v) => v,
        Err(e) => {
            return Err(e);
        },
    };
    Ok(BoxDims { cw, ch, bw, bh, ow, oh, pad, mar })
}

/// The element's own content position: an absolute element with an
/// explicit coordinate derives it by applying its anchor to the styled
/// coordinate; otherwise the coordinate handed down by the parent's flow
/// stands.
pub open spec fn own_position_spec(
    ss: Seq<NodeInfo>,
    i: int,
    orig: Origin,
    cw: i32,
    ch: i32,
    offx: i32,
    offy: i32,
    dpi: int,
) -> Result<(Position, i32, i32), LayoutError> {
    match position_of_spec(ss, i) {
        Err(e) => Err(LayoutError::Style(e)),
        Ok(pos) => {
            if pos is Absolute {
                let xv = int_field_of(ss[i].style, IntField::X).value;
                let step1: Result<i32, LayoutError> = if !(xv is Auto) {
                    match literal_or_zero_spec(ss, i, IntField::X, dpi) {
                        Err(e) => Err(LayoutError::Style(e)),
                        Ok(xl) => anchor_x_chk(orig, xl, cw),
                    }
                } else {
                    Ok(offx)
                };
                match step1 {
                    Err(e) => Err(e),
                    Ok(cx) => {
                        let yv = int_field_of(ss[i].style, IntField::Y).value;
                        let step2: Result<i32, LayoutError> = if !(yv is Auto) {
                            match literal_or_zero_spec(ss, i, IntField::Y, dpi) {
                                Err(e) => Err(LayoutError::Style(e)),
                                Ok(yl) => anchor_y_chk(orig, yl, ch),
                            }
                        } else {
                            Ok(offy)
                        };
                        match step2 {
                            Err(e) => Err(e),
                            Ok(cy) => Ok((pos, cx, cy)),
                        }
                    },
                }
            } else {
                Ok((pos, offx, offy))
            }
        },
    }
}

/// Positions element `i` itself.
fn own_position(
    tree: &UiTree,
    i: usize,
    orig: Origin,
    cw: i32,
    ch: i32,
    offx: i32,
    offy: i32,
    dpi: i32,
) -> (r: Result<(Position, i32, i32), LayoutError>)
    requires
        tree.wf(),
        i < tree.infos().len(),
    ensures
        r == own_position_spec(tree.infos(), i as int, orig, cw, ch, offx, offy, dpi as int),
{
    let pos = match position_of(tree, i) {
        Ok(v) => v,
        Err(e) => {
            return Err(LayoutError::Style(e));
        },
    };
    if matches!(pos, Position::Absolute) {
        let xv = get_int_field(&tree.nodes[i].style, IntField::X);
        let cx = if !xv.is_auto() {
            let xl = match literal_or_zero(tree, i, IntField::X, dpi) {
                Ok(v) => v,
                Err(e) => {
                    return Err(LayoutError::Style(e));
                },
            };
            match anchor_x(orig, xl, cw) {
                Ok(v) => v,
                Err(e) => {
                    return Err(e);
                },
            }
        } else {
            offx
        };
        let yv = get_int_field(&tree.nodes[i].style, IntField::Y);
        let cy = if !yv.is_auto() {
            let yl = match literal_or_zero(tree, i, IntField::Y, dpi) {
                Ok(v) => v,
                Err(e) => {
                    return Err(LayoutError::Style(e));
                },
            };
            match anchor_y(orig, yl, ch) {
                Ok(v) => v,
                Err(e) => {
                    return Err(e);
                },
            }
        } else {
            offy
        };
        Ok((pos, cx, cy))
    } else {
        Ok((pos, offx, offy))
    }
}

} // verus!

use crate::ui::styles::div_toward_zero;

verus! {

/// The cross-axis base coordinate for one child under an alignment policy,
/// each arithmetic step checked: `base` is the parent's content coordinate,
/// `extent` the parent's content extent and `child_extent` the child's.
pub open spec fn align_base_chk(
    align: ChildAlign,
    base: i32,
    extent: i32,
    child_extent: i32,
) -> Result<i32, LayoutError> {
    match align {
        ChildAlign::Start => Ok(base),
        ChildAlign::End => match chk(base + extent) {
            Err(e) => Err(e),
            Ok(t) => chk(t - child_extent),
        },
        ChildAlign::Middle => match chk(base + div_toward_zero(extent as int, 2)) {
            Err(e) => Err(e),
            Ok(t) => chk(t - div_toward_zero(child_extent as int, 2)),
        },
        ChildAlign::OffsetStart(o) => chk(base + o),
        ChildAlign::OffsetEnd(o) => match chk(base + extent) {
            Err(e) => Err(e),
            Ok(t) => match chk(t - child_extent) {
                Err(e) => Err(e),
                Ok(t2) => chk(t2 - o),
            },
        },
        ChildAlign::OffsetMiddle(o) => match chk(base + div_toward_zero(extent as int, 2)) {
            Err(e) => Err(e),
            Ok(t) => match chk(t - div_toward_zero(child_extent as int, 2)) {
                Err(e) => Err(e),
                Ok(t2) => chk(t2 + o),
            },
        },
    }
}

/// Computes the cross-axis base coordinate for one child.
fn align_base(align: ChildAlign, base: i32, extent: i32, child_extent: i32) -> (r: Result<
    i32,
    LayoutError,
>)
    ensures
        r == align_base_chk(align, base, extent, child_extent),
{
    match align {
        ChildAlign::Start => Ok(base),
        ChildAlign::End => match add_chk(base, extent) {
            Err(e) => Err(e),
            Ok(t) => sub_chk(t, child_extent),
        },
        ChildAlign::Middle => match add_chk(base, half_i32(extent)) {
            Err(e) => Err(e),
            Ok(t) => sub_chk(t, half_i32(child_extent)),
        },
        ChildAlign::OffsetStart(o) => add_chk(base, o),
        ChildAlign::OffsetEnd(o) => match add_chk(base, extent) {
            Err(e) => Err(e),
            Ok(t) => match sub_chk(t, child_extent) {
                Err(e) => Err(e),
                Ok(t2) => sub_chk(t2, o),
            },
        },
        ChildAlign::OffsetMiddle(o) => match add_chk(base, half_i32(extent)) {
            Err(e) => Err(e),
            Ok(t) => match sub_chk(t, half_i32(child_extent)) {
                Err(e) => Err(e),
                Ok(t2) => add_chk(t2, o),
            },
        },
    }
}

/// Content accumulation over the children of element `i` from slot `k` on:
/// element children are laid out recursively, handed their flow offset, and
/// their bounding size is accumulated, summed along the flow axis and
/// maximised across the cross axis; text leaves under the expand policy are
/// measured and accumulated identically, and cropped leaves contribute
/// nothing. Returns the updated geometries, the occupied extents and the
/// children's preliminary box corners.
#[verifier::opaque]
pub open spec fn size_children_spec<M: TextMeasure>(
    ss: Seq<NodeInfo>,
    gs: Seq<Geometry>,
    i: int,
    k: int,
    dir: Direction,
    occw: i32,
    occh: i32,
    prelims: Seq<(i32, i32)>,
    dpi: i32,
    m: M,
) -> Result<(Seq<Geometry>, i32, i32, Seq<(i32, i32)>), LayoutError>
    decreases ss.len() - i, 1int, ss[i].children.len() - k,
{
    if !(0 <= i < ss.len()) {
        Err(LayoutError::Style(StyleError::InvalidReference))
    } else if !(0 <= k < ss[i].children.len()) {
        Ok((gs, occw, occh, prelims))
    } else {
        match ss[i].children[k] {
            ChildView::Elem { idx } => {
                if !(i < idx < ss.len()) {
                    Err(LayoutError::Style(StyleError::InvalidReference))
                } else {
                    let offs: (i32, i32) = if dir is Horizontal {
                        (occw, 0i32)
                    } else {
                        (0i32, occh)
                    };
                    match node_spec(ss, gs, idx, offs.0, offs.1, true, dpi, m) {
                        Err(e) => Err(e),
                        Ok((gs1, px, py)) => {
                            let bw = gs1[idx].bounding_width;
                            let bh = gs1[idx].bounding_height;
                            let acc: Result<(i32, i32), LayoutError> = if dir is Horizontal {
                                match chk(occw + bw) {
                                    Err(e) => Err(e),
                                    Ok(w2) => Ok((w2, if bh > occh { bh } else { occh })),
                                }
                            } else {
                                match chk(occh + bh) {
                                    Err(e) => Err(e),
                                    Ok(h2) => Ok(((if bw > occw { bw } else { occw }), h2)),
                                }
                            };
                            match acc {
                                Err(e) => Err(e),
                                Ok((occw2, occh2)) => size_children_spec(
                                    ss,
                                    gs1,
                                    i,
                                    k + 1,
                                    dir,
                                    occw2,
                                    occh2,
                                    prelims.push((px, py)),
                                    dpi,
                                    m,
                                ),
                            }
                        },
                    }
                }
            },
            ChildView::Text { s } => match text_fit_of_spec(ss, i) {
                Err(e) => Err(LayoutError::Style(e)),
                Ok(fit) => if fit is ExpandParent {
                    match text_size_of_spec(ss, i, dpi as int) {
                        Err(e) => Err(LayoutError::Style(e)),
                        Ok(sz) => match font_of_spec(ss, i) {
                            Err(e) => Err(LayoutError::Style(e)),
                            Ok(font) => {
                                let d = match m.measure_spec(s, font, sz) {
                                    Some(d) => d,
                                    None => Dimension { width: 0i32, height: 0i32 },
                                };
                                let acc: Result<(i32, i32), LayoutError> = if dir
                                    is Horizontal {
                                    match chk(occw + d.width) {
                                        Err(e) => Err(e),
                                        Ok(w2) => Ok(
                                            (w2, if d.height > occh { d.height } else { occh }),
                                        ),
                                    }
                                } else {
                                    match chk(occh + d.height) {
                                        Err(e) => Err(e),
                                        Ok(h2) => Ok(
                                            ((if d.width > occw { d.width } else { occw }), h2),
                                        ),
                                    }
                                };
                                match acc {
                                    Err(e) => Err(e),
                                    Ok((occw2, occh2)) => size_children_spec(
                                        ss,
                                        gs,
                                        i,
                                        k + 1,
                                        dir,
                                        occw2,
                                        occh2,
                                        prelims.push((0i32, 0i32)),
                                        dpi,
                                        m,
                                    ),
                                }
                            },
                        },
                    }
                } else {
                    size_children_spec(
                        ss,
                        gs,
                        i,
                        k + 1,
                        dir,
                        occw,
                        occh,
                        prelims.push((0i32, 0i32)),
                        dpi,
                        m,
                    )
                },
            },
        }
    }
}

/// Child placement over the children of element `i` from slot `k` on: each
/// relative element child receives its content position from the flow
/// offset it was assigned, its own anchor, and the parent's cross-axis
/// alignment, and its box and bounding corners are re-derived from that
/// position with its own padding and margin. Absolute children and text
/// leaves are left alone.
#[verifier::opaque]
pub open spec fn place_children_spec(
    ss: Seq<NodeInfo>,
    gs: Seq<Geometry>,
    i: int,
    k: int,
    dir: Direction,
    align: ChildAlign,
    cx: i32,
    cy: i32,
    cw: i32,
    ch: i32,
    prelims: Seq<(i32, i32)>,
    dpi: i32,
) -> Result<Seq<Geometry>, LayoutError>
    decreases ss.len() - i, 1int, ss[i].children.len() - k,
{
    if !(0 <= i < ss.len()) {
        Err(LayoutError::Style(StyleError::InvalidReference))
    } else if !(0 <= k < ss[i].children.len()) {
        Ok(gs)
    } else {
        match ss[i].children[k] {
            ChildView::Text { s } => place_children_spec(
                ss,
                gs,
                i,
                k + 1,
                dir,
                align,
                cx,
                cy,
                cw,
                ch,
                prelims,
                dpi,
            ),
            ChildView::Elem { idx } => {
                if !(i < idx < ss.len()) {
                    Err(LayoutError::Style(StyleError::InvalidReference))
                } else {
                    match position_of_spec(ss, idx) {
                        Err(e) => Err(LayoutError::Style(e)),
                        Ok(cpos) => if cpos is Relative {
                            let p: (i32, i32) = if 0 <= k < prelims.len() {
                                prelims[k]
                            } else {
                                (0i32, 0i32)
                            };
                            match origin_of_spec(ss, idx) {
                                Err(e) => Err(LayoutError::Style(e)),
                                Ok(corig) => {
                                    let ccw = gs[idx].content_width;
                                    let cch = gs[idx].content_height;
                                    let rxy: Result<(i32, i32), LayoutError> = match dir {
                                        Direction::Vertical => match anchor_y_chk(
                                            corig,
                                            p.1,
                                            cch,
                                        ) {
                                            Err(e) => Err(e),
                                            Ok(ay) => match chk(ay + cy) {
                                                Err(e) => Err(e),
                                                Ok(ncy) => match align_base_chk(
                                                    align,
                                                    cx,
                                                    cw,
                                                    ccw,
                                                ) {
                                                    Err(e) => Err(e),
                                                    Ok(xb) => match anchor_x_chk(
                                                        corig,
                                                        xb,
                                                        ccw,
                                                    ) {
                                                        Err(e) => Err(e),
                                                        Ok(ncx) => Ok((ncx, ncy)),
                                                    },
                                                },
                                            },
                                        },
                                        Direction::Horizontal => match anchor_x_chk(
                                            corig,
                                            p.0,
                                            ccw,
                                        ) {
                                            Err(e) => Err(e),
                                            Ok(ax) => match chk(ax + cx) {
                                                Err(e) => Err(e),
                                                Ok(ncx) => match align_base_chk(
                                                    align,
                                                    cy,
                                                    ch,
                                                    cch,
                                                ) {
                                                    Err(e) => Err(e),
                                                    Ok(yb) => match anchor_y_chk(
                                                        corig,
                                                        yb,
                                                        cch,
                                                    ) {
                                                        Err(e) => Err(e),
                                                        Ok(ncy) => Ok((ncx, ncy)),
                                                    },
                                                },
                                            },
                                        },
                                    };
                                    match rxy {
                                        Err(e) => Err(e),
                                        Ok((ncx, ncy)) => match sides_of_spec(
                                            ss,
                                            idx,
                                            SideKind::Padding,
                                            dpi as int,
                                        ) {
                                            Err(e) => Err(LayoutError::Style(e)),
                                            Ok(cpad) => match sides_of_spec(
                                                ss,
                                                idx,
                                                SideKind::Margin,
                                                dpi as int,
                                            ) {
                                                Err(e) => Err(LayoutError::Style(e)),
                                                Ok(cmar) => match chk(ncx - cpad.left) {
                                                    Err(e) => Err(e),
                                                    Ok(nx) => match chk(ncy - cpad.bottom) {
                                                        Err(e) => Err(e),
                                                        Ok(ny) => match chk(nx - cmar.left) {
                                                            Err(e) => Err(e),
                                                            Ok(nbx) => match chk(
                                                                ny - cmar.bottom,
                                                            ) {
                                                                Err(e) => Err(e),
                                                                Ok(nby) => {
                                                                    let g2 = Geometry {
                                                                        content_x: ncx,
                                                                        content_y: ncy,
                                                                        x: nx,
                                                                        y: ny,
                                                                        bounding_x: nbx,
                                                                        bounding_y: nby,
                                                                        ..gs[idx]
                                                                    };
                                                                    place_children_spec(
                                                                        ss,
                                                                        gs.update(idx, g2),
                                                                        i,
                                                                        k + 1,
                                                                        dir,
                                                                        align,
                                                                        cx,
                                                                        cy,
                                                                        cw,
                                                                        ch,
                                                                        prelims,
                                                                        dpi,
                                                                    )
                                                                },
                                                            },
                                                        },
                                                    },
                                                },
                                            },
                                        },
                                    }
                                },
                            }
                        } else {
                            place_children_spec(
                                ss,
                                gs,
                                i,
                                k + 1,
                                dir,
                                align,
                                cx,
                                cy,
                                cw,
                                ch,
                                prelims,
                                dpi,
                            )
                        },
                    }
                }
            },
        }
    }
}

/// One layout pass over the subtree rooted at `i`: the element receives a
/// flow offset from its parent (`placed` says whether a parent will place
/// it), sizes itself bottom-up from its children, positions itself, places
/// its relative children, and returns the updated geometries together with
/// its preliminary box corner. Every pixel computation is checked into the
/// machine integer range.
#[verifier::opaque]
pub open spec fn node_spec<M: TextMeasure>(
    ss: Seq<NodeInfo>,
    gs: Seq<Geometry>,
    i: int,
    offx: i32,
    offy: i32,
    placed: bool,
    dpi: i32,
    m: M,
) -> Result<(Seq<Geometry>, i32, i32), LayoutError>
    decreases ss.len() - i, 2int, 0int,
{
    if !(0 <= i < ss.len()) {
        Err(LayoutError::Style(StyleError::InvalidReference))
    } else {
        match pre_sizing_spec(ss, i, dpi as int) {
            Err(e) => Err(LayoutError::Style(e)),
            Ok(pre) => match size_children_spec(
                ss,
                gs,
                i,
                0,
                pre.dir,
                0i32,
                0i32,
                Seq::<(i32, i32)>::empty(),
                dpi,
                m,
            ) {
                Err(e) => Err(e),
                Ok((gs1, occw, occh, prelims)) => match box_dims_spec(
                    ss,
                    i,
                    pre,
                    occw,
                    occh,
                    dpi as int,
                ) {
                    Err(e) => Err(e),
                    Ok(bd) => match own_position_spec(
                        ss,
                        i,
                        pre.orig,
                        bd.cw,
                        bd.ch,
                        offx,
                        offy,
                        dpi as int,
                    ) {
                        Err(e) => Err(e),
                        Ok((pos, cx, cy)) => match place_children_spec(
                            ss,
                            gs1,
                            i,
                            0,
                            pre.dir,
                            pre.align,
                            cx,
                            cy,
                            bd.cw,
                            bd.ch,
                            prelims,
                            dpi,
                        ) {
                            Err(e) => Err(e),
                            Ok(gs2) => match chk(cx - bd.pad.left) {
                                Err(e) => Err(e),
                                Ok(px) => match chk(cy - bd.pad.bottom) {
                                    Err(e) => Err(e),
                                    Ok(py) => if placed && pos is Relative {
                                        let g = Geometry {
                                            dpi,
                                            width: bd.bw,
                                            height: bd.bh,
                                            content_width: bd.cw,
                                            content_height: bd.ch,
                                            bounding_width: bd.ow,
                                            bounding_height: bd.oh,
                                            ..gs2[i]
                                        };
                                        Ok((gs2.update(i, g), px, py))
                                    } else {
                                        match chk(px - bd.mar.left) {
                                            Err(e) => Err(e),
                                            Ok(nbx) => match chk(py - bd.mar.bottom) {
                                                Err(e) => Err(e),
                                                Ok(nby) => {
                                                    let g = Geometry {
                                                        dpi,
                                                        x: px,
                                                        y: py,
                                                        content_x: cx,
                                                        content_y: cy,
                                                        bounding_x: nbx,
                                                        bounding_y: nby,
                                                        width: bd.bw,
                                                        height: bd.bh,
                                                        content_width: bd.cw,
                                                        content_height: bd.ch,
                                                        bounding_width: bd.ow,
                                                        bounding_height: bd.oh,
                                                    };
                                                    Ok((gs2.update(i, g), px, py))
                                                },
                                            },
                                        }
                                    },
                                },
                            },
                        },
                    },
                },
            },
        }
    }
}

} // verus!

verus! {

/// Lays out the subtree rooted at `i`, mirroring `node_spec` step for
/// step: `offx`/`offy` is the flow offset handed down by the parent and
/// `placed` says whether the parent will place this element afterwards.
/// Returns the element's preliminary box corner.
#[verifier::rlimit(100)]
fn compute_node<M: TextMeasure>(
    tree: &mut UiTree,
    i: usize,
    offx: i32,
    offy: i32,
    placed: bool,
    dpi: i32,
    m: &M,
) -> (r: Result<(i32, i32), LayoutError>)
    requires
        old(tree).wf(),
        i < old(tree).infos().len(),
    ensures
        final(tree).infos() =~= old(tree).infos(),
        final(tree).wf(),
        (match r {
            Ok((px, py)) => node_spec(
                old(tree).infos(),
                old(tree).geometries(),
                i as int,
                offx,
                offy,
                placed,
                dpi,
                *m,
            ) matches Ok((g, spx, spy)) && final(tree).geometries() =~= g && px == spx && py
                == spy,
            Err(e) => node_spec(
                old(tree).infos(),
                old(tree).geometries(),
                i as int,
                offx,
                offy,
                placed,
                dpi,
                *m,
            ) == Err::<(Seq<Geometry>, i32, i32), LayoutError>(e),
        }),
    decreases old(tree).infos().len() - i,
{
    let ghost ss = tree.infos();
    let ghost gs0 = tree.geometries();
    let pre = match pre_sizing(tree, i, dpi) {
        Ok(v) => v,
        Err(e) => {
            proof {
                assert(node_spec(ss, gs0, i as int, offx, offy, placed, dpi, *m)
                    == Err::<(Seq<Geometry>, i32, i32), LayoutError>(LayoutError::Style(e))) by {
        reveal_with_fuel(node_spec, 1); reveal_with_fuel(size_children_spec, 1); reveal_with_fuel(place_children_spec, 1);
    };
            }
            return Err(LayoutError::Style(e));
        },
    };
    let nchild = tree.nodes[i].state.children.len();
    proof {
        assert(nchild == ss[i as int].children.len());
    }
    let mut occw: i32 = 0;
    let mut occh: i32 = 0;
    let mut prelims: Vec<(i32, i32)> = Vec::new();
    let mut k: usize = 0;
    while k < nchild
        invariant
            tree.wf(),
            i < tree.infos().len(),
            tree.infos() == ss,
            ss == old(tree).infos(),
            gs0 == old(tree).geometries(),
            nchild == ss[i as int].children.len(),
            pre_sizing_spec(ss, i as int, dpi as int) == Ok::<PreSizing, StyleError>(pre),
            prelims@.len() == k as int,
            k <= nchild,
            size_children_spec(
                ss,
                gs0,
                i as int,
                0,
                pre.dir,
                0i32,
                0i32,
                Seq::<(i32, i32)>::empty(),
                dpi,
                *m,
            ) == size_children_spec(
                ss,
                tree.geometries(),
                i as int,
                k as int,
                pre.dir,
                occw,
                occh,
                prelims@,
                dpi,
                *m,
            ),
        decreases nchild - k,
    {
        let ghost g_before = tree.geometries();
        let ghost occw0 = occw;
        let ghost occh0 = occh;
        let ghost prelims0 = prelims@;
        proof {
            assert(child_elem_ok(ss, i as int, ss[i as int].children[k as int]));
        }
        let kind: (bool, usize) = match &tree.nodes[i].state.children[k] {
            Child::Element(c) => (true, *c),
            Child::Text(_) => (false, 0),
        };
        if kind.0 {
            let c = kind.1;
            proof {
                assert(ss[i as int].children[k as int] == (ChildView::Elem { idx: c as int }));
            }
            let offs: (i32, i32) = if matches!(pre.dir, Direction::Horizontal) {
                (occw, 0)
            } else {
                (0, occh)
            };
            let res = compute_node(tree, c, offs.0, offs.1, true, dpi, m);
            match res {
                Err(e) => {
                    proof {
                        assert((k as int) < ss[i as int].children.len());
                        assert((i as int) < (c as int) && (c as int) < ss.len());
                        assert(node_spec(ss, g_before, c as int, offs.0, offs.1, true, dpi, *m)
                            == Err::<(Seq<Geometry>, i32, i32), LayoutError>(e)) by {
        reveal_with_fuel(node_spec, 1); reveal_with_fuel(size_children_spec, 1); reveal_with_fuel(place_children_spec, 1);
    };
                        assert(size_children_spec(
                            ss,
                            g_before,
                            i as int,
                            k as int,
                            pre.dir,
                            occw0,
                            occh0,
                            prelims0,
                            dpi,
                            *m,
                        ) == Err::<(Seq<Geometry>, i32, i32, Seq<(i32, i32)>), LayoutError>(e)) by {
        reveal_with_fuel(node_spec, 1); reveal_with_fuel(size_children_spec, 1); reveal_with_fuel(place_children_spec, 1);
    };
                        assert(node_spec(ss, gs0, i as int, offx, offy, placed, dpi, *m)
                            == Err::<(Seq<Geometry>, i32, i32), LayoutError>(e)) by {
        reveal_with_fuel(node_spec, 1); reveal_with_fuel(size_children_spec, 1); reveal_with_fuel(place_children_spec, 1);
    };
                    }
                    return Err(e);
                },
                Ok((px, py)) => {
                    let cg = tree.get_geometry(c);
                    let acc: Result<(i32, i32), LayoutError> = if matches!(
                        pre.dir,
                        Direction::Horizontal,
                    ) {
                        match add_chk(occw, cg.bounding_width) {
                            Ok(w2) => Ok(
                                (
                                    w2,
                                    if cg.bounding_height > occh {
                                        cg.bounding_height
                                    } else {
                                        occh
                                    },
                                ),
                            ),
                            Err(e) => Err(e),
                        }
                    } else {
                        match add_chk(occh, cg.bounding_height) {
                            Ok(h2) => Ok(
                                (
                                    (if cg.bounding_width > occw {
                                        cg.bounding_width
                                    } else {
                                        occw
                                    }),
                                    h2,
                                ),
                            ),
                            Err(e) => Err(e),
                        }
                    };
                    match acc {
                        Err(e) => {
                            proof {
                                assert(node_spec(ss, g_before, c as int, offs.0, offs.1, true, dpi, *m)
                                    == Ok::<(Seq<Geometry>, i32, i32), LayoutError>(
                                    (tree.geometries(), px, py),
                                )) by {
        reveal_with_fuel(node_spec, 1); reveal_with_fuel(size_children_spec, 1); reveal_with_fuel(place_children_spec, 1);
    };
                                assert(cg == tree.geometries()[c as int]);
                                assert(size_children_spec(
                                    ss,
                                    g_before,
                                    i as int,
                                    k as int,
                                    pre.dir,
                                    occw0,
                                    occh0,
                                    prelims0,
                                    dpi,
                                    *m,
                                ) == Err::<
                                    (Seq<Geometry>, i32, i32, Seq<(i32, i32)>),
                                    LayoutError,
                                >(e)) by {
        reveal_with_fuel(node_spec, 1); reveal_with_fuel(size_children_spec, 1); reveal_with_fuel(place_children_spec, 1);
    };
                                assert(node_spec(ss, gs0, i as int, offx, offy, placed, dpi, *m)
                                    == Err::<(Seq<Geometry>, i32, i32), LayoutError>(e)) by {
        reveal_with_fuel(node_spec, 1); reveal_with_fuel(size_children_spec, 1); reveal_with_fuel(place_children_spec, 1);
    };
                            }
                            return Err(e);
                        },
                        Ok((w2, h2)) => {
                            occw = w2;
                            occh = h2;
                            prelims.push((px, py));
                        },
                    }
                },
            }
        } else {
            proof {
                assert(ss[i as int].children[k as int] is Text);
            }
            let fit = match text_fit_of(tree, i) {
                Ok(v) => v,
                Err(e) => {
                    proof {
                        assert(size_children_spec(
                            ss,
                            g_before,
                            i as int,
                            k as int,
                            pre.dir,
                            occw0,
                            occh0,
                            prelims0,
                            dpi,
                            *m,
                        ) == Err::<(Seq<Geometry>, i32, i32, Seq<(i32, i32)>), LayoutError>(
                            LayoutError::Style(e),
                        )) by {
        reveal_with_fuel(node_spec, 1); reveal_with_fuel(size_children_spec, 1); reveal_with_fuel(place_children_spec, 1);
    };
                        assert(node_spec(ss, gs0, i as int, offx, offy, placed, dpi, *m)
                            == Err::<(Seq<Geometry>, i32, i32), LayoutError>(
                            LayoutError::Style(e),
                        )) by {
        reveal_with_fuel(node_spec, 1); reveal_with_fuel(size_children_spec, 1); reveal_with_fuel(place_children_spec, 1);
    };
                    }
                    return Err(LayoutError::Style(e));
                },
            };
            if matches!(fit, TextFit::ExpandParent) {
                let sz = match text_size_of(tree, i, dpi) {
                    Ok(v) => v,
                    Err(e) => {
                        proof {
                            assert(size_children_spec(
                                ss,
                                g_before,
                                i as int,
                                k as int,
                                pre.dir,
                                occw0,
                                occh0,
                                prelims0,
                                dpi,
                                *m,
                            ) == Err::<(Seq<Geometry>, i32, i32, Seq<(i32, i32)>), LayoutError>(
                                LayoutError::Style(e),
                            )) by {
        reveal_with_fuel(node_spec, 1); reveal_with_fuel(size_children_spec, 1); reveal_with_fuel(place_children_spec, 1);
    };
                            assert(node_spec(ss, gs0, i as int, offx, offy, placed, dpi, *m)
                                == Err::<(Seq<Geometry>, i32, i32), LayoutError>(
                                LayoutError::Style(e),
                            )) by {
        reveal_with_fuel(node_spec, 1); reveal_with_fuel(size_children_spec, 1); reveal_with_fuel(place_children_spec, 1);
    };
                        }
                        return Err(LayoutError::Style(e));
                    },
                };
                let font = match font_of(tree, i) {
                    Ok(v) => v,
                    Err(e) => {
                        proof {
                            assert(size_children_spec(
                                ss,
                                g_before,
                                i as int,
                                k as int,
                                pre.dir,
                                occw0,
                                occh0,
                                prelims0,
                                dpi,
                                *m,
                            ) == Err::<(Seq<Geometry>, i32, i32, Seq<(i32, i32)>), LayoutError>(
                                LayoutError::Style(e),
                            )) by {
        reveal_with_fuel(node_spec, 1); reveal_with_fuel(size_children_spec, 1); reveal_with_fuel(place_children_spec, 1);
    };
                            assert(node_spec(ss, gs0, i as int, offx, offy, placed, dpi, *m)
                                == Err::<(Seq<Geometry>, i32, i32), LayoutError>(
                                LayoutError::Style(e),
                            )) by {
        reveal_with_fuel(node_spec, 1); reveal_with_fuel(size_children_spec, 1); reveal_with_fuel(place_children_spec, 1);
    };
                        }
                        return Err(LayoutError::Style(e));
                    },
                };
                let dim: Option<Dimension<i32>> = match &tree.nodes[i].state.children[k] {
                    Child::Text(s) => m.measure(s.as_str(), font, sz),
                    Child::Element(_) => None,
                };
                let d = match dim {
                    Some(d) => d,
                    None => Dimension { width: 0, height: 0 },
                };
                let acc: Result<(i32, i32), LayoutError> = if matches!(
                    pre.dir,
                    Direction::Horizontal,
                ) {
                    match add_chk(occw, d.width) {
                        Ok(w2) => Ok((w2, if d.height > occh { d.height } else { occh })),
                        Err(e) => Err(e),
                    }
                } else {
                    match add_chk(occh, d.height) {
                        Ok(h2) => Ok(((if d.width > occw { d.width } else { occw }), h2)),
                        Err(e) => Err(e),
                    }
                };
                match acc {
                    Err(e) => {
                        proof {
                            assert(size_children_spec(
                                ss,
                                g_before,
                                i as int,
                                k as int,
                                pre.dir,
                                occw0,
                                occh0,
                                prelims0,
                                dpi,
                                *m,
                            ) == Err::<(Seq<Geometry>, i32, i32, Seq<(i32, i32)>), LayoutError>(
                                e,
                            )) by {
        reveal_with_fuel(node_spec, 1); reveal_with_fuel(size_children_spec, 1); reveal_with_fuel(place_children_spec, 1);
    };
                            assert(node_spec(ss, gs0, i as int, offx, offy, placed, dpi, *m)
                                == Err::<(Seq<Geometry>, i32, i32), LayoutError>(e)) by {
        reveal_with_fuel(node_spec, 1); reveal_with_fuel(size_children_spec, 1); reveal_with_fuel(place_children_spec, 1);
    };
                        }
                        return Err(e);
                    },
                    Ok((w2, h2)) => {
                        occw = w2;
                        occh = h2;
                        prelims.push((0, 0));
                    },
                }
            } else {
                prelims.push((0, 0));
            }
        }
        k = k + 1;
        proof {
            assert(size_children_spec(
                ss,
                g_before,
                i as int,
                (k - 1) as int,
                pre.dir,
                occw0,
                occh0,
                prelims0,
                dpi,
                *m,
            ) == size_children_spec(
                ss,
                tree.geometries(),
                i as int,
                k as int,
                pre.dir,
                occw,
                occh,
                prelims@,
                dpi,
                *m,
            )) by {
        reveal_with_fuel(node_spec, 1); reveal_with_fuel(size_children_spec, 1); reveal_with_fuel(place_children_spec, 1);
    };
        }
    }
    let ghost gs1 = tree.geometries();
    proof {
        assert(size_children_spec(
            ss,
            gs0,
            i as int,
            0,
            pre.dir,
            0i32,
            0i32,
            Seq::<(i32, i32)>::empty(),
            dpi,
            *m,
        ) == Ok::<(Seq<Geometry>, i32, i32, Seq<(i32, i32)>), LayoutError>(
            (gs1, occw, occh, prelims@),
        )) by {
        reveal_with_fuel(node_spec, 1); reveal_with_fuel(size_children_spec, 1); reveal_with_fuel(place_children_spec, 1);
    };
    }
    let bd = match box_dims(tree, i, &pre, occw, occh, dpi) {
        Ok(v) => v,
        Err(e) => {
            proof {
                assert(node_spec(ss, gs0, i as int, offx, offy, placed, dpi, *m)
                    == Err::<(Seq<Geometry>, i32, i32), LayoutError>(e)) by {
        reveal_with_fuel(node_spec, 1); reveal_with_fuel(size_children_spec, 1); reveal_with_fuel(place_children_spec, 1);
    };
            }
            return Err(e);
        },
    };
    let (pos, cx, cy) = match own_position(tree, i, pre.orig, bd.cw, bd.ch, offx, offy, dpi) {
        Ok(v) => v,
        Err(e) => {
            proof {
                assert(node_spec(ss, gs0, i as int, offx, offy, placed, dpi, *m)
                    == Err::<(Seq<Geometry>, i32, i32), LayoutError>(e)) by {
        reveal_with_fuel(node_spec, 1); reveal_with_fuel(size_children_spec, 1); reveal_with_fuel(place_children_spec, 1);
    };
            }
            return Err(e);
        },
    };
    let mut k2: usize = 0;
    while k2 < nchild
        invariant
            tree.wf(),
            i < tree.infos().len(),
            tree.infos() == ss,
            ss == old(tree).infos(),
            gs0 == old(tree).geometries(),
            nchild == ss[i as int].children.len(),
            pre_sizing_spec(ss, i as int, dpi as int) == Ok::<PreSizing, StyleError>(pre),
            size_children_spec(
                ss,
                gs0,
                i as int,
                0,
                pre.dir,
                0i32,
                0i32,
                Seq::<(i32, i32)>::empty(),
                dpi,
                *m,
            ) == Ok::<(Seq<Geometry>, i32, i32, Seq<(i32, i32)>), LayoutError>(
                (gs1, occw, occh, prelims@),
            ),
            box_dims_spec(ss, i as int, pre, occw, occh, dpi as int) == Ok::<
                BoxDims,
                LayoutError,
            >(bd),
            own_position_spec(ss, i as int, pre.orig, bd.cw, bd.ch, offx, offy, dpi as int)
                == Ok::<(Position, i32, i32), LayoutError>((pos, cx, cy)),
            prelims@.len() == nchild,
            k2 <= nchild,
            place_children_spec(
                ss,
                gs1,
                i as int,
                0,
                pre.dir,
                pre.align,
                cx,
                cy,
                bd.cw,
                bd.ch,
                prelims@,
                dpi,
            ) == place_children_spec(
                ss,
                tree.geometries(),
                i as int,
                k2 as int,
                pre.dir,
                pre.align,
                cx,
                cy,
                bd.cw,
                bd.ch,
                prelims@,
                dpi,
            ),
        decreases nchild - k2,
    {
        let ghost g_before = tree.geometries();
        proof {
            assert(child_elem_ok(ss, i as int, ss[i as int].children[k2 as int]));
        }
        let kind: (bool, usize) = match &tree.nodes[i].state.children[k2] {
            Child::Element(c) => (true, *c),
            Child::Text(_) => (false, 0),
        };
        if kind.0 {
            let c = kind.1;
            proof {
                assert(ss[i as int].children[k2 as int] == (ChildView::Elem { idx: c as int }));
            }
            let cpos = match position_of(tree, c) {
                Ok(v) => v,
                Err(e) => {
                    proof {
                        assert(place_children_spec(
                            ss,
                            g_before,
                            i as int,
                            k2 as int,
                            pre.dir,
                            pre.align,
                            cx,
                            cy,
                            bd.cw,
                            bd.ch,
                            prelims@,
                            dpi,
                        ) == Err::<Seq<Geometry>, LayoutError>(LayoutError::Style(e))) by {
        reveal_with_fuel(node_spec, 1); reveal_with_fuel(size_children_spec, 1); reveal_with_fuel(place_children_spec, 1);
    };
                        assert(place_children_spec(
                            ss,
                            gs1,
                            i as int,
                            0,
                            pre.dir,
                            pre.align,
                            cx,
                            cy,
                            bd.cw,
                            bd.ch,
                            prelims@,
                            dpi,
                        ) == Err::<Seq<Geometry>, LayoutError>(LayoutError::Style(e))) by {
        reveal_with_fuel(node_spec, 1); reveal_with_fuel(size_children_spec, 1); reveal_with_fuel(place_children_spec, 1);
    };
                        assert(node_spec(ss, gs0, i as int, offx, offy, placed, dpi, *m)
                            == Err::<(Seq<Geometry>, i32, i32), LayoutError>(
                            LayoutError::Style(e),
                        )) by {
        reveal_with_fuel(node_spec, 1); reveal_with_fuel(size_children_spec, 1); reveal_with_fuel(place_children_spec, 1);
    };
                    }
                    return Err(LayoutError::Style(e));
                },
            };
            if matches!(cpos, Position::Relative) {
                let p = prelims[k2];
                let corig = match origin_of(tree, c) {
                    Ok(v) => v,
                    Err(e) => {
                        proof {
                            assert(place_children_spec(
                                ss,
                                g_before,
                                i as int,
                                k2 as int,
                                pre.dir,
                                pre.align,
                                cx,
                                cy,
                                bd.cw,
                                bd.ch,
                                prelims@,
                                dpi,
                            ) == Err::<Seq<Geometry>, LayoutError>(LayoutError::Style(e))) by {
        reveal_with_fuel(node_spec, 1); reveal_with_fuel(size_children_spec, 1); reveal_with_fuel(place_children_spec, 1);
    };
                            assert(node_spec(ss, gs0, i as int, offx, offy, placed, dpi, *m)
                                == Err::<(Seq<Geometry>, i32, i32), LayoutError>(
                                LayoutError::Style(e),
                            )) by {
        reveal_with_fuel(node_spec, 1); reveal_with_fuel(size_children_spec, 1); reveal_with_fuel(place_children_spec, 1);
    };
                        }
                        return Err(LayoutError::Style(e));
                    },
                };
                let cg = tree.get_geometry(c);
                let rxy: Result<(i32, i32), LayoutError> = match pre.dir {
                    Direction::Vertical => match anchor_y(corig, p.1, cg.content_height) {
                        Err(e) => Err(e),
                        Ok(ay) => match add_chk(ay, cy) {
                            Err(e) => Err(e),
                            Ok(ncy) => match align_base(pre.align, cx, bd.cw, cg.content_width) {
                                Err(e) => Err(e),
                                Ok(xb) => match anchor_x(corig, xb, cg.content_width) {
                                    Err(e) => Err(e),
                                    Ok(ncx) => Ok((ncx, ncy)),
                                },
                            },
                        },
                    },
                    Direction::Horizontal => match anchor_x(corig, p.0, cg.content_width) {
                        Err(e) => Err(e),
                        Ok(ax) => match add_chk(ax, cx) {
                            Err(e) => Err(e),
                            Ok(ncx) => match align_base(pre.align, cy, bd.ch, cg.content_height) {
                                Err(e) => Err(e),
                                Ok(yb) => match anchor_y(corig, yb, cg.content_height) {
                                    Err(e) => Err(e),
                                    Ok(ncy) => Ok((ncx, ncy)),
                                },
                            },
                        },
                    },
                };
                let xy = match rxy {
                    Ok(v) => v,
                    Err(e) => {
                        proof {
                            assert(place_children_spec(
                                ss,
                                g_before,
                                i as int,
                                k2 as int,
                                pre.dir,
                                pre.align,
                                cx,
                                cy,
                                bd.cw,
                                bd.ch,
                                prelims@,
                                dpi,
                            ) == Err::<Seq<Geometry>, LayoutError>(e)) by {
        reveal_with_fuel(node_spec, 1); reveal_with_fuel(size_children_spec, 1); reveal_with_fuel(place_children_spec, 1);
    };
                            assert(node_spec(ss, gs0, i as int, offx, offy, placed, dpi, *m)
                                == Err::<(Seq<Geometry>, i32, i32), LayoutError>(e)) by {
        reveal_with_fuel(node_spec, 1); reveal_with_fuel(size_children_spec, 1); reveal_with_fuel(place_children_spec, 1);
    };
                        }
                        return Err(e);
                    },
                };
                let ncx = xy.0;
                let ncy = xy.1;
                let cpad = match sides_of(tree, c, SideKind::Padding, dpi) {
                    Ok(v) => v,
                    Err(e) => {
                        proof {
                            assert(place_children_spec(
                                ss,
                                g_before,
                                i as int,
                                k2 as int,
                                pre.dir,
                                pre.align,
                                cx,
                                cy,
                                bd.cw,
                                bd.ch,
                                prelims@,
                                dpi,
                            ) == Err::<Seq<Geometry>, LayoutError>(LayoutError::Style(e))) by {
        reveal_with_fuel(node_spec, 1); reveal_with_fuel(size_children_spec, 1); reveal_with_fuel(place_children_spec, 1);
    };
                            assert(node_spec(ss, gs0, i as int, offx, offy, placed, dpi, *m)
                                == Err::<(Seq<Geometry>, i32, i32), LayoutError>(
                                LayoutError::Style(e),
                            )) by {
        reveal_with_fuel(node_spec, 1); reveal_with_fuel(size_children_spec, 1); reveal_with_fuel(place_children_spec, 1);
    };
                        }
                        return Err(LayoutError::Style(e));
                    },
                };
                let cmar = match sides_of(tree, c, SideKind::Margin, dpi) {
                    Ok(v) => v,
                    Err(e) => {
                        proof {
                            assert(place_children_spec(
                                ss,
                                g_before,
                                i as int,
                                k2 as int,
                                pre.dir,
                                pre.align,
                                cx,
                                cy,
                                bd.cw,
                                bd.ch,
                                prelims@,
                                dpi,
                            ) == Err::<Seq<Geometry>, LayoutError>(LayoutError::Style(e))) by {
        reveal_with_fuel(node_spec, 1); reveal_with_fuel(size_children_spec, 1); reveal_with_fuel(place_children_spec, 1);
    };
                            assert(node_spec(ss, gs0, i as int, offx, offy, placed, dpi, *m)
                                == Err::<(Seq<Geometry>, i32, i32), LayoutError>(
                                LayoutError::Style(e),
                            )) by {
        reveal_with_fuel(node_spec, 1); reveal_with_fuel(size_children_spec, 1); reveal_with_fuel(place_children_spec, 1);
    };
                        }
                        return Err(LayoutError::Style(e));
                    },
                };
                let r1 = match sub_chk(ncx, cpad.left) {
                    Ok(nx) => match sub_chk(ncy, cpad.bottom) {
                        Ok(ny) => match sub_chk(nx, cmar.left) {
                            Ok(nbx) => match sub_chk(ny, cmar.bottom) {
                                Ok(nby) => Ok((nx, ny, nbx, nby)),
                                Err(e) => Err(e),
                            },
                            Err(e) => Err(e),
                        },
                        Err(e) => Err(e),
                    },
                    Err(e) => Err(e),
                };
                let (nx, ny, nbx, nby) = match r1 {
                    Ok(v) => v,
                    Err(e) => {
                        proof {
                            assert(place_children_spec(
                                ss,
                                g_before,
                                i as int,
                                k2 as int,
                                pre.dir,
                                pre.align,
                                cx,
                                cy,
                                bd.cw,
                                bd.ch,
                                prelims@,
                                dpi,
                            ) == Err::<Seq<Geometry>, LayoutError>(e)) by {
        reveal_with_fuel(node_spec, 1); reveal_with_fuel(size_children_spec, 1); reveal_with_fuel(place_children_spec, 1);
    };
                            assert(node_spec(ss, gs0, i as int, offx, offy, placed, dpi, *m)
                                == Err::<(Seq<Geometry>, i32, i32), LayoutError>(e)) by {
        reveal_with_fuel(node_spec, 1); reveal_with_fuel(size_children_spec, 1); reveal_with_fuel(place_children_spec, 1);
    };
                        }
                        return Err(e);
                    },
                };
                tree.set_geometry(
                    c,
                    Geometry {
                        content_x: ncx,
                        content_y: ncy,
                        x: nx,
                        y: ny,
                        bounding_x: nbx,
                        bounding_y: nby,
                        ..cg
                    },
                );
            }
        }
        k2 = k2 + 1;
        proof {
            assert(place_children_spec(
                ss,
                g_before,
                i as int,
                (k2 - 1) as int,
                pre.dir,
                pre.align,
                cx,
                cy,
                bd.cw,
                bd.ch,
                prelims@,
                dpi,
            ) == place_children_spec(
                ss,
                tree.geometries(),
                i as int,
                k2 as int,
                pre.dir,
                pre.align,
                cx,
                cy,
                bd.cw,
                bd.ch,
                prelims@,
                dpi,
            )) by {
        reveal_with_fuel(node_spec, 1); reveal_with_fuel(size_children_spec, 1); reveal_with_fuel(place_children_spec, 1);
    };
        }
    }
    let ghost gs2 = tree.geometries();
    proof {
        assert(place_children_spec(
            ss,
            gs1,
            i as int,
            0,
            pre.dir,
            pre.align,
            cx,
            cy,
            bd.cw,
            bd.ch,
            prelims@,
            dpi,
        ) == Ok::<Seq<Geometry>, LayoutError>(gs2)) by {
        reveal_with_fuel(node_spec, 1); reveal_with_fuel(size_children_spec, 1); reveal_with_fuel(place_children_spec, 1);
    };
    }
    let px = match sub_chk(cx, bd.pad.left) {
        Ok(v) => v,
        Err(e) => {
            proof {
                assert(node_spec(ss, gs0, i as int, offx, offy, placed, dpi, *m)
                    == Err::<(Seq<Geometry>, i32, i32), LayoutError>(e)) by {
        reveal_with_fuel(node_spec, 1); reveal_with_fuel(size_children_spec, 1); reveal_with_fuel(place_children_spec, 1);
    };
            }
            return Err(e);
        },
    };
    let py = match sub_chk(cy, bd.pad.bottom) {
        Ok(v) => v,
        Err(e) => {
            proof {
                assert(node_spec(ss, gs0, i as int, offx, offy, placed, dpi, *m)
                    == Err::<(Seq<Geometry>, i32, i32), LayoutError>(e)) by {
        reveal_with_fuel(node_spec, 1); reveal_with_fuel(size_children_spec, 1); reveal_with_fuel(place_children_spec, 1);
    };
            }
            return Err(e);
        },
    };
    if placed && matches!(pos, Position::Relative) {
        let cg = tree.get_geometry(i);
        tree.set_geometry(
            i,
            Geometry {
                dpi,
                width: bd.bw,
                height: bd.bh,
                content_width: bd.cw,
                content_height: bd.ch,
                bounding_width: bd.ow,
                bounding_height: bd.oh,
                ..cg
            },
        );
        proof {
            assert(node_spec(ss, gs0, i as int, offx, offy, placed, dpi, *m) == Ok::<
                (Seq<Geometry>, i32, i32),
                LayoutError,
            >((tree.geometries(), px, py))) by {
        reveal_with_fuel(node_spec, 1); reveal_with_fuel(size_children_spec, 1); reveal_with_fuel(place_children_spec, 1);
    };
        }
        Ok((px, py))
    } else {
        let nbx = match sub_chk(px, bd.mar.left) {
            Ok(v) => v,
            Err(e) => {
                proof {
                    assert(node_spec(ss, gs0, i as int, offx, offy, placed, dpi, *m)
                        == Err::<(Seq<Geometry>, i32, i32), LayoutError>(e)) by {
        reveal_with_fuel(node_spec, 1); reveal_with_fuel(size_children_spec, 1); reveal_with_fuel(place_children_spec, 1);
    };
                }
                return Err(e);
            },
        };
        let nby = match sub_chk(py, bd.mar.bottom) {
            Ok(v) => v,
            Err(e) => {
                proof {
                    assert(node_spec(ss, gs0, i as int, offx, offy, placed, dpi, *m)
                        == Err::<(Seq<Geometry>, i32, i32), LayoutError>(e)) by {
        reveal_with_fuel(node_spec, 1); reveal_with_fuel(size_children_spec, 1); reveal_with_fuel(place_children_spec, 1);
    };
                }
                return Err(e);
            },
        };
        tree.set_geometry(
            i,
            Geometry {
                dpi,
                x: px,
                y: py,
                content_x: cx,
                content_y: cy,
                bounding_x: nbx,
                bounding_y: nby,
                width: bd.bw,
                height: bd.bh,
                content_width: bd.cw,
                content_height: bd.ch,
                bounding_width: bd.ow,
                bounding_height: bd.oh,
            },
        );
        proof {
            assert(node_spec(ss, gs0, i as int, offx, offy, placed, dpi, *m) == Ok::<
                (Seq<Geometry>, i32, i32),
                LayoutError,
            >((tree.geometries(), px, py))) by {
        reveal_with_fuel(node_spec, 1); reveal_with_fuel(size_children_spec, 1); reveal_with_fuel(place_children_spec, 1);
    };
        }
        Ok((px, py))
    }
}

impl UiElementState {
    /// One full layout pass over the subtree rooted at `elem`: propagates
    /// the scale, sizes every element bottom-up from literal styles,
    /// measured text and accumulated child content, and positions the
    /// subtree top-down, all in one depth-first walk. The whole pass is a
    /// pure function of the styles, the structure, the scale and the
    /// measurer, stated by `node_spec`; on failure the error says which
    /// configuration defect or overflow stopped it.
    pub fn compute<M: TextMeasure>(tree: &mut UiTree, elem: usize, dpi: i32, measurer: &M) -> (r:
        Result<(), LayoutError>)
        requires
            old(tree).wf(),
            elem < old(tree).infos().len(),
        ensures
            final(tree).infos() =~= old(tree).infos(),
            final(tree).wf(),
            (match r {
                Ok(()) => node_spec(
                    old(tree).infos(),
                    old(tree).geometries(),
                    elem as int,
                    0i32,
                    0i32,
                    false,
                    dpi,
                    *measurer,
                ) matches Ok((g, px, py)) && final(tree).geometries() =~= g,
                Err(e) => node_spec(
                    old(tree).infos(),
                    old(tree).geometries(),
                    elem as int,
                    0i32,
                    0i32,
                    false,
                    dpi,
                    *measurer,
                ) == Err::<(Seq<Geometry>, i32, i32), LayoutError>(e),
            }),
    {
        match compute_node(tree, elem, 0, 0, false, dpi, measurer) {
            Ok(_) => Ok(()),
            Err(e) => Err(e),
        }
    }
}

} // verus!
