//! Laws of the layout engine, stated and proved once for all inputs.

use vstd::prelude::*;

use crate::ui::elements::NodeInfo;
use crate::ui::resolve::{
    resolve_field_spec, resolve_int_spec, FieldSlot, IntField, IntProp,
};
use crate::ui::styles::{LayoutField, StyleError};

verus! {

/// Clamp law, absent half: a layout field whose value resolves to nothing
/// resolves to nothing as a whole, whatever its bounds resolve to.
pub proof fn lemma_clamp_unset(
    ss: Seq<NodeInfo>,
    fld: LayoutField<i32>,
    f: IntField,
    parent: Option<int>,
    dpi: int,
    fuel: nat,
)
    requires
        resolve_int_spec(ss, fld.value, IntProp::Slot(f, FieldSlot::Value), parent, dpi, fuel)
            == Ok::<Option<i32>, StyleError>(None),
        resolve_int_spec(ss, fld.min, IntProp::Slot(f, FieldSlot::Min), parent, dpi, fuel)
            is Ok,
        resolve_int_spec(ss, fld.max, IntProp::Slot(f, FieldSlot::Max), parent, dpi, fuel)
            is Ok,
    ensures
        resolve_field_spec(ss, fld, f, parent, dpi, fuel) == Ok::<Option<i32>, StyleError>(
            None,
        ),
{
    reveal(resolve_field_spec);
}

/// Clamp law, bounded half: when both bounds resolve and are ordered, the
/// field resolves to a value between them.
pub proof fn lemma_clamp_bounds(
    ss: Seq<NodeInfo>,
    fld: LayoutField<i32>,
    f: IntField,
    parent: Option<int>,
    dpi: int,
    fuel: nat,
    v: i32,
    lo: i32,
    hi: i32,
)
    requires
        resolve_int_spec(ss, fld.value, IntProp::Slot(f, FieldSlot::Value), parent, dpi, fuel)
            == Ok::<Option<i32>, StyleError>(Some(v)),
        resolve_int_spec(ss, fld.min, IntProp::Slot(f, FieldSlot::Min), parent, dpi, fuel)
            == Ok::<Option<i32>, StyleError>(Some(lo)),
        resolve_int_spec(ss, fld.max, IntProp::Slot(f, FieldSlot::Max), parent, dpi, fuel)
            == Ok::<Option<i32>, StyleError>(Some(hi)),
        lo <= hi,
    ensures
        resolve_field_spec(ss, fld, f, parent, dpi, fuel) matches Ok(r) && r matches Some(rv)
            && lo <= rv <= hi,
{
    reveal(resolve_field_spec);
}

} // verus!

use crate::ui::elements::{
    box_dims_spec, node_spec, place_children_spec, pre_sizing_spec, size_children_spec,
    Geometry, LayoutError, PreSizing, TextMeasure,
};
use crate::ui::resolve::{sides_of_spec, ResolvedSides, SideKind};

verus! {

/// Auto-size monotonicity at the sizing arithmetic: with the same styles,
/// a larger occupied extent never yields a smaller content extent for an
/// auto-sized dimension, and never changes an explicitly sized one.
pub proof fn lemma_auto_size_monotone(
    ss: Seq<NodeInfo>,
    i: int,
    pre: PreSizing,
    occw1: i32,
    occh1: i32,
    occw2: i32,
    occh2: i32,
    dpi: int,
)
    requires
        occw1 <= occw2,
        occh1 <= occh2,
        box_dims_spec(ss, i, pre, occw1, occh1, dpi) is Ok,
        box_dims_spec(ss, i, pre, occw2, occh2, dpi) is Ok,
    ensures
        box_dims_spec(ss, i, pre, occw1, occh1, dpi) matches Ok(b1) && box_dims_spec(
            ss,
            i,
            pre,
            occw2,
            occh2,
            dpi,
        ) matches Ok(b2) && b1.cw <= b2.cw && b1.ch <= b2.ch,
{
    reveal(box_dims_spec);
}

/// Accumulation monotonicity at one step: adding a larger bounding size
/// along the flow axis, or maximising with a larger one across it, never
/// shrinks the occupied extents.
pub proof fn lemma_accumulate_monotone(occ1: i32, occ2: i32, b1: i32, b2: i32)
    requires
        occ1 <= occ2,
        b1 <= b2,
        i32::MIN <= occ1 + b1,
        occ2 + b2 <= i32::MAX,
    ensures
        occ1 + b1 <= occ2 + b2,
        (if b1 > occ1 {
            b1
        } else {
            occ1
        }) <= (if b2 > occ2 {
            b2
        } else {
            occ2
        }),
{
}

} // verus!

use crate::ui::elements::ChildView;
use crate::ui::styles::{ChildAlign, Direction};

verus! {

/// A layout pass never adds or removes elements: the geometry sequence a
/// sizing fold returns is as long as the one it was given.
pub proof fn lemma_size_children_len<M: TextMeasure>(
    ss: Seq<NodeInfo>,
    gs: Seq<Geometry>,
    i: int,
    k: int,
    dir: Direction,
    occw: i32,
    occh: i32,
    prelims: Seq<(i32, i32)>,
    dpi: i32,
    m: M,
)
    requires
        gs.len() == ss.len(),
    ensures
        size_children_spec(ss, gs, i, k, dir, occw, occh, prelims, dpi, m) matches Ok(t)
            ==> t.0.len() == gs.len(),
    decreases ss.len() - i, 1int, ss[i].children.len() - k,
{
    reveal_with_fuel(node_spec, 1);
    reveal_with_fuel(size_children_spec, 1);
    reveal_with_fuel(place_children_spec, 1);
    if 0 <= i < ss.len() && 0 <= k < ss[i].children.len() {
        match ss[i].children[k] {
            ChildView::Elem { idx } => {
                if i < idx < ss.len() {
                    let offs: (i32, i32) = if dir is Horizontal {
                        (occw, 0i32)
                    } else {
                        (0i32, occh)
                    };
                    lemma_node_len(ss, gs, idx, offs.0, offs.1, true, dpi, m);
                    match node_spec(ss, gs, idx, offs.0, offs.1, true, dpi, m) {
                        Ok((gs1, px, py)) => {
                            let bw = gs1[idx].bounding_width;
                            let bh = gs1[idx].bounding_height;
                            let acc: Result<(i32, i32), LayoutError> = if dir is Horizontal {
                                match crate::ui::elements::chk(occw + bw) {
                                    Err(e) => Err(e),
                                    Ok(w2) => Ok((w2, if bh > occh { bh } else { occh })),
                                }
                            } else {
                                match crate::ui::elements::chk(occh + bh) {
                                    Err(e) => Err(e),
                                    Ok(h2) => Ok(((if bw > occw { bw } else { occw }), h2)),
                                }
                            };
                            match acc {
                                Ok((w2, h2)) => {
                                    lemma_size_children_len(
                                        ss,
                                        gs1,
                                        i,
                                        k + 1,
                                        dir,
                                        w2,
                                        h2,
                                        prelims.push((px, py)),
                                        dpi,
                                        m,
                                    );
                                },
                                Err(e) => {},
                            }
                        },
                        Err(e) => {},
                    }
                }
            },
            ChildView::Text { s } => {
                match crate::ui::resolve::text_fit_of_spec(ss, i) {
                    Ok(fit) => {
                        if fit is ExpandParent {
                            match crate::ui::resolve::text_size_of_spec(ss, i, dpi as int) {
                                Ok(sz) => {
                                    match crate::ui::resolve::font_of_spec(ss, i) {
                                        Ok(font) => {
                                            let d = match m.measure_spec(s, font, sz) {
                                                Some(d) => d,
                                                None => crate::ui::styles::Dimension {
                                                    width: 0i32,
                                                    height: 0i32,
                                                },
                                            };
                                            let acc: Result<(i32, i32), LayoutError> = if dir
                                                is Horizontal {
                                                match crate::ui::elements::chk(occw + d.width) {
                                                    Err(e) => Err(e),
                                                    Ok(w2) => Ok(
                                                        (
                                                            w2,
                                                            if d.height > occh {
                                                                d.height
                                                            } else {
                                                                occh
                                                            },
                                                        ),
                                                    ),
                                                }
                                            } else {
                                                match crate::ui::elements::chk(occh + d.height) {
                                                    Err(e) => Err(e),
                                                    Ok(h2) => Ok(
                                                        (
                                                            (if d.width > occw {
                                                                d.width
                                                            } else {
                                                                occw
                                                            }),
                                                            h2,
                                                        ),
                                                    ),
                                                }
                                            };
                                            match acc {
                                                Ok((w2, h2)) => {
                                                    lemma_size_children_len(
                                                        ss,
                                                        gs,
                                                        i,
                                                        k + 1,
                                                        dir,
                                                        w2,
                                                        h2,
                                                        prelims.push((0i32, 0i32)),
                                                        dpi,
                                                        m,
                                                    );
                                                },
                                                Err(e) => {},
                                            }
                                        },
                                        Err(e) => {},
                                    }
                                },
                                Err(e) => {},
                            }
                        } else {
                            lemma_size_children_len(
                                ss,
                                gs,
                                i,
                                k + 1,
                                dir,
                                occw,
                                occh,
                                prelims.push((0i32, 0i32)),
                                dpi,
                                m,
                            );
                        }
                    },
                    Err(e) => {},
                }
            },
        }
    }
}

/// A placement fold keeps the geometry sequence's length, and touches only
/// positions: every entry keeps its sizes and scale.
pub proof fn lemma_place_children_len(
    ss: Seq<NodeInfo>,
    gs: Seq<Geometry>,
    i: int,
    k: int,
    dir: Direction,
    align: ChildAlign,
    cx: i32,
    cy: i32,
    cw: i32,
    ch: i32,
    prelims: Seq<(i32, i32)>,
    dpi: i32,
)
    requires
        gs.len() == ss.len(),
    ensures
        place_children_spec(ss, gs, i, k, dir, align, cx, cy, cw, ch, prelims, dpi) matches Ok(
            g,
        ) ==> g.len() == gs.len() && (forall|j: int|
            0 <= j < gs.len() ==> sizes_eq(#[trigger] g[j], gs[j])),
    decreases ss.len() - i, 1int, ss[i].children.len() - k,
{
    reveal_with_fuel(node_spec, 1);
    reveal_with_fuel(size_children_spec, 1);
    reveal_with_fuel(place_children_spec, 1);
    if 0 <= i < ss.len() && 0 <= k < ss[i].children.len() {
        match ss[i].children[k] {
            ChildView::Text { s } => {
                lemma_place_children_len(ss, gs, i, k + 1, dir, align, cx, cy, cw, ch, prelims, dpi);
            },
            ChildView::Elem { idx } => {
                if i < idx < ss.len() {
                    match place_children_spec(ss, gs, i, k, dir, align, cx, cy, cw, ch, prelims, dpi) {
                        Ok(gout) => {
                            match crate::ui::resolve::position_of_spec(ss, idx) {
                                Ok(cpos) => {
                                    if cpos is Relative {
                                        let p: (i32, i32) = if 0 <= k < prelims.len() {
                                            prelims[k]
                                        } else {
                                            (0i32, 0i32)
                                        };
                                        match crate::ui::resolve::origin_of_spec(ss, idx) {
                                            Ok(corig) => {
                                                let ccw = gs[idx].content_width;
                                                let cch = gs[idx].content_height;
                                                let rxy: Result<(i32, i32), LayoutError> = match dir {
                                                    Direction::Vertical => match crate::ui::elements::anchor_y_chk(corig, p.1, cch) {
                                                        Err(e) => Err(e),
                                                        Ok(ay) => match crate::ui::elements::chk(ay + cy) {
                                                            Err(e) => Err(e),
                                                            Ok(ncy) => match crate::ui::elements::align_base_chk(align, cx, cw, ccw) {
                                                                Err(e) => Err(e),
                                                                Ok(xb) => match crate::ui::elements::anchor_x_chk(corig, xb, ccw) {
                                                                    Err(e) => Err(e),
                                                                    Ok(ncx) => Ok((ncx, ncy)),
                                                                },
                                                            },
                                                        },
                                                    },
                                                    Direction::Horizontal => match crate::ui::elements::anchor_x_chk(corig, p.0, ccw) {
                                                        Err(e) => Err(e),
                                                        Ok(ax) => match crate::ui::elements::chk(ax + cx) {
                                                            Err(e) => Err(e),
                                                            Ok(ncx) => match crate::ui::elements::align_base_chk(align, cy, ch, cch) {
                                                                Err(e) => Err(e),
                                                                Ok(yb) => match crate::ui::elements::anchor_y_chk(corig, yb, cch) {
                                                                    Err(e) => Err(e),
                                                                    Ok(ncy) => Ok((ncx, ncy)),
                                                                },
                                                            },
                                                        },
                                                    },
                                                };
                                                match rxy {
                                                    Ok((ncx, ncy)) => {
                                                        match sides_of_spec(ss, idx, SideKind::Padding, dpi as int) {
                                                            Ok(cpad) => match sides_of_spec(ss, idx, SideKind::Margin, dpi as int) {
                                                                Ok(cmar) => match crate::ui::elements::chk(ncx - cpad.left) {
                                                                    Ok(nx) => match crate::ui::elements::chk(ncy - cpad.bottom) {
                                                                        Ok(ny) => match crate::ui::elements::chk(nx - cmar.left) {
                                                                            Ok(nbx) => match crate::ui::elements::chk(ny - cmar.bottom) {
                                                                                Ok(nby) => {
                                                                                    let g2 = Geometry {
                                                                                        content_x: ncx,
                                                                                        content_y: ncy,
                                                                                        x: nx,
                                                                                        y: ny,
                                                                                        bounding_x: nbx,
                                                                                        bounding_y: nby,
                                                                                        ..gs[idx]
                                                                                    };
                                                                                    assert(gs.update(idx, g2).len() == gs.len());
                                                                                    lemma_place_children_len(ss, gs.update(idx, g2), i, k + 1, dir, align, cx, cy, cw, ch, prelims, dpi);
                                                                                },
                                                                                Err(e) => {},
                                                                            },
                                                                            Err(e) => {},
                                                                        },
                                                                        Err(e) => {},
                                                                    },
                                                                    Err(e) => {},
                                                                },
                                                                Err(e) => {},
                                                            },
                                                            Err(e) => {},
                                                        }
                                                    },
                                                    Err(e) => {},
                                                }
                                            },
                                            Err(e) => {},
                                        }
                                    } else {
                                        lemma_place_children_len(ss, gs, i, k + 1, dir, align, cx, cy, cw, ch, prelims, dpi);
                                    }
                                },
                                Err(e) => {},
                            }
                        },
                        Err(e) => {},
                    }
                }
            },
        }
    }
}

/// One layout pass keeps the geometry sequence's length.
pub proof fn lemma_node_len<M: TextMeasure>(
    ss: Seq<NodeInfo>,
    gs: Seq<Geometry>,
    i: int,
    offx: i32,
    offy: i32,
    placed: bool,
    dpi: i32,
    m: M,
)
    requires
        gs.len() == ss.len(),
    ensures
        node_spec(ss, gs, i, offx, offy, placed, dpi, m) matches Ok(t) ==> t.0.len()
            == gs.len(),
    decreases ss.len() - i, 2int, 0int,
{
    reveal_with_fuel(node_spec, 1);
    reveal_with_fuel(size_children_spec, 1);
    reveal_with_fuel(place_children_spec, 1);
    if 0 <= i < ss.len() {
        match pre_sizing_spec(ss, i, dpi as int) {
            Ok(pre) => {
                lemma_size_children_len(
                    ss,
                    gs,
                    i,
                    0,
                    pre.dir,
                    0i32,
                    0i32,
                    Seq::<(i32, i32)>::empty(),
                    dpi,
                    m,
                );
                match size_children_spec(
                    ss,
                    gs,
                    i,
                    0,
                    pre.dir,
                    0i32,
                    0i32,
                    Seq::<(i32, i32)>::empty(),
                    dpi,
                    m,
                ) {
                    Ok((gs1, occw, occh, prelims)) => {
                        match box_dims_spec(ss, i, pre, occw, occh, dpi as int) {
                            Ok(bd) => {
                                match crate::ui::elements::own_position_spec(
                                    ss,
                                    i,
                                    pre.orig,
                                    bd.cw,
                                    bd.ch,
                                    offx,
                                    offy,
                                    dpi as int,
                                ) {
                                    Ok((pos, cx, cy)) => {
                                        lemma_place_children_len(
                                            ss,
                                            gs1,
                                            i,
                                            0,
                                            pre.dir,
                                            pre.align,
                                            cx,
                                            cy,
                                            bd.cw,
                                            bd.ch,
                                            prelims,
                                            dpi,
                                        );
                                    },
                                    Err(e) => {},
                                }
                            },
                            Err(e) => {},
                        }
                    },
                    Err(e) => {},
                }
            },
            Err(e) => {},
        }
    }
}

} // verus!

verus! {

/// Box composition: the geometry a pass writes for the element it lays
/// out satisfies `width == content_width + padding.left + padding.right`
/// and `bounding_width == width + margin.left + margin.right`, and the
/// same for heights with the bottom and top sides.
pub proof fn lemma_box_composition<M: TextMeasure>(
    ss: Seq<NodeInfo>,
    gs: Seq<Geometry>,
    i: int,
    offx: i32,
    offy: i32,
    placed: bool,
    dpi: i32,
    m: M,
)
    requires
        gs.len() == ss.len(),
        node_spec(ss, gs, i, offx, offy, placed, dpi, m) is Ok,
    ensures
        node_spec(ss, gs, i, offx, offy, placed, dpi, m) matches Ok((g, px, py))
            && sides_of_spec(ss, i, SideKind::Padding, dpi as int) matches Ok(pad)
            && sides_of_spec(ss, i, SideKind::Margin, dpi as int) matches Ok(mar)
            && g[i].width == g[i].content_width + pad.left + pad.right
            && g[i].height == g[i].content_height + pad.top + pad.bottom
            && g[i].bounding_width == g[i].width + mar.left + mar.right
            && g[i].bounding_height == g[i].height + mar.top + mar.bottom,
{
    reveal_with_fuel(node_spec, 1);
    reveal_with_fuel(size_children_spec, 1);
    reveal_with_fuel(place_children_spec, 1);
    reveal(box_dims_spec);
    match pre_sizing_spec(ss, i, dpi as int) {
        Ok(pre) => {
            lemma_size_children_len(
                ss,
                gs,
                i,
                0,
                pre.dir,
                0i32,
                0i32,
                Seq::<(i32, i32)>::empty(),
                dpi,
                m,
            );
            match size_children_spec(
                ss,
                gs,
                i,
                0,
                pre.dir,
                0i32,
                0i32,
                Seq::<(i32, i32)>::empty(),
                dpi,
                m,
            ) {
                Ok((gs1, occw, occh, prelims)) => {
                    match box_dims_spec(ss, i, pre, occw, occh, dpi as int) {
                        Ok(bd) => {
                            match crate::ui::elements::own_position_spec(
                                ss,
                                i,
                                pre.orig,
                                bd.cw,
                                bd.ch,
                                offx,
                                offy,
                                dpi as int,
                            ) {
                                Ok((pos, cx, cy)) => {
                                    lemma_place_children_len(
                                        ss,
                                        gs1,
                                        i,
                                        0,
                                        pre.dir,
                                        pre.align,
                                        cx,
                                        cy,
                                        bd.cw,
                                        bd.ch,
                                        prelims,
                                        dpi,
                                    );
                                },
                                Err(e) => {},
                            }
                        },
                        Err(e) => {},
                    }
                },
                Err(e) => {},
            }
        },
        Err(e) => {},
    }
}

} // verus!

verus! {

/// Equality of the size half of two geometries: the scale and the content,
/// box and bounding extents.
pub open spec fn sizes_eq(a: Geometry, b: Geometry) -> bool {
    a.dpi == b.dpi && a.width == b.width && a.height == b.height && a.content_width
        == b.content_width && a.content_height == b.content_height && a.bounding_width
        == b.bounding_width && a.bounding_height == b.bounding_height
}

/// Equality of the position half of two geometries.
pub open spec fn pos_eq(a: Geometry, b: Geometry) -> bool {
    a.x == b.x && a.y == b.y && a.content_x == b.content_x && a.content_y == b.content_y
        && a.bounding_x == b.bounding_x && a.bounding_y == b.bounding_y
}

/// How one entry of two parallel runs may relate: fully equal, both left
/// untouched, or sized equally while still carrying the positions the runs
/// started from.
pub open spec fn entry_rel(oa: Geometry, ob: Geometry, ga: Geometry, gb: Geometry) -> bool {
    ||| oa == ob
    ||| (oa == ga && ob == gb)
    ||| (sizes_eq(oa, ob) && pos_eq(oa, ga) && pos_eq(ob, gb))
}

} // verus!

verus! {

/// The entry relation composes across two stages of one pass.
proof fn lemma_entry_rel_trans(
    oa: Geometry,
    ob: Geometry,
    ma: Geometry,
    mb: Geometry,
    ga: Geometry,
    gb: Geometry,
)
    requires
        entry_rel(oa, ob, ma, mb),
        entry_rel(ma, mb, ga, gb),
    ensures
        entry_rel(oa, ob, ga, gb),
{
}

/// Parallel sizing folds from the same styles and accumulators relate
/// entry by entry, whatever geometries the two runs started from: the
/// occupied extents and preliminary corners agree, entries at or before
/// the parent are untouched, and every processed element child gets equal
/// sizes.
#[verifier::rlimit(100)]
#[verifier::spinoff_prover]
proof fn lemma_size_children_independent<M: TextMeasure>(
    ss: Seq<NodeInfo>,
    ga: Seq<Geometry>,
    gb: Seq<Geometry>,
    i: int,
    k: int,
    dir: Direction,
    occw: i32,
    occh: i32,
    prelims: Seq<(i32, i32)>,
    dpi: i32,
    m: M,
)
    requires
        0 <= k,
        ga.len() == ss.len(),
        gb.len() == ss.len(),
    ensures
        size_runs_agree(
            size_children_spec(ss, ga, i, k, dir, occw, occh, prelims, dpi, m),
            size_children_spec(ss, gb, i, k, dir, occw, occh, prelims, dpi, m),
            ss,
            ga,
            gb,
            i,
            k,
        ),
    decreases ss.len() - i, 1int, ss[i].children.len() - k,
{
    if 0 <= i < ss.len() && 0 <= k < ss[i].children.len() {
        match ss[i].children[k] {
            ChildView::Elem { idx } => {
                if i < idx < ss.len() {
                    let offs: (i32, i32) = if dir is Horizontal {
                        (occw, 0i32)
                    } else {
                        (0i32, occh)
                    };
                    lemma_node_independent(ss, ga, gb, idx, offs.0, offs.1, true, dpi, m);
                    lemma_node_len(ss, ga, idx, offs.0, offs.1, true, dpi, m);
                    lemma_node_len(ss, gb, idx, offs.0, offs.1, true, dpi, m);
                    match (
                        node_spec(ss, ga, idx, offs.0, offs.1, true, dpi, m),
                        node_spec(ss, gb, idx, offs.0, offs.1, true, dpi, m),
                    ) {
                        (Ok((ga1, pxa, pya)), Ok((gb1, pxb, pyb))) => {
                            let bw = ga1[idx].bounding_width;
                            let bh = ga1[idx].bounding_height;
                            let acc: Result<(i32, i32), LayoutError> = if dir is Horizontal {
                                match crate::ui::elements::chk(occw + bw) {
                                    Err(e) => Err(e),
                                    Ok(w2) => Ok((w2, if bh > occh { bh } else { occh })),
                                }
                            } else {
                                match crate::ui::elements::chk(occh + bh) {
                                    Err(e) => Err(e),
                                    Ok(h2) => Ok(((if bw > occw { bw } else { occw }), h2)),
                                }
                            };
                            match acc {
                                Ok((w2, h2)) => {
                                    lemma_size_children_independent(
                                        ss,
                                        ga1,
                                        gb1,
                                        i,
                                        k + 1,
                                        dir,
                                        w2,
                                        h2,
                                        prelims.push((pxa, pya)),
                                        dpi,
                                        m,
                                    );
                                    assert(size_children_spec(ss, ga, i, k, dir, occw, occh, prelims, dpi, m)
                                        == size_children_spec(ss, ga1, i, k + 1, dir, w2, h2, prelims.push((pxa, pya)), dpi, m)) by {
        reveal_with_fuel(node_spec, 1); reveal_with_fuel(size_children_spec, 1); reveal_with_fuel(place_children_spec, 1);
    };
                                    assert(size_children_spec(ss, gb, i, k, dir, occw, occh, prelims, dpi, m)
                                        == size_children_spec(ss, gb1, i, k + 1, dir, w2, h2, prelims.push((pxa, pya)), dpi, m)) by {
        reveal_with_fuel(node_spec, 1); reveal_with_fuel(size_children_spec, 1); reveal_with_fuel(place_children_spec, 1);
    };
                                    match (
                                        size_children_spec(
                                            ss, ga1, i, k + 1, dir, w2, h2,
                                            prelims.push((pxa, pya)), dpi, m,
                                        ),
                                        size_children_spec(
                                            ss, gb1, i, k + 1, dir, w2, h2,
                                            prelims.push((pxa, pya)), dpi, m,
                                        ),
                                    ) {
                                        (Ok((oa, wa, ha, pa)), Ok((ob, wb, hb, pb))) => {
                                            assert forall|j: int| 0 <= j < ss.len() implies
                                                entry_rel(#[trigger] oa[j], ob[j], ga[j], gb[j]) by {
                                                lemma_entry_rel_trans(
                                                    oa[j], ob[j], ga1[j], gb1[j], ga[j], gb[j],
                                                );
                                            }
                                            assert forall|j: int| 0 <= j <= i && j < ss.len() implies
                                                (oa[j]) == ga[j] && ob[j] == gb[j] by {}
                                            assert forall|k2: int|
                                                k <= k2 < ss[i].children.len() implies ((#[trigger] ss[i].children[k2])
                                                    matches ChildView::Elem { idx: idx2 } ==> (0 <= idx2 < ss.len()
                                                    ==> sizes_eq(oa[idx2], ob[idx2]))) by {
                                                if k2 == k {
                                                    assert(entry_rel(oa[idx], ob[idx], ga1[idx], gb1[idx]));
                                                    assert(sizes_eq(ga1[idx], gb1[idx]));
                                                }
                                            }
                                            assert(size_runs_agree(
                                                size_children_spec(ss, ga, i, k, dir, occw, occh, prelims, dpi, m),
                                                size_children_spec(ss, gb, i, k, dir, occw, occh, prelims, dpi, m),
                                                ss, ga, gb, i, k,
                                            )) by {
        reveal_with_fuel(node_spec, 1); reveal_with_fuel(size_children_spec, 1); reveal_with_fuel(place_children_spec, 1);
    };
                                        },
                                        _ => { assert(size_runs_agree(size_children_spec(ss, ga, i, k, dir, occw, occh, prelims, dpi, m), size_children_spec(ss, gb, i, k, dir, occw, occh, prelims, dpi, m), ss, ga, gb, i, k)) by {
        reveal_with_fuel(node_spec, 1); reveal_with_fuel(size_children_spec, 1); reveal_with_fuel(place_children_spec, 1);
    }; },
                                    }
                                },
                                Err(e) => { assert(size_runs_agree(size_children_spec(ss, ga, i, k, dir, occw, occh, prelims, dpi, m), size_children_spec(ss, gb, i, k, dir, occw, occh, prelims, dpi, m), ss, ga, gb, i, k)) by {
        reveal_with_fuel(node_spec, 1); reveal_with_fuel(size_children_spec, 1); reveal_with_fuel(place_children_spec, 1);
    }; },
                            }
                        },
                        _ => { assert(size_runs_agree(size_children_spec(ss, ga, i, k, dir, occw, occh, prelims, dpi, m), size_children_spec(ss, gb, i, k, dir, occw, occh, prelims, dpi, m), ss, ga, gb, i, k)) by {
        reveal_with_fuel(node_spec, 1); reveal_with_fuel(size_children_spec, 1); reveal_with_fuel(place_children_spec, 1);
    }; },
                    }
                } else {
                    assert(size_runs_agree(size_children_spec(ss, ga, i, k, dir, occw, occh, prelims, dpi, m), size_children_spec(ss, gb, i, k, dir, occw, occh, prelims, dpi, m), ss, ga, gb, i, k)) by {
                    reveal_with_fuel(node_spec, 1); reveal_with_fuel(size_children_spec, 1); reveal_with_fuel(place_children_spec, 1);
                }; 
                }
            },
            ChildView::Text { s } => {
                match crate::ui::resolve::text_fit_of_spec(ss, i) {
                    Ok(fit) => {
                        if fit is ExpandParent {
                            match crate::ui::resolve::text_size_of_spec(ss, i, dpi as int) {
                                Ok(sz) => {
                                    match crate::ui::resolve::font_of_spec(ss, i) {
                                        Ok(font) => {
                                            let d = match m.measure_spec(s, font, sz) {
                                                Some(d) => d,
                                                None => crate::ui::styles::Dimension {
                                                    width: 0i32,
                                                    height: 0i32,
                                                },
                                            };
                                            let acc: Result<(i32, i32), LayoutError> = if dir
                                                is Horizontal {
                                                match crate::ui::elements::chk(occw + d.width) {
                                                    Err(e) => Err(e),
                                                    Ok(w2) => Ok(
                                                        (
                                                            w2,
                                                            if d.height > occh {
                                                                d.height
                                                            } else {
                                                                occh
                                                            },
                                                        ),
                                                    ),
                                                }
                                            } else {
                                                match crate::ui::elements::chk(occh + d.height) {
                                                    Err(e) => Err(e),
                                                    Ok(h2) => Ok(
                                                        (
                                                            (if d.width > occw {
                                                                d.width
                                                            } else {
                                                                occw
                                                            }),
                                                            h2,
                                                        ),
                                                    ),
                                                }
                                            };
                                            match acc {
                                                Ok((w2, h2)) => {
                                                    lemma_size_children_independent(
                                                        ss,
                                                        ga,
                                                        gb,
                                                        i,
                                                        k + 1,
                                                        dir,
                                                        w2,
                                                        h2,
                                                        prelims.push((0i32, 0i32)),
                                                        dpi,
                                                        m,
                                                    );
                                                
                                                    assert(size_runs_agree(size_children_spec(ss, ga, i, k, dir, occw, occh, prelims, dpi, m), size_children_spec(ss, gb, i, k, dir, occw, occh, prelims, dpi, m), ss, ga, gb, i, k)) by {
                                                        reveal_with_fuel(node_spec, 1); reveal_with_fuel(size_children_spec, 1); reveal_with_fuel(place_children_spec, 1);
                                                    };
                                                },
                                                Err(e) => { assert(size_runs_agree(size_children_spec(ss, ga, i, k, dir, occw, occh, prelims, dpi, m), size_children_spec(ss, gb, i, k, dir, occw, occh, prelims, dpi, m), ss, ga, gb, i, k)) by {
        reveal_with_fuel(node_spec, 1); reveal_with_fuel(size_children_spec, 1); reveal_with_fuel(place_children_spec, 1);
    }; },
                                            }
                                        },
                                        Err(e) => { assert(size_runs_agree(size_children_spec(ss, ga, i, k, dir, occw, occh, prelims, dpi, m), size_children_spec(ss, gb, i, k, dir, occw, occh, prelims, dpi, m), ss, ga, gb, i, k)) by {
        reveal_with_fuel(node_spec, 1); reveal_with_fuel(size_children_spec, 1); reveal_with_fuel(place_children_spec, 1);
    }; },
                                    }
                                },
                                Err(e) => { assert(size_runs_agree(size_children_spec(ss, ga, i, k, dir, occw, occh, prelims, dpi, m), size_children_spec(ss, gb, i, k, dir, occw, occh, prelims, dpi, m), ss, ga, gb, i, k)) by {
        reveal_with_fuel(node_spec, 1); reveal_with_fuel(size_children_spec, 1); reveal_with_fuel(place_children_spec, 1);
    }; },
                            }
                        } else {
                            lemma_size_children_independent(
                                ss,
                                ga,
                                gb,
                                i,
                                k + 1,
                                dir,
                                occw,
                                occh,
                                prelims.push((0i32, 0i32)),
                                dpi,
                                m,
                            );
                            assert(size_runs_agree(
                                size_children_spec(ss, ga, i, k, dir, occw, occh, prelims, dpi, m),
                                size_children_spec(ss, gb, i, k, dir, occw, occh, prelims, dpi, m),
                                ss, ga, gb, i, k,
                            )) by {
        reveal_with_fuel(node_spec, 1); reveal_with_fuel(size_children_spec, 1); reveal_with_fuel(place_children_spec, 1);
    };
                        }
                    },
                    Err(e) => { assert(size_runs_agree(size_children_spec(ss, ga, i, k, dir, occw, occh, prelims, dpi, m), size_children_spec(ss, gb, i, k, dir, occw, occh, prelims, dpi, m), ss, ga, gb, i, k)) by {
        reveal_with_fuel(node_spec, 1); reveal_with_fuel(size_children_spec, 1); reveal_with_fuel(place_children_spec, 1);
    }; },
                }
            },
        }
    } else {
        assert(size_runs_agree(size_children_spec(ss, ga, i, k, dir, occw, occh, prelims, dpi, m), size_children_spec(ss, gb, i, k, dir, occw, occh, prelims, dpi, m), ss, ga, gb, i, k)) by {
        reveal_with_fuel(node_spec, 1); reveal_with_fuel(size_children_spec, 1); reveal_with_fuel(place_children_spec, 1);
    }; 
    }
}

} // verus!

verus! {



/// Two sizing runs agree: same outcome, equal accumulators and
/// preliminary corners, entries related one by one, the parent and
/// everything before it untouched, and every remaining element child
/// sized equally.
pub open spec fn size_runs_agree(
    ra: Result<(Seq<Geometry>, i32, i32, Seq<(i32, i32)>), LayoutError>,
    rb: Result<(Seq<Geometry>, i32, i32, Seq<(i32, i32)>), LayoutError>,
    ss: Seq<NodeInfo>,
    ga: Seq<Geometry>,
    gb: Seq<Geometry>,
    i: int,
    k: int,
) -> bool {
    &&& (ra is Ok <==> rb is Ok)
    &&& (ra matches Err(ea) ==> (rb matches Err(eb) ==> ea == eb))
    &&& (ra matches Ok((oa, wa, ha, pa)) ==> (rb matches Ok((ob, wb, hb, pb)) ==> (wa == wb
        && ha == hb && pa == pb && (forall|j: int|
        0 <= j < ss.len() ==> entry_rel(#[trigger] oa[j], ob[j], ga[j], gb[j])) && (forall|
        j: int,
    |
        0 <= j <= i && j < ss.len() ==> (#[trigger] oa[j]) == ga[j] && ob[j] == gb[j]) && (
    forall|k2: int|
        k <= k2 < ss[i].children.len() ==> ((#[trigger] ss[i].children[k2])
            matches ChildView::Elem { idx } ==> (0 <= idx < ss.len() ==> sizes_eq(
            oa[idx],
            ob[idx],
        )))))))
}

/// Two layout passes agree: same outcome, equal preliminary corners,
/// entries related one by one, everything before the element untouched,
/// and the element itself sized equally.
pub open spec fn node_runs_agree(
    ra: Result<(Seq<Geometry>, i32, i32), LayoutError>,
    rb: Result<(Seq<Geometry>, i32, i32), LayoutError>,
    ss: Seq<NodeInfo>,
    ga: Seq<Geometry>,
    gb: Seq<Geometry>,
    i: int,
) -> bool {
    &&& (ra is Ok <==> rb is Ok)
    &&& (ra matches Err(ea) ==> (rb matches Err(eb) ==> ea == eb))
    &&& (ra matches Ok((oa, pxa, pya)) ==> (rb matches Ok((ob, pxb, pyb)) ==> (pxa == pxb
        && pya == pyb && (forall|j: int|
        0 <= j < ss.len() ==> entry_rel(#[trigger] oa[j], ob[j], ga[j], gb[j])) && (forall|
        j: int,
    |
        0 <= j < i ==> (#[trigger] oa[j]) == ga[j] && ob[j] == gb[j]) && 0 <= i < ss.len()
        && sizes_eq(oa[i], ob[i]))))
}

/// Two placement runs agree: same success, same error, and each entry
/// equal in both or untouched in both.
pub open spec fn place_runs_agree(
    ra: Result<Seq<Geometry>, LayoutError>,
    rb: Result<Seq<Geometry>, LayoutError>,
    ss: Seq<NodeInfo>,
    ga: Seq<Geometry>,
    gb: Seq<Geometry>,
    i: int,
) -> bool {
    &&& (ra is Ok <==> rb is Ok)
    &&& (ra matches Err(ea) ==> (rb matches Err(eb) ==> ea == eb))
    &&& (ra matches Ok(oa) ==> (rb matches Ok(ob) ==> ((forall|j: int|
        0 <= j < ss.len() ==> ((#[trigger] oa[j]) == ob[j] || (oa[j] == ga[j] && ob[j]
            == gb[j]))) && (forall|j: int|
        0 <= j <= i && j < ss.len() ==> (#[trigger] oa[j]) == ga[j] && ob[j] == gb[j]))))
}

/// Parallel placement folds relate entry by entry: each entry comes out
/// equal in both runs or is left as the runs found it, provided every
/// remaining element child has equal sizes in both runs.
#[verifier::rlimit(100)]
#[verifier::spinoff_prover]
proof fn lemma_place_children_independent(
    ss: Seq<NodeInfo>,
    ga: Seq<Geometry>,
    gb: Seq<Geometry>,
    i: int,
    k: int,
    dir: Direction,
    align: ChildAlign,
    cx: i32,
    cy: i32,
    cw: i32,
    ch: i32,
    prelims: Seq<(i32, i32)>,
    dpi: i32,
)
    requires
        ga.len() == ss.len(),
        gb.len() == ss.len(),
        forall|k2: int|
            k <= k2 < ss[i].children.len() ==> ((#[trigger] ss[i].children[k2])
                matches ChildView::Elem { idx } ==> (0 <= idx < ss.len() ==> sizes_eq(
                ga[idx],
                gb[idx],
            ))),
    ensures
        place_runs_agree(
            place_children_spec(ss, ga, i, k, dir, align, cx, cy, cw, ch, prelims, dpi),
            place_children_spec(ss, gb, i, k, dir, align, cx, cy, cw, ch, prelims, dpi),
            ss,
            ga,
            gb,
            i,
        ),
    decreases ss.len() - i, 1int, ss[i].children.len() - k,
{
    reveal_with_fuel(node_spec, 1);
    reveal_with_fuel(size_children_spec, 1);
    reveal_with_fuel(place_children_spec, 1);
    if 0 <= i < ss.len() && 0 <= k < ss[i].children.len() {
        match ss[i].children[k] {
            ChildView::Text { s } => {
                lemma_place_children_independent(
                    ss, ga, gb, i, k + 1, dir, align, cx, cy, cw, ch, prelims, dpi,
                );
                assert(place_runs_agree(place_children_spec(ss, ga, i, k, dir, align, cx, cy, cw, ch, prelims, dpi), place_children_spec(ss, gb, i, k, dir, align, cx, cy, cw, ch, prelims, dpi), ss, ga, gb, i));
            },
            ChildView::Elem { idx } => {
                if i < idx < ss.len() {
                    match crate::ui::resolve::position_of_spec(ss, idx) {
                        Ok(cpos) => {
                            if cpos is Relative {
                                let p: (i32, i32) = if 0 <= k < prelims.len() {
                                    prelims[k]
                                } else {
                                    (0i32, 0i32)
                                };
                                match crate::ui::resolve::origin_of_spec(ss, idx) {
                                    Ok(corig) => {
                                        let ccw = ga[idx].content_width;
                                        let cch = ga[idx].content_height;
                                        let rxy: Result<(i32, i32), LayoutError> = match dir {
                                            Direction::Vertical => match crate::ui::elements::anchor_y_chk(corig, p.1, cch) {
                                                Err(e) => Err(e),
                                                Ok(ay) => match crate::ui::elements::chk(ay + cy) {
                                                    Err(e) => Err(e),
                                                    Ok(ncy) => match crate::ui::elements::align_base_chk(align, cx, cw, ccw) {
                                                        Err(e) => Err(e),
                                                        Ok(xb) => match crate::ui::elements::anchor_x_chk(corig, xb, ccw) {
                                                            Err(e) => Err(e),
                                                            Ok(ncx) => Ok((ncx, ncy)),
                                                        },
                                                    },
                                                },
                                            },
                                            Direction::Horizontal => match crate::ui::elements::anchor_x_chk(corig, p.0, ccw) {
                                                Err(e) => Err(e),
                                                Ok(ax) => match crate::ui::elements::chk(ax + cx) {
                                                    Err(e) => Err(e),
                                                    Ok(ncx) => match crate::ui::elements::align_base_chk(align, cy, ch, cch) {
                                                        Err(e) => Err(e),
                                                        Ok(yb) => match crate::ui::elements::anchor_y_chk(corig, yb, cch) {
                                                            Err(e) => Err(e),
                                                            Ok(ncy) => Ok((ncx, ncy)),
                                                        },
                                                    },
                                                },
                                            },
                                        };
                                        match rxy {
                                            Ok((ncx, ncy)) => {
                                                match sides_of_spec(ss, idx, SideKind::Padding, dpi as int) {
                                                    Ok(cpad) => match sides_of_spec(ss, idx, SideKind::Margin, dpi as int) {
                                                        Ok(cmar) => match crate::ui::elements::chk(ncx - cpad.left) {
                                                            Ok(nx) => match crate::ui::elements::chk(ncy - cpad.bottom) {
                                                                Ok(ny) => match crate::ui::elements::chk(nx - cmar.left) {
                                                                    Ok(nbx) => match crate::ui::elements::chk(ny - cmar.bottom) {
                                                                        Ok(nby) => {
                                                                            let g2a = Geometry {
                                                                                content_x: ncx,
                                                                                content_y: ncy,
                                                                                x: nx,
                                                                                y: ny,
                                                                                bounding_x: nbx,
                                                                                bounding_y: nby,
                                                                                ..ga[idx]
                                                                            };
                                                                            let g2b = Geometry {
                                                                                content_x: ncx,
                                                                                content_y: ncy,
                                                                                x: nx,
                                                                                y: ny,
                                                                                bounding_x: nbx,
                                                                                bounding_y: nby,
                                                                                ..gb[idx]
                                                                            };
                                                                            assert(g2a == g2b);
                                                                            assert(place_children_spec(ss, ga, i, k, dir, align, cx, cy, cw, ch, prelims, dpi)
                                                                                == place_children_spec(ss, ga.update(idx, g2a), i, k + 1, dir, align, cx, cy, cw, ch, prelims, dpi));
                                                                            assert(place_children_spec(ss, gb, i, k, dir, align, cx, cy, cw, ch, prelims, dpi)
                                                                                == place_children_spec(ss, gb.update(idx, g2b), i, k + 1, dir, align, cx, cy, cw, ch, prelims, dpi));
                                                                            lemma_place_children_independent(
                                                                                ss,
                                                                                ga.update(idx, g2a),
                                                                                gb.update(idx, g2b),
                                                                                i,
                                                                                k + 1,
                                                                                dir,
                                                                                align,
                                                                                cx,
                                                                                cy,
                                                                                cw,
                                                                                ch,
                                                                                prelims,
                                                                                dpi,
                                                                            );
                                                                            let ga2 = ga.update(idx, g2a);
                                                                            let gb2 = gb.update(idx, g2b);
                                                                            match (
                                                                                place_children_spec(ss, ga, i, k, dir, align, cx, cy, cw, ch, prelims, dpi),
                                                                                place_children_spec(ss, gb, i, k, dir, align, cx, cy, cw, ch, prelims, dpi),
                                                                            ) {
                                                                                (Ok(oa), Ok(ob)) => {
                                                                                    assert forall|j: int| 0 <= j < ss.len() implies ((oa[j]) == ob[j] || (oa[j] == ga[j] && ob[j] == gb[j])) by {
                                                                                        if j != idx {
                                                                                            assert(ga2[j] == ga[j]);
                                                                                            assert(gb2[j] == gb[j]);
                                                                                        }
                                                                                    }
                                                                                    assert forall|j: int| 0 <= j <= i && j < ss.len() implies (oa[j]) == ga[j] && ob[j] == gb[j] by {
                                                                                        assert(ga2[j] == ga[j]);
                                                                                        assert(gb2[j] == gb[j]);
                                                                                    }
                                                                                },
                                                                                _ => {},
                                                                            }
                                                                            assert(place_runs_agree(place_children_spec(ss, ga, i, k, dir, align, cx, cy, cw, ch, prelims, dpi), place_children_spec(ss, gb, i, k, dir, align, cx, cy, cw, ch, prelims, dpi), ss, ga, gb, i));
                                                                        },
                                                                        Err(e) => {},
                                                                    },
                                                                    Err(e) => {},
                                                                },
                                                                Err(e) => {},
                                                            },
                                                            Err(e) => {},
                                                        },
                                                        Err(e) => {},
                                                    },
                                                    Err(e) => {},
                                                }
                                            },
                                            Err(e) => {},
                                        }
                                    },
                                    Err(e) => {},
                                }
                            } else {
                                lemma_place_children_independent(
                                    ss, ga, gb, i, k + 1, dir, align, cx, cy, cw, ch, prelims, dpi,
                                );
                                assert(place_runs_agree(place_children_spec(ss, ga, i, k, dir, align, cx, cy, cw, ch, prelims, dpi), place_children_spec(ss, gb, i, k, dir, align, cx, cy, cw, ch, prelims, dpi), ss, ga, gb, i));
                            }
                        },
                        Err(e) => {},
                    }
                }
            },
        }
    }
}

/// A layout pass is independent of the geometries it starts from: two runs
/// over the same styles, scale and measurer agree on every value they
/// write, and an entry they do not write keeps what its run started with.
/// The element itself always comes out with equal sizes in both runs.
#[verifier::rlimit(100)]
#[verifier::spinoff_prover]
pub proof fn lemma_node_independent<M: TextMeasure>(
    ss: Seq<NodeInfo>,
    ga: Seq<Geometry>,
    gb: Seq<Geometry>,
    i: int,
    offx: i32,
    offy: i32,
    placed: bool,
    dpi: i32,
    m: M,
)
    requires
        ga.len() == ss.len(),
        gb.len() == ss.len(),
    ensures
        node_runs_agree(
            node_spec(ss, ga, i, offx, offy, placed, dpi, m),
            node_spec(ss, gb, i, offx, offy, placed, dpi, m),
            ss,
            ga,
            gb,
            i,
        ),
    decreases ss.len() - i, 2int, 0int,
{
    reveal_with_fuel(node_spec, 1);
    reveal_with_fuel(size_children_spec, 1);
    reveal_with_fuel(place_children_spec, 1);
    if 0 <= i < ss.len() {
        match pre_sizing_spec(ss, i, dpi as int) {
            Ok(pre) => {
                lemma_size_children_independent(
                    ss, ga, gb, i, 0, pre.dir, 0i32, 0i32, Seq::<(i32, i32)>::empty(), dpi, m,
                );
                lemma_size_children_len(
                    ss, ga, i, 0, pre.dir, 0i32, 0i32, Seq::<(i32, i32)>::empty(), dpi, m,
                );
                lemma_size_children_len(
                    ss, gb, i, 0, pre.dir, 0i32, 0i32, Seq::<(i32, i32)>::empty(), dpi, m,
                );
                match (
                    size_children_spec(
                        ss, ga, i, 0, pre.dir, 0i32, 0i32, Seq::<(i32, i32)>::empty(), dpi, m,
                    ),
                    size_children_spec(
                        ss, gb, i, 0, pre.dir, 0i32, 0i32, Seq::<(i32, i32)>::empty(), dpi, m,
                    ),
                ) {
                    (Ok((gsa, occw, occh, prelims)), Ok((gsb, occwb, occhb, prelimsb))) => {
                        match box_dims_spec(ss, i, pre, occw, occh, dpi as int) {
                            Ok(bd) => {
                                match crate::ui::elements::own_position_spec(
                                    ss, i, pre.orig, bd.cw, bd.ch, offx, offy, dpi as int,
                                ) {
                                    Ok((pos, cx, cy)) => {
                                        lemma_place_children_independent(
                                            ss, gsa, gsb, i, 0, pre.dir, pre.align, cx, cy,
                                            bd.cw, bd.ch, prelims, dpi,
                                        );
                                        lemma_place_children_len(
                                            ss, gsa, i, 0, pre.dir, pre.align, cx, cy, bd.cw,
                                            bd.ch, prelims, dpi,
                                        );
                                        lemma_place_children_len(
                                            ss, gsb, i, 0, pre.dir, pre.align, cx, cy, bd.cw,
                                            bd.ch, prelims, dpi,
                                        );
                                        match (
                                            place_children_spec(
                                                ss, gsa, i, 0, pre.dir, pre.align, cx, cy,
                                                bd.cw, bd.ch, prelims, dpi,
                                            ),
                                            place_children_spec(
                                                ss, gsb, i, 0, pre.dir, pre.align, cx, cy,
                                                bd.cw, bd.ch, prelims, dpi,
                                            ),
                                        ) {
                                            (Ok(gpa), Ok(gpb)) => {
                                                assert forall|j: int|
                                                    0 <= j < ss.len() implies entry_rel(
                                                    #[trigger] gpa[j],
                                                    gpb[j],
                                                    ga[j],
                                                    gb[j],
                                                ) by {
                                                    lemma_entry_rel_trans(
                                                        gpa[j], gpb[j], gsa[j], gsb[j], ga[j],
                                                        gb[j],
                                                    );
                                                }
                                                match crate::ui::elements::chk(cx - bd.pad.left) {
                                                    Ok(pxv) => match crate::ui::elements::chk(cy - bd.pad.bottom) {
                                                        Ok(pyv) => {
                                                            if placed && pos is Relative {
                                                                let geo_a = Geometry {
                                                                    dpi,
                                                                    width: bd.bw,
                                                                    height: bd.bh,
                                                                    content_width: bd.cw,
                                                                    content_height: bd.ch,
                                                                    bounding_width: bd.ow,
                                                                    bounding_height: bd.oh,
                                                                    ..gpa[i]
                                                                };
                                                                let geo_b = Geometry {
                                                                    dpi,
                                                                    width: bd.bw,
                                                                    height: bd.bh,
                                                                    content_width: bd.cw,
                                                                    content_height: bd.ch,
                                                                    bounding_width: bd.ow,
                                                                    bounding_height: bd.oh,
                                                                    ..gpb[i]
                                                                };
                                                                assert(gpa[i] == gsa[i] && gpb[i] == gsb[i]);
                                                                assert(gsa[i] == ga[i] && gsb[i] == gb[i]);
                                                                assert forall|j: int| 0 <= j < ss.len() implies entry_rel(
                                                                    #[trigger] gpa.update(i, geo_a)[j],
                                                                    gpb.update(i, geo_b)[j],
                                                                    ga[j],
                                                                    gb[j],
                                                                ) by {
                                                                    if j == i {
                                                                        assert(sizes_eq(geo_a, geo_b));
                                                                        assert(pos_eq(geo_a, ga[i]));
                                                                        assert(pos_eq(geo_b, gb[i]));
                                                                    } else {
                                                                        assert(gpa.update(i, geo_a)[j] == gpa[j]);
                                                                        assert(gpb.update(i, geo_b)[j] == gpb[j]);
                                                                    }
                                                                }
                                                                assert forall|j: int| 0 <= j < i implies (gpa.update(i, geo_a)[j]) == ga[j] && gpb.update(i, geo_b)[j] == gb[j] by {
                                                                    assert(gpa[j] == gsa[j] && gsa[j] == ga[j]);
                                                                    assert(gpb[j] == gsb[j] && gsb[j] == gb[j]);
                                                                }
                                                                assert(sizes_eq(geo_a, geo_b));
                                                                assert(node_runs_agree(node_spec(ss, ga, i, offx, offy, placed, dpi, m), node_spec(ss, gb, i, offx, offy, placed, dpi, m), ss, ga, gb, i)); 
                                                            } else {
                                                                match crate::ui::elements::chk(pxv - bd.mar.left) {
                                                                    Ok(nbx) => match crate::ui::elements::chk(pyv - bd.mar.bottom) {
                                                                        Ok(nby) => {
                                                                            let geo = Geometry {
                                                                                dpi,
                                                                                x: pxv,
                                                                                y: pyv,
                                                                                content_x: cx,
                                                                                content_y: cy,
                                                                                bounding_x: nbx,
                                                                                bounding_y: nby,
                                                                                width: bd.bw,
                                                                                height: bd.bh,
                                                                                content_width: bd.cw,
                                                                                content_height: bd.ch,
                                                                                bounding_width: bd.ow,
                                                                                bounding_height: bd.oh,
                                                                            };
                                                                            assert forall|j: int| 0 <= j < ss.len() implies entry_rel(
                                                                                #[trigger] gpa.update(i, geo)[j],
                                                                                gpb.update(i, geo)[j],
                                                                                ga[j],
                                                                                gb[j],
                                                                            ) by {
                                                                                if j != i {
                                                                                    assert(gpa.update(i, geo)[j] == gpa[j]);
                                                                                    assert(gpb.update(i, geo)[j] == gpb[j]);
                                                                                }
                                                                            }
                                                                            assert forall|j: int| 0 <= j < i implies (gpa.update(i, geo)[j]) == ga[j] && gpb.update(i, geo)[j] == gb[j] by {
                                                                                assert(gpa[j] == gsa[j] && gsa[j] == ga[j]);
                                                                                assert(gpb[j] == gsb[j] && gsb[j] == gb[j]);
                                                                            }
                                                                            assert(node_runs_agree(node_spec(ss, ga, i, offx, offy, placed, dpi, m), node_spec(ss, gb, i, offx, offy, placed, dpi, m), ss, ga, gb, i)); 
                                                                        },
                                                                        Err(e) => { assert(node_runs_agree(node_spec(ss, ga, i, offx, offy, placed, dpi, m), node_spec(ss, gb, i, offx, offy, placed, dpi, m), ss, ga, gb, i)); },
                                                                    },
                                                                    Err(e) => { assert(node_runs_agree(node_spec(ss, ga, i, offx, offy, placed, dpi, m), node_spec(ss, gb, i, offx, offy, placed, dpi, m), ss, ga, gb, i)); },
                                                                }
                                                            }
                                                        },
                                                        Err(e) => { assert(node_runs_agree(node_spec(ss, ga, i, offx, offy, placed, dpi, m), node_spec(ss, gb, i, offx, offy, placed, dpi, m), ss, ga, gb, i)); },
                                                    },
                                                    Err(e) => { assert(node_runs_agree(node_spec(ss, ga, i, offx, offy, placed, dpi, m), node_spec(ss, gb, i, offx, offy, placed, dpi, m), ss, ga, gb, i)); },
                                                }
                                            },
                                            _ => { assert(node_runs_agree(node_spec(ss, ga, i, offx, offy, placed, dpi, m), node_spec(ss, gb, i, offx, offy, placed, dpi, m), ss, ga, gb, i)); },
                                        }
                                    },
                                    Err(e) => { assert(node_runs_agree(node_spec(ss, ga, i, offx, offy, placed, dpi, m), node_spec(ss, gb, i, offx, offy, placed, dpi, m), ss, ga, gb, i)); },
                                }
                            },
                            Err(e) => { assert(node_runs_agree(node_spec(ss, ga, i, offx, offy, placed, dpi, m), node_spec(ss, gb, i, offx, offy, placed, dpi, m), ss, ga, gb, i)); },
                        }
                    },
                    _ => { assert(node_runs_agree(node_spec(ss, ga, i, offx, offy, placed, dpi, m), node_spec(ss, gb, i, offx, offy, placed, dpi, m), ss, ga, gb, i)); },
                }
            },
            Err(e) => { assert(node_runs_agree(node_spec(ss, ga, i, offx, offy, placed, dpi, m), node_spec(ss, gb, i, offx, offy, placed, dpi, m), ss, ga, gb, i)); },
        }
    } else {
        assert(node_runs_agree(node_spec(ss, ga, i, offx, offy, placed, dpi, m), node_spec(ss, gb, i, offx, offy, placed, dpi, m), ss, ga, gb, i)); 
    }
}

} // verus!

verus! {

/// Idempotence: a second pass over an unchanged tree reproduces the first
/// pass's geometry exactly, preliminary corners included.
pub proof fn lemma_layout_idempotent<M: TextMeasure>(
    ss: Seq<NodeInfo>,
    g0: Seq<Geometry>,
    i: int,
    offx: i32,
    offy: i32,
    placed: bool,
    dpi: i32,
    m: M,
)
    requires
        g0.len() == ss.len(),
        node_spec(ss, g0, i, offx, offy, placed, dpi, m) is Ok,
    ensures
        node_spec(ss, g0, i, offx, offy, placed, dpi, m) matches Ok((g1, px, py)) && node_spec(
            ss,
            g1,
            i,
            offx,
            offy,
            placed,
            dpi,
            m,
        ) == Ok::<(Seq<Geometry>, i32, i32), LayoutError>((g1, px, py)),
{
    lemma_node_len(ss, g0, i, offx, offy, placed, dpi, m);
    match node_spec(ss, g0, i, offx, offy, placed, dpi, m) {
        Ok((g1, px, py)) => {
            lemma_node_independent(ss, g0, g1, i, offx, offy, placed, dpi, m);
            match node_spec(ss, g1, i, offx, offy, placed, dpi, m) {
                Ok((g2, px2, py2)) => {
                    assert forall|j: int| 0 <= j < ss.len() implies g2[j] == g1[j] by {
                        assert(entry_rel(g1[j], g2[j], g0[j], g1[j]));
                    }
                    lemma_node_len(ss, g1, i, offx, offy, placed, dpi, m);
                    assert(g2 =~= g1);
                },
                _ => {},
            }
        },
        _ => {},
    }
}

} // verus!

verus! {

/// Clamp law, sole lower bound: when only the lower bound resolves, the
/// field resolves to the value raised to that bound.
pub proof fn lemma_clamp_sole_min(
    ss: Seq<NodeInfo>,
    fld: LayoutField<i32>,
    f: IntField,
    parent: Option<int>,
    dpi: int,
    fuel: nat,
    v: i32,
    lo: i32,
)
    requires
        resolve_int_spec(ss, fld.value, IntProp::Slot(f, FieldSlot::Value), parent, dpi, fuel)
            == Ok::<Option<i32>, StyleError>(Some(v)),
        resolve_int_spec(ss, fld.min, IntProp::Slot(f, FieldSlot::Min), parent, dpi, fuel)
            == Ok::<Option<i32>, StyleError>(Some(lo)),
        resolve_int_spec(ss, fld.max, IntProp::Slot(f, FieldSlot::Max), parent, dpi, fuel)
            == Ok::<Option<i32>, StyleError>(None),
    ensures
        resolve_field_spec(ss, fld, f, parent, dpi, fuel) == Ok::<Option<i32>, StyleError>(
            Some(
                if v < lo {
                    lo
                } else {
                    v
                },
            ),
        ),
{
    reveal(resolve_field_spec);
}

/// Clamp law, sole upper bound: when only the upper bound resolves, the
/// field resolves to the value lowered to that bound.
pub proof fn lemma_clamp_sole_max(
    ss: Seq<NodeInfo>,
    fld: LayoutField<i32>,
    f: IntField,
    parent: Option<int>,
    dpi: int,
    fuel: nat,
    v: i32,
    hi: i32,
)
    requires
        resolve_int_spec(ss, fld.value, IntProp::Slot(f, FieldSlot::Value), parent, dpi, fuel)
            == Ok::<Option<i32>, StyleError>(Some(v)),
        resolve_int_spec(ss, fld.min, IntProp::Slot(f, FieldSlot::Min), parent, dpi, fuel)
            == Ok::<Option<i32>, StyleError>(None),
        resolve_int_spec(ss, fld.max, IntProp::Slot(f, FieldSlot::Max), parent, dpi, fuel)
            == Ok::<Option<i32>, StyleError>(Some(hi)),
    ensures
        resolve_field_spec(ss, fld, f, parent, dpi, fuel) == Ok::<Option<i32>, StyleError>(
            Some(
                if v > hi {
                    hi
                } else {
                    v
                },
            ),
        ),
{
    reveal(resolve_field_spec);
}

/// Content sizes are never negative: the geometry a pass writes for the
/// element it lays out has `content_width >= 0` and `content_height >= 0`.
pub proof fn lemma_content_nonnegative<M: TextMeasure>(
    ss: Seq<NodeInfo>,
    gs: Seq<Geometry>,
    i: int,
    offx: i32,
    offy: i32,
    placed: bool,
    dpi: i32,
    m: M,
)
    requires
        gs.len() == ss.len(),
        node_spec(ss, gs, i, offx, offy, placed, dpi, m) is Ok,
    ensures
        node_spec(ss, gs, i, offx, offy, placed, dpi, m) matches Ok((g, px, py))
            && g[i].content_width >= 0 && g[i].content_height >= 0,
{
    reveal_with_fuel(node_spec, 1);
    reveal_with_fuel(size_children_spec, 1);
    reveal_with_fuel(place_children_spec, 1);
    reveal(box_dims_spec);
    match pre_sizing_spec(ss, i, dpi as int) {
        Ok(pre) => {
            lemma_size_children_len(
                ss,
                gs,
                i,
                0,
                pre.dir,
                0i32,
                0i32,
                Seq::<(i32, i32)>::empty(),
                dpi,
                m,
            );
            match size_children_spec(
                ss,
                gs,
                i,
                0,
                pre.dir,
                0i32,
                0i32,
                Seq::<(i32, i32)>::empty(),
                dpi,
                m,
            ) {
                Ok((gs1, occw, occh, prelims)) => {
                    match box_dims_spec(ss, i, pre, occw, occh, dpi as int) {
                        Ok(bd) => {
                            match crate::ui::elements::own_position_spec(
                                ss,
                                i,
                                pre.orig,
                                bd.cw,
                                bd.ch,
                                offx,
                                offy,
                                dpi as int,
                            ) {
                                Ok((pos, cx, cy)) => {
                                    lemma_place_children_len(
                                        ss,
                                        gs1,
                                        i,
                                        0,
                                        pre.dir,
                                        pre.align,
                                        cx,
                                        cy,
                                        bd.cw,
                                        bd.ch,
                                        prelims,
                                        dpi,
                                    );
                                },
                                Err(e) => {},
                            }
                        },
                        Err(e) => {},
                    }
                },
                Err(e) => {},
            }
        },
        Err(e) => {},
    }
}

} // verus!

use crate::ui::styles::Dimension;

verus! {

/// Pointwise order on the size half of two geometries.
pub open spec fn sizes_leq(a: Geometry, b: Geometry) -> bool {
    &&& a.content_width <= b.content_width
    &&& a.content_height <= b.content_height
    &&& a.width <= b.width
    &&& a.height <= b.height
    &&& a.bounding_width <= b.bounding_width
    &&& a.bounding_height <= b.bounding_height
}

/// What a measurer contributes for one leaf: its measure, or zero size
/// when it cannot size the string.
pub open spec fn measured_dims<M: TextMeasure>(
    m: M,
    text: Seq<char>,
    font: u64,
    size: i32,
) -> Dimension<i32> {
    match m.measure_spec(text, font, size) {
        Some(d) => d,
        None => Dimension { width: 0i32, height: 0i32 },
    }
}

/// One measurer never measures anything smaller than another.
pub open spec fn measures_leq<M: TextMeasure>(m1: M, m2: M) -> bool {
    forall|text: Seq<char>, font: u64, size: i32|
        (#[trigger] measured_dims(m1, text, font, size)).width <= (#[trigger] measured_dims(
            m2,
            text,
            font,
            size,
        )).width && measured_dims(m1, text, font, size).height <= measured_dims(
            m2,
            text,
            font,
            size,
        ).height
}

/// Two sizing runs are monotone: when both complete, the second's occupied
/// extents and every entry's sizes are at least the first's.
pub open spec fn size_runs_monotone(
    ra: Result<(Seq<Geometry>, i32, i32, Seq<(i32, i32)>), LayoutError>,
    rb: Result<(Seq<Geometry>, i32, i32, Seq<(i32, i32)>), LayoutError>,
    ss: Seq<NodeInfo>,
) -> bool {
    ra matches Ok((oa, wa, ha, pa)) ==> (rb matches Ok((ob, wb, hb, pb)) ==> (wa <= wb && ha
        <= hb && (forall|j: int| 0 <= j < ss.len() ==> sizes_leq(#[trigger] oa[j], ob[j]))))
}

/// Two layout passes are monotone: when both complete, every entry's sizes
/// in the second are at least the first's.
pub open spec fn node_runs_monotone(
    ra: Result<(Seq<Geometry>, i32, i32), LayoutError>,
    rb: Result<(Seq<Geometry>, i32, i32), LayoutError>,
    ss: Seq<NodeInfo>,
) -> bool {
    ra matches Ok((g1, pxa, pya)) ==> (rb matches Ok((g2, pxb, pyb)) ==> (forall|j: int|
        0 <= j < ss.len() ==> sizes_leq(#[trigger] g1[j], g2[j])))
}

} // verus!

verus! {

/// Parallel sizing folds are monotone: with the same styles, accumulators
/// that start no smaller, a measurer that measures no smaller, and entry
/// sizes that start no smaller, everything the second fold computes is at
/// least as large as the first's.
#[verifier::rlimit(100)]
proof fn lemma_size_children_monotone<M: TextMeasure>(
    ss: Seq<NodeInfo>,
    ga: Seq<Geometry>,
    gb: Seq<Geometry>,
    i: int,
    k: int,
    dir: Direction,
    ow1: i32,
    oh1: i32,
    ow2: i32,
    oh2: i32,
    p1: Seq<(i32, i32)>,
    p2: Seq<(i32, i32)>,
    dpi: i32,
    m1: M,
    m2: M,
)
    requires
        0 <= k,
        ga.len() == ss.len(),
        gb.len() == ss.len(),
        ow1 <= ow2,
        oh1 <= oh2,
        measures_leq(m1, m2),
        forall|j: int| 0 <= j < ss.len() ==> sizes_leq(#[trigger] ga[j], gb[j]),
    ensures
        size_runs_monotone(
            size_children_spec(ss, ga, i, k, dir, ow1, oh1, p1, dpi, m1),
            size_children_spec(ss, gb, i, k, dir, ow2, oh2, p2, dpi, m2),
            ss,
        ),
    decreases ss.len() - i, 1int, ss[i].children.len() - k,
{
    let ra = size_children_spec(ss, ga, i, k, dir, ow1, oh1, p1, dpi, m1);
    let rb = size_children_spec(ss, gb, i, k, dir, ow2, oh2, p2, dpi, m2);
    if 0 <= i < ss.len() && 0 <= k < ss[i].children.len() {
        match ss[i].children[k] {
            ChildView::Elem { idx } => {
                if i < idx < ss.len() {
                    let offs1: (i32, i32) = if dir is Horizontal {
                        (ow1, 0i32)
                    } else {
                        (0i32, oh1)
                    };
                    let offs2: (i32, i32) = if dir is Horizontal {
                        (ow2, 0i32)
                    } else {
                        (0i32, oh2)
                    };
                    lemma_node_monotone(
                        ss, ga, gb, idx, offs1.0, offs1.1, offs2.0, offs2.1, true, dpi, m1, m2,
                    );
                    lemma_node_len(ss, ga, idx, offs1.0, offs1.1, true, dpi, m1);
                    lemma_node_len(ss, gb, idx, offs2.0, offs2.1, true, dpi, m2);
                    match (
                        node_spec(ss, ga, idx, offs1.0, offs1.1, true, dpi, m1),
                        node_spec(ss, gb, idx, offs2.0, offs2.1, true, dpi, m2),
                    ) {
                        (Ok((ga1, pxa, pya)), Ok((gb1, pxb, pyb))) => {
                            let bw1 = ga1[idx].bounding_width;
                            let bh1 = ga1[idx].bounding_height;
                            let bw2 = gb1[idx].bounding_width;
                            let bh2 = gb1[idx].bounding_height;
                            let acc1: Result<(i32, i32), LayoutError> = if dir is Horizontal {
                                match crate::ui::elements::chk(ow1 + bw1) {
                                    Err(e) => Err(e),
                                    Ok(w2) => Ok((w2, if bh1 > oh1 { bh1 } else { oh1 })),
                                }
                            } else {
                                match crate::ui::elements::chk(oh1 + bh1) {
                                    Err(e) => Err(e),
                                    Ok(h2) => Ok(((if bw1 > ow1 { bw1 } else { ow1 }), h2)),
                                }
                            };
                            let acc2: Result<(i32, i32), LayoutError> = if dir is Horizontal {
                                match crate::ui::elements::chk(ow2 + bw2) {
                                    Err(e) => Err(e),
                                    Ok(w2) => Ok((w2, if bh2 > oh2 { bh2 } else { oh2 })),
                                }
                            } else {
                                match crate::ui::elements::chk(oh2 + bh2) {
                                    Err(e) => Err(e),
                                    Ok(h2) => Ok(((if bw2 > ow2 { bw2 } else { ow2 }), h2)),
                                }
                            };
                            match (acc1, acc2) {
                                (Ok((w2a, h2a)), Ok((w2b, h2b))) => {
                                    lemma_size_children_monotone(
                                        ss,
                                        ga1,
                                        gb1,
                                        i,
                                        k + 1,
                                        dir,
                                        w2a,
                                        h2a,
                                        w2b,
                                        h2b,
                                        p1.push((pxa, pya)),
                                        p2.push((pxb, pyb)),
                                        dpi,
                                        m1,
                                        m2,
                                    );
                                    assert(size_runs_monotone(ra, rb, ss)) by {
                                        reveal_with_fuel(node_spec, 1); reveal_with_fuel(size_children_spec, 1); reveal_with_fuel(place_children_spec, 1);
                                    };
                                },
                                _ => {
                                    assert(size_runs_monotone(ra, rb, ss)) by {
                                        reveal_with_fuel(node_spec, 1); reveal_with_fuel(size_children_spec, 1); reveal_with_fuel(place_children_spec, 1);
                                    };
                                },
                            }
                        },
                        _ => {
                            assert(size_runs_monotone(ra, rb, ss)) by {
                                reveal_with_fuel(node_spec, 1); reveal_with_fuel(size_children_spec, 1); reveal_with_fuel(place_children_spec, 1);
                            };
                        },
                    }
                } else {
                    assert(size_runs_monotone(ra, rb, ss)) by {
                        reveal_with_fuel(node_spec, 1); reveal_with_fuel(size_children_spec, 1); reveal_with_fuel(place_children_spec, 1);
                    };
                }
            },
            ChildView::Text { s } => {
                match crate::ui::resolve::text_fit_of_spec(ss, i) {
                    Ok(fit) => {
                        if fit is ExpandParent {
                            match crate::ui::resolve::text_size_of_spec(ss, i, dpi as int) {
                                Ok(sz) => {
                                    match crate::ui::resolve::font_of_spec(ss, i) {
                                        Ok(font) => {
                                            let d1 = measured_dims(m1, s, font, sz);
                                            let d2 = measured_dims(m2, s, font, sz);
                                            assert(d1.width <= d2.width && d1.height
                                                <= d2.height);
                                            let acc1: Result<(i32, i32), LayoutError> = if dir
                                                is Horizontal {
                                                match crate::ui::elements::chk(ow1 + d1.width) {
                                                    Err(e) => Err(e),
                                                    Ok(w2) => Ok(
                                                        (
                                                            w2,
                                                            if d1.height > oh1 {
                                                                d1.height
                                                            } else {
                                                                oh1
                                                            },
                                                        ),
                                                    ),
                                                }
                                            } else {
                                                match crate::ui::elements::chk(oh1 + d1.height) {
                                                    Err(e) => Err(e),
                                                    Ok(h2) => Ok(
                                                        (
                                                            (if d1.width > ow1 {
                                                                d1.width
                                                            } else {
                                                                ow1
                                                            }),
                                                            h2,
                                                        ),
                                                    ),
                                                }
                                            };
                                            let acc2: Result<(i32, i32), LayoutError> = if dir
                                                is Horizontal {
                                                match crate::ui::elements::chk(ow2 + d2.width) {
                                                    Err(e) => Err(e),
                                                    Ok(w2) => Ok(
                                                        (
                                                            w2,
                                                            if d2.height > oh2 {
                                                                d2.height
                                                            } else {
                                                                oh2
                                                            },
                                                        ),
                                                    ),
                                                }
                                            } else {
                                                match crate::ui::elements::chk(oh2 + d2.height) {
                                                    Err(e) => Err(e),
                                                    Ok(h2) => Ok(
                                                        (
                                                            (if d2.width > ow2 {
                                                                d2.width
                                                            } else {
                                                                ow2
                                                            }),
                                                            h2,
                                                        ),
                                                    ),
                                                }
                                            };
                                            match (acc1, acc2) {
                                                (Ok((w2a, h2a)), Ok((w2b, h2b))) => {
                                                    lemma_size_children_monotone(
                                                        ss,
                                                        ga,
                                                        gb,
                                                        i,
                                                        k + 1,
                                                        dir,
                                                        w2a,
                                                        h2a,
                                                        w2b,
                                                        h2b,
                                                        p1.push((0i32, 0i32)),
                                                        p2.push((0i32, 0i32)),
                                                        dpi,
                                                        m1,
                                                        m2,
                                                    );
                                                    assert(size_runs_monotone(ra, rb, ss)) by {
                                                        reveal_with_fuel(node_spec, 1); reveal_with_fuel(size_children_spec, 1); reveal_with_fuel(place_children_spec, 1);
                                                    };
                                                },
                                                _ => {
                                                    assert(size_runs_monotone(ra, rb, ss)) by {
                                                        reveal_with_fuel(node_spec, 1); reveal_with_fuel(size_children_spec, 1); reveal_with_fuel(place_children_spec, 1);
                                                    };
                                                },
                                            }
                                        },
                                        Err(e) => {
                                            assert(size_runs_monotone(ra, rb, ss)) by {
                                                reveal_with_fuel(node_spec, 1); reveal_with_fuel(size_children_spec, 1); reveal_with_fuel(place_children_spec, 1);
                                            };
                                        },
                                    }
                                },
                                Err(e) => {
                                    assert(size_runs_monotone(ra, rb, ss)) by {
                                        reveal_with_fuel(node_spec, 1); reveal_with_fuel(size_children_spec, 1); reveal_with_fuel(place_children_spec, 1);
                                    };
                                },
                            }
                        } else {
                            lemma_size_children_monotone(
                                ss,
                                ga,
                                gb,
                                i,
                                k + 1,
                                dir,
                                ow1,
                                oh1,
                                ow2,
                                oh2,
                                p1.push((0i32, 0i32)),
                                p2.push((0i32, 0i32)),
                                dpi,
                                m1,
                                m2,
                            );
                            assert(size_runs_monotone(ra, rb, ss)) by {
                                reveal_with_fuel(node_spec, 1); reveal_with_fuel(size_children_spec, 1); reveal_with_fuel(place_children_spec, 1);
                            };
                        }
                    },
                    Err(e) => {
                        assert(size_runs_monotone(ra, rb, ss)) by {
                            reveal_with_fuel(node_spec, 1); reveal_with_fuel(size_children_spec, 1); reveal_with_fuel(place_children_spec, 1);
                        };
                    },
                }
            },
        }
    } else {
        assert(size_runs_monotone(ra, rb, ss)) by {
            reveal_with_fuel(node_spec, 1); reveal_with_fuel(size_children_spec, 1); reveal_with_fuel(place_children_spec, 1);
        };
    }
}

} // verus!

verus! {

/// Auto-size monotonicity over a whole pass: with the same styles and
/// structure, a measurer that never measures smaller, and starting sizes
/// that are no smaller, a completed pass computes content, box and
/// bounding sizes at least as large for every element — growing measured
/// content never shrinks any ancestor's auto-computed size.
#[verifier::rlimit(100)]
pub proof fn lemma_node_monotone<M: TextMeasure>(
    ss: Seq<NodeInfo>,
    ga: Seq<Geometry>,
    gb: Seq<Geometry>,
    i: int,
    offx1: i32,
    offy1: i32,
    offx2: i32,
    offy2: i32,
    placed: bool,
    dpi: i32,
    m1: M,
    m2: M,
)
    requires
        ga.len() == ss.len(),
        gb.len() == ss.len(),
        measures_leq(m1, m2),
        forall|j: int| 0 <= j < ss.len() ==> sizes_leq(#[trigger] ga[j], gb[j]),
    ensures
        node_runs_monotone(
            node_spec(ss, ga, i, offx1, offy1, placed, dpi, m1),
            node_spec(ss, gb, i, offx2, offy2, placed, dpi, m2),
            ss,
        ),
    decreases ss.len() - i, 2int, 0int,
{
    let ra = node_spec(ss, ga, i, offx1, offy1, placed, dpi, m1);
    let rb = node_spec(ss, gb, i, offx2, offy2, placed, dpi, m2);
    if 0 <= i < ss.len() {
        match pre_sizing_spec(ss, i, dpi as int) {
            Ok(pre) => {
                lemma_size_children_monotone(
                    ss, ga, gb, i, 0, pre.dir, 0i32, 0i32, 0i32, 0i32,
                    Seq::<(i32, i32)>::empty(), Seq::<(i32, i32)>::empty(), dpi, m1, m2,
                );
                lemma_size_children_len(
                    ss, ga, i, 0, pre.dir, 0i32, 0i32, Seq::<(i32, i32)>::empty(), dpi, m1,
                );
                lemma_size_children_len(
                    ss, gb, i, 0, pre.dir, 0i32, 0i32, Seq::<(i32, i32)>::empty(), dpi, m2,
                );
                match (
                    size_children_spec(
                        ss, ga, i, 0, pre.dir, 0i32, 0i32, Seq::<(i32, i32)>::empty(), dpi, m1,
                    ),
                    size_children_spec(
                        ss, gb, i, 0, pre.dir, 0i32, 0i32, Seq::<(i32, i32)>::empty(), dpi, m2,
                    ),
                ) {
                    (Ok((gsa, ow1, oh1, pr1)), Ok((gsb, ow2, oh2, pr2))) => {
                        match (
                            box_dims_spec(ss, i, pre, ow1, oh1, dpi as int),
                            box_dims_spec(ss, i, pre, ow2, oh2, dpi as int),
                        ) {
                            (Ok(bd1), Ok(bd2)) => {
                                lemma_auto_size_monotone(ss, i, pre, ow1, oh1, ow2, oh2, dpi as int);
                                assert(bd1.pad == bd2.pad && bd1.mar == bd2.mar && bd1.bw
                                    <= bd2.bw && bd1.bh <= bd2.bh && bd1.ow <= bd2.ow && bd1.oh
                                    <= bd2.oh) by {
                                    reveal(box_dims_spec);
                                };
                                match (
                                    crate::ui::elements::own_position_spec(
                                        ss, i, pre.orig, bd1.cw, bd1.ch, offx1, offy1, dpi as int,
                                    ),
                                    crate::ui::elements::own_position_spec(
                                        ss, i, pre.orig, bd2.cw, bd2.ch, offx2, offy2, dpi as int,
                                    ),
                                ) {
                                    (Ok((pos1, cx1, cy1)), Ok((pos2, cx2, cy2))) => {
                                        assert(pos1 == pos2) by {
                                            reveal(crate::ui::elements::own_position_spec);
                                        };
                                        lemma_place_children_len(
                                            ss, gsa, i, 0, pre.dir, pre.align, cx1, cy1, bd1.cw,
                                            bd1.ch, pr1, dpi,
                                        );
                                        lemma_place_children_len(
                                            ss, gsb, i, 0, pre.dir, pre.align, cx2, cy2, bd2.cw,
                                            bd2.ch, pr2, dpi,
                                        );
                                        match (
                                            place_children_spec(
                                                ss, gsa, i, 0, pre.dir, pre.align, cx1, cy1,
                                                bd1.cw, bd1.ch, pr1, dpi,
                                            ),
                                            place_children_spec(
                                                ss, gsb, i, 0, pre.dir, pre.align, cx2, cy2,
                                                bd2.cw, bd2.ch, pr2, dpi,
                                            ),
                                        ) {
                                            (Ok(gpa), Ok(gpb)) => {
                                                assert forall|j: int|
                                                    0 <= j < ss.len() implies sizes_leq(
                                                    #[trigger] gpa[j],
                                                    gpb[j],
                                                ) by {
                                                    assert(sizes_eq(gpa[j], gsa[j]));
                                                    assert(sizes_eq(gpb[j], gsb[j]));
                                                    assert(sizes_leq(gsa[j], gsb[j]));
                                                }
                                                match (
                                                    crate::ui::elements::chk(cx1 - bd1.pad.left),
                                                    crate::ui::elements::chk(cy1 - bd1.pad.bottom),
                                                    crate::ui::elements::chk(cx2 - bd2.pad.left),
                                                    crate::ui::elements::chk(cy2 - bd2.pad.bottom),
                                                ) {
                                                    (Ok(px1), Ok(py1), Ok(px2), Ok(py2)) => {
                                                        if placed && pos1 is Relative {
                                                            let geo1 = Geometry {
                                                                dpi,
                                                                width: bd1.bw,
                                                                height: bd1.bh,
                                                                content_width: bd1.cw,
                                                                content_height: bd1.ch,
                                                                bounding_width: bd1.ow,
                                                                bounding_height: bd1.oh,
                                                                ..gpa[i]
                                                            };
                                                            let geo2 = Geometry {
                                                                dpi,
                                                                width: bd2.bw,
                                                                height: bd2.bh,
                                                                content_width: bd2.cw,
                                                                content_height: bd2.ch,
                                                                bounding_width: bd2.ow,
                                                                bounding_height: bd2.oh,
                                                                ..gpb[i]
                                                            };
                                                            assert forall|j: int|
                                                                0 <= j < ss.len() implies sizes_leq(
                                                                #[trigger] gpa.update(i, geo1)[j],
                                                                gpb.update(i, geo2)[j],
                                                            ) by {
                                                                if j != i {
                                                                    assert(gpa.update(i, geo1)[j] == gpa[j]);
                                                                    assert(gpb.update(i, geo2)[j] == gpb[j]);
                                                                }
                                                            }
                                                            assert(node_runs_monotone(ra, rb, ss)) by {
                                                                reveal_with_fuel(node_spec, 1); reveal_with_fuel(size_children_spec, 1); reveal_with_fuel(place_children_spec, 1);
                                                            };
                                                        } else {
                                                            match (
                                                                crate::ui::elements::chk(px1 - bd1.mar.left),
                                                                crate::ui::elements::chk(py1 - bd1.mar.bottom),
                                                                crate::ui::elements::chk(px2 - bd2.mar.left),
                                                                crate::ui::elements::chk(py2 - bd2.mar.bottom),
                                                            ) {
                                                                (Ok(nbx1), Ok(nby1), Ok(nbx2), Ok(nby2)) => {
                                                                    let geo1 = Geometry {
                                                                        dpi,
                                                                        x: px1,
                                                                        y: py1,
                                                                        content_x: cx1,
                                                                        content_y: cy1,
                                                                        bounding_x: nbx1,
                                                                        bounding_y: nby1,
                                                                        width: bd1.bw,
                                                                        height: bd1.bh,
                                                                        content_width: bd1.cw,
                                                                        content_height: bd1.ch,
                                                                        bounding_width: bd1.ow,
                                                                        bounding_height: bd1.oh,
                                                                    };
                                                                    let geo2 = Geometry {
                                                                        dpi,
                                                                        x: px2,
                                                                        y: py2,
                                                                        content_x: cx2,
                                                                        content_y: cy2,
                                                                        bounding_x: nbx2,
                                                                        bounding_y: nby2,
                                                                        width: bd2.bw,
                                                                        height: bd2.bh,
                                                                        content_width: bd2.cw,
                                                                        content_height: bd2.ch,
                                                                        bounding_width: bd2.ow,
                                                                        bounding_height: bd2.oh,
                                                                    };
                                                                    assert forall|j: int|
                                                                        0 <= j < ss.len() implies sizes_leq(
                                                                        #[trigger] gpa.update(i, geo1)[j],
                                                                        gpb.update(i, geo2)[j],
                                                                    ) by {
                                                                        if j != i {
                                                                            assert(gpa.update(i, geo1)[j] == gpa[j]);
                                                                            assert(gpb.update(i, geo2)[j] == gpb[j]);
                                                                        }
                                                                    }
                                                                    assert(node_runs_monotone(ra, rb, ss)) by {
                                                                        reveal_with_fuel(node_spec, 1); reveal_with_fuel(size_children_spec, 1); reveal_with_fuel(place_children_spec, 1);
                                                                    };
                                                                },
                                                                _ => {
                                                                    assert(node_runs_monotone(ra, rb, ss)) by {
                                                                        reveal_with_fuel(node_spec, 1); reveal_with_fuel(size_children_spec, 1); reveal_with_fuel(place_children_spec, 1);
                                                                    };
                                                                },
                                                            }
                                                        }
                                                    },
                                                    _ => {
                                                        assert(node_runs_monotone(ra, rb, ss)) by {
                                                            reveal_with_fuel(node_spec, 1); reveal_with_fuel(size_children_spec, 1); reveal_with_fuel(place_children_spec, 1);
                                                        };
                                                    },
                                                }
                                            },
                                            _ => {
                                                assert(node_runs_monotone(ra, rb, ss)) by {
                                                    reveal_with_fuel(node_spec, 1); reveal_with_fuel(size_children_spec, 1); reveal_with_fuel(place_children_spec, 1);
                                                };
                                            },
                                        }
                                    },
                                    _ => {
                                        assert(node_runs_monotone(ra, rb, ss)) by {
                                            reveal_with_fuel(node_spec, 1); reveal_with_fuel(size_children_spec, 1); reveal_with_fuel(place_children_spec, 1);
                                        };
                                    },
                                }
                            },
                            _ => {
                                assert(node_runs_monotone(ra, rb, ss)) by {
                                    reveal_with_fuel(node_spec, 1); reveal_with_fuel(size_children_spec, 1); reveal_with_fuel(place_children_spec, 1);
                                };
                            },
                        }
                    },
                    _ => {
                        assert(node_runs_monotone(ra, rb, ss)) by {
                            reveal_with_fuel(node_spec, 1); reveal_with_fuel(size_children_spec, 1); reveal_with_fuel(place_children_spec, 1);
                        };
                    },
                }
            },
            Err(e) => {
                assert(node_runs_monotone(ra, rb, ss)) by {
                    reveal_with_fuel(node_spec, 1); reveal_with_fuel(size_children_spec, 1); reveal_with_fuel(place_children_spec, 1);
                };
            },
        }
    } else {
        assert(node_runs_monotone(ra, rb, ss)) by {
            reveal_with_fuel(node_spec, 1); reveal_with_fuel(size_children_spec, 1); reveal_with_fuel(place_children_spec, 1);
        };
    }
}

} // verus!
