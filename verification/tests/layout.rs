use mvcore::ui::background::{BackgroundInfo, RectangleBackground, RgbColor};
use mvcore::ui::elements::{Geometry, LayoutError, MonospaceMeasure, UiElementState, UiTree};
use mvcore::ui::resolve::{direction_of, IntField};
use mvcore::ui::styles::{
    ChildAlign, Direction, LayoutField, Origin, Position, StyleError, TextFit, UiStyle, UiValue,
    Unit,
};

#[test]
fn test() {}

fn measurer() -> MonospaceMeasure {
    MonospaceMeasure { glyph_width: 7 }
}

#[test]
fn unit_inch_at_96_dpi_is_96_px() {
    assert_eq!(Unit::In(1).as_px(96), 96);
}

#[test]
fn unit_72_points_at_96_dpi_is_96_px() {
    assert_eq!(Unit::Point(72).as_px(96), 96);
}

#[test]
fn unit_px_passes_through() {
    assert_eq!(Unit::Px(42).as_px(96), 42);
    assert_eq!(Unit::Px(-13).as_px(96), -13);
}

#[test]
fn unit_mm_is_exact_rational() {
    // 254 mm at 100 dpi: 254 / 25.4 * 100 = 1000 px
    assert_eq!(Unit::MM(254).as_px(100), 1000);
}

#[test]
fn unit_barleycorn_is_an_eighth_inch() {
    assert_eq!(Unit::BarleyCorn(8).as_px(96), 96);
    assert_eq!(Unit::BarleyCorn(1).as_px(96), 12);
}

#[test]
fn unit_conversion_saturates() {
    assert_eq!(Unit::In(2_000_000_000).as_px(1000), i32::MAX);
    assert_eq!(Unit::In(-2_000_000_000).as_px(1000), i32::MIN);
}

#[test]
fn origin_center_anchors_at_half_width() {
    assert_eq!(Origin::Center.get_actual_x(100, 50), 75);
}

#[test]
fn origin_bottom_right_anchors_at_full_width() {
    assert_eq!(Origin::BottomRight.get_actual_x(100, 50), 50);
}

#[test]
fn origin_left_right_predicates() {
    assert!(Origin::BottomLeft.is_left());
    assert!(Origin::TopLeft.is_left());
    assert!(Origin::TopRight.is_right());
    assert!(Origin::BottomRight.is_right());
    assert!(!Origin::Center.is_left());
    assert!(!Origin::Center.is_right());
}

#[test]
fn origin_get_custom() {
    assert_eq!(Origin::Custom(3, 4).get_custom(), Some((3, 4)));
    assert_eq!(Origin::Center.get_custom(), None);
}

fn sized_style(w: i32, h: i32) -> UiStyle {
    let mut s = UiStyle::default();
    s.width = LayoutField::from(UiValue::Just(w));
    s.height = LayoutField::from(UiValue::Just(h));
    s
}

#[test]
fn flow_accumulation_horizontal() {
    // Horizontal parent with children of bounding size 30x10 and 40x20
    // occupies width 70 and height 20.
    let mut tree = UiTree::new();
    let mut root_style = UiStyle::default();
    root_style.direction = UiValue::Just(Direction::Horizontal);
    let root = tree.push_root(root_style);
    tree.push_child(root, sized_style(30, 10));
    tree.push_child(root, sized_style(40, 20));
    let m = measurer();
    UiElementState::compute(&mut tree, root, 96, &m).unwrap();
    let g = tree.get_geometry(root);
    assert_eq!(g.content_width, 70);
    assert_eq!(g.content_height, 20);
}

#[test]
fn end_to_end_vertical_auto_root() {
    // Root with Auto width/height, Vertical direction, zero padding and
    // margin, and two literal children 50x20 and 30x40: content (50, 60).
    let mut tree = UiTree::new();
    let mut root_style = UiStyle::default();
    root_style.direction = UiValue::Just(Direction::Vertical);
    let root = tree.push_root(root_style);
    tree.push_child(root, sized_style(50, 20));
    tree.push_child(root, sized_style(30, 40));
    let m = measurer();
    UiElementState::compute(&mut tree, root, 96, &m).unwrap();
    let g = tree.get_geometry(root);
    assert_eq!(g.content_width, 50);
    assert_eq!(g.content_height, 60);
}

#[test]
fn vertical_children_are_stacked() {
    let mut tree = UiTree::new();
    let mut root_style = UiStyle::default();
    root_style.direction = UiValue::Just(Direction::Vertical);
    let root = tree.push_root(root_style);
    let c0 = tree.push_child(root, sized_style(50, 20));
    let c1 = tree.push_child(root, sized_style(30, 40));
    let m = measurer();
    UiElementState::compute(&mut tree, root, 96, &m).unwrap();
    let g0 = tree.get_geometry(c0);
    let g1 = tree.get_geometry(c1);
    assert_eq!(g0.content_y, 0);
    assert_eq!(g1.content_y, 20);
    assert_eq!(g0.content_x, 0);
    assert_eq!(g1.content_x, 0);
}

#[test]
fn box_composition_with_padding_and_margin() {
    let mut tree = UiTree::new();
    let mut style = sized_style(100, 60);
    style.padding = mvcore::ui::styles::SideStyle::all_i32(5);
    style.margin = mvcore::ui::styles::SideStyle::all_i32(3);
    let root = tree.push_root(style);
    let m = measurer();
    UiElementState::compute(&mut tree, root, 96, &m).unwrap();
    let g = tree.get_geometry(root);
    assert_eq!(g.content_width, 100);
    assert_eq!(g.width, 110);
    assert_eq!(g.bounding_width, 116);
    assert_eq!(g.content_height, 60);
    assert_eq!(g.height, 70);
    assert_eq!(g.bounding_height, 76);
    // the box corner sits below and left of the content corner
    assert_eq!(g.x, g.content_x - 5);
    assert_eq!(g.y, g.content_y - 5);
    assert_eq!(g.bounding_x, g.x - 3);
    assert_eq!(g.bounding_y, g.y - 3);
}

#[test]
fn layout_pass_is_idempotent() {
    let mut tree = UiTree::new();
    let mut root_style = UiStyle::default();
    root_style.direction = UiValue::Just(Direction::Vertical);
    root_style.child_align = UiValue::Just(ChildAlign::Middle);
    let root = tree.push_root(root_style);
    let c0 = tree.push_child(root, sized_style(50, 20));
    tree.push_child(root, sized_style(30, 40));
    tree.push_text(c0, String::from("hey"));
    let m = measurer();
    UiElementState::compute(&mut tree, root, 96, &m).unwrap();
    let first: Vec<Geometry> = (0..tree.len()).map(|i| tree.get_geometry(i)).collect();
    UiElementState::compute(&mut tree, root, 96, &m).unwrap();
    let second: Vec<Geometry> = (0..tree.len()).map(|i| tree.get_geometry(i)).collect();
    assert_eq!(first, second);
}

#[test]
fn auto_size_grows_with_larger_child() {
    let mut tree1 = UiTree::new();
    let root1 = tree1.push_root(UiStyle::default());
    tree1.push_child(root1, sized_style(30, 10));
    let mut tree2 = UiTree::new();
    let root2 = tree2.push_root(UiStyle::default());
    tree2.push_child(root2, sized_style(45, 10));
    let m = measurer();
    UiElementState::compute(&mut tree1, root1, 96, &m).unwrap();
    UiElementState::compute(&mut tree2, root2, 96, &m).unwrap();
    assert!(tree2.get_geometry(root2).content_width >= tree1.get_geometry(root1).content_width);
}

#[test]
fn expanded_text_is_measured() {
    let mut tree = UiTree::new();
    let mut style = UiStyle::default();
    style.text.fit = UiValue::Just(TextFit::ExpandParent);
    style.text.size = LayoutField::from(UiValue::Just(10));
    let root = tree.push_root(style);
    tree.push_text(root, String::from("Hello"));
    let m = measurer();
    UiElementState::compute(&mut tree, root, 96, &m).unwrap();
    let g = tree.get_geometry(root);
    assert_eq!(g.content_width, 35); // five glyphs, seven pixels each
    assert_eq!(g.content_height, 10); // as tall as the text size
}

#[test]
fn cropped_text_contributes_nothing() {
    let mut tree = UiTree::new();
    let mut style = UiStyle::default();
    style.text.fit = UiValue::Just(TextFit::CropText);
    let root = tree.push_root(style);
    tree.push_text(root, String::from("Hello"));
    let m = measurer();
    UiElementState::compute(&mut tree, root, 96, &m).unwrap();
    let g = tree.get_geometry(root);
    assert_eq!(g.content_width, 0);
    assert_eq!(g.content_height, 0);
}

#[test]
fn default_text_size_is_one_barleycorn() {
    // fit left unset expands the parent; size falls back to the default
    // sheet's one barleycorn, 12 px at 96 dpi.
    let mut tree = UiTree::new();
    let mut style = UiStyle::default();
    style.text.fit = UiValue::Unset;
    let root = tree.push_root(style);
    tree.push_text(root, String::from("a"));
    let m = measurer();
    UiElementState::compute(&mut tree, root, 96, &m).unwrap();
    let g = tree.get_geometry(root);
    assert_eq!(g.content_height, 12);
}

#[test]
fn absolute_element_anchors_its_coordinate() {
    let mut tree = UiTree::new();
    let mut style = sized_style(50, 30);
    style.position = UiValue::Just(Position::Absolute);
    style.x = LayoutField::from(UiValue::Just(100));
    style.y = LayoutField::from(UiValue::Just(40));
    style.origin = UiValue::Just(Origin::Center);
    let root = tree.push_root(style);
    let m = measurer();
    UiElementState::compute(&mut tree, root, 96, &m).unwrap();
    let g = tree.get_geometry(root);
    assert_eq!(g.content_x, 75); // 100 - 50/2
    assert_eq!(g.content_y, 25); // 40 - 30/2
}

#[test]
fn child_align_end_pushes_child_to_far_edge() {
    let mut tree = UiTree::new();
    let mut root_style = sized_style(200, 100);
    root_style.direction = UiValue::Just(Direction::Vertical);
    root_style.child_align = UiValue::Just(ChildAlign::End);
    let root = tree.push_root(root_style);
    let c = tree.push_child(root, sized_style(50, 20));
    let m = measurer();
    UiElementState::compute(&mut tree, root, 96, &m).unwrap();
    let g = tree.get_geometry(c);
    assert_eq!(g.content_x, 150); // 0 + 200 - 50
}

#[test]
fn field_resolves_literal() {
    let tree = UiTree::new();
    let fld: LayoutField<i32> = LayoutField::from(UiValue::Just(10));
    assert_eq!(fld.resolve(&tree, IntField::Width, None, 96), Ok(Some(10)));
}

#[test]
fn field_clamps_to_min() {
    let tree = UiTree::new();
    let fld = LayoutField {
        value: UiValue::Just(10),
        min: UiValue::Just(20),
        max: UiValue::Just(100),
    };
    assert_eq!(fld.resolve(&tree, IntField::Width, None, 96), Ok(Some(20)));
}

#[test]
fn field_clamps_to_max() {
    let tree = UiTree::new();
    let fld = LayoutField {
        value: UiValue::Just(500),
        min: UiValue::Just(20),
        max: UiValue::Just(100),
    };
    assert_eq!(fld.resolve(&tree, IntField::Width, None, 96), Ok(Some(100)));
}

#[test]
fn contradictory_bounds_leave_value_unclamped() {
    let tree = UiTree::new();
    let fld = LayoutField {
        value: UiValue::Just(50),
        min: UiValue::Just(60),
        max: UiValue::Just(40),
    };
    assert_eq!(fld.resolve(&tree, IntField::Width, None, 96), Ok(Some(50)));
}

#[test]
fn unset_value_resolves_to_nothing_despite_bounds() {
    let tree = UiTree::new();
    let fld = LayoutField {
        value: UiValue::Unset,
        min: UiValue::Just(20),
        max: UiValue::Just(100),
    };
    assert_eq!(fld.resolve(&tree, IntField::Width, None, 96), Ok(None));
}

#[test]
fn measurement_value_converts_through_units() {
    let tree = UiTree::new();
    let fld: LayoutField<i32> = LayoutField::from(UiValue::Measurement(Unit::In(2)));
    assert_eq!(fld.resolve(&tree, IntField::Width, None, 96), Ok(Some(192)));
}

#[test]
fn inherit_resolves_from_parent_chain() {
    let mut tree = UiTree::new();
    let mut parent_style = UiStyle::default();
    parent_style.width = LayoutField::from(UiValue::Just(77));
    let root = tree.push_root(parent_style);
    let fld: LayoutField<i32> = LayoutField::from(UiValue::Inherit);
    assert_eq!(
        fld.resolve(&tree, IntField::Width, Some(root), 96),
        Ok(Some(77))
    );
}

#[test]
fn inherit_without_parent_is_fatal() {
    let tree = UiTree::new();
    let fld: LayoutField<i32> = LayoutField::from(UiValue::Inherit);
    assert_eq!(
        fld.resolve(&tree, IntField::Width, None, 96),
        Err(StyleError::UnresolvableInherit)
    );
}

#[test]
fn unresolvable_default_is_reported() {
    // A set direction that resolves to nothing falls back to the default
    // sheet, whose direction is automatic: a fatal configuration error.
    let mut tree = UiTree::new();
    let root = tree.push_root(UiStyle::default());
    let mut child_style = UiStyle::default();
    child_style.direction = UiValue::Inherit;
    let c = tree.push_child(root, child_style);
    assert_eq!(direction_of(&tree, c), Err(StyleError::UnresolvableDefault));
}

#[test]
fn cloned_cycle_is_reported() {
    let mut tree = UiTree::new();
    let mut s0 = UiStyle::default();
    s0.width = LayoutField::from(UiValue::Cloned(1));
    let mut s1 = UiStyle::default();
    s1.width = LayoutField::from(UiValue::Cloned(0));
    tree.push_root(s0);
    tree.push_root(s1);
    let fld: LayoutField<i32> = LayoutField::from(UiValue::Cloned(1));
    assert_eq!(
        fld.resolve(&tree, IntField::Width, None, 96),
        Err(StyleError::CircularReference)
    );
}

#[test]
fn cloned_out_of_tree_is_reported() {
    let tree = UiTree::new();
    let fld: LayoutField<i32> = LayoutField::from(UiValue::Cloned(99));
    assert_eq!(
        fld.resolve(&tree, IntField::Width, None, 96),
        Err(StyleError::InvalidReference)
    );
}

#[test]
fn overflowing_box_is_reported() {
    let mut tree = UiTree::new();
    let mut style = sized_style(i32::MAX, 10);
    style.padding = mvcore::ui::styles::SideStyle::all_i32(1);
    let root = tree.push_root(style);
    let m = measurer();
    assert_eq!(
        UiElementState::compute(&mut tree, root, 96, &m),
        Err(LayoutError::Overflow)
    );
}

#[test]
fn auto_sides_default_to_zero() {
    let mut tree = UiTree::new();
    let mut style = sized_style(10, 10);
    style.padding.set(UiValue::Auto);
    let root = tree.push_root(style);
    let m = measurer();
    UiElementState::compute(&mut tree, root, 96, &m).unwrap();
    let g = tree.get_geometry(root);
    assert_eq!(g.width, 10);
    assert_eq!(g.height, 10);
}

#[test]
fn sole_min_bound_clamps() {
    let tree = UiTree::new();
    let fld = LayoutField {
        value: UiValue::Just(10),
        min: UiValue::Just(20),
        max: UiValue::Unset,
    };
    assert_eq!(fld.resolve(&tree, IntField::Width, None, 96), Ok(Some(20)));
}

#[test]
fn sole_max_bound_clamps() {
    let tree = UiTree::new();
    let fld = LayoutField {
        value: UiValue::Just(500),
        min: UiValue::Unset,
        max: UiValue::Just(100),
    };
    assert_eq!(fld.resolve(&tree, IntField::Width, None, 96), Ok(Some(100)));
}

#[test]
fn negative_content_size_floors_at_zero() {
    let mut tree = UiTree::new();
    let root = tree.push_root(sized_style(-5, -7));
    let m = measurer();
    UiElementState::compute(&mut tree, root, 96, &m).unwrap();
    let g = tree.get_geometry(root);
    assert_eq!(g.content_width, 0);
    assert_eq!(g.content_height, 0);
    assert_eq!(g.width, 0);
    assert_eq!(g.height, 0);
}

#[test]
fn apply_clamps_grown_candidate() {
    let mut tree = UiTree::new();
    let mut style = UiStyle::default();
    style.width = LayoutField {
        value: UiValue::Auto,
        min: UiValue::Just(100),
        max: UiValue::Unset,
    };
    let root = tree.push_root(style);
    tree.push_child(root, sized_style(30, 10));
    let m = measurer();
    UiElementState::compute(&mut tree, root, 96, &m).unwrap();
    // the accumulated 30 is below the minimum of 100, so the minimum wins
    assert_eq!(tree.get_geometry(root).content_width, 100);
}

#[test]
fn defaults_and_background() {
    let bg = BackgroundInfo::default();
    assert_eq!(bg.border_width.is_set(), true);
    assert_eq!(RgbColor::white(), RgbColor { r: 255, g: 255, b: 255, a: 255 });
    assert_eq!(RgbColor::black(), RgbColor { r: 0, g: 0, b: 0, a: 255 });
    let _ = RectangleBackground::new();
    let s = UiStyle::default();
    assert!(s.width.is_auto());
    assert!(s.height.is_auto());
    assert!(!s.x.is_none());
    assert!(s.x.is_set());
}

#[test]
fn resource_builder_smoke() {
    let b = mvcore::resources::ResourceBundleBuilder::new();
    b.load_dynamic(String::from("bundle/data"));
}

#[test]
fn wider_glyphs_never_shrink_the_tree() {
    let build = || {
        let mut tree = UiTree::new();
        let mut style = UiStyle::default();
        style.text.fit = UiValue::Just(TextFit::ExpandParent);
        style.text.size = LayoutField::from(UiValue::Just(10));
        let root = tree.push_root(style);
        tree.push_child(root, sized_style(30, 10));
        tree.push_text(root, String::from("Hello"));
        (tree, root)
    };
    let (mut t1, r1) = build();
    let (mut t2, r2) = build();
    UiElementState::compute(&mut t1, r1, 96, &MonospaceMeasure { glyph_width: 7 }).unwrap();
    UiElementState::compute(&mut t2, r2, 96, &MonospaceMeasure { glyph_width: 9 }).unwrap();
    assert!(t2.get_geometry(r2).content_width >= t1.get_geometry(r1).content_width);
    assert!(t2.get_geometry(r2).content_height >= t1.get_geometry(r1).content_height);
}
