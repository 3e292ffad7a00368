//! Style sheet data model: style values, layout fields, units, and their
//! resolution against the parent chain.

use vstd::prelude::*;

verus! {

/// Division that rounds toward zero, the rounding a cast from a float to an
/// integer performs; spec-level `/` on `int` is Euclidean, so negative
/// dividends need the sign split.
pub open spec fn div_toward_zero(a: int, b: int) -> int {
    if a >= 0 {
        a / b
    } else {
        -((-a) / b)
    }
}

/// Clamps a mathematical integer into the `i32` range, the way a float-to-`i32`
/// cast saturates.
pub open spec fn sat_i32(x: int) -> int {
    if x > i32::MAX {
        i32::MAX as int
    } else if x < i32::MIN {
        i32::MIN as int
    } else {
        x
    }
}

/// Anchor for positioning and rotation pivots.
#[derive(Clone, Copy, Debug, PartialEq, Eq, Structural)]
pub enum Origin {
    TopLeft,
    BottomLeft,
    TopRight,
    BottomRight,
    Center,
    Custom(i32, i32),
}

impl Default for Origin {
    fn default() -> (r: Self)
        ensures
            r == Origin::BottomLeft,
    {
        Origin::BottomLeft
    }
}

/// The x pixel coordinate of the left edge once the anchor `o` is applied to
/// the styled coordinate `x` of a span `width` wide.
pub open spec fn origin_actual_x(o: Origin, x: int, width: int) -> int {
    match o {
        Origin::TopLeft => x,
        Origin::BottomLeft => x,
        Origin::TopRight => x - width,
        Origin::BottomRight => x - width,
        Origin::Center => x - div_toward_zero(width, 2),
        Origin::Custom(cx, _) => x - cx,
    }
}

/// The y pixel coordinate of the bottom edge once the anchor `o` is applied to
/// the styled coordinate `y` of a span `height` tall.
pub open spec fn origin_actual_y(o: Origin, y: int, height: int) -> int {
    match o {
        Origin::TopLeft => y - height,
        Origin::BottomLeft => y,
        Origin::TopRight => y - height,
        Origin::BottomRight => y,
        Origin::Center => y - div_toward_zero(height, 2),
        Origin::Custom(_, cy) => y - cy,
    }
}

/// Halves a value, rounding toward zero.
pub fn half_toward_zero(v: i64) -> (r: i64)
    requires
        -0x4000_0000_0000_0000 <= v <= 0x4000_0000_0000_0000,
    ensures
        r == div_toward_zero(v as int, 2),
{
    if v >= 0 {
        ((v as u64) / 2u64) as i64
    } else {
        -(((-v) as u64 / 2u64) as i64)
    }
}

impl Origin {
    pub fn is_right(&self) -> (r: bool)
        ensures
            r == (*self == Origin::BottomRight || *self == Origin::TopRight),
    {
        matches!(self, Origin::BottomRight | Origin::TopRight)
    }

    pub fn is_left(&self) -> (r: bool)
        ensures
            r == (*self == Origin::BottomLeft || *self == Origin::TopLeft),
    {
        matches!(self, Origin::BottomLeft | Origin::TopLeft)
    }

    pub fn get_custom(&self) -> (r: Option<(i32, i32)>)
        ensures
            r == (match *self {
                Origin::Custom(x, y) => Some((x, y)),
                _ => None::<(i32, i32)>,
            }),
    {
        if let Origin::Custom(x, y) = self {
            Some((*x, *y))
        } else {
            None
        }
    }

    pub fn get_actual_x(&self, x: i32, width: i32) -> (r: i32)
        requires
            i32::MIN <= origin_actual_x(*self, x as int, width as int) <= i32::MAX,
        ensures
            r == origin_actual_x(*self, x as int, width as int),
    {
        match *self {
            Origin::TopLeft => x,
            Origin::BottomLeft => x,
            Origin::TopRight => x - width,
            Origin::BottomRight => x - width,
            Origin::Center => x - (half_toward_zero(width as i64) as i32),
            Origin::Custom(cx, _) => x - cx,
        }
    }

    pub fn get_actual_y(&self, y: i32, height: i32) -> (r: i32)
        requires
            i32::MIN <= origin_actual_y(*self, y as int, height as int) <= i32::MAX,
        ensures
            r == origin_actual_y(*self, y as int, height as int),
    {
        match *self {
            Origin::TopLeft => y - height,
            Origin::BottomLeft => y,
            Origin::TopRight => y - height,
            Origin::BottomRight => y,
            Origin::Center => y - (half_toward_zero(height as i64) as i32),
            Origin::Custom(_, cy) => y - cy,
        }
    }
}

/// Absolute elements position themselves from their own x/y style; relative
/// elements are placed by their parent's flow.
#[derive(Clone, Copy, Debug, PartialEq, Eq, Structural)]
pub enum Position {
    Absolute,
    Relative,
}

impl Default for Position {
    fn default() -> (r: Self)
        ensures
            r == Position::Relative,
    {
        Position::Relative
    }
}

/// The flow axis along which a parent packs its children.
#[derive(Clone, Copy, Debug, PartialEq, Eq, Structural)]
pub enum Direction {
    Vertical,
    Horizontal,
}

impl Default for Direction {
    fn default() -> (r: Self)
        ensures
            r == Direction::Horizontal,
    {
        Direction::Horizontal
    }
}

/// Whether a text leaf may grow its parent or is cropped to it.
#[derive(Clone, Copy, Debug, PartialEq, Eq, Structural)]
pub enum TextFit {
    ExpandParent,
    CropText,
}

impl Default for TextFit {
    fn default() -> (r: Self)
        ensures
            r == TextFit::CropText,
    {
        TextFit::CropText
    }
}

/// Cross-axis alignment of a child within its parent.
#[derive(Clone, Copy, Debug, PartialEq, Eq, Structural)]
pub enum ChildAlign {
    Start,
    End,
    Middle,
    OffsetStart(i32),
    OffsetEnd(i32),
    OffsetMiddle(i32),
}

impl Default for ChildAlign {
    fn default() -> (r: Self)
        ensures
            r == ChildAlign::Start,
    {
        ChildAlign::Start
    }
}

/// A physical or typographic length. Magnitudes are integers; a fractional
/// measurement is expressed in a finer unit (millimetres instead of
/// centimetres, twips instead of points).
#[derive(Clone, Copy, Debug, PartialEq, Eq, Structural)]
pub enum Unit {
    /// px
    Px(i32),
    /// mm
    MM(i32),
    /// cm
    CM(i32),
    /// m
    M(i32),
    /// in
    In(i32),
    /// twip
    Twip(i32),
    /// mil
    Mil(i32),
    /// pt
    Point(i32),
    /// pica
    Pica(i32),
    /// ft
    Foot(i32),
    /// yd
    Yard(i32),
    /// lk
    Link(i32),
    /// rd
    Rod(i32),
    /// ch
    Chain(i32),
    /// ln
    Line(i32),
    /// bc
    BarleyCorn(i32),
    /// nl
    Nail(i32),
    /// fg
    Finger(i32),
    /// sk
    Stick(i32),
    /// pm
    Palm(i32),
    /// sf
    Shaftment(i32),
    /// sp
    Span(i32),
    /// qr
    Quarter(i32),
    /// pc
    Pace(i32),
}

/// `value * dpi * num / den` rounded toward zero and saturated into `i32`.
pub open spec fn ratio_px(value: int, dpi: int, num: int, den: int) -> int {
    sat_i32(div_toward_zero(value * dpi * num, den))
}

/// The pixel length of one unit at the given scale: each unit is an exact
/// rational multiple of an inch, and an inch is `dpi` pixels.
pub open spec fn unit_px(u: Unit, dpi: int) -> int {
    match u {
        Unit::Px(px) => px as int,
        Unit::MM(v) => ratio_px(v as int, dpi, 5, 127),
        Unit::CM(v) => ratio_px(v as int, dpi, 50, 127),
        Unit::M(v) => ratio_px(v as int, dpi, 1, 1),
        Unit::In(v) => ratio_px(v as int, dpi, 1, 1),
        Unit::Twip(v) => ratio_px(v as int, dpi, 1, 1440),
        Unit::Mil(v) => ratio_px(v as int, dpi, 1, 1000),
        Unit::Point(v) => ratio_px(v as int, dpi, 1, 72),
        Unit::Pica(v) => ratio_px(v as int, dpi, 1, 6),
        Unit::Foot(v) => ratio_px(v as int, dpi, 12, 1),
        Unit::Yard(v) => ratio_px(v as int, dpi, 36, 1),
        Unit::Link(v) => ratio_px(v as int, dpi, 198, 25),
        Unit::Rod(v) => ratio_px(v as int, dpi, 198, 1),
        Unit::Chain(v) => ratio_px(v as int, dpi, 792, 1),
        Unit::Line(v) => ratio_px(v as int, dpi, 99, 125),
        Unit::BarleyCorn(v) => ratio_px(v as int, dpi, 1, 8),
        Unit::Nail(v) => ratio_px(v as int, dpi, 1, 4),
        Unit::Finger(v) => ratio_px(v as int, dpi, 3, 8),
        Unit::Stick(v) => ratio_px(v as int, dpi, 1, 2),
        Unit::Palm(v) => ratio_px(v as int, dpi, 3, 1),
        Unit::Shaftment(v) => ratio_px(v as int, dpi, 6, 1),
        Unit::Span(v) => ratio_px(v as int, dpi, 9, 1),
        Unit::Quarter(v) => ratio_px(v as int, dpi, 36, 1),
        Unit::Pace(v) => ratio_px(v as int, dpi, 30, 1),
    }
}

/// Division of an `i128` rounding toward zero.
fn div_trunc_i128(a: i128, b: i128) -> (r: i128)
    requires
        b > 0,
        -0x1_0000_0000_0000_0000_0000_0000_0000 <= a <= 0x1_0000_0000_0000_0000_0000_0000_0000,
    ensures
        r == div_toward_zero(a as int, b as int),
{
    if a >= 0 {
        ((a as u128) / (b as u128)) as i128
    } else {
        -((((-a) as u128) / (b as u128)) as i128)
    }
}

/// Clamps an `i128` into the `i32` range.
pub(crate) fn clip_i32(q: i128) -> (r: i32)
    ensures
        r == sat_i32(q as int),
{
    if q > i32::MAX as i128 {
        i32::MAX
    } else if q < i32::MIN as i128 {
        i32::MIN
    } else {
        q as i32
    }
}

/// `value * dpi * num / den` computed exactly, rounded toward zero, saturated.
fn px_of_ratio(value: i32, dpi: i32, num: i32, den: i32) -> (r: i32)
    requires
        1 <= num <= 1000,
        1 <= den <= 2000,
    ensures
        r == ratio_px(value as int, dpi as int, num as int, den as int),
{
    proof {
        assert((-0x4000_0000_0000_0000 <= (value as int) * (dpi as int)
            <= 0x4000_0000_0000_0000) && (-0x1_0000_0000_0000_0000_0000_0000_0000 <= (value
            as int) * (dpi as int) * (num as int) <= 0x1_0000_0000_0000_0000_0000_0000_0000))
            by (nonlinear_arith)
            requires
                -0x8000_0000 <= value as int <= 0x7fff_ffff,
                -0x8000_0000 <= dpi as int <= 0x7fff_ffff,
                1 <= num as int <= 1000,
        ;
    }
    let prod: i128 = (value as i128) * (dpi as i128) * (num as i128);
    let q = div_trunc_i128(prod, den as i128);
    clip_i32(q)
}

impl Unit {
    /// Converts the unit to whole pixels at `dpi` pixels per inch, rounding
    /// toward zero and saturating at the `i32` range.
    pub fn as_px(&self, dpi: i32) -> (r: i32)
        ensures
            r == unit_px(*self, dpi as int),
    {
        match *self {
            Unit::Px(px) => px,
            Unit::MM(v) => px_of_ratio(v, dpi, 5, 127),
            Unit::CM(v) => px_of_ratio(v, dpi, 50, 127),
            Unit::M(v) => px_of_ratio(v, dpi, 1, 1),
            Unit::In(v) => px_of_ratio(v, dpi, 1, 1),
            Unit::Twip(v) => px_of_ratio(v, dpi, 1, 1440),
            Unit::Mil(v) => px_of_ratio(v, dpi, 1, 1000),
            Unit::Point(v) => px_of_ratio(v, dpi, 1, 72),
            Unit::Pica(v) => px_of_ratio(v, dpi, 1, 6),
            Unit::Foot(v) => px_of_ratio(v, dpi, 12, 1),
            Unit::Yard(v) => px_of_ratio(v, dpi, 36, 1),
            Unit::Link(v) => px_of_ratio(v, dpi, 198, 25),
            Unit::Rod(v) => px_of_ratio(v, dpi, 198, 1),
            Unit::Chain(v) => px_of_ratio(v, dpi, 792, 1),
            Unit::Line(v) => px_of_ratio(v, dpi, 99, 125),
            Unit::BarleyCorn(v) => px_of_ratio(v, dpi, 1, 8),
            Unit::Nail(v) => px_of_ratio(v, dpi, 1, 4),
            Unit::Finger(v) => px_of_ratio(v, dpi, 3, 8),
            Unit::Stick(v) => px_of_ratio(v, dpi, 1, 2),
            Unit::Palm(v) => px_of_ratio(v, dpi, 3, 1),
            Unit::Shaftment(v) => px_of_ratio(v, dpi, 6, 1),
            Unit::Span(v) => px_of_ratio(v, dpi, 9, 1),
            Unit::Quarter(v) => px_of_ratio(v, dpi, 36, 1),
            Unit::Pace(v) => px_of_ratio(v, dpi, 30, 1),
        }
    }
}

} // verus!

verus! {

/// A style property as declared: absent, automatic, inherited from the parent
/// chain, re-resolved from another element, a literal, or a measurement.
#[derive(Clone, Copy, Debug)]
pub enum UiValue<T> {
    Unset,
    Auto,
    Inherit,
    Cloned(usize),
    Just(T),
    Measurement(Unit),
}

/// True when the value is neither absent nor automatic.
pub open spec fn uivalue_is_set<T>(v: UiValue<T>) -> bool {
    !(v is Unset || v is Auto)
}

impl<T> UiValue<T> {
    pub fn is_set(&self) -> (r: bool)
        ensures
            r == uivalue_is_set(*self),
    {
        !matches!(self, UiValue::Unset | UiValue::Auto)
    }
}

impl<T> Default for UiValue<T> {
    fn default() -> (r: Self)
        ensures
            r is Unset,
    {
        UiValue::Unset
    }
}

/// A resolvable value bundled with optional lower and upper bounds.
#[derive(Clone, Copy, Debug)]
pub struct LayoutField<T> {
    pub value: UiValue<T>,
    pub min: UiValue<T>,
    pub max: UiValue<T>,
}

impl<T> LayoutField<T> {
    pub fn is_set(&self) -> (r: bool)
        ensures
            r == uivalue_is_set(self.value),
    {
        self.value.is_set()
    }

    pub fn is_none(&self) -> (r: bool)
        ensures
            r == (self.value is Unset),
    {
        matches!(self.value, UiValue::Unset)
    }

    pub fn is_auto(&self) -> (r: bool)
        ensures
            r == (self.value is Auto),
    {
        matches!(self.value, UiValue::Auto)
    }
}

/// The layout field a bare value stands for: the value itself, unbounded.
pub open spec fn field_of_value<T>(v: UiValue<T>) -> LayoutField<T> {
    LayoutField { value: v, min: UiValue::Unset, max: UiValue::Unset }
}

impl<T> From<UiValue<T>> for LayoutField<T> {
    fn from(value: UiValue<T>) -> (r: Self) {
        LayoutField { value, min: UiValue::Unset, max: UiValue::Unset }
    }
}

impl<T> vstd::std_specs::convert::FromSpecImpl<UiValue<T>> for LayoutField<T> {
    open spec fn obeys_from_spec() -> bool {
        true
    }

    open spec fn from_spec(v: UiValue<T>) -> Self {
        field_of_value(v)
    }
}

/// A width/height pair.
#[derive(Clone, Copy, Debug)]
pub struct Dimension<T> {
    pub width: T,
    pub height: T,
}

impl<T> Dimension<T> {
    pub fn new(width: T, height: T) -> (r: Self)
        ensures
            r.width == width,
            r.height == height,
    {
        Self { width, height }
    }
}

/// An x/y pair.
#[derive(Clone, Copy, Debug)]
pub struct Point<T> {
    pub x: T,
    pub y: T,
}

impl<T> Point<T> {
    pub fn new(x: T, y: T) -> (r: Self)
        ensures
            r.x == x,
            r.y == y,
    {
        Self { x, y }
    }
}

/// Per-side layout fields, used for padding and margin.
#[derive(Clone, Copy, Debug)]
pub struct SideStyle {
    pub top: LayoutField<i32>,
    pub bottom: LayoutField<i32>,
    pub left: LayoutField<i32>,
    pub right: LayoutField<i32>,
}

impl SideStyle {
    /// All four sides set to the literal `v`.
    pub fn all_i32(v: i32) -> (r: Self)
        ensures
            r == SideStyle::all_spec(UiValue::Just(v)),
    {
        Self {
            top: LayoutField::from(UiValue::Just(v)),
            bottom: LayoutField::from(UiValue::Just(v)),
            left: LayoutField::from(UiValue::Just(v)),
            right: LayoutField::from(UiValue::Just(v)),
        }
    }

    /// The side style whose four sides all hold `v`, unbounded.
    pub open spec fn all_spec(v: UiValue<i32>) -> SideStyle {
        SideStyle {
            top: field_of_value(v),
            bottom: field_of_value(v),
            left: field_of_value(v),
            right: field_of_value(v),
        }
    }

    /// All four sides set to the value `v`.
    pub fn all(v: UiValue<i32>) -> (r: Self)
        ensures
            r == SideStyle::all_spec(v),
    {
        Self {
            top: LayoutField::from(v),
            bottom: LayoutField::from(v),
            left: LayoutField::from(v),
            right: LayoutField::from(v),
        }
    }

    /// Overwrites all four sides with the value `v`.
    pub fn set(&mut self, v: UiValue<i32>)
        ensures
            *final(self) == SideStyle::all_spec(v),
    {
        self.top = LayoutField::from(v);
        self.bottom = LayoutField::from(v);
        self.left = LayoutField::from(v);
        self.right = LayoutField::from(v);
    }
}

/// Text-related style properties. Sizes are pixel integers; the font is an
/// identifier the embedding application assigns.
#[derive(Clone, Copy, Debug)]
pub struct TextStyle {
    pub size: LayoutField<i32>,
    pub kerning: LayoutField<i32>,
    pub skew: LayoutField<i32>,
    pub stretch: UiValue<Dimension<i32>>,
    pub font: UiValue<u64>,
    pub fit: UiValue<TextFit>,
}

/// The initial text style: size one barleycorn, everything else unset or
/// automatic.
pub open spec fn initial_text_style() -> TextStyle {
    TextStyle {
        size: field_of_value(UiValue::Measurement(Unit::BarleyCorn(1i32))),
        kerning: field_of_value(UiValue::Unset),
        skew: field_of_value(UiValue::Unset),
        stretch: UiValue::Unset,
        font: UiValue::Auto,
        fit: UiValue::Auto,
    }
}

impl TextStyle {
    pub fn initial() -> (r: Self)
        ensures
            r == initial_text_style(),
    {
        Self {
            size: LayoutField::from(UiValue::Measurement(Unit::BarleyCorn(1))),
            kerning: LayoutField::from(UiValue::Unset),
            skew: LayoutField::from(UiValue::Unset),
            stretch: UiValue::Unset,
            font: UiValue::Auto,
            fit: UiValue::Auto,
        }
    }
}

} // verus!

use crate::ui::background::{default_background_info, BackgroundInfo};

verus! {

/// The style sheet of one element.
#[derive(Clone, Copy, Debug)]
pub struct UiStyle {
    pub x: LayoutField<i32>,
    pub y: LayoutField<i32>,
    pub width: LayoutField<i32>,
    pub height: LayoutField<i32>,
    pub padding: SideStyle,
    pub margin: SideStyle,
    pub origin: UiValue<Origin>,
    pub position: UiValue<Position>,
    pub rotation_origin: UiValue<Origin>,
    pub rotation: UiValue<i32>,
    pub direction: UiValue<Direction>,
    pub child_align: UiValue<ChildAlign>,
    pub text: TextStyle,
    pub background: BackgroundInfo,
}

/// The library-wide default style sheet, the sheet resolution falls back to.
pub open spec fn default_style() -> UiStyle {
    UiStyle {
        x: field_of_value(UiValue::Just(0i32)),
        y: field_of_value(UiValue::Just(0i32)),
        width: field_of_value(UiValue::Auto),
        height: field_of_value(UiValue::Auto),
        padding: SideStyle::all_spec(UiValue::Just(0i32)),
        margin: SideStyle::all_spec(UiValue::Just(0i32)),
        origin: UiValue::Just(Origin::BottomLeft),
        position: UiValue::Just(Position::Relative),
        rotation_origin: UiValue::Just(Origin::Center),
        rotation: UiValue::Just(0i32),
        direction: UiValue::Auto,
        child_align: UiValue::Auto,
        text: initial_text_style(),
        background: default_background_info(),
    }
}

impl Default for UiStyle {
    fn default() -> (r: Self)
        ensures
            r == default_style(),
    {
        Self {
            x: LayoutField::from(UiValue::Just(0)),
            y: LayoutField::from(UiValue::Just(0)),
            width: LayoutField::from(UiValue::Auto),
            height: LayoutField::from(UiValue::Auto),
            padding: SideStyle::all_i32(0),
            margin: SideStyle::all_i32(0),
            origin: UiValue::Just(Origin::BottomLeft),
            position: UiValue::Just(Position::Relative),
            rotation_origin: UiValue::Just(Origin::Center),
            rotation: UiValue::Just(0),
            direction: UiValue::Auto,
            child_align: UiValue::Auto,
            text: TextStyle::initial(),
            background: BackgroundInfo::default(),
        }
    }
}

/// Resolution context: the pixels-per-inch scale of the current pass.
#[derive(Clone, Copy, Debug)]
pub struct ResCon {
    pub dpi: i32,
}

impl ResCon {
    pub fn set_dpi(&mut self, dpi: i32)
        ensures
            final(self).dpi == dpi,
    {
        self.dpi = dpi;
    }
}

/// A fatal style-resolution failure. Inheritance without an anchor and an
/// unresolvable entry of the default sheet are configuration errors, loud by
/// design; a reference cycle among cloned properties is reported rather than
/// followed forever.
#[derive(Clone, Copy, Debug, PartialEq, Eq, Structural)]
pub enum StyleError {
    /// Inherit was requested on an element with no parent.
    UnresolvableInherit,
    /// The library-wide default sheet itself failed to resolve.
    UnresolvableDefault,
    /// Cloned properties refer to one another in a cycle.
    CircularReference,
    /// A cloned property names an element outside the tree.
    InvalidReference,
}

} // verus!
