//! Background descriptors for elements.

use vstd::prelude::*;

verus! {

/// A plain RGBA color with 8-bit channels.
#[derive(Clone, Copy, Debug, PartialEq, Eq, Structural)]
pub struct RgbColor {
    pub r: u8,
    pub g: u8,
    pub b: u8,
    pub a: u8,
}

impl RgbColor {
    pub fn white() -> (c: RgbColor)
        ensures
            c == (RgbColor { r: 255u8, g: 255u8, b: 255u8, a: 255u8 }),
    {
        RgbColor { r: 255, g: 255, b: 255, a: 255 }
    }

    pub fn black() -> (c: RgbColor)
        ensures
            c == (RgbColor { r: 0u8, g: 0u8, b: 0u8, a: 255u8 }),
    {
        RgbColor { r: 0, g: 0, b: 0, a: 255 }
    }
}

} // verus!

use crate::ui::styles::{Origin, UiValue};

verus! {

/// Colors and border width of an element's background.
#[derive(Clone, Copy, Debug)]
pub struct BackgroundInfo {
    pub main_color: UiValue<RgbColor>,
    pub border_color: UiValue<RgbColor>,
    pub border_width: UiValue<i32>,
}

/// The initial background: white fill, black border, two pixels wide.
pub open spec fn default_background_info() -> BackgroundInfo {
    BackgroundInfo {
        main_color: UiValue::Just(RgbColor { r: 255u8, g: 255u8, b: 255u8, a: 255u8 }),
        border_color: UiValue::Just(RgbColor { r: 0u8, g: 0u8, b: 0u8, a: 255u8 }),
        border_width: UiValue::Just(2i32),
    }
}

impl Default for BackgroundInfo {
    fn default() -> (r: Self)
        ensures
            r == default_background_info(),
    {
        Self {
            main_color: UiValue::Just(RgbColor::white()),
            border_color: UiValue::Just(RgbColor::black()),
            border_width: UiValue::Just(2),
        }
    }
}

/// A plain rectangular background. Drawing itself belongs to the rendering
/// collaborator; the descriptor only selects the shape.
#[derive(Clone, Copy, Debug)]
pub struct RectangleBackground {}

impl RectangleBackground {
    pub fn new() -> (r: Self)
        ensures
            r == (RectangleBackground {  }),
    {
        Self {  }
    }
}

/// Whether a triggered background effect keeps its final state or reverts.
#[derive(Clone, Copy, Debug, PartialEq, Eq, Structural)]
pub enum FillMode {
    Keep,
    Revert,
}

/// Options handed to a background effect when it is triggered.
#[derive(Clone, Copy, Debug)]
pub struct TriggerOptions {
    pub position: Option<Origin>,
}

} // verus!
