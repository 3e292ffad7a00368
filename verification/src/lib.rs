//! Verified core of a UI layout and style-resolution engine.
//!
//! The crate turns a declarative per-element style sheet into concrete pixel
//! geometry for a tree of UI elements: position, content/box/bounding
//! rectangles, physical-unit conversion, style inheritance up the parent
//! chain, auto-sizing driven by measured content, directional flow packing,
//! cross-axis child alignment, and absolute-vs-relative positioning combined
//! with rotation-origin anchoring.
//!
//! GPU backends, windowing, asset loading, rasterization and the animation
//! scheduler are external collaborators and are out of scope here.

pub mod resources;
pub mod ui;
