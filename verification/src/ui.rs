//! The UI layout and style-resolution engine.

pub mod background;
pub mod elements;
pub mod styles;
pub mod resolve;
pub mod laws;
