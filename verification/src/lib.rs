//! The core of a raster image editor for the terminal: a fixed-size pixel
//! canvas, integer drawing primitives, tool sessions driven by pointer events,
//! snapshot history with undo and redo, and a compact binary image format.
//!
//! Every function here is verified against its contract. The contracts speak
//! of mathematical models: a canvas is a [`canvas::Grid`], a history a
//! [`history::Timeline`], a drawing a region of cells painted in one color.

pub mod brush;
pub mod canvas;
pub mod codec;
pub mod editor;
pub mod history;
pub mod line;
pub mod raster;
pub mod render;
pub mod session;
