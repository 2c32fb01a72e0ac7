//! Renders an RGBA raster into a rectangle of character cells.

pub mod geometry;
pub mod pixels;
pub mod cells;
pub mod render;

pub use cells::{Cell, CellBuffer, Color, Style};
pub use geometry::{Alignment, Rect};
pub use pixels::{PixelBuffer, Rgba};
pub use render::{ColorMode, Image, ImageSource};
