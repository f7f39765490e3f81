//! Text-decoration geometry for a character grid.
//!
//! A frame passes through three stages, each feeding the next:
//!
//! 1. [`lines::LineAggregator`] merges the decorated cells of the grid into
//!    maximal horizontal runs, one list of runs per [`flags::DecorationKind`].
//! 2. [`geometry::resolve`] places every run as one or two rectangles, using
//!    the font metrics and the cell size.
//! 3. [`rects::RectRenderer`] turns the rectangles into a triangle list in
//!    normalized device coordinates and says which buffer upload and which
//!    draw call present it.
//!
//! Lengths and positions in pixel space are fixed-point integers counting
//! 64ths of a pixel (see [`units`]), so every formula is computed exactly.

pub mod cell;
pub mod color;
pub mod flags;
pub mod geometry;
pub mod lines;
pub mod metrics;
pub mod rects;
pub mod units;

pub use cell::{DecoratedCell, Point};
pub use color::Rgb;
pub use flags::{DecorationKind, Flags};
pub use geometry::resolve;
pub use lines::{LineAggregator, Run};
pub use metrics::{Metrics, SizeInfo};
pub use rects::{GpuCommand, Ndc, RectRenderer, RectStyle, RenderRect, Vertex};
