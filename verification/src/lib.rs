//! Box-model layout: turns a styled tree into a tree of positioned boxes.
//!
//! A styled tree says, for each node, how it is displayed and which lengths
//! its style declares. From it the library builds a tree of boxes (block,
//! inline, and the anonymous blocks that wrap runs of inline content inside
//! a block) and gives every box its content, padding, border and margin
//! rectangles. All lengths are fixed-point: app units, sixty to the pixel.

pub mod boxes;
pub mod builder;
pub mod geometry;
pub mod solver;
pub mod structure;
pub mod style;
pub mod text;
pub mod units;
pub mod width;

pub use crate::boxes::{BoxType, LayoutBox};
pub use crate::geometry::{Dimensions, EdgeSizes, Rect};
pub use crate::solver::layout_tree;
