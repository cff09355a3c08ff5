//! Points and rectangles on the signed 32-bit integer grid.

pub mod point;
pub mod rect;
