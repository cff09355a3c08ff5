//! Points with two coordinates of any copyable type.

pub mod compatible;
