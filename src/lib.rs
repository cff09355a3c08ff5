//! Exact integer coordinate arithmetic for robust 2D geometry: the power-of-two
//! scale that maps real coordinates onto a bounded integer grid, fixed-point
//! scalars and vectors, an exact 64x64 -> 128 bit multiply, an order-preserving
//! key for integer points, and sign-based orientation and containment tests.

pub mod adapter;
pub mod bit_pack;
pub mod fix_angle;
pub mod fix_float;
pub mod fix_vec;
pub mod float;
pub mod grid;
pub mod triangle;
pub mod u128;
