//! Stand-alone fixed-point vector and matrix operations: creation helpers
//! and the elementwise and inner-product arithmetic the layers are built
//! from.

pub mod creation;
pub mod operations;
