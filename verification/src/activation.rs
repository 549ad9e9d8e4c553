//! Activation functions: pointwise or per-row transforms applied to a
//! dense layer's output.

pub mod relu;
pub mod softmax;
