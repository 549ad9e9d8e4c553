//! A minimal feed-forward neural-network evaluation pipeline over exact
//! fixed-point arithmetic: dense (fully-connected) layers, ReLU and softmax
//! activations, categorical cross-entropy loss, an accuracy metric, and a
//! random-search (hill-climbing) training loop.
//!
//! Every quantity is a fixed-point number: an `i64` value `v` stands for the
//! real number `v / SCALE` (see [`fixed`]). All layer arithmetic is exact
//! integer arithmetic on these representations, so forward passes are fully
//! specified, deterministic functions.

pub mod activation;
pub mod fixed;
pub mod layer;
pub mod loss;
pub mod math;
pub mod neuron;
pub mod random;
pub mod search;
pub mod series;
