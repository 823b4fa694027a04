//! A small feed-forward neural network that is trained by finite differences.
//!
//! Every number of the network is a single-precision value held by its
//! IEEE-754 bit pattern. The library decides which numbers meet in which
//! operation and in which order; the operations themselves are carried out
//! by an arithmetic unit that the caller hands in.

pub mod activation;
pub mod arithmetic;
pub mod data_point;
pub mod error;
pub mod gradient_descent;
pub mod layer;
pub mod neural_network;
pub mod number;
pub mod random;
pub mod training;
