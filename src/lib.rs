//! Dense row-major matrices and a single-neuron forward pass, with verified
//! shape, index and layout logic.
pub mod matrix;
pub mod neuron;

pub use matrix::{Matrix, MatrixError, MatrixModel};
pub use neuron::Neuron;
