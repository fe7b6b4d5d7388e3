pub mod bits;
pub mod det;
pub mod error;
pub mod laws;
pub mod matrix;
pub mod ops;
pub mod wrap;

pub use error::MatrixError;
pub use matrix::{Mat2d, MatModel};
