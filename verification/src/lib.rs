//! A small linear-regression library over fixed-point scalars.
//!
//! Feature matrices, labels, model weights and normalization statistics are
//! all fixed-point numbers (`i64` scaled by `fixed::SCALE`), so every step of
//! standardization, prediction, loss and gradient descent is specified and
//! verified as exact integer arithmetic.

pub use error::RegressionError;
pub use linear_regression::LinearRegression;
pub use split::train_test_split;

pub mod error;
pub mod fixed;
pub mod laws;
pub mod linear_regression;
pub mod math;
pub(crate) mod rng;
pub mod split;
