//! Errors that the regression engine reports at the boundary of each
//! operation: operands whose shapes disagree, or inputs with no samples.

use vstd::prelude::*;

verus! {

/// Why a fit, train-step helper, predict or split call was rejected.
#[derive(Clone, Copy, Debug, PartialEq, Eq, Structural)]
pub enum RegressionError {
    /// A feature matrix or label vector was empty where at least one sample
    /// (and at least one feature) is required.
    EmptyInput,
    /// Sample counts or feature widths of the operands disagree.
    ShapeMismatch,
}

impl RegressionError {
    /// A short human-readable description of the failed check.
    pub fn describe(&self) -> (r: &'static str)
        ensures
            self is EmptyInput ==> r@ == "empty input: at least one sample and one feature are required"@,
            self is ShapeMismatch ==> r@ == "shape mismatch: sample counts or feature widths disagree"@,
    {
        match self {
            RegressionError::EmptyInput => "empty input: at least one sample and one feature are required",
            RegressionError::ShapeMismatch => "shape mismatch: sample counts or feature widths disagree",
        }
    }
}

} // verus!
