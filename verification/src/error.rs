//! The conditions that the library checks and reports.

use vstd::prelude::*;

verus! {

/// Why the library refused to do what it was asked.
#[derive(Clone, Copy, PartialEq, Eq, Debug, Structural)]
pub enum NetworkError {
    /// A vector does not have the length that a layer or the network
    /// expects.
    ShapeMismatch,
    /// A label is not below the number of classes.
    LabelOutOfRange,
    /// The step width of a finite difference is zero.
    DegenerateStep,
}

} // verus!
