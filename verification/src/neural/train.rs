//! Training losses.
use vstd::prelude::*;

verus! {

/// What a training step minimises.
#[derive(Debug, Clone, Copy, PartialEq, Eq, Structural)]
pub enum LossFunction {
    /// Mean squared error.
    MSE,
    /// Cross-entropy.
    CrossEntropy,
    /// Contrastive, for similarity learning.
    Contrastive,
    /// Hebbian: local, with no global loss.
    Hebbian,
}

} // verus!
