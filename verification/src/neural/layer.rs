//! Kinds of layer computation.
use vstd::prelude::*;

verus! {

/// How a layer computes.
#[derive(Debug, Clone, Copy, PartialEq, Eq, Structural)]
pub enum LayerType {
    /// Fully connected.
    Dense,
    /// Echo-state reservoir.
    Reservoir,
    /// Gated, LSTM-like.
    Gated,
    /// Attention-weighted.
    Attention,
    /// Graph convolution.
    GraphConv,
}

} // verus!
