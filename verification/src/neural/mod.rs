//! Neural modules: identifiers, connection and activation kinds, layer kinds,
//! training losses, and the order a network runs its neurons in.
pub mod layer;
pub mod network;
pub mod neuron;
pub mod train;
