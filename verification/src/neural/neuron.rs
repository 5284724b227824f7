//! Neuron identifiers and the kinds of connections and activations.
use vstd::prelude::*;
use crate::text::string_of;

verus! {

/// The name of a neuron.
#[derive(Debug, Clone, PartialEq, Eq, Hash)]
pub struct NeuronId(pub String);

impl NeuronId {
    /// The neuron called `name`.
    pub fn new(name: &str) -> (id: NeuronId)
        ensures
            id.0@ == name@,
    {
        NeuronId(string_of(name))
    }

    /// The neuron's name, as it is displayed.
    pub fn to_text(&self) -> (s: String)
        ensures
            s@ == self.0@,
    {
        string_of(self.0.as_str())
    }
}

/// How a connection acts on the signal it carries.
#[derive(Debug, Clone, Copy, PartialEq, Eq, Structural)]
pub enum ConnectionType {
    /// Positive weight: amplifies.
    Excitatory,
    /// Negative weight: suppresses.
    Inhibitory,
    /// Modulates gain.
    Modulatory,
    /// Feeds back into the same neuron.
    Recurrent,
}

/// A neuron's activation function.
#[derive(Debug, Clone, Copy, PartialEq, Eq, Structural)]
pub enum Activation {
    Sigmoid,
    Tanh,
    ReLU,
    Softmax,
    Identity,
}

} // verus!
