//! What the header of a GGUF model file tells about its tensors.
use vstd::prelude::*;
use std::collections::HashMap;

verus! {

/// The tensor index of a GGUF file.
#[derive(Debug)]
pub struct GgufMetadata {
    pub gguf_version: String,
    pub total_tensors: usize,
    pub q1_0_g128_count: usize,
    pub q1_0_g128_tensors: Vec<TensorInfo>,
    pub other_dtypes: HashMap<String, usize>,
    pub tensor_data_offset: u64,
}

/// A tensor's name and shape.
#[derive(Debug, Clone)]
pub struct TensorInfo {
    pub name: String,
    pub shape: Vec<usize>,
}

} // verus!
