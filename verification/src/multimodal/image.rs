//! Image processing: the processor's embedding width and extracted features.
use vstd::prelude::*;
use crate::multimodal::{poly31_hash, poly31_hash_of};

verus! {

/// How wide an image embedding is.
pub const IMAGE_EMBEDDING_DIM: usize = 384;

/// Extracts features from images.
#[derive(Debug, Clone)]
pub struct ImageProcessor {
    /// The embedding width.
    pub embedding_dim: usize,
}

impl ImageProcessor {
    /// A processor for 384-wide embeddings.
    pub fn new() -> (p: ImageProcessor)
        ensures
            p.embedding_dim == IMAGE_EMBEDDING_DIM,
    {
        ImageProcessor { embedding_dim: IMAGE_EMBEDDING_DIM }
    }

    /// The base-31 hash of a text's UTF-8 bytes, which seeds the embedding.
    pub fn simple_hash(&self, s: &str) -> (h: u64)
        ensures
            h == poly31_hash(vstd::utf8::encode_utf8(s@)),
    {
        poly31_hash_of(s)
    }
}

impl Default for ImageProcessor {
    fn default() -> (p: ImageProcessor)
        ensures
            p.embedding_dim == IMAGE_EMBEDDING_DIM,
    {
        ImageProcessor::new()
    }
}

/// Features extracted from an image file.
#[derive(Debug, Clone)]
pub struct ImageFeatures {
    pub width: Option<u32>,
    pub height: Option<u32>,
    pub format: String,
    pub size_kb: u64,
    pub description: Option<String>,
}

} // verus!
