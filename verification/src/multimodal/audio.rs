//! Audio processing: the processor's embedding width.
use vstd::prelude::*;
use crate::multimodal::{poly31_hash, poly31_hash_of};

verus! {

/// How wide an audio embedding is.
pub const AUDIO_EMBEDDING_DIM: usize = 256;

/// Extracts features from audio.
#[derive(Debug, Clone)]
pub struct AudioProcessor {
    /// The embedding width.
    pub embedding_dim: usize,
}

impl AudioProcessor {
    /// A processor for 256-wide embeddings.
    pub fn new() -> (p: AudioProcessor)
        ensures
            p.embedding_dim == AUDIO_EMBEDDING_DIM,
    {
        AudioProcessor { embedding_dim: AUDIO_EMBEDDING_DIM }
    }

    /// The base-31 hash of a text's UTF-8 bytes, which seeds the embedding.
    pub fn simple_hash(&self, s: &str) -> (h: u64)
        ensures
            h == poly31_hash(vstd::utf8::encode_utf8(s@)),
    {
        poly31_hash_of(s)
    }
}

impl Default for AudioProcessor {
    fn default() -> (p: AudioProcessor)
        ensures
            p.embedding_dim == AUDIO_EMBEDDING_DIM,
    {
        AudioProcessor::new()
    }
}

} // verus!
