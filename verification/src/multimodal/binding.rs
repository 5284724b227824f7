//! The relations between pieces of content of different modalities.
use vstd::prelude::*;

verus! {

/// The modality of a piece of content, without its payload.
#[derive(Debug, Clone, Copy, PartialEq, Eq, Structural)]
pub enum ModalityKind {
    Text,
    Image,
    Audio,
    Dalle,
}

/// How two pieces of content relate across modalities.
#[derive(Debug, Clone, Copy, PartialEq, Eq, Structural)]
pub enum CrossModalRelation {
    /// The target was generated from the source (an image from a generation).
    GeneratedBy,
    /// The source is the prompt for the target.
    PromptFor,
    /// The target is a transcription of the source.
    Transcribed,
    /// The source was spoken as the target.
    SpokenAs,
    /// Two texts close in meaning.
    SemanticSimilarity,
    /// Two images close in look.
    VisualSimilarity,
    /// Related without a specific kind of relation.
    Associated,
}

/// The relation from a source of one modality to a target of another.
pub open spec fn relation_spec(source: ModalityKind, target: ModalityKind) -> CrossModalRelation {
    match (source, target) {
        (ModalityKind::Dalle, ModalityKind::Image) => CrossModalRelation::GeneratedBy,
        (ModalityKind::Image, ModalityKind::Dalle) => CrossModalRelation::PromptFor,
        (ModalityKind::Text, ModalityKind::Dalle) => CrossModalRelation::PromptFor,
        (ModalityKind::Audio, ModalityKind::Text) => CrossModalRelation::Transcribed,
        (ModalityKind::Text, ModalityKind::Audio) => CrossModalRelation::SpokenAs,
        (ModalityKind::Text, ModalityKind::Text) => CrossModalRelation::SemanticSimilarity,
        (ModalityKind::Image, ModalityKind::Image) => CrossModalRelation::VisualSimilarity,
        _ => CrossModalRelation::Associated,
    }
}

/// The relation from a source of one modality to a target of another.
pub fn determine_relation(source: ModalityKind, target: ModalityKind) -> (r: CrossModalRelation)
    ensures
        r == relation_spec(source, target),
{
    match (source, target) {
        (ModalityKind::Dalle, ModalityKind::Image) => CrossModalRelation::GeneratedBy,
        (ModalityKind::Image, ModalityKind::Dalle) => CrossModalRelation::PromptFor,
        (ModalityKind::Text, ModalityKind::Dalle) => CrossModalRelation::PromptFor,
        (ModalityKind::Audio, ModalityKind::Text) => CrossModalRelation::Transcribed,
        (ModalityKind::Text, ModalityKind::Audio) => CrossModalRelation::SpokenAs,
        (ModalityKind::Text, ModalityKind::Text) => CrossModalRelation::SemanticSimilarity,
        (ModalityKind::Image, ModalityKind::Image) => CrossModalRelation::VisualSimilarity,
        _ => CrossModalRelation::Associated,
    }
}

} // verus!
