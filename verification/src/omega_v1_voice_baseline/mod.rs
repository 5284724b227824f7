//! The frozen voice baseline: the corpus's style and intent names, and the
//! text measures of the outputs.
pub mod metrics;

use vstd::prelude::*;
use crate::omega_v1f2_shadow::ResponseIntent;
use crate::text::{concat2, str_eq};

verus! {

broadcast use vstd::string::group_string_axioms;

/// A response style a corpus profile names.
#[derive(Debug, Clone, Copy, PartialEq, Eq, Structural)]
pub enum ResponseStyle {
    Direct,
    Warm,
    Playful,
    Curious,
    Analytical,
    Minimal,
}

/// The style a corpus name stands for, if any.
pub open spec fn style_named(value: Seq<char>) -> Option<ResponseStyle> {
    if value == "direct"@ {
        Some(ResponseStyle::Direct)
    } else if value == "warm"@ {
        Some(ResponseStyle::Warm)
    } else if value == "playful"@ {
        Some(ResponseStyle::Playful)
    } else if value == "curious"@ {
        Some(ResponseStyle::Curious)
    } else if value == "analytical"@ {
        Some(ResponseStyle::Analytical)
    } else if value == "minimal"@ {
        Some(ResponseStyle::Minimal)
    } else {
        None
    }
}

/// The style a corpus name stands for; an unknown name is refused.
pub fn parse_style(value: &str) -> (r: Result<ResponseStyle, String>)
    ensures
        match style_named(value@) {
            Some(s) => r == Ok::<ResponseStyle, String>(s),
            None => r matches Err(e) && e@ == "unknown ΩV1-A style "@ + value@,
        },
{
    if str_eq(value, "direct") {
        Ok(ResponseStyle::Direct)
    } else if str_eq(value, "warm") {
        Ok(ResponseStyle::Warm)
    } else if str_eq(value, "playful") {
        Ok(ResponseStyle::Playful)
    } else if str_eq(value, "curious") {
        Ok(ResponseStyle::Curious)
    } else if str_eq(value, "analytical") {
        Ok(ResponseStyle::Analytical)
    } else if str_eq(value, "minimal") {
        Ok(ResponseStyle::Minimal)
    } else {
        Err(concat2("unknown ΩV1-A style ", value))
    }
}

/// The response intent a corpus name stands for, if any.
pub open spec fn intent_named(value: Seq<char>) -> Option<ResponseIntent> {
    if value == "self_check"@ {
        Some(ResponseIntent::SelfCheck)
    } else if value == "reflection"@ {
        Some(ResponseIntent::Reflection)
    } else if value == "research_status"@ {
        Some(ResponseIntent::ResearchStatus)
    } else if value == "curiosity_check"@ {
        Some(ResponseIntent::CuriosityCheck)
    } else if value == "identity"@ {
        Some(ResponseIntent::Identity)
    } else if value == "consciousness"@ {
        Some(ResponseIntent::Consciousness)
    } else if value == "capability"@ {
        Some(ResponseIntent::Capability)
    } else if value == "story_prompt"@ {
        Some(ResponseIntent::StoryPrompt)
    } else if value == "recall"@ {
        Some(ResponseIntent::Recall)
    } else if value == "emotional"@ {
        Some(ResponseIntent::Emotional)
    } else if value == "teaching"@ {
        Some(ResponseIntent::Teaching)
    } else if value == "aspiration"@ {
        Some(ResponseIntent::Aspiration)
    } else if value == "statement"@ {
        Some(ResponseIntent::Statement)
    } else if value == "unknown"@ {
        Some(ResponseIntent::Unknown)
    } else {
        None
    }
}

/// The response intent a corpus name stands for; an unknown name is refused.
pub fn parse_intent(value: &str) -> (r: Result<ResponseIntent, String>)
    ensures
        match intent_named(value@) {
            Some(i) => r == Ok::<ResponseIntent, String>(i),
            None => r matches Err(e) && e@ == "unknown ΩV1-A intent "@ + value@,
        },
{
    if str_eq(value, "self_check") {
        Ok(ResponseIntent::SelfCheck)
    } else if str_eq(value, "reflection") {
        Ok(ResponseIntent::Reflection)
    } else if str_eq(value, "research_status") {
        Ok(ResponseIntent::ResearchStatus)
    } else if str_eq(value, "curiosity_check") {
        Ok(ResponseIntent::CuriosityCheck)
    } else if str_eq(value, "identity") {
        Ok(ResponseIntent::Identity)
    } else if str_eq(value, "consciousness") {
        Ok(ResponseIntent::Consciousness)
    } else if str_eq(value, "capability") {
        Ok(ResponseIntent::Capability)
    } else if str_eq(value, "story_prompt") {
        Ok(ResponseIntent::StoryPrompt)
    } else if str_eq(value, "recall") {
        Ok(ResponseIntent::Recall)
    } else if str_eq(value, "emotional") {
        Ok(ResponseIntent::Emotional)
    } else if str_eq(value, "teaching") {
        Ok(ResponseIntent::Teaching)
    } else if str_eq(value, "aspiration") {
        Ok(ResponseIntent::Aspiration)
    } else if str_eq(value, "statement") {
        Ok(ResponseIntent::Statement)
    } else if str_eq(value, "unknown") {
        Ok(ResponseIntent::Unknown)
    } else {
        Err(concat2("unknown ΩV1-A intent ", value))
    }
}

} // verus!
