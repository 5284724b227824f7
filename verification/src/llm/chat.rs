//! Response records of the OpenAI-compatible chat and completion API.
use vstd::prelude::*;

verus! {

/// A chat completion response.
#[derive(Debug, Clone)]
pub struct ChatResponse {
    pub id: String,
    pub model: String,
    pub choices: Vec<ChatChoice>,
    pub usage: Usage,
}

/// One choice of a chat completion.
#[derive(Debug, Clone)]
pub struct ChatChoice {
    pub index: usize,
    pub message: ChatMessage,
    pub finish_reason: String,
}

/// A chat message of the API.
#[derive(Debug, Clone)]
pub struct ChatMessage {
    pub role: String,
    pub content: String,
}

/// A text completion response.
#[derive(Debug, Clone)]
pub struct CompletionResponse {
    pub id: String,
    pub model: String,
    pub choices: Vec<CompletionChoice>,
    pub usage: Usage,
}

/// One choice of a text completion.
#[derive(Debug, Clone)]
pub struct CompletionChoice {
    pub index: usize,
    pub text: String,
    pub finish_reason: String,
}

/// Token counts of a response, where the server reports them.
#[derive(Debug, Clone)]
pub struct Usage {
    pub prompt_tokens: Option<u32>,
    pub completion_tokens: Option<u32>,
    pub total_tokens: Option<u32>,
}

impl Default for Usage {
    /// No counts reported.
    fn default() -> (u: Usage)
        ensures
            u.prompt_tokens is None,
            u.completion_tokens is None,
            u.total_tokens is None,
    {
        Usage { prompt_tokens: None, completion_tokens: None, total_tokens: None }
    }
}

} // verus!
