//! A client of a remote llm-server: its configuration and the polish request.
//! The requests themselves are sent by the application.
use vstd::prelude::*;
use std::time::Duration;
use crate::llm::client::{duration_from_secs, seconds, DEFAULT_TIMEOUT_SECS};
use crate::text::{concat2, string_of};

verus! {

/// Where the remote llm-server listens unless configured otherwise.
pub const DEFAULT_LLM_ENDPOINT: &'static str = "http://127.0.0.1:8081";

/// The model name sent with each request.
pub const REMOTE_MODEL: &'static str = "bonzai-8b";

/// The token budget of a polish request.
pub const POLISH_MAX_TOKENS: u32 = 512;

/// The token budget of a request that names none.
pub const DEFAULT_MAX_TOKENS: u32 = 256;

/// The system prompt of a polish request.
pub const POLISH_SYSTEM_PROMPT: &'static str = "You are a text polish engine. Rewrite the following text to be more fluent and natural-sounding while preserving all factual content. Be concise. Do not add new information.";

/// The remote server's base URL and the request timeout.
#[derive(Debug, Clone)]
pub struct ClientConfig {
    pub base_url: String,
    pub timeout: Duration,
}

impl Default for ClientConfig {
    /// The default endpoint with the default timeout.
    fn default() -> (c: ClientConfig)
        ensures
            c.base_url@ == DEFAULT_LLM_ENDPOINT@,
            c.timeout == duration_from_secs(DEFAULT_TIMEOUT_SECS),
    {
        ClientConfig {
            base_url: string_of(DEFAULT_LLM_ENDPOINT),
            timeout: seconds(DEFAULT_TIMEOUT_SECS),
        }
    }
}

impl ClientConfig {
    /// A server at `base_url` with the default timeout.
    pub fn new(base_url: &str) -> (c: ClientConfig)
        ensures
            c.base_url@ == base_url@,
            c.timeout == duration_from_secs(DEFAULT_TIMEOUT_SECS),
    {
        ClientConfig { base_url: string_of(base_url), timeout: seconds(DEFAULT_TIMEOUT_SECS) }
    }

    /// The completions endpoint.
    pub fn completions_url(&self) -> (u: String)
        ensures
            u@ == self.base_url@ + "/v1/completions"@,
    {
        concat2(self.base_url.as_str(), "/v1/completions")
    }

    /// The chat completions endpoint.
    pub fn chat_url(&self) -> (u: String)
        ensures
            u@ == self.base_url@ + "/v1/chat/completions"@,
    {
        concat2(self.base_url.as_str(), "/v1/chat/completions")
    }

    /// The health endpoint.
    pub fn health_url(&self) -> (u: String)
        ensures
            u@ == self.base_url@ + "/health"@,
    {
        concat2(self.base_url.as_str(), "/health")
    }
}

/// A client of a remote llm-server.
#[derive(Debug, Clone)]
pub struct HttpLlmClient {
    config: ClientConfig,
}

/// One chat message of the remote API.
#[derive(Debug, Clone)]
pub struct HttpChatMsg {
    pub role: String,
    pub content: String,
}

impl HttpLlmClient {
    /// A client of the server at `base_url`, with the default timeout.
    pub fn new(base_url: &str) -> (c: HttpLlmClient)
        ensures
            c.config().base_url@ == base_url@,
            c.config().timeout == duration_from_secs(DEFAULT_TIMEOUT_SECS),
    {
        HttpLlmClient { config: ClientConfig::new(base_url) }
    }

    /// The client's configuration.
    pub closed spec fn config(&self) -> ClientConfig {
        self.config
    }

    /// The client's configuration, for the code that sends its requests.
    pub fn settings(&self) -> (c: &ClientConfig)
        ensures
            *c == self.config(),
    {
        &self.config
    }

    /// The messages of a polish request for `rough_text`: the polish system
    /// prompt, then the text as the user's message.
    pub fn polish_messages(rough_text: &str) -> (m: Vec<HttpChatMsg>)
        ensures
            m@.len() == 2,
            m@[0].role@ == "system"@,
            m@[0].content@ == POLISH_SYSTEM_PROMPT@,
            m@[1].role@ == "user"@,
            m@[1].content@ == rough_text@,
    {
        let mut m: Vec<HttpChatMsg> = Vec::new();
        m.push(HttpChatMsg { role: string_of("system"), content: string_of(POLISH_SYSTEM_PROMPT) });
        m.push(HttpChatMsg { role: string_of("user"), content: string_of(rough_text) });
        m
    }
}

/// The text a request returns: that of its first choice, or nothing when the
/// server returned no choice.
pub fn first_choice_text(choices: &[String]) -> (r: String)
    ensures
        choices@.len() == 0 ==> r@ == Seq::<char>::empty(),
        choices@.len() > 0 ==> r@ == choices@[0]@,
{
    if choices.len() == 0 {
        String::new()
    } else {
        string_of(choices[0].as_str())
    }
}

} // verus!
