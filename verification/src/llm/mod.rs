//! Language-model plumbing: chat messages and the prompt layout of the local
//! model, the HTTP client configurations and the OpenAI-compatible records.
pub mod candle_loader;
pub mod chat;
pub mod client;
pub mod http_llm;
pub mod polish;

use vstd::prelude::*;
use crate::text::{concat2, concat3, join_lines, str_eq, string_of, trim_seq, trim_str};

verus! {

broadcast use vstd::string::group_string_axioms;

/// One chat message: who speaks and what is said.
#[derive(Debug, Clone)]
pub struct ChatMessage {
    pub role: String,
    pub content: String,
}

impl ChatMessage {
    /// A message from the system.
    pub fn system(content: &str) -> (m: ChatMessage)
        ensures
            m.role@ == "system"@,
            m.content@ == content@,
    {
        ChatMessage { role: string_of("system"), content: string_of(content) }
    }

    /// A message from the user.
    pub fn user(content: &str) -> (m: ChatMessage)
        ensures
            m.role@ == "user"@,
            m.content@ == content@,
    {
        ChatMessage { role: string_of("user"), content: string_of(content) }
    }

    /// A message from the assistant.
    pub fn assistant(content: &str) -> (m: ChatMessage)
        ensures
            m.role@ == "assistant"@,
            m.content@ == content@,
    {
        ChatMessage { role: string_of("assistant"), content: string_of(content) }
    }
}

/// The prompt line of one message: a capitalised speaker label for the
/// system, the user and the assistant, the role itself otherwise, then a
/// colon, a space and the trimmed content.
pub open spec fn prompt_line(role: Seq<char>, content: Seq<char>) -> Seq<char> {
    let body = trim_seq(content);
    if role == "system"@ {
        "System: "@ + body
    } else if role == "user"@ {
        "User: "@ + body
    } else if role == "assistant"@ {
        "Assistant: "@ + body
    } else {
        role + ": "@ + body
    }
}

/// The prompt lines of the first `n` messages.
pub open spec fn prompt_lines(messages: Seq<ChatMessage>, n: int) -> Seq<Seq<char>> {
    Seq::new(n as nat, |i: int| prompt_line(messages[i].role@, messages[i].content@))
}

/// The local model's prompt for a conversation: one line per message.
pub open spec fn bonsai_prompt(messages: Seq<ChatMessage>) -> Seq<char> {
    join_lines(prompt_lines(messages, messages.len() as int))
}

/// The prompt line of one message.
fn prompt_line_exec(m: &ChatMessage) -> (r: String)
    ensures
        r@ == prompt_line(m.role@, m.content@),
{
    let body = trim_str(m.content.as_str());
    let role = m.role.as_str();
    if str_eq(role, "system") {
        concat2("System: ", body.as_str())
    } else if str_eq(role, "user") {
        concat2("User: ", body.as_str())
    } else if str_eq(role, "assistant") {
        concat2("Assistant: ", body.as_str())
    } else {
        concat3(role, ": ", body.as_str())
    }
}

/// The local model's prompt for a conversation: one line per message, joined
/// by newlines.
pub fn build_bonsai_prompt(messages: &[ChatMessage]) -> (r: String)
    ensures
        r@ == bonsai_prompt(messages@),
{
    let mut r = String::new();
    let mut i: usize = 0;
    while i < messages.len()
        invariant
            i <= messages@.len(),
            r@ == join_lines(prompt_lines(messages@, i as int)),
        decreases messages@.len() - i,
    {
        let line = prompt_line_exec(&messages[i]);
        let ghost before = r@;
        if i > 0 {
            r.append("\n");
        }
        r.append(line.as_str());
        proof {
            let next = prompt_lines(messages@, i + 1);
            assert(next.drop_last() =~= prompt_lines(messages@, i as int));
            assert(next.last() == line@);
            if i == 0 {
                assert(before =~= Seq::<char>::empty());
                assert(r@ =~= line@);
            } else {
                assert(r@ =~= before + "\n"@ + line@);
            }
        }
        i = i + 1;
    }
    assert(prompt_lines(messages@, messages@.len() as int) =~= prompt_lines(
        messages@,
        messages@.len() as int,
    ));
    r
}

} // verus!
