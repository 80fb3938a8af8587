//! Message shapes, conversation conversion and cost estimation for the
//! Anthropic Messages API.

use vstd::prelude::*;

use vstd::string::StringExecFns;

use crate::extraction::{ExtractionContext, build_extraction_prompt, extraction_prompt_text};

verus! {

broadcast use vstd::seq::group_seq_axioms;

/// One content part of a message.
pub struct Content {
    /// The part's type tag; "text" for plain text.
    pub content_type: String,
    /// The text itself.
    pub text: String,
}

/// A message in the provider's wire format.
pub struct Message {
    /// The sender's role: "user" or "assistant".
    pub role: String,
    /// The message's content parts.
    pub content: Vec<Content>,
}

impl Message {
    /// A user message holding one text part.
    pub fn new_user(text: String) -> (r: Self)
        ensures
            r.role@ == "user"@,
            r.content@.len() == 1,
            r.content@[0].content_type@ == "text"@,
            r.content@[0].text@ == text@,
    {
        let mut content: Vec<Content> = Vec::new();
        content.push(Content { content_type: String::from_str("text"), text });
        Message { role: String::from_str("user"), content }
    }

    /// An assistant message holding one text part.
    pub fn new_assistant(text: String) -> (r: Self)
        ensures
            r.role@ == "assistant"@,
            r.content@.len() == 1,
            r.content@[0].content_type@ == "text"@,
            r.content@[0].text@ == text@,
    {
        let mut content: Vec<Content> = Vec::new();
        content.push(Content { content_type: String::from_str("text"), text });
        Message { role: String::from_str("assistant"), content }
    }
}

/// The response format request: "json_object" asks for JSON output.
pub struct ResponseFormat {
    pub format_type: String,
}

/// The provider's response to a message request.
pub struct MessageResponse {
    pub id: String,
    pub model: String,
    pub content: Vec<ContentResponse>,
    pub usage: Option<Usage>,
}

/// One content part of a response.
pub struct ContentResponse {
    pub content_type: String,
    pub text: String,
}

/// Token usage reported by the provider.
pub struct Usage {
    pub input_tokens: u32,
    pub output_tokens: u32,
}

/// The provider's error response.
pub struct AnthropicError {
    pub error: ErrorDetails,
}

/// Details of a provider error.
pub struct ErrorDetails {
    pub error_type: String,
    pub message: String,
}

/// The provider's per-token rates in nano-dollars by model tier: input and
/// output.
pub open spec fn anthropic_rates(model: Seq<char>) -> (int, int) {
    if model == "opus-tier"@ {
        (15_000int, 75_000int)
    } else if model == "sonnet-tier"@ {
        (3_000int, 15_000int)
    } else if model == "haiku-tier"@ {
        (250int, 1_250int)
    } else {
        (3_000int, 15_000int)
    }
}

/// The estimated cost of a call in nano-dollars, from the model's per-token
/// rates and the reported token usage.
pub fn calculate_cost(model: &str, usage: &Usage) -> (r: u64)
    ensures
        r == usage.input_tokens * anthropic_rates(model@).0 + usage.output_tokens * anthropic_rates(
            model@,
        ).1,
{
    let (input_rate, output_rate): (u64, u64) = if crate::ext::str_eq(model, "opus-tier") {
        (15_000, 75_000)
    } else if crate::ext::str_eq(model, "sonnet-tier") {
        (3_000, 15_000)
    } else if crate::ext::str_eq(model, "haiku-tier") {
        (250, 1_250)
    } else {
        (3_000, 15_000)
    };
    usage.input_tokens as u64 * input_rate + usage.output_tokens as u64 * output_rate
}

/// Converts a conversation to the provider's format: the extraction prompt as
/// the system text, then each message mapped role for role, any unknown role
/// reading as "user".
pub fn convert_messages(context: &ExtractionContext) -> (r: (Option<String>, Vec<Message>))
    ensures
        r.0 matches Some(p) && p@ == extraction_prompt_text(
            match context.system_prompt {
                Some(ref s) => Some(s@),
                None => None,
            },
        ),
        r.1@.len() == context.messages@.len(),
        forall|i: int|
            0 <= i < context.messages@.len() ==> {
                let msg = #[trigger] context.messages@[i];
                let out = r.1@[i];
                &&& out.role@ == (if msg.role@ == "assistant"@ {
                    "assistant"@
                } else {
                    "user"@
                })
                &&& out.content@.len() == 1
                &&& out.content@[0].text@ == msg.content@
            },
{
    let system_prompt = build_extraction_prompt(context);
    let mut messages: Vec<Message> = Vec::new();
    let mut i: usize = 0;
    while i < context.messages.len()
        invariant
            0 <= i <= context.messages@.len(),
            messages@.len() == i,
            forall|j: int|
                0 <= j < i ==> {
                    let msg = #[trigger] context.messages@[j];
                    let out = messages@[j];
                    &&& out.role@ == (if msg.role@ == "assistant"@ {
                        "assistant"@
                    } else {
                        "user"@
                    })
                    &&& out.content@.len() == 1
                    &&& out.content@[0].text@ == msg.content@
                },
        decreases context.messages@.len() - i,
    {
        let msg = &context.messages[i];
        if crate::ext::str_eq(msg.role.as_str(), "assistant") {
            messages.push(Message::new_assistant(msg.content.clone()));
        } else {
            messages.push(Message::new_user(msg.content.clone()));
        }
        i += 1;
    }
    (Some(system_prompt), messages)
}

} // verus!
