//! Message shapes, conversation conversion and cost estimation for the
//! OpenAI chat-completions API.

use vstd::prelude::*;

use vstd::string::StringExecFns;

use crate::extraction::{ExtractionContext, build_extraction_prompt, extraction_prompt_text};

verus! {

broadcast use vstd::seq::group_seq_axioms;

/// A message in the provider's wire format.
pub struct OpenAiMessage {
    /// The sender's role: "system", "user" or "assistant".
    pub role: String,
    /// The message text.
    pub content: String,
}

/// The response format request: "json_object" asks for JSON output.
pub struct ResponseFormat {
    pub format_type: String,
}

/// The provider's response to a chat completion request.
pub struct ChatCompletionResponse {
    pub id: String,
    pub model: String,
    pub choices: Vec<Choice>,
    pub usage: Option<Usage>,
}

/// One choice of the response.
pub struct Choice {
    pub index: u32,
    pub message: ChoiceMessage,
    pub finish_reason: Option<String>,
}

/// The message of a choice.
pub struct ChoiceMessage {
    pub role: Option<String>,
    pub content: Option<String>,
}

/// Token usage reported by the provider.
pub struct Usage {
    pub prompt_tokens: u32,
    pub completion_tokens: u32,
    pub total_tokens: u32,
}

/// The provider's error response.
pub struct OpenAiError {
    pub error: ErrorDetails,
}

/// Details of a provider error.
pub struct ErrorDetails {
    pub error_type: Option<String>,
    pub message: String,
}

/// The provider's per-token rates in nano-dollars: input and output.
pub open spec fn openai_rates(model: Seq<char>) -> (int, int) {
    if model == "gpt-4"@ {
        (30_000int, 60_000int)
    } else if model == "gpt-4-turbo"@ {
        (10_000int, 30_000int)
    } else if model == "gpt-3.5-turbo"@ {
        (1_000int, 2_000int)
    } else {
        (10_000int, 30_000int)
    }
}

/// The estimated cost of a call in nano-dollars, from the model's per-token
/// rates and the reported token usage.
pub fn calculate_cost(model: &str, usage: &Usage) -> (r: u64)
    ensures
        r == usage.prompt_tokens * openai_rates(model@).0 + usage.completion_tokens * openai_rates(
            model@,
        ).1,
{
    let (input_rate, output_rate): (u64, u64) = if crate::ext::str_eq(model, "gpt-4") {
        (30_000, 60_000)
    } else if crate::ext::str_eq(model, "gpt-4-turbo") {
        (10_000, 30_000)
    } else if crate::ext::str_eq(model, "gpt-3.5-turbo") {
        (1_000, 2_000)
    } else {
        (10_000, 30_000)
    };
    usage.prompt_tokens as u64 * input_rate + usage.completion_tokens as u64 * output_rate
}

/// Converts a conversation to the provider's format: the extraction prompt as
/// the leading system message, then each message with its role carried over.
pub fn convert_messages(context: &ExtractionContext) -> (r: Vec<OpenAiMessage>)
    ensures
        r@.len() == context.messages@.len() + 1,
        r@[0].role@ == "system"@,
        r@[0].content@ == extraction_prompt_text(
            match context.system_prompt {
                Some(ref s) => Some(s@),
                None => None,
            },
        ),
        forall|i: int|
            0 <= i < context.messages@.len() ==> {
                let msg = #[trigger] context.messages@[i];
                &&& r@[i + 1].role@ == msg.role@
                &&& r@[i + 1].content@ == msg.content@
            },
{
    let system_prompt = build_extraction_prompt(context);
    let mut messages: Vec<OpenAiMessage> = Vec::new();
    messages.push(OpenAiMessage { role: String::from_str("system"), content: system_prompt });
    let mut i: usize = 0;
    while i < context.messages.len()
        invariant
            0 <= i <= context.messages@.len(),
            messages@.len() == i + 1,
            messages@[0].role@ == "system"@,
            messages@[0].content@ == extraction_prompt_text(
                match context.system_prompt {
                    Some(ref s) => Some(s@),
                    None => None,
                },
            ),
            forall|j: int|
                0 <= j < i ==> {
                    let msg = #[trigger] context.messages@[j];
                    &&& messages@[j + 1].role@ == msg.role@
                    &&& messages@[j + 1].content@ == msg.content@
                },
        decreases context.messages@.len() - i,
    {
        let msg = &context.messages[i];
        messages.push(
            OpenAiMessage { role: msg.role.clone(), content: msg.content.clone() },
        );
        i += 1;
    }
    messages
}

} // verus!
