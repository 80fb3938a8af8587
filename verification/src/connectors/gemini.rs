//! Content shapes, conversation conversion, endpoint selection and cost
//! estimation for the Gemini content-generation API.

use vstd::prelude::*;

use vstd::string::StringExecFns;

use crate::extraction::{ExtractionContext, build_extraction_prompt, extraction_prompt_text};

verus! {

broadcast use vstd::seq::group_seq_axioms;

/// One text part of a content.
pub struct Part {
    pub text: String,
}

/// Mathematical model of a content block: its role and the text of its parts.
pub struct ContentView {
    pub role: Option<Seq<char>>,
    pub parts: Seq<Seq<char>>,
}

/// A content block in the provider's wire format.
pub struct Content {
    /// The content's parts.
    pub parts: Vec<Part>,
    /// The sender's role: "user" or "model".
    pub role: Option<String>,
}

impl View for Content {
    type V = ContentView;

    open spec fn view(&self) -> ContentView {
        ContentView {
            role: match self.role {
                Some(ref r) => Some(r@),
                None => None,
            },
            parts: Seq::new(
                self.parts@.len(),
                |i: int|
                    if 0 <= i < self.parts@.len() {
                        self.parts@[i].text@
                    } else {
                        Seq::empty()
                    },
            ),
        }
    }
}

impl Content {
    /// A user content holding one text part.
    pub fn new_user(text: String) -> (r: Self)
        ensures
            r@ == (ContentView { role: Some("user"@), parts: seq![text@] }),
    {
        let mut parts: Vec<Part> = Vec::new();
        parts.push(Part { text });
        let r = Content { parts, role: Some(String::from_str("user")) };
        proof {
            assert(r@.parts =~= seq![r.parts@[0].text@]);
        }
        r
    }

    /// A model content holding one text part.
    pub fn new_model(text: String) -> (r: Self)
        ensures
            r@ == (ContentView { role: Some("model"@), parts: seq![text@] }),
    {
        let mut parts: Vec<Part> = Vec::new();
        parts.push(Part { text });
        let r = Content { parts, role: Some(String::from_str("model")) };
        proof {
            assert(r@.parts =~= seq![r.parts@[0].text@]);
        }
        r
    }
}

/// The model of a conversation message once converted: "assistant" reads as
/// "model", any other role as "user".
pub open spec fn mapped_content(m: crate::extraction::LlmMessage) -> ContentView {
    ContentView {
        role: Some(
            if m.role@ == "assistant"@ {
                "model"@
            } else {
                "user"@
            },
        ),
        parts: seq![m.content@],
    }
}

/// Element-wise model of a content vector.
pub open spec fn content_views(v: Seq<Content>) -> Seq<ContentView> {
    Seq::new(
        v.len(),
        |i: int|
            if 0 <= i < v.len() {
                v[i]@
            } else {
                ContentView { role: None, parts: Seq::empty() }
            },
    )
}

/// The model of a whole converted conversation: the extraction prompt as the
/// first user content, then each message mapped role for role.
pub open spec fn converted_contents(
    messages: Seq<crate::extraction::LlmMessage>,
    system_prompt: Option<Seq<char>>,
) -> Seq<ContentView> {
    Seq::new(
        messages.len() + 1,
        |i: int|
            if i == 0 {
                ContentView { role: Some("user"@), parts: seq![extraction_prompt_text(system_prompt)] }
            } else if 1 <= i <= messages.len() {
                mapped_content(messages[i - 1])
            } else {
                ContentView { role: None, parts: Seq::empty() }
            },
    )
}

/// A safety setting sent with a request.
pub struct SafetySetting {
    pub category: String,
    pub threshold: String,
}

/// The provider's response to a content request.
pub struct ContentResponse {
    pub candidates: Vec<Candidate>,
    pub usage_metadata: Option<UsageMetadata>,
}

/// One candidate answer.
pub struct Candidate {
    pub content: ContentResult,
    pub finish_reason: Option<String>,
    pub safety_ratings: Option<Vec<SafetyRating>>,
}

/// The content of a candidate.
pub struct ContentResult {
    pub parts: Vec<PartResult>,
    pub role: Option<String>,
}

/// One text part of a candidate.
pub struct PartResult {
    pub text: String,
}

/// A safety rating attached to a candidate.
pub struct SafetyRating {
    pub category: String,
    pub probability: String,
}

/// Token usage reported by the provider.
pub struct UsageMetadata {
    pub prompt_token_count: u32,
    pub candidates_token_count: u32,
    pub total_token_count: u32,
}

/// The provider's error response.
pub struct GeminiError {
    pub error: ErrorDetails,
}

/// Details of a provider error.
pub struct ErrorDetails {
    pub code: u32,
    pub message: String,
    pub status: String,
}

/// The provider's per-token rates in nano-dollars: input and output.
pub open spec fn gemini_rates(model: Seq<char>) -> (int, int) {
    if model == "gemini-pro"@ {
        (1_250int, 3_750int)
    } else if model == "gemini-ultra"@ {
        (8_750int, 26_250int)
    } else {
        (1_250int, 3_750int)
    }
}

/// The estimated cost of a call in nano-dollars, from the model's per-token
/// rates and the reported token usage.
pub fn calculate_cost(model: &str, usage: &UsageMetadata) -> (r: u64)
    ensures
        r == usage.prompt_token_count * gemini_rates(model@).0 + usage.candidates_token_count
            * gemini_rates(model@).1,
{
    let (input_rate, output_rate): (u64, u64) = if crate::ext::str_eq(model, "gemini-pro") {
        (1_250, 3_750)
    } else if crate::ext::str_eq(model, "gemini-ultra") {
        (8_750, 26_250)
    } else {
        (1_250, 3_750)
    };
    usage.prompt_token_count as u64 * input_rate + usage.candidates_token_count as u64 * output_rate
}

/// The endpoint for content generation: project-scoped when a project id is
/// configured, model-scoped otherwise.
pub fn build_api_url(api_base: &str, model: &str, project_id: Option<&String>) -> (r: String)
    ensures
        r@ == match project_id {
            Some(p) => api_base@ + "/projects/"@ + p@ + "/models/"@ + model@
                + ":generateContent"@,
            None => api_base@ + "/models/"@ + model@ + ":generateContent"@,
        },
{
    match project_id {
        Some(p) => String::from_str(api_base).concat("/projects/").concat(p.as_str()).concat(
            "/models/",
        ).concat(model).concat(":generateContent"),
        None => String::from_str(api_base).concat("/models/").concat(model).concat(
            ":generateContent",
        ),
    }
}

/// Converts a conversation to the provider's format: the extraction prompt
/// as the first user content, then each message mapped role for role.
pub fn convert_messages(context: &ExtractionContext) -> (r: Vec<Content>)
    ensures
        content_views(r@) == converted_contents(
            context.messages@,
            match context.system_prompt {
                Some(ref s) => Some(s@),
                None => None,
            },
        ),
{
    let ghost sys = match context.system_prompt {
        Some(ref s) => Some(s@),
        None => None,
    };
    let ghost expected = converted_contents(context.messages@, sys);
    let system_prompt = build_extraction_prompt(context);
    let mut contents: Vec<Content> = Vec::new();
    contents.push(Content::new_user(system_prompt));
    proof {
        assert(content_views(contents@) =~= expected.take(1));
    }
    let mut i: usize = 0;
    while i < context.messages.len()
        invariant
            0 <= i <= context.messages@.len(),
            expected == converted_contents(context.messages@, sys),
            expected.len() == context.messages@.len() + 1,
            contents@.len() == i + 1,
            content_views(contents@) =~= expected.take(i as int + 1),
        decreases context.messages@.len() - i,
    {
        let msg = &context.messages[i];
        if crate::ext::str_eq(msg.role.as_str(), "assistant") {
            contents.push(Content::new_model(msg.content.clone()));
        } else {
            contents.push(Content::new_user(msg.content.clone()));
        }
        proof {
            assert(contents@[i as int + 1]@ == mapped_content(context.messages@[i as int]));
            assert(content_views(contents@) =~= expected.take(i as int + 2));
        }
        i += 1;
    }
    proof {
        assert(expected.take(expected.len() as int) =~= expected);
    }
    contents
}

} // verus!
