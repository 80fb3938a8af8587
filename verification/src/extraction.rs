//! The LLM extraction contract: the extraction context handed to a connector,
//! the envelope it must return, and the structural validation the core runs
//! before any downstream use. Confidence scores are carried in thousandths
//! and costs in nano-dollars, so that the contract stays within exact integer
//! arithmetic.

use vstd::prelude::*;

use vstd::string::StringExecFns;

use crate::errors::LlmError;
use crate::props::{PropEntry, PropEntryView, props_view};
use crate::text::{starts_with_seq, strip_prefix_reps, strip_suffix_reps, trim_front_ws,
    trim_back_ws, strip_prefix_reps_str, strip_suffix_reps_str, trim_ws_str};

verus! {

broadcast use vstd::seq::group_seq_axioms;

/// A message in an LLM conversation.
pub struct LlmMessage {
    /// The sender's role: "user", "assistant" or "system".
    pub role: String,
    /// The message text.
    pub content: String,
}

impl LlmMessage {
    /// A message with the given role and content.
    pub fn new(role: String, content: String) -> (r: Self)
        ensures
            r.role@ == role@,
            r.content@ == content@,
    {
        LlmMessage { role, content }
    }
}

impl Clone for LlmMessage {
    /// Cloning preserves role and content.
    fn clone(&self) -> (res: Self)
        ensures
            res.role@ == self.role@,
            res.content@ == self.content@,
    {
        LlmMessage { role: self.role.clone(), content: self.content.clone() }
    }
}

/// What an extractor is given: the conversation, an optional system prompt,
/// an optional output schema, and generation bounds. The temperature is in
/// thousandths.
pub struct ExtractionContext {
    pub messages: Vec<LlmMessage>,
    pub system_prompt: Option<String>,
    pub desired_schema: Option<String>,
    pub max_tokens: Option<u32>,
    pub temperature_milli: Option<u32>,
}

/// A node candidate from extraction: the envelope-local alias, the label, the
/// properties, and an optional confidence in thousandths.
pub struct ExtractionNode {
    pub id_alias: String,
    pub label: String,
    pub props: Vec<PropEntry>,
    pub confidence_milli: Option<u32>,
}

/// A relationship candidate from extraction: both endpoint aliases must
/// resolve to nodes of the same envelope. Timestamps are microseconds since
/// the Unix epoch; the confidence is in thousandths.
pub struct ExtractionRelation {
    pub from_id_alias: String,
    pub to_id_alias: String,
    pub type_label: String,
    pub props: Vec<PropEntry>,
    pub valid_from: Option<i64>,
    pub valid_to: Option<i64>,
    pub confidence_milli: Option<u32>,
}

/// Metadata about one extraction call: provider, model, latency, token usage,
/// estimated cost in nano-dollars, and warnings.
pub struct ExtractionMetadata {
    pub provider: String,
    pub model_name: String,
    pub latency_ms: Option<u64>,
    pub input_tokens: Option<u32>,
    pub output_tokens: Option<u32>,
    pub cost_nano_usd: Option<u64>,
    pub warnings: Vec<String>,
}

/// What an extractor returns: node candidates, relation candidates, and
/// optional call metadata.
pub struct ExtractionEnvelope {
    pub nodes: Vec<ExtractionNode>,
    pub relations: Vec<ExtractionRelation>,
    pub metadata: Option<ExtractionMetadata>,
}

/// A request for plain text completion; the temperature is in thousandths.
pub struct CompletionRequest {
    pub prompt: String,
    pub max_tokens: Option<u32>,
    pub temperature_milli: Option<u32>,
    pub params: Vec<PropEntry>,
}

/// The response to a completion request.
pub struct CompletionResponse {
    pub text: String,
    pub metadata: Option<ExtractionMetadata>,
}


/// An extraction response with its surrounding markdown code fences and
/// whitespace removed: repeated leading "```json" markers, then repeated
/// leading "```" markers, then repeated trailing "```" markers, then
/// surrounding whitespace.
pub open spec fn cleaned_response_text(s: Seq<char>) -> Seq<char> {
    trim_front_ws(
        trim_back_ws(
            strip_suffix_reps(
                strip_prefix_reps(strip_prefix_reps(s, "```json"@), "```"@),
                "```"@,
            ),
        ),
    )
}

/// Strips the markdown code fences a provider may wrap its answer in, leaving
/// the bare response text for decoding.
pub fn clean_extraction_response(content: &str) -> (r: String)
    ensures
        r@ == cleaned_response_text(content@),
{
    let without_json_fence = strip_prefix_reps_str(content, "```json");
    let without_open_fence = strip_prefix_reps_str(without_json_fence.as_str(), "```");
    let without_close_fence = strip_suffix_reps_str(without_open_fence.as_str(), "```");
    trim_ws_str(without_close_fence.as_str())
}

/// Two envelope nodes share an alias.
pub open spec fn has_duplicate_alias(nodes: Seq<ExtractionNode>) -> bool {
    exists|i: int, j: int|
        0 <= i < j < nodes.len() && (#[trigger] nodes[i]).id_alias@ == (
        #[trigger] nodes[j]).id_alias@
}

/// The alias names one of the envelope's nodes.
pub open spec fn alias_listed(nodes: Seq<ExtractionNode>, alias: Seq<char>) -> bool {
    exists|i: int| 0 <= i < nodes.len() && (#[trigger] nodes[i]).id_alias@ == alias
}

/// A relation's endpoints both resolve within the envelope.
pub open spec fn relation_resolves(nodes: Seq<ExtractionNode>, rel: ExtractionRelation) -> bool {
    alias_listed(nodes, rel.from_id_alias@) && alias_listed(nodes, rel.to_id_alias@)
}

/// The envelope is structurally valid: no two nodes share an alias and every
/// relation's endpoints resolve.
pub open spec fn envelope_valid(env: ExtractionEnvelope) -> bool {
    &&& !has_duplicate_alias(env.nodes@)
    &&& forall|k: int|
        0 <= k < env.relations@.len() ==> relation_resolves(env.nodes@, #[trigger] env.relations@[k])
}

/// Whether an alias names one of the envelope's nodes.
fn find_alias(nodes: &Vec<ExtractionNode>, alias: &str) -> (r: bool)
    ensures
        r == alias_listed(nodes@, alias@),
{
    let mut i: usize = 0;
    while i < nodes.len()
        invariant
            0 <= i <= nodes@.len(),
            forall|j: int| 0 <= j < i ==> (#[trigger] nodes@[j]).id_alias@ != alias@,
        decreases nodes@.len() - i,
    {
        if crate::ext::str_eq(nodes[i].id_alias.as_str(), alias) {
            proof {
                assert(nodes@[i as int].id_alias@ == alias@);
            }
            return true;
        }
        i += 1;
    }
    false
}

/// Structural validation of an extraction envelope: rejects a duplicate node
/// alias or a dangling relation endpoint with `SchemaValidationError`, and
/// accepts exactly the valid envelopes. A shared alias is reported before a
/// dangling endpoint, and the error's detail names the kind of violation.
#[verifier::loop_isolation(false)]
pub fn validate_extraction_envelope(envelope: &ExtractionEnvelope) -> (r: Result<(), LlmError>)
    ensures
        r is Ok <==> envelope_valid(*envelope),
        r matches Err(e) ==> e is SchemaValidationError && (if has_duplicate_alias(
            envelope.nodes@,
        ) {
            starts_with_seq(e.detail(), "Duplicate node id_alias: "@)
        } else {
            starts_with_seq(e.detail(), "Relation references unknown "@)
        }),
{
    let nodes = &envelope.nodes;
    let mut j: usize = 1;
    if nodes.len() > 0 {
        while j < nodes.len()
            invariant
                1 <= j <= nodes@.len() || nodes@.len() == 0,
                forall|a: int, b: int|
                    0 <= a < b < j && b < nodes@.len() ==> (#[trigger] nodes@[a]).id_alias@ != (
                    #[trigger] nodes@[b]).id_alias@,
            decreases nodes@.len() - j,
        {
            let mut i: usize = 0;
            while i < j
                invariant
                    0 <= i <= j < nodes@.len(),
                    forall|a: int| 0 <= a < i ==> (#[trigger] nodes@[a]).id_alias@ != nodes@[
                        j as int].id_alias@,
                decreases j - i,
            {
                if crate::ext::str_eq(nodes[i].id_alias.as_str(), nodes[j].id_alias.as_str()) {
                    proof {
                        assert(nodes@[i as int].id_alias@ == nodes@[j as int].id_alias@);
                        assert(has_duplicate_alias(nodes@));
                    }
                    let message = String::from_str("Duplicate node id_alias: ").concat(
                        nodes[j].id_alias.as_str(),
                    );
                    proof {
                        assert(message@.subrange(0, "Duplicate node id_alias: "@.len() as int)
                            =~= "Duplicate node id_alias: "@);
                    }
                    return Err(LlmError::SchemaValidationError(message));
                }
                i += 1;
            }
            j += 1;
        }
    }
    proof {
        assert(!has_duplicate_alias(nodes@));
    }
    let relations = &envelope.relations;
    let mut k: usize = 0;
    while k < relations.len()
        invariant
            0 <= k <= relations@.len(),
            !has_duplicate_alias(nodes@),
            forall|m: int| 0 <= m < k ==> relation_resolves(nodes@, #[trigger] relations@[m]),
        decreases relations@.len() - k,
    {
        if !find_alias(nodes, relations[k].from_id_alias.as_str()) {
            proof {
                assert(!relation_resolves(nodes@, relations@[k as int]));
            }
            let message = String::from_str("Relation references unknown from_id_alias: ").concat(
                relations[k].from_id_alias.as_str(),
            );
            proof {
                reveal_strlit("Relation references unknown from_id_alias: ");
                reveal_strlit("Relation references unknown ");
                assert("Relation references unknown from_id_alias: "@.subrange(
                    0,
                    "Relation references unknown "@.len() as int,
                ) =~= "Relation references unknown "@);
                assert(message@.subrange(0, "Relation references unknown "@.len() as int)
                    =~= "Relation references unknown "@);
            }
            return Err(LlmError::SchemaValidationError(message));
        }
        if !find_alias(nodes, relations[k].to_id_alias.as_str()) {
            proof {
                assert(!relation_resolves(nodes@, relations@[k as int]));
            }
            let message = String::from_str("Relation references unknown to_id_alias: ").concat(
                relations[k].to_id_alias.as_str(),
            );
            proof {
                reveal_strlit("Relation references unknown to_id_alias: ");
                reveal_strlit("Relation references unknown ");
                assert("Relation references unknown to_id_alias: "@.subrange(
                    0,
                    "Relation references unknown "@.len() as int,
                ) =~= "Relation references unknown "@);
                assert(message@.subrange(0, "Relation references unknown "@.len() as int)
                    =~= "Relation references unknown "@);
            }
            return Err(LlmError::SchemaValidationError(message));
        }
        k += 1;
    }
    Ok(())
}

impl ExtractionEnvelope {
    /// The JSON shape an extractor must return, for inclusion in prompts.
    pub fn json_schema_example() -> (r: &'static str)
        ensures
            r@ == json_schema_text(),
    {
    "{\n  \"nodes\": [\n    {\n      \"id_alias\": \"string (unique within this extraction)\",\n      \"label\": \"string (e.g., Person, Organization)\",\n      \"props\": {\"key\": \"value\"},\n      \"confidence\": \"float (0.0-1.0, optional)\"\n    }\n  ],\n  \"relations\": [\n    {\n      \"from_id_alias\": \"string (refers to node id_alias)\",\n      \"to_id_alias\": \"string (refers to node id_alias)\",\n      \"type_label\": \"string (e.g., WORKS_FOR)\",\n      \"props\": {\"key\": \"value\"},\n      \"valid_from\": \"datetime (ISO8601, optional)\",\n      \"valid_to\": \"datetime (ISO8601, optional, null for open)\",\n      \"confidence\": \"float (0.0-1.0, optional)\"\n    }\n  ]\n}"
    }
}


/// The default system prompt for extraction.
pub open spec fn default_extraction_prompt_text() -> Seq<char> {
    "You are an expert knowledge graph extraction engine. Analyze the provided text/conversation and identify relevant entities (as nodes) and relationships (as relations) between them."@
}

/// The connective text between the system prompt and the schema.
pub open spec fn extraction_schema_lead_text() -> Seq<char> {
    "\n\nReturn your findings strictly as a JSON object matching the following schema:\n"@
}

/// The instruction block closing an extraction prompt.
pub open spec fn extraction_instructions_text() -> Seq<char> {
    "\n\nInstructions:\n- `id_alias` should be a descriptive, unique identifier for nodes within this extraction (e.g., \"user_john_doe\", \"acme_corp_hq\")\n- If a date or time for `valid_from` or `valid_to` is mentioned, use ISO8601 format\n- If a relation is ongoing, `valid_to` can be omitted or null\n- Only extract explicitly mentioned information. Do not infer or hallucinate\n- If unsure about a piece of information, omit it or assign a low confidence score"@
}

/// The JSON shape an extractor must return.
pub open spec fn json_schema_text() -> Seq<char> {
    "{\n  \"nodes\": [\n    {\n      \"id_alias\": \"string (unique within this extraction)\",\n      \"label\": \"string (e.g., Person, Organization)\",\n      \"props\": {\"key\": \"value\"},\n      \"confidence\": \"float (0.0-1.0, optional)\"\n    }\n  ],\n  \"relations\": [\n    {\n      \"from_id_alias\": \"string (refers to node id_alias)\",\n      \"to_id_alias\": \"string (refers to node id_alias)\",\n      \"type_label\": \"string (e.g., WORKS_FOR)\",\n      \"props\": {\"key\": \"value\"},\n      \"valid_from\": \"datetime (ISO8601, optional)\",\n      \"valid_to\": \"datetime (ISO8601, optional, null for open)\",\n      \"confidence\": \"float (0.0-1.0, optional)\"\n    }\n  ]\n}"@
}

/// The whole prompt a connector sends: the caller's system prompt (or the
/// default), the schema, and the instruction block.
pub open spec fn extraction_prompt_text(system_prompt: Option<Seq<char>>) -> Seq<char> {
    (match system_prompt {
        Some(s) => s,
        None => default_extraction_prompt_text(),
    }) + extraction_schema_lead_text() + json_schema_text() + extraction_instructions_text()
}

/// Builds the system prompt for extraction: the context's prompt (or the
/// default), the required JSON schema, and the extraction instructions.
pub fn build_extraction_prompt(context: &ExtractionContext) -> (r: String)
    ensures
        r@ == extraction_prompt_text(
            match context.system_prompt {
                Some(ref s) => Some(s@),
                None => None,
            },
        ),
{
    let base = match &context.system_prompt {
        Some(s) => s.clone(),
        None => String::from_str(
            "You are an expert knowledge graph extraction engine. Analyze the provided text/conversation and identify relevant entities (as nodes) and relationships (as relations) between them.",
        ),
    };
    base.concat(
        "\n\nReturn your findings strictly as a JSON object matching the following schema:\n",
    ).concat(ExtractionEnvelope::json_schema_example()).concat(
        "\n\nInstructions:\n- `id_alias` should be a descriptive, unique identifier for nodes within this extraction (e.g., \"user_john_doe\", \"acme_corp_hq\")\n- If a date or time for `valid_from` or `valid_to` is mentioned, use ISO8601 format\n- If a relation is ongoing, `valid_to` can be omitted or null\n- Only extract explicitly mentioned information. Do not infer or hallucinate\n- If unsure about a piece of information, omit it or assign a low confidence score",
    )
}

} // verus!
