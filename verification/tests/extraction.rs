//! Behavior of the extraction contract: envelope validation, prompt building,
//! conversation conversion and cost estimation.

use telamentis::connectors::{anthropic, gemini, openai};
use telamentis::errors::LlmError;
use telamentis::extraction::{
    build_extraction_prompt, clean_extraction_response, validate_extraction_envelope,
    ExtractionContext, ExtractionEnvelope, ExtractionNode, ExtractionRelation, LlmMessage,
};

fn node(alias: &str) -> ExtractionNode {
    ExtractionNode {
        id_alias: alias.to_string(),
        label: "Person".to_string(),
        props: Vec::new(),
        confidence_milli: None,
    }
}

fn relation(from: &str, to: &str) -> ExtractionRelation {
    ExtractionRelation {
        from_id_alias: from.to_string(),
        to_id_alias: to.to_string(),
        type_label: "KNOWS".to_string(),
        props: Vec::new(),
        valid_from: None,
        valid_to: None,
        confidence_milli: None,
    }
}

#[test]
fn test_validation_duplicate_nodes() {
    let envelope = ExtractionEnvelope {
        nodes: vec![node("alice"), node("alice")],
        relations: Vec::new(),
        metadata: None,
    };

    let result = validate_extraction_envelope(&envelope);
    assert!(result.is_err());
    assert!(result
        .unwrap_err()
        .message()
        .contains("Duplicate node id_alias"));
}

#[test]
fn test_validation_dangling_relation() {
    let envelope = ExtractionEnvelope {
        nodes: vec![node("a")],
        relations: vec![relation("a", "b")],
        metadata: None,
    };
    let result = validate_extraction_envelope(&envelope);
    assert!(matches!(result, Err(LlmError::SchemaValidationError(_))));

    let envelope = ExtractionEnvelope {
        nodes: vec![node("b")],
        relations: vec![relation("a", "b")],
        metadata: None,
    };
    let result = validate_extraction_envelope(&envelope);
    assert!(matches!(result, Err(LlmError::SchemaValidationError(_))));
}

#[test]
fn test_validation_accepts_valid_envelope() {
    let envelope = ExtractionEnvelope {
        nodes: vec![node("alice"), node("acme")],
        relations: vec![relation("alice", "acme")],
        metadata: None,
    };
    assert!(validate_extraction_envelope(&envelope).is_ok());

    let empty = ExtractionEnvelope {
        nodes: Vec::new(),
        relations: Vec::new(),
        metadata: None,
    };
    assert!(validate_extraction_envelope(&empty).is_ok());
}

#[test]
fn test_extraction_prompt_building() {
    let context = ExtractionContext {
        messages: vec![LlmMessage::new(
            "user".to_string(),
            "Alice works at Acme Corp".to_string(),
        )],
        system_prompt: Some("Custom prompt".to_string()),
        desired_schema: None,
        max_tokens: None,
        temperature_milli: None,
    };

    let prompt = build_extraction_prompt(&context);
    assert!(prompt.contains("Custom prompt"));
    assert!(prompt.contains("JSON object"));
    assert!(prompt.contains(ExtractionEnvelope::json_schema_example()));

    let default_context = ExtractionContext {
        messages: Vec::new(),
        system_prompt: None,
        desired_schema: None,
        max_tokens: None,
        temperature_milli: None,
    };
    let prompt = build_extraction_prompt(&default_context);
    assert!(prompt.contains("knowledge graph extraction engine"));
}

#[test]
fn test_convert_messages_shapes() {
    let context = ExtractionContext {
        messages: vec![
            LlmMessage::new("user".to_string(), "hello".to_string()),
            LlmMessage::new("assistant".to_string(), "hi".to_string()),
            LlmMessage::new("tool".to_string(), "data".to_string()),
        ],
        system_prompt: None,
        desired_schema: None,
        max_tokens: None,
        temperature_milli: None,
    };

    let (system, messages) = anthropic::convert_messages(&context);
    assert!(system.is_some());
    assert_eq!(messages.len(), 3);
    assert_eq!(messages[0].role, "user");
    assert_eq!(messages[1].role, "assistant");
    assert_eq!(messages[2].role, "user");
    assert_eq!(messages[1].content[0].text, "hi");

    let contents = gemini::convert_messages(&context);
    assert_eq!(contents.len(), 4);
    assert_eq!(contents[0].role, Some("user".to_string()));
    assert_eq!(contents[2].role, Some("model".to_string()));
    assert_eq!(contents[3].role, Some("user".to_string()));

    let messages = openai::convert_messages(&context);
    assert_eq!(messages.len(), 4);
    assert_eq!(messages[0].role, "system");
    assert_eq!(messages[2].role, "assistant");
    assert_eq!(messages[3].role, "tool");
}

#[test]
fn test_cost_estimation() {
    let usage = openai::Usage {
        prompt_tokens: 1000,
        completion_tokens: 500,
        total_tokens: 1500,
    };
    // 1000 tokens at 30 microdollars plus 500 at 60 microdollars.
    assert_eq!(openai::calculate_cost("gpt-4", &usage), 60_000_000);
    assert_eq!(openai::calculate_cost("gpt-3.5-turbo", &usage), 2_000_000);
    // An unknown model falls back to the middle tier.
    assert_eq!(openai::calculate_cost("unknown", &usage), 25_000_000);

    let usage = anthropic::Usage {
        input_tokens: 1000,
        output_tokens: 1000,
    };
    assert_eq!(anthropic::calculate_cost("opus-tier", &usage), 90_000_000);
    assert_eq!(anthropic::calculate_cost("haiku-tier", &usage), 1_500_000);

    let usage = gemini::UsageMetadata {
        prompt_token_count: 2000,
        candidates_token_count: 0,
        total_token_count: 2000,
    };
    assert_eq!(gemini::calculate_cost("gemini-pro", &usage), 2_500_000);
}

#[test]
fn test_gemini_api_url() {
    let url = gemini::build_api_url("https://example.com/v1", "gemini-pro", None);
    assert_eq!(url, "https://example.com/v1/models/gemini-pro:generateContent");

    let project = "proj-1".to_string();
    let url = gemini::build_api_url("https://example.com/v1", "gemini-pro", Some(&project));
    assert_eq!(
        url,
        "https://example.com/v1/projects/proj-1/models/gemini-pro:generateContent"
    );
}

#[test]
fn test_extraction_context_creation() {
    let context = ExtractionContext {
        messages: vec![LlmMessage::new(
            "user".to_string(),
            "Alice works at Acme Corp".to_string(),
        )],
        system_prompt: Some("Extract entities".to_string()),
        desired_schema: None,
        max_tokens: Some(1000),
        temperature_milli: Some(100),
    };

    assert_eq!(context.messages.len(), 1);
    assert_eq!(context.max_tokens, Some(1000));
}

#[test]
fn test_completion_request() {
    let request = telamentis::extraction::CompletionRequest {
        prompt: "Complete this sentence".to_string(),
        max_tokens: Some(100),
        temperature_milli: Some(700),
        params: Vec::new(),
    };

    assert_eq!(request.prompt, "Complete this sentence");
    assert_eq!(request.max_tokens, Some(100));
}

#[test]
fn test_clean_extraction_response() {
    assert_eq!(
        clean_extraction_response("```json\n{\"nodes\": []}\n```"),
        "{\"nodes\": []}"
    );
    assert_eq!(clean_extraction_response("```{\"a\":1}```"), "{\"a\":1}");
    assert_eq!(clean_extraction_response("  {\"a\":1}  "), "{\"a\":1}");
    assert_eq!(clean_extraction_response("plain"), "plain");
    assert_eq!(clean_extraction_response(""), "");
}
