use completion_client::client::{handle_response, CompletionError, OpenAIClient};
use completion_client::json::{parse_json, Json};
use completion_client::text::trim_str;

fn client_with(key: &str, model: &str) -> OpenAIClient {
    OpenAIClient::new(Some(key.to_string()), Some(model.to_string())).unwrap()
}

#[test]
fn request_matches_wire_schema_exactly() {
    let client = client_with("sk-secret", "text-davinci-003");
    let req = client.prepare_request("hello").unwrap();
    assert_eq!(req.url, "https://api.openai.com/v1/completions");
    assert_eq!(req.content_type, "application/json");
    assert_eq!(req.authorization, "Bearer sk-secret");
    assert_eq!(
        req.body,
        "{\"model\":\"text-davinci-003\",\"prompt\":\"hello\",\"temperature\":0.5,\"max_tokens\":100,\"top_p\":1,\"frequency_penalty\":0,\"presence_penalty\":0}"
    );
}

#[test]
fn request_body_is_valid_json_with_fixed_sampling_constants() {
    let client = client_with("sk-secret", "text-davinci-003");
    let req = client.prepare_request("hello").unwrap();
    let v: serde_json::Value = serde_json::from_str(&req.body).unwrap();
    assert_eq!(v["model"].as_str(), Some("text-davinci-003"));
    assert_eq!(v["prompt"].as_str(), Some("hello"));
    assert_eq!(v["temperature"].as_f64(), Some(0.5));
    assert_eq!(v["max_tokens"].as_u64(), Some(100));
    assert_eq!(v["top_p"].as_u64(), Some(1));
    assert_eq!(v["frequency_penalty"].as_u64(), Some(0));
    assert_eq!(v["presence_penalty"].as_u64(), Some(0));
}

#[test]
fn prompt_passes_through_unmodified() {
    // Quotes, backslashes, control characters, surrounding whitespace and
    // non-ASCII text must survive the trip into the body byte for byte.
    let prompt = "  say \"hi\" \\ back\nslash\ttab\u{1}bell\u{7} caf\u{e9} \u{3000} ";
    let client = client_with("sk-secret", "text-davinci-003");
    let req = client.prepare_request(prompt).unwrap();
    let v: serde_json::Value = serde_json::from_str(&req.body).unwrap();
    assert_eq!(v["prompt"].as_str(), Some(prompt));
}

#[test]
fn control_characters_are_escaped_in_the_body() {
    let client = client_with("sk-secret", "m");
    let req = client.prepare_request("a\u{1}b\"c\\d\ne").unwrap();
    assert!(req.body.contains("a\\u0001b\\\"c\\\\d\\ne"));
}

#[test]
fn completion_text_is_trimmed() {
    let r = handle_response("{\"choices\":[{\"text\":\"  hello world  \"}]}");
    assert_eq!(r.unwrap(), "hello world");
}

#[test]
fn all_whitespace_completion_trims_to_empty() {
    let r = handle_response("{\"choices\":[{\"text\":\" \\t\\n \\u3000 \"}]}");
    assert_eq!(r.unwrap(), "");
}

#[test]
fn invalid_json_is_a_malformed_response_with_the_raw_body() {
    let r = handle_response("not json");
    match r {
        Err(CompletionError::MalformedResponse { raw_body, parse_error }) => {
            assert_eq!(raw_body, "not json");
            assert!(!parse_error.is_empty());
        },
        _ => panic!("expected a malformed-response failure"),
    }
}

#[test]
fn empty_choices_is_an_unexpected_shape() {
    let r = handle_response("{\"choices\":[]}");
    match r {
        Err(CompletionError::UnexpectedShape { json }) => {
            assert_eq!(json, Json::Obj(vec![("choices".to_string(), Json::Arr(vec![]))]));
        },
        _ => panic!("expected an unexpected-shape failure"),
    }
}

#[test]
fn missing_text_field_is_an_unexpected_shape() {
    let r = handle_response("{\"choices\":[{\"index\":0}]}");
    assert!(matches!(r, Err(CompletionError::UnexpectedShape { .. })));
}

#[test]
fn non_string_text_is_an_unexpected_shape() {
    let r = handle_response("{\"choices\":[{\"text\":42}]}");
    assert!(matches!(r, Err(CompletionError::UnexpectedShape { .. })));
}

#[test]
fn non_object_document_is_an_unexpected_shape() {
    let r = handle_response("[1,2,3]");
    assert!(matches!(r, Err(CompletionError::UnexpectedShape { .. })));
}

#[test]
fn extra_response_fields_are_ignored() {
    let body = "{\"id\":\"cmpl-1\",\"object\":\"text_completion\",\"choices\":[{\"text\":\" fine \",\"index\":0,\"finish_reason\":\"stop\"},{\"text\":\"second\"}],\"usage\":{\"total_tokens\":7}}";
    assert_eq!(handle_response(body).unwrap(), "fine");
}

#[test]
fn malformed_response_message_carries_body_and_diagnostic() {
    let r = handle_response("not json");
    let msg = r.unwrap_err().message();
    assert!(msg.starts_with("could not decode JSON response: "));
    assert!(msg.ends_with("; response body: not json"));
}

#[test]
fn parse_json_models_the_document() {
    let j = parse_json("{\"b\":\"y\",\"a\":[null,true,1.5,\"x\"]}").unwrap();
    // Parsed objects come back with their keys in sorted order.
    assert_eq!(
        j,
        Json::Obj(vec![
            (
                "a".to_string(),
                Json::Arr(vec![Json::Null, Json::Bool(true), Json::Num, Json::Text("x".to_string())])
            ),
            ("b".to_string(), Json::Text("y".to_string())),
        ])
    );
}

#[test]
fn parse_json_rejects_invalid_text() {
    assert!(parse_json("{\"a\":").is_err());
    assert!(parse_json("").is_err());
}

#[test]
fn trim_str_removes_surrounding_whitespace_only() {
    assert_eq!(trim_str("  a b  "), "a b");
    assert_eq!(trim_str("\u{a0}x\u{2028}"), "x");
    assert_eq!(trim_str(""), "");
    assert_eq!(trim_str(" \t\r\n"), "");
    assert_eq!(trim_str("inner  space"), "inner  space");
}
