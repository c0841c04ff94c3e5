use completion_client::client::{CompletionError, ConfigError, OpenAIClient};
use completion_client::tokenize::token_count;

fn client_for(model: &str) -> OpenAIClient {
    OpenAIClient::new(Some("sk-test".to_string()), Some(model.to_string())).unwrap()
}

#[test]
fn new_rejects_missing_api_key() {
    let r = OpenAIClient::new(None, Some("text-davinci-003".to_string()));
    assert!(matches!(r, Err(ConfigError::MissingApiKey)));
}

#[test]
fn new_rejects_empty_api_key() {
    let r = OpenAIClient::new(Some(String::new()), Some("text-davinci-003".to_string()));
    assert!(matches!(r, Err(ConfigError::MissingApiKey)));
}

#[test]
fn new_rejects_missing_model() {
    let r = OpenAIClient::new(Some("sk-test".to_string()), None);
    assert!(matches!(r, Err(ConfigError::MissingModel)));
}

#[test]
fn new_rejects_empty_model() {
    let r = OpenAIClient::new(Some("sk-test".to_string()), Some(String::new()));
    assert!(matches!(r, Err(ConfigError::MissingModel)));
}

#[test]
fn new_reports_missing_key_before_missing_model() {
    let r = OpenAIClient::new(None, None);
    assert!(matches!(r, Err(ConfigError::MissingApiKey)));
}

#[test]
fn new_accepts_non_empty_config() {
    let r = OpenAIClient::new(Some("sk-test".to_string()), Some("text-davinci-003".to_string()));
    assert!(r.is_ok());
}

#[test]
fn token_limit_table_exact_values() {
    assert_eq!(client_for("text-davinci-003").get_prompt_token_limit_for_model(), 4097);
    assert_eq!(client_for("text-curie-001").get_prompt_token_limit_for_model(), 2048);
    assert_eq!(client_for("text-babbage-001").get_prompt_token_limit_for_model(), 2048);
    assert_eq!(client_for("text-ada-001").get_prompt_token_limit_for_model(), 2048);
    assert_eq!(client_for("code-davinci-002").get_prompt_token_limit_for_model(), 8000);
    assert_eq!(client_for("code-cushman-001").get_prompt_token_limit_for_model(), 2048);
}

#[test]
fn token_limit_defaults_to_4097_for_unknown_model() {
    assert_eq!(client_for("some-future-model").get_prompt_token_limit_for_model(), 4097);
    assert_eq!(client_for("text-davinci-002").get_prompt_token_limit_for_model(), 4097);
}

#[test]
fn token_count_of_known_text() {
    // "hello world" is two p50k tokens; an empty prompt is none.
    assert_eq!(token_count("hello world"), 2);
    assert_eq!(token_count(""), 0);
}

#[test]
fn budget_exceeded_is_reported_with_counts() {
    let client = client_for("text-ada-001");
    let prompt = " a".repeat(2100);
    let count = token_count(&prompt);
    assert!(count + 100 > 2048);
    let r = client.prepare_request(&prompt);
    match r {
        Err(CompletionError::TokenBudgetExceeded { prompt_tokens, limit }) => {
            assert_eq!(prompt_tokens, count);
            assert_eq!(limit, 2048);
        },
        _ => panic!("expected a token budget failure"),
    }
}

#[test]
fn budget_boundary_passes_at_1948_tokens() {
    let client = client_for("text-curie-001");
    let prompt = " a".repeat(1948);
    assert_eq!(token_count(&prompt), 1948);
    assert!(client.prepare_request(&prompt).is_ok());
}

#[test]
fn budget_boundary_fails_at_1949_tokens() {
    let client = client_for("text-curie-001");
    let prompt = " a".repeat(1949);
    assert_eq!(token_count(&prompt), 1949);
    let r = client.prepare_request(&prompt);
    match r {
        Err(CompletionError::TokenBudgetExceeded { prompt_tokens, limit }) => {
            assert_eq!(prompt_tokens, 1949);
            assert_eq!(limit, 2048);
        },
        _ => panic!("expected a token budget failure"),
    }
}

#[test]
fn budget_error_message_states_count_and_limit() {
    let client = client_for("text-curie-001");
    let prompt = " a".repeat(1949);
    let r = client.prepare_request(&prompt);
    match r {
        Err(e) => {
            assert_eq!(
                e.message(),
                "token budget exceeded: prompt tokens 1949 plus output budget 100 exceed limit 2048"
            );
        },
        _ => panic!("expected a token budget failure"),
    }
}
