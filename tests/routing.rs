use curxy::endpoint::{convert_to_custom_endpoint, validate_url, EndpointError};
use curxy::routing::choose_endpoint;

#[test]
fn test_choose_endpoint() {
    let ollama = "http://localhost:11434";
    let openai = "https://api.openai.com";

    assert_eq!(choose_endpoint("gpt-3.5", ollama, openai), openai);
    assert_eq!(choose_endpoint("llama2", ollama, openai), ollama);
}

#[test]
fn test_convert_to_custom_endpoint() {
    let result = convert_to_custom_endpoint(
        "https://api.openai.com/v1/chat/completions",
        "http://localhost:11434",
    )
    .unwrap();

    assert_eq!(result, "http://localhost:11434/v1/chat/completions");
}

#[test]
fn bare_gpt_prefix_goes_remote() {
    assert_eq!(choose_endpoint("gpt-", "L", "R"), "R");
    assert_eq!(choose_endpoint("gpt-4o-mini", "L", "R"), "R");
}

#[test]
fn prefix_match_is_case_sensitive() {
    assert_eq!(choose_endpoint("GPT-4", "L", "R"), "L");
    assert_eq!(choose_endpoint("Gpt-4", "L", "R"), "L");
}

#[test]
fn empty_and_near_miss_models_stay_local() {
    assert_eq!(choose_endpoint("", "L", "R"), "L");
    assert_eq!(choose_endpoint("gpt", "L", "R"), "L");
    assert_eq!(choose_endpoint("gpt4", "L", "R"), "L");
    assert_eq!(choose_endpoint("my-gpt-4", "L", "R"), "L");
    assert_eq!(choose_endpoint("\ngpt-4", "L", "R"), "L");
}

#[test]
fn newline_after_prefix_still_matches() {
    assert_eq!(choose_endpoint("gpt-\n", "L", "R"), "R");
}

#[test]
fn choice_is_stable_across_calls() {
    let a = choose_endpoint("gpt-3.5", "http://localhost:11434", "https://api.openai.com");
    let b = choose_endpoint("gpt-3.5", "http://localhost:11434", "https://api.openai.com");
    assert_eq!(a, b);
    assert_eq!(a, "https://api.openai.com");
}

#[test]
fn validate_url_accepts_and_rejects() {
    assert_eq!(
        validate_url("http://localhost:11434"),
        Ok("http://localhost:11434".to_string())
    );
    assert_eq!(validate_url("not a url"), Err("Invalid URL".to_string()));
    assert_eq!(validate_url(""), Err("Invalid URL".to_string()));
}

#[test]
fn convert_keeps_query_and_takes_port() {
    let r = convert_to_custom_endpoint("https://x.com/a?q=1#f", "http://127.0.0.1:8080").unwrap();
    assert_eq!(r, "http://127.0.0.1:8080/a?q=1#f");
}

#[test]
fn convert_without_endpoint_port_keeps_default() {
    let r = convert_to_custom_endpoint("http://localhost:11434/v1/models", "https://api.openai.com")
        .unwrap();
    assert_eq!(r, "https://api.openai.com:11434/v1/models");
}

#[test]
fn convert_rejects_unparsable_url() {
    assert_eq!(
        convert_to_custom_endpoint("no url", "http://localhost:11434"),
        Err(EndpointError::InvalidUrl)
    );
}

#[test]
fn convert_rejects_unparsable_endpoint() {
    assert_eq!(
        convert_to_custom_endpoint("https://api.openai.com/v1", "::"),
        Err(EndpointError::InvalidEndpoint)
    );
}

#[test]
fn convert_rejects_foreign_scheme() {
    assert_eq!(
        convert_to_custom_endpoint("https://api.openai.com/v1", "mailto:a@b.c"),
        Err(EndpointError::SchemeRejected)
    );
}

#[test]
fn convert_rejects_endpoint_without_host() {
    assert_eq!(
        convert_to_custom_endpoint("foo://example.net/a", "bar:/path"),
        Err(EndpointError::MissingHost)
    );
}

#[test]
fn endpoint_error_messages() {
    assert_eq!(EndpointError::SchemeRejected.message(), "Failed to set scheme");
    assert_eq!(EndpointError::MissingHost.message(), "No host in endpoint");
    assert_eq!(EndpointError::HostRejected.message(), "Failed to set host");
    assert_eq!(EndpointError::PortRejected.message(), "Failed to set port");
    assert_eq!(EndpointError::InvalidUrl.message(), "Invalid URL");
}
