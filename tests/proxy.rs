use curxy::proxy::{is_bearer_for, AppState, ProxyError};

fn state(key: Option<&str>) -> AppState {
    AppState::new("https://api.openai.com", "http://localhost:11434", key)
}

#[test]
fn post_without_model_is_bad_request() {
    assert_eq!(state(None).post_target(None, None), Err(ProxyError::BadRequest));
    assert_eq!(
        state(Some("k")).post_target(None, Some("Bearer k")),
        Err(ProxyError::BadRequest)
    );
}

#[test]
fn post_with_wrong_key_is_unauthorized() {
    let s = state(Some("secret"));
    assert_eq!(s.post_target(Some("gpt-4"), Some("Bearer other")), Err(ProxyError::Unauthorized));
    assert_eq!(s.post_target(Some("llama2"), None), Err(ProxyError::Unauthorized));
    assert_eq!(s.post_target(Some("llama2"), Some("secret")), Err(ProxyError::Unauthorized));
}

#[test]
fn key_as_mere_suffix_is_refused() {
    let s = state(Some("secret"));
    assert_eq!(s.post_target(Some("gpt-4"), Some("Bearer xsecret")), Err(ProxyError::Unauthorized));
    assert!(!s.authorize(Some("Basic secret")));
}

#[test]
fn post_with_right_key_routes_by_model() {
    let s = state(Some("secret"));
    assert_eq!(
        s.post_target(Some("gpt-3.5"), Some("Bearer secret")),
        Ok("https://api.openai.com".to_string())
    );
    assert_eq!(
        s.post_target(Some("llama2"), Some("Bearer secret")),
        Ok("http://localhost:11434".to_string())
    );
}

#[test]
fn post_without_key_needs_no_header() {
    let s = state(None);
    assert_eq!(s.post_target(Some("gpt-4"), None), Ok("https://api.openai.com".to_string()));
    assert!(s.authorize(Some("anything")));
}

#[test]
fn get_goes_to_local_service() {
    assert_eq!(state(Some("k")).get_target(), "http://localhost:11434");
}

#[test]
fn bearer_comparison_is_exact() {
    assert!(is_bearer_for("Bearer abc", "abc"));
    assert!(is_bearer_for("Bearer ", ""));
    assert!(!is_bearer_for("Bearer abcd", "abc"));
    assert!(!is_bearer_for("bearer abc", "abc"));
    assert!(!is_bearer_for("Bearer", ""));
}

#[test]
fn error_status_codes() {
    assert_eq!(ProxyError::BadRequest.status_code(), 400);
    assert_eq!(ProxyError::Unauthorized.status_code(), 401);
    assert_eq!(ProxyError::UpstreamUnreachable.status_code(), 502);
    assert_eq!(ProxyError::UpstreamBodyUnreadable.status_code(), 500);
    assert!(ProxyError::Unauthorized.is_client_error());
    assert!(!ProxyError::UpstreamUnreachable.is_client_error());
}

#[test]
fn state_keeps_configuration() {
    let s = state(Some("k"));
    assert_eq!(s.openai_endpoint, "https://api.openai.com");
    assert_eq!(s.ollama_endpoint, "http://localhost:11434");
    assert_eq!(s.openai_api_key, Some("k".to_string()));
}
