use streaming_data_loader::hydroserver::{
    build_url, resolve_api_key_workspace, token_cache_key, RequestError, TokenCache,
};
use streaming_data_loader::models::{AuthType, ServerConfig};

fn server_with_workspace(workspace_id: &str) -> ServerConfig {
    ServerConfig {
        auth_type: AuthType::Apikey,
        url: "https://example.com".to_string(),
        api_key: "test-key".to_string(),
        workspace_id: workspace_id.to_string(),
        workspace_name: String::new(),
        ..ServerConfig::empty()
    }
}

#[test]
fn build_url_normalizes_correctly() {
    assert_eq!(
        build_url("https://example.com/", "/api/data/test"),
        "https://example.com/api/data/test"
    );
    assert_eq!(
        build_url("https://example.com", "api/data/test"),
        "https://example.com/api/data/test"
    );
}

#[test]
fn hydroserver_build_url_normalizes_correctly() {
    assert_eq!(
        build_url("https://example.com/", "/api/data/test"),
        "https://example.com/api/data/test"
    );
    assert_eq!(
        build_url("https://example.com", "api/data/test"),
        "https://example.com/api/data/test"
    );
}

#[test]
fn hydroserver_request_error_retryable_classification() {
    assert!(RequestError::Connection.is_retryable());
    assert!(RequestError::Timeout.is_retryable());
    assert!(RequestError::Http { status: Some(500), message: "error".to_string() }.is_retryable());
    assert!(RequestError::Http { status: Some(502), message: "error".to_string() }.is_retryable());
    assert!(!RequestError::Http { status: Some(400), message: "error".to_string() }.is_retryable());
    assert!(!RequestError::Http { status: Some(422), message: "error".to_string() }.is_retryable());
    assert!(!RequestError::Other("misc".to_string()).is_retryable());
}

#[test]
fn resolve_api_key_workspace_errors_when_saved_workspace_is_unreachable() {
    let server = server_with_workspace("workspace-saved");
    let accessible = vec![
        ("workspace-a".to_string(), "Workspace A".to_string()),
        ("workspace-b".to_string(), "Workspace B".to_string()),
    ];

    let result = resolve_api_key_workspace(&server, &accessible);
    let (field, message) = result.expect_err("should error when saved workspace is missing");
    assert_eq!(field, "api_key");
    assert!(
        message.contains("does not have access"),
        "message should explain the key lost access, got: {message}"
    );
}

#[test]
fn resolve_api_key_workspace_returns_saved_workspace_when_accessible() {
    let server = server_with_workspace("workspace-saved");
    let accessible = vec![
        ("workspace-a".to_string(), "Workspace A".to_string()),
        ("workspace-saved".to_string(), "Saved Workspace".to_string()),
    ];

    let (id, name) = resolve_api_key_workspace(&server, &accessible)
        .expect("should succeed")
        .expect("should return saved workspace");
    assert_eq!(id, "workspace-saved");
    assert_eq!(name, "Saved Workspace");
}

#[test]
fn resolve_api_key_workspace_picks_first_when_none_saved() {
    let server = server_with_workspace("");
    let accessible = vec![
        ("workspace-a".to_string(), "Workspace A".to_string()),
        ("workspace-b".to_string(), "Workspace B".to_string()),
    ];

    let (id, _) = resolve_api_key_workspace(&server, &accessible)
        .expect("should succeed")
        .expect("should return first workspace");
    assert_eq!(id, "workspace-a", "initial connection defaults to the first accessible workspace");
}

#[test]
fn resolve_api_key_workspace_returns_none_when_no_workspaces_accessible() {
    let server = server_with_workspace("workspace-saved");
    let empty: Vec<(String, String)> = Vec::new();

    let result = resolve_api_key_workspace(&server, &empty).expect("empty list is not an error");
    assert!(
        result.is_none(),
        "no accessible workspaces should produce None (test_connection surfaces the key-level error)"
    );
}

fn userpass_server(url: &str, username: &str) -> ServerConfig {
    ServerConfig {
        auth_type: AuthType::Userpass,
        url: url.to_string(),
        username: username.to_string(),
        password: "secret".to_string(),
        ..ServerConfig::empty()
    }
}

#[test]
fn token_cache_key_ignores_trailing_slash_and_surrounding_whitespace() {
    let a = userpass_server("https://hydro.example/", "  user@example.com ");
    let b = userpass_server("https://hydro.example", "user@example.com");
    assert_eq!(token_cache_key(&a), token_cache_key(&b));
}

#[test]
fn cached_token_is_reused_across_sessions_for_the_same_account() {
    let mut cache = TokenCache::new();
    cache.store(&token_cache_key(&userpass_server("https://hydro.example", "user@example.com")), "tok-123");
    let next = token_cache_key(&userpass_server("https://hydro.example", "user@example.com"));
    assert_eq!(cache.get(&next).as_deref(), Some("tok-123"));
}

#[test]
fn cached_token_is_scoped_per_account() {
    let mut cache = TokenCache::new();
    cache.store(&token_cache_key(&userpass_server("https://hydro.example", "alice@example.com")), "alice-tok");
    let bob = token_cache_key(&userpass_server("https://hydro.example", "bob@example.com"));
    assert_eq!(cache.get(&bob), None);
}

#[test]
fn invalidate_token_clears_the_shared_cache_for_other_sessions() {
    let mut cache = TokenCache::new();
    let key = token_cache_key(&userpass_server("https://hydro.example", "user@example.com"));
    cache.store(&key, "stale");
    assert_eq!(cache.get(&key).as_deref(), Some("stale"));
    cache.invalidate(&key);
    assert_eq!(cache.get(&key), None, "own cache lookup is cleared");
    let other = token_cache_key(&userpass_server("https://hydro.example", "user@example.com"));
    assert_eq!(cache.get(&other), None, "the stale token is gone for future sessions too");
}
