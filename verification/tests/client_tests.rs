use reddit_mcp::client::{
    access_token_from_outcome, auth_url, bearer_header, search_names_url,
    search_result_from_outcome, tool_descriptors, ConfigError, RedditClient,
};
use reddit_mcp::http::HttpResponse;
use reddit_mcp::user_agent;

const SENTINEL: &str = "Unable to fetch access_token from reddit";

fn valid_client() -> RedditClient {
    RedditClient::new(
        "app-id".to_string(),
        "app-secret".to_string(),
        "alice".to_string(),
        "hunter2".to_string(),
        "https://localhost/redirect".to_string(),
    )
    .expect("all settings present")
}

fn ok_response(status: u16, body: &[u8]) -> Result<HttpResponse, String> {
    Ok(HttpResponse {
        status,
        body: body.to_vec(),
    })
}

#[test]
fn construction_succeeds_with_all_settings() {
    let c = valid_client();
    assert_eq!(c.username, "alice");
    assert_eq!(c.redirect_url, "https://localhost/redirect");
    let shared = c.clone();
    assert_eq!(shared.username, "alice");
}

#[test]
fn construction_fails_without_client_id() {
    let r = RedditClient::new(
        "".to_string(),
        "s".to_string(),
        "u".to_string(),
        "p".to_string(),
        "r".to_string(),
    );
    assert!(matches!(r, Err(ConfigError::MissingClientId)));
}

#[test]
fn construction_fails_without_client_secret() {
    let r = RedditClient::new(
        "i".to_string(),
        "".to_string(),
        "u".to_string(),
        "p".to_string(),
        "r".to_string(),
    );
    assert!(matches!(r, Err(ConfigError::MissingClientSecret)));
}

#[test]
fn construction_fails_without_username() {
    let r = RedditClient::new(
        "i".to_string(),
        "s".to_string(),
        "".to_string(),
        "p".to_string(),
        "r".to_string(),
    );
    assert!(matches!(r, Err(ConfigError::MissingUsername)));
}

#[test]
fn construction_fails_without_password() {
    let r = RedditClient::new(
        "i".to_string(),
        "s".to_string(),
        "u".to_string(),
        "".to_string(),
        "r".to_string(),
    );
    assert!(matches!(r, Err(ConfigError::MissingPassword)));
}

#[test]
fn construction_fails_without_redirect_url() {
    let r = RedditClient::new(
        "i".to_string(),
        "s".to_string(),
        "u".to_string(),
        "p".to_string(),
        "".to_string(),
    );
    assert!(matches!(r, Err(ConfigError::MissingRedirectUrl)));
}

#[test]
fn access_token_request_uses_password_grant() {
    let c = valid_client();
    let r = c.access_token_request();
    assert_eq!(r.grant_type, "password");
    assert_eq!(r.username, "alice");
    assert_eq!(r.password, "hunter2");
}

#[test]
fn basic_auth_header_is_base64_of_id_and_secret() {
    let c = RedditClient::new(
        "user".to_string(),
        "password".to_string(),
        "u".to_string(),
        "p".to_string(),
        "r".to_string(),
    )
    .unwrap();
    assert_eq!(c.basic_auth_header(), "Basic dXNlcjpwYXNzd29yZA==");
}

#[test]
fn bearer_header_formats_token() {
    assert_eq!(bearer_header("abc123"), "Bearer abc123");
}

#[test]
fn token_fetch_returns_access_token_on_success() {
    let body = br#"{"access_token":"abc123","expires_in":3600,"scope":"*","token_type":"bearer"}"#;
    let r = access_token_from_outcome(ok_response(200, body));
    assert_eq!(r, "abc123");
}

#[test]
fn token_fetch_returns_sentinel_on_error_status() {
    let body = br#"{"access_token":"abc123","expires_in":3600,"scope":"*","token_type":"bearer"}"#;
    let r = access_token_from_outcome(ok_response(401, body));
    assert_eq!(r, SENTINEL);
}

#[test]
fn token_fetch_returns_sentinel_on_transport_failure() {
    let r = access_token_from_outcome(Err("connection refused".to_string()));
    assert_eq!(r, SENTINEL);
}

#[test]
fn token_fetch_returns_sentinel_on_malformed_body() {
    let r = access_token_from_outcome(ok_response(200, b"<html>oops</html>"));
    assert_eq!(r, SENTINEL);
}

#[test]
fn error_status_is_reported_before_any_decoding() {
    let a = search_result_from_outcome(ok_response(404, b"\"would decode\""));
    let b = search_result_from_outcome(ok_response(404, b"{ not even json"));
    assert_eq!(a, b);
    let m = a.unwrap_err();
    assert_eq!(m, "Request failed with status: 404");
    assert!(m.contains("404"));
}

#[test]
fn search_returns_decoded_body_on_success() {
    let r = search_result_from_outcome(ok_response(200, b"\"python pythonforengineers\""));
    assert_eq!(r, Ok("python pythonforengineers".to_string()));
}

#[test]
fn search_reports_transport_failure() {
    let r = search_result_from_outcome(Err("dns error".to_string()));
    assert_eq!(r, Err("Request failed: dns error".to_string()));
}

#[test]
fn search_reports_decode_failure() {
    let r = search_result_from_outcome(ok_response(200, b"[1,2,3]"));
    assert_eq!(r, Err("Failed to parse the response".to_string()));
}

#[test]
fn search_request_maps_parameters() {
    let c = valid_client();
    let r = c.search_subreddit_names_request("pyt".to_string(), false, false, true, true);
    assert_eq!(r.query, "pyt");
    assert!(!r.exact);
    assert!(!r.include_over_18);
    assert!(r.include_unadvertisable);
    assert!(r.typeahead_active);
    assert_eq!(r.search_query_id.len(), 36);
}

#[test]
fn search_request_draws_fresh_correlation_ids() {
    let c = valid_client();
    let a = c.search_subreddit_names_request("pyt".to_string(), false, false, true, true);
    let b = c.search_subreddit_names_request("pyt".to_string(), false, false, true, true);
    assert_ne!(a.search_query_id, b.search_query_id);
    let qa = a.query_string();
    let qb = b.query_string();
    assert_ne!(qa, qb);
}

#[test]
fn search_query_renames_type_ahead() {
    let c = valid_client();
    let r = c.search_subreddit_names_request("pyt".to_string(), false, false, true, true);
    let q = String::from_utf8(r.query_string()).unwrap();
    assert!(q.contains("typeahead_active=true"));
    assert!(!q.contains("type_ahead="));
}

#[test]
fn server_metadata_is_static() {
    let c = valid_client();
    let info = c.get_info();
    assert_eq!(info.instructions, "A MCP server for accessing Reddit");
    assert!(info.tools_enabled);
}

#[test]
fn tool_registry_declares_both_operations() {
    let tools = tool_descriptors();
    assert_eq!(tools.len(), 2);
    assert_eq!(tools[0].name, "get_access_token");
    assert!(tools[0].params.is_empty());
    assert_eq!(tools[1].name, "search_subreddit_names");
    assert_eq!(
        tools[1].params,
        vec![
            "query",
            "exact",
            "include_over_18",
            "include_unadvertisable",
            "type_ahead",
            "access_token"
        ]
    );
}

#[test]
fn fixed_endpoints_and_user_agent() {
    assert_eq!(auth_url(), "https://www.reddit.com/api/v1/access_token");
    assert_eq!(
        search_names_url(),
        "https://oauth.reddit.com/api/search_reddit_names"
    );
    assert_eq!(user_agent(), "reddit:mcp:v1 (by /u/boringly_boring)");
}
