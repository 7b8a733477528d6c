use reddit_mcp::models::{AccessTokenRequest, SearchSubredditNameRequest};
use reddit_mcp::models::{parse_access_token_response, parse_search_response};

fn token_request(username: &str, password: &str) -> AccessTokenRequest {
    AccessTokenRequest {
        grant_type: "password".to_string(),
        username: username.to_string(),
        password: password.to_string(),
    }
}

#[test]
fn form_body_plain() {
    let r = token_request("alice", "hunter2");
    assert_eq!(
        r.form_body(),
        b"grant_type=password&username=alice&password=hunter2".to_vec()
    );
}

#[test]
fn form_body_escapes_reserved_bytes() {
    let r = token_request("user one", "p&ss=1");
    assert_eq!(
        r.form_body(),
        b"grant_type=password&username=user+one&password=p%26ss%3D1".to_vec()
    );
}

#[test]
fn form_body_keeps_unreserved_bytes() {
    let r = token_request("A.z-9_*", "~");
    assert_eq!(
        r.form_body(),
        b"grant_type=password&username=A.z-9_*&password=%7E".to_vec()
    );
}

#[test]
fn form_body_encodes_multibyte_utf8() {
    let r = token_request("u", "é");
    assert_eq!(
        r.form_body(),
        b"grant_type=password&username=u&password=%C3%A9".to_vec()
    );
}

#[test]
fn query_string_field_order_and_rename() {
    let r = SearchSubredditNameRequest {
        exact: false,
        include_over_18: false,
        include_unadvertisable: true,
        query: "pyt".to_string(),
        search_query_id: "q".to_string(),
        typeahead_active: true,
    };
    assert_eq!(
        r.query_string(),
        b"exact=false&include_over_18=false&include_unadvertisable=true&query=pyt&search_query_id=q&typeahead_active=true".to_vec()
    );
}

#[test]
fn token_response_decodes() {
    let body = br#"{"access_token":"abc123","expires_in":3600,"scope":"*","token_type":"bearer"}"#;
    let t = parse_access_token_response(body).expect("should decode");
    assert_eq!(t.access_token, "abc123");
    assert_eq!(t.expires_in, 3600);
    assert_eq!(t.scope, "*");
    assert_eq!(t.token_type, "bearer");
}

#[test]
fn token_response_tolerates_whitespace_and_order() {
    let body = b" { \"scope\" : \"*\" ,\n\t\"token_type\": \"bearer\", \"expires_in\": -5, \"access_token\": \"t\" } ";
    let t = parse_access_token_response(body).expect("should decode");
    assert_eq!(t.access_token, "t");
    assert_eq!(t.expires_in, -5);
}

#[test]
fn token_response_first_duplicate_wins() {
    let body = br#"{"access_token":"first","access_token":"second","expires_in":1,"scope":"*","token_type":"bearer"}"#;
    let t = parse_access_token_response(body).expect("should decode");
    assert_eq!(t.access_token, "first");
}

#[test]
fn token_response_decodes_escapes() {
    let body = br#"{"access_token":"a\"b\\c\/d\ne\tf\rg\bh\fi","expires_in":1,"scope":"*","token_type":"bearer"}"#;
    let t = parse_access_token_response(body).expect("should decode");
    assert_eq!(t.access_token, "a\"b\\c/d\ne\tf\rg\u{8}h\u{c}i");
}

#[test]
fn token_response_rejects_malformed() {
    assert!(parse_access_token_response(b"not json at all").is_none());
    assert!(parse_access_token_response(b"{").is_none());
    assert!(parse_access_token_response(b"").is_none());
    assert!(parse_access_token_response(b"{\"access_token\":\"a\"").is_none());
}

#[test]
fn token_response_rejects_missing_member() {
    let body = br#"{"access_token":"abc123","expires_in":3600,"scope":"*"}"#;
    assert!(parse_access_token_response(body).is_none());
}

#[test]
fn token_response_rejects_wrong_type() {
    let body = br#"{"access_token":7,"expires_in":3600,"scope":"*","token_type":"bearer"}"#;
    assert!(parse_access_token_response(body).is_none());
    let body = br#"{"access_token":"a","expires_in":"3600","scope":"*","token_type":"bearer"}"#;
    assert!(parse_access_token_response(body).is_none());
}

#[test]
fn token_response_rejects_out_of_range_expiry() {
    let body = br#"{"access_token":"a","expires_in":4294967296,"scope":"*","token_type":"bearer"}"#;
    assert!(parse_access_token_response(body).is_none());
    let body =
        br#"{"access_token":"a","expires_in":1000000000000000000000,"scope":"*","token_type":"bearer"}"#;
    assert!(parse_access_token_response(body).is_none());
}

#[test]
fn token_response_rejects_unicode_escape() {
    let body = br#"{"access_token":"a\u0041","expires_in":1,"scope":"*","token_type":"bearer"}"#;
    assert!(parse_access_token_response(body).is_none());
}

#[test]
fn token_response_rejects_trailing_garbage() {
    let body = br#"{"access_token":"a","expires_in":1,"scope":"*","token_type":"bearer"} x"#;
    assert!(parse_access_token_response(body).is_none());
}

#[test]
fn token_response_accepts_boolean_members_elsewhere() {
    let body = br#"{"ok":true,"access_token":"a","expires_in":1,"scope":"*","token_type":"bearer"}"#;
    let t = parse_access_token_response(body).expect("should decode");
    assert_eq!(t.access_token, "a");
}

#[test]
fn token_response_rejects_invalid_utf8_in_token() {
    let mut body: Vec<u8> = Vec::new();
    body.extend_from_slice(b"{\"access_token\":\"");
    body.push(0xff);
    body.extend_from_slice(b"\",\"expires_in\":1,\"scope\":\"*\",\"token_type\":\"bearer\"}");
    assert!(parse_access_token_response(&body).is_none());
}

#[test]
fn search_response_decodes_bare_string() {
    assert_eq!(parse_search_response(b"\"python\""), Some("python".to_string()));
    assert_eq!(parse_search_response(b"  \"a b\"  "), Some("a b".to_string()));
}

#[test]
fn search_response_rejects_other_documents() {
    assert!(parse_search_response(b"[\"python\"]").is_none());
    assert!(parse_search_response(b"python").is_none());
    assert!(parse_search_response(b"\"unterminated").is_none());
    assert!(parse_search_response(b"\"a\" \"b\"").is_none());
}
