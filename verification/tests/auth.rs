use axum::http::{header, HeaderMap, HeaderValue};
use llmapi::auth::{apply_api_key, apply_protocol_headers, extract_api_key, is_authorized};
use llmapi::config::Provider;
use llmapi::models::{for_client, is_codex_client};
use llmapi::wire::{parse, to_value};

#[test]
fn extracts_bearer_before_other_keys() {
    let mut headers = HeaderMap::new();
    headers.insert(
        header::AUTHORIZATION,
        HeaderValue::from_static("Bearer sk-bearer"),
    );
    headers.insert("x-api-key", HeaderValue::from_static("sk-x"));

    assert_eq!(
        extract_api_key(&headers, None).as_deref(),
        Some("sk-bearer")
    );
}

#[test]
fn extracts_query_key_last() {
    let headers = HeaderMap::new();

    assert_eq!(
        extract_api_key(&headers, Some("alt=sse&key=sk-query")).as_deref(),
        Some("sk-query")
    );
}

#[test]
fn configured_key_overrides_extracted_key() {
    let mut headers = HeaderMap::new();

    apply_api_key(
        &mut headers,
        Provider::OpenAiChat,
        Some("sk-config"),
        Some("sk-client"),
    );

    assert_eq!(
        headers
            .get(header::AUTHORIZATION)
            .unwrap()
            .to_str()
            .unwrap(),
        "Bearer sk-config"
    );
}

#[test]
fn applies_anthropic_key_and_version_headers() {
    let source = HeaderMap::new();
    let mut headers = HeaderMap::new();

    apply_api_key(&mut headers, Provider::Anthropic, Some("sk-ant"), None);
    apply_protocol_headers(&mut headers, Provider::Anthropic, &source);

    assert_eq!(headers["x-api-key"], "sk-ant");
    assert_eq!(headers["anthropic-version"], "2023-06-01");
    assert!(!headers.contains_key(header::AUTHORIZATION));
}

#[test]
fn forwards_only_safe_common_and_protocol_headers() {
    let mut source = HeaderMap::new();
    source.insert("accept", HeaderValue::from_static("text/event-stream"));
    source.insert("idempotency-key", HeaderValue::from_static("retry-1"));
    source.insert("x-client-request-id", HeaderValue::from_static("request-1"));
    source.insert("openai-beta", HeaderValue::from_static("responses=v1"));
    source.insert("anthropic-beta", HeaderValue::from_static("tools-2025"));
    source.insert(
        header::AUTHORIZATION,
        HeaderValue::from_static("Bearer client-secret"),
    );
    source.insert("x-api-key", HeaderValue::from_static("client-secret"));
    let mut headers = HeaderMap::new();

    apply_protocol_headers(&mut headers, Provider::OpenAiResponses, &source);

    assert_eq!(headers["accept"], "text/event-stream");
    assert_eq!(headers["idempotency-key"], "retry-1");
    assert_eq!(headers["x-client-request-id"], "request-1");
    assert_eq!(headers["openai-beta"], "responses=v1");
    assert!(!headers.contains_key("anthropic-beta"));
    assert!(!headers.contains_key(header::AUTHORIZATION));
    assert!(!headers.contains_key("x-api-key"));
}

#[test]
fn keys_come_from_every_place_in_turn() {
    let mut headers = HeaderMap::new();
    assert_eq!(extract_api_key(&headers, None), None);
    assert_eq!(extract_api_key(&headers, Some("key=a%20b")).as_deref(), Some("a b"));
    headers.insert("api-key", HeaderValue::from_static("sk-api"));
    assert_eq!(extract_api_key(&headers, Some("key=q")).as_deref(), Some("sk-api"));
    headers.insert("x-api-key", HeaderValue::from_static("sk-x"));
    assert_eq!(extract_api_key(&headers, Some("key=q")).as_deref(), Some("sk-x"));
}

#[test]
fn only_the_key_of_the_server_is_authorized() {
    let mut headers = HeaderMap::new();
    assert!(is_authorized(None, &headers, None));
    assert!(!is_authorized(Some("sk-server"), &headers, None));
    assert!(is_authorized(Some("sk-server"), &headers, Some("key=sk-server")));
    headers.insert("x-api-key", HeaderValue::from_static("sk-other"));
    assert!(!is_authorized(Some("sk-server"), &headers, None));
    headers.insert("x-api-key", HeaderValue::from_static("sk-server"));
    assert!(is_authorized(Some("sk-server"), &headers, None));
}

#[test]
fn a_key_that_is_no_header_value_is_not_sent() {
    let mut headers = HeaderMap::new();
    apply_api_key(&mut headers, Provider::Anthropic, Some("a\nb"), None);
    assert!(headers.is_empty());
}

#[test]
fn detects_codex_query_or_user_agent() {
    let mut headers = HeaderMap::new();
    assert!(!is_codex_client(&headers, None));
    assert!(!is_codex_client(&headers, Some("not_client_version=1.0")));
    assert!(is_codex_client(
        &headers,
        Some("limit=1&client_version=1.0")
    ));
    headers.insert(header::USER_AGENT, "Codex_CLI_RS/1.0".parse().unwrap());
    assert!(is_codex_client(&headers, None));
}

#[test]
fn converts_catalogs_and_preserves_native_metadata() {
    let data = parse(r#"{"object": "list", "data": [{"id": "gpt-6-sol", "created": 1790035200, "owned_by": "openai", "context_window": 272000}]}"#).unwrap();
    let converted = for_client(data.clone(), true).unwrap();
    let codex = to_value(&converted);
    assert_eq!(codex["models"][0]["slug"], "gpt-6-sol");
    assert_eq!(codex["models"][0]["context_window"], 272000);
    assert_eq!(codex["models"][0]["shell_type"], "unified_exec");
    assert_eq!(codex["models"][0]["truncation_policy"]["limit"], 10000);
    assert_eq!(for_client(data.clone(), false).unwrap(), data);

    let api = to_value(&for_client(converted.clone(), false).unwrap());
    assert_eq!(api["data"][0]["id"], "gpt-6-sol");
    assert_eq!(api["data"][0]["created"], 1790035200);
    assert_eq!(api["data"][0]["owned_by"], "openai");
    assert_eq!(for_client(converted.clone(), true).unwrap(), converted);
    let both = parse(r#"{"models": [], "data": []}"#).unwrap();
    assert_eq!(
        for_client(both.clone(), true).unwrap(),
        parse(r#"{"models": []}"#).unwrap()
    );
    assert_eq!(for_client(both, false).unwrap(), parse(r#"{"data": []}"#).unwrap());
    assert_eq!(
        for_client(parse(r#"{"data": []}"#).unwrap(), true).unwrap(),
        parse(r#"{"models": []}"#).unwrap()
    );
    assert_eq!(
        for_client(parse(r#"{"models": []}"#).unwrap(), false).unwrap(),
        parse(r#"{"object": "list", "data": []}"#).unwrap()
    );
}

#[test]
fn rejects_invalid_upstream_catalog_instead_of_returning_empty_list() {
    assert!(for_client(parse(r#"{"error": "missing"}"#).unwrap(), true).is_err());
    assert!(for_client(parse(r#"{"data": [{}]}"#).unwrap(), true).is_err());
    assert!(for_client(parse(r#"{"models": [{}]}"#).unwrap(), false).is_err());
}
