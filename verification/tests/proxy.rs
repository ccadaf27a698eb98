use axum::http::{HeaderMap, HeaderValue};
use llmapi::config::{Config, EnvValue, Environment, Provider, ProviderConfig};
use llmapi::named::Named;
use llmapi::protocol::{InputFormat, UpstreamFormat};
use llmapi::proxy::address::{forwarded_query, upstream_url, websocket_url};
use llmapi::proxy::convert::{convert_request, convert_response, ConvertError};
use llmapi::proxy::decide::{decide, socket_error_text, Decision};
use llmapi::proxy::forward::{
    copy_response_headers, copy_response_metadata_headers, set_models_headers, upstream_headers,
    vary_by_agent, wants_upstream_raw,
};
use llmapi::proxy::reply::{
    check_announced_length, extend_body, models_answer, protocol_error, protocol_error_body,
    read_upstream_error, Failure, ModelsAnswer,
};
use llmapi::proxy::stream::{Next, StreamConverter};
use llmapi::redact;
use llmapi::server::{providers, Reload, Reloader};
use llmapi::wire::to_value;
use serde_json::Value;

fn test_config(base_url: &str) -> Config {
    let mut list = Named::new();
    for (name, provider_type, key) in [
        ("deepseek", Provider::OpenAiChat, "sk-deepseek"),
        ("openai", Provider::OpenAiResponses, "sk-openai"),
        ("anthropic", Provider::Anthropic, "sk-anthropic"),
    ] {
        list.insert(
            name.to_string(),
            ProviderConfig {
                provider_type,
                base_url: base_url.to_string(),
                api_key: Some(key.to_string()),
            },
        );
    }
    Config {
        server: "127.0.0.1:0".into(),
        api_key: None,
        default: "deepseek".into(),
        providers: list,
    }
}

fn no_env() -> Environment {
    Named::new()
}

fn body(result: Result<Vec<u8>, ConvertError>) -> Value {
    serde_json::from_slice(&result.unwrap()).unwrap()
}

fn failure(result: Result<Vec<u8>, ConvertError>) -> Failure {
    match result {
        Err(ConvertError::Failed(failure)) => failure,
        other => panic!("{other:?}"),
    }
}

fn post(config: &Config, path: &str) -> Decision {
    decide(config, &no_env(), "POST", path, None, &HeaderMap::new(), false)
}

fn stream(input: InputFormat, upstream: UpstreamFormat, pieces: &[&[u8]]) -> String {
    let mut converter = StreamConverter::new(input, upstream);
    let mut text = String::new();
    for piece in pieces {
        let output = converter.push(piece);
        for event in &output.events {
            text.push_str(&event.encode());
        }
        assert_eq!(output.next, Next::More);
    }
    let output = converter.finish();
    for event in &output.events {
        text.push_str(&event.encode());
    }
    assert_eq!(output.next, Next::Done);
    text
}

fn sse_json_events(text: &str) -> Vec<Value> {
    text.lines()
        .filter_map(|line| line.strip_prefix("data: "))
        .filter(|data| *data != "[DONE]")
        .map(|data| serde_json::from_str(data).unwrap())
        .collect()
}

#[test]
fn removes_auth_and_internal_query_parameters_from_upstream_url() {
    assert_eq!(
        upstream_url(
            "https://api.example.test/v1",
            "/responses",
            Some("key=sk-secret&beta=true&llmapi_response_mode=upstream_raw"),
        ),
        "https://api.example.test/v1/responses?beta=true"
    );
}

#[test]
fn accepts_base_url_that_already_contains_endpoint() {
    assert_eq!(
        upstream_url("https://api.anthropic.test/v1/messages", "/messages", None),
        "https://api.anthropic.test/v1/messages"
    );
    assert_eq!(
        upstream_url("https://api.openai.test/v1", "/responses", None),
        "https://api.openai.test/v1/responses"
    );
}

#[test]
fn builds_websocket_url_and_filters_client_secrets() {
    assert_eq!(
        websocket_url(
            "https://api.openai.test/v1",
            "/responses",
            Some("key=sk-secret&stream=true&llmapi_response_mode=upstream_raw"),
        ),
        "wss://api.openai.test/v1/responses?stream=true"
    );
    assert_eq!(
        websocket_url("http://127.0.0.1:9000", "/responses", None),
        "ws://127.0.0.1:9000/responses"
    );
}

#[test]
fn redacts_sensitive_query_values() {
    assert_eq!(
        redact::query("alt=sse&key=sk-123456&api_key=token-abcdef"),
        "alt=sse&key=sk-123...&api_key=token-..."
    );
}

#[test]
fn request_keeps_path_and_redacts_query() {
    assert_eq!(
        redact::request("POST", "/v1/chat/completions", Some("key=sk-query&mode=test")),
        "POST /v1/chat/completions?key=sk-que...&mode=test"
    );
}

#[test]
fn redacts_addresses_and_short_keys() {
    assert_eq!(redact::key("abc"), "abc...");
    assert_eq!(
        redact::url("https://a.test/x?token=123456789&b=1"),
        "https://a.test/x?token=123456...&b=1"
    );
    assert_eq!(redact::url("https://a.test/x"), "https://a.test/x");
    assert_eq!(redact::request("GET", "/models", None), "GET /models");
}

#[test]
fn bounds_buffered_upstream_response_bodies() {
    let error = check_announced_length(Some(5), 4).unwrap_err();
    assert!(error.contains("exceeds 4 bytes"));
    assert_eq!(check_announced_length(Some(4), 4), Ok(()));
    assert_eq!(check_announced_length(None, 4), Ok(()));
    let mut read = Vec::new();
    extend_body(&mut read, b"1234", 4).unwrap();
    let error = extend_body(&mut read, b"5", 4).unwrap_err();
    assert!(error.contains("exceeds 4 bytes"));
    assert_eq!(read, b"1234");
}

#[test]
fn queries_are_forwarded_without_keys() {
    assert_eq!(forwarded_query("limit=10&key=sk-client").as_deref(), Some("limit=10"));
    assert_eq!(forwarded_query("key=sk-client"), None);
    assert_eq!(forwarded_query("a=%20b&c").as_deref(), Some("a=+b&c="));
}

#[test]
fn responses_to_default_chat_provider() {
    let config = test_config("https://up.test");
    match post(&config, "/responses") {
        Decision::Exchange { input, provider, upstream, url, transparent, raw } => {
            assert_eq!(input, InputFormat::OpenAiResponses);
            assert_eq!(provider.api_key.as_deref(), Some("sk-deepseek"));
            assert_eq!(upstream, UpstreamFormat::OpenAiChat);
            assert_eq!(url, "https://up.test/chat/completions");
            assert!(!transparent && !raw);
        }
        other => panic!("{other:?}"),
    }
    let request = body(convert_request(
        InputFormat::OpenAiResponses,
        UpstreamFormat::OpenAiChat,
        br#"{"model": "deepseek-chat", "input": [{"role": "user", "content": "hi"}]}"#,
    ));
    assert_eq!(request["messages"][0]["role"], "user");
    let headers = upstream_headers(
        true,
        Provider::OpenAiChat,
        Some("sk-deepseek"),
        false,
        &HeaderMap::new(),
        None,
    );
    assert_eq!(headers["authorization"], "Bearer sk-deepseek");

    let output = body(convert_response(
        InputFormat::OpenAiResponses,
        UpstreamFormat::OpenAiChat,
        br#"{
            "id": "chatcmpl_1",
            "model": "deepseek-chat",
            "choices": [{"message": {"content": "hello"}, "finish_reason": "stop"}],
            "usage": {"prompt_tokens": 1, "completion_tokens": 1}
        }"#,
    ));
    assert_eq!(output["object"], "response");
    assert_eq!(output["output_text"], "hello");
}

#[test]
fn anthropic_messages_to_default_chat_provider() {
    let config = test_config("https://up.test");
    assert!(matches!(
        post(&config, "/messages"),
        Decision::Exchange { url, .. } if url == "https://up.test/chat/completions"
    ));
    let request = body(convert_request(
        InputFormat::AnthropicMessages,
        UpstreamFormat::OpenAiChat,
        br#"{"model": "deepseek-chat", "messages": [{"role": "user", "content": "hi"}], "max_tokens": 128}"#,
    ));
    assert_eq!(request["max_tokens"], 128);
    let output = body(convert_response(
        InputFormat::AnthropicMessages,
        UpstreamFormat::OpenAiChat,
        br#"{
            "id": "chatcmpl_2",
            "model": "deepseek-chat",
            "choices": [{"message": {"content": "hello"}, "finish_reason": "stop"}]
        }"#,
    ));
    assert_eq!(output["type"], "message");
    assert_eq!(output["content"][0]["text"], "hello");
}

#[test]
fn responses_to_named_anthropic_provider() {
    let config = test_config("https://up.test");
    assert!(matches!(
        post(&config, "/anthropic/responses"),
        Decision::Exchange { url, .. } if url == "https://up.test/messages"
    ));
    let request = body(convert_request(
        InputFormat::OpenAiResponses,
        UpstreamFormat::AnthropicMessages,
        br#"{"model": "sonnet-4", "input": [{"role": "user", "content": "hi"}], "max_output_tokens": 128}"#,
    ));
    assert_eq!(request["messages"][0]["content"][0]["text"], "hi");
    let headers = upstream_headers(
        true,
        Provider::Anthropic,
        Some("sk-anthropic"),
        false,
        &HeaderMap::new(),
        None,
    );
    assert_eq!(headers["x-api-key"], "sk-anthropic");
    assert_eq!(headers["anthropic-version"], "2023-06-01");
    let output = body(convert_response(
        InputFormat::OpenAiResponses,
        UpstreamFormat::AnthropicMessages,
        br#"{
            "id": "msg_1",
            "type": "message",
            "model": "sonnet-4",
            "content": [{"type": "text", "text": "hello"}],
            "stop_reason": "end_turn"
        }"#,
    ));
    assert_eq!(output["object"], "response");
    assert_eq!(output["output_text"], "hello");
}

#[test]
fn anthropic_messages_to_named_responses_provider() {
    let config = test_config("https://up.test");
    assert!(matches!(
        post(&config, "/openai/messages"),
        Decision::Exchange { url, .. } if url == "https://up.test/responses"
    ));
    let request = body(convert_request(
        InputFormat::AnthropicMessages,
        UpstreamFormat::OpenAiResponses,
        br#"{"model": "gpt-4.1", "messages": [{"role": "user", "content": "hi"}], "max_tokens": 128}"#,
    ));
    assert_eq!(request["input"][0]["content"], "hi");
    let output = body(convert_response(
        InputFormat::AnthropicMessages,
        UpstreamFormat::OpenAiResponses,
        br#"{
            "id": "resp_1",
            "object": "response",
            "model": "gpt-4.1",
            "output_text": "hello",
            "status": "completed"
        }"#,
    ));
    assert_eq!(output["type"], "message");
    assert_eq!(output["content"][0]["text"], "hello");
}

#[test]
fn rejects_unknown_route_and_provider() {
    let config = test_config("https://up.test");
    assert_eq!(
        decide(&config, &no_env(), "GET", "/unknown", None, &HeaderMap::new(), false),
        Decision::UnknownRoute
    );
    assert!(matches!(
        post(&config, "/missing/responses"),
        Decision::Fail { failure, .. } if failure.status == 404
    ));
}

#[test]
fn providers_lists_active_config_without_exposing_api_keys() {
    let mut config = test_config("https://example.test");
    config.providers.insert(
        "openai".into(),
        ProviderConfig {
            provider_type: Provider::OpenAiResponses,
            base_url: "https://example.test".into(),
            api_key: Some("${OPENAI_API_KEY}".into()),
        },
    );
    config.providers.insert(
        "anthropic".into(),
        ProviderConfig {
            provider_type: Provider::Anthropic,
            base_url: "https://example.test".into(),
            api_key: None,
        },
    );
    let shown = to_value(&providers(&config));
    assert_eq!(shown["default"], "deepseek");
    assert_eq!(shown["providers"].as_object().unwrap().len(), 3);
    let expected: Value = serde_json::from_str(
        r#"{"type": "openai-chat", "baseurl": "https://example.test", "apikey": "***"}"#,
    )
    .unwrap();
    assert_eq!(shown["providers"]["deepseek"], expected);
    assert_eq!(shown["providers"]["openai"]["apikey"], "***");
    assert!(shown["providers"]["anthropic"].get("apikey").is_none());
    assert!(!shown.to_string().contains("sk-deepseek"));
    assert!(!shown.to_string().contains("OPENAI_API_KEY"));
}

#[test]
fn model_routes_return_client_response_shape() {
    let data = r#"{
        "object": "list",
        "data": [{"created": 1790035200, "id": "gpt-6-sol", "object": "model", "owned_by": "openai"}]
    }"#;
    let models = r#"{
        "models": [{
            "slug": "gpt-6-sol",
            "display_name": "GPT 6.0 Sol",
            "default_reasoning_level": "medium",
            "supported_reasoning_levels": [{"effort": "low", "description": "Fast responses"}],
            "context_window": 272000,
            "available_access_programs": {"cyber": ["standard"]}
        }]
    }"#;
    for (path, payload, api_key, base_suffix, codex) in [
        ("/models", data, "sk-deepseek", "", false),
        ("/v1/models", models, "sk-deepseek", "/v1", true),
        ("/openai/models", models, "sk-openai", "", false),
        ("/openai/v1/models", data, "sk-openai", "/v1", true),
        ("/models", models, "sk-deepseek", "", true),
        ("/v1/models", data, "sk-deepseek", "/v1", false),
    ] {
        let config = test_config(&format!("https://up.test{base_suffix}"));
        let query = if codex {
            "limit=10&key=sk-client&client_version=1.2.3"
        } else {
            "limit=10&key=sk-client"
        };
        let decision = decide(
            &config,
            &no_env(),
            "GET",
            path,
            Some(query),
            &HeaderMap::new(),
            false,
        );
        let forwarded = if codex {
            "limit=10&client_version=1.2.3"
        } else {
            "limit=10"
        };
        match decision {
            Decision::Models { provider, url, codex: for_codex } => {
                assert_eq!(provider.api_key.as_deref(), Some(api_key), "{path}");
                assert_eq!(url, format!("https://up.test{base_suffix}/models?{forwarded}"));
                assert_eq!(for_codex, codex);
            }
            other => panic!("{path}: {other:?}"),
        }
        let given: Value = serde_json::from_str(payload).unwrap();
        let output = match models_answer(payload.as_bytes(), codex) {
            ModelsAnswer::Native => given.clone(),
            ModelsAnswer::Converted(body) => serde_json::from_slice(&body).unwrap(),
            ModelsAnswer::Fail(failure) => panic!("{failure:?}"),
        };
        if codex {
            assert!(output["models"].is_array(), "{path}");
            assert_eq!(output["models"][0]["slug"], "gpt-6-sol");
            assert!(output.get("data").is_none());
            if given.get("models").is_some() {
                assert_eq!(output, given);
            } else {
                assert_eq!(output["models"][0]["base_instructions"], "");
            }
        } else {
            assert_eq!(output["object"], "list");
            assert_eq!(output["data"][0]["id"], "gpt-6-sol");
            assert!(output.get("models").is_none());
            if given.get("data").is_some() {
                assert_eq!(output, given);
            }
        }
    }
    let mut target = HeaderMap::new();
    let mut source = HeaderMap::new();
    source.insert("etag", HeaderValue::from_static("\"v1\""));
    source.append("vary", HeaderValue::from_static("accept"));
    assert!(set_models_headers(&source, &mut target, true));
    assert!(target
        .get_all("vary")
        .iter()
        .any(|value| value == "User-Agent"));
    assert_eq!(target["etag"], "\"v1\"");
}

#[test]
fn models_rejects_post_without_calling_upstream() {
    let config = test_config("https://up.test");
    match post(&config, "/models") {
        Decision::Fail { input, failure } => {
            assert_eq!(failure.status, 405);
            let error: Value =
                serde_json::from_slice(&protocol_error_body(input, &failure)).unwrap();
            assert_eq!(error["error"]["type"], "invalid_request_error");
        }
        other => panic!("{other:?}"),
    }
}

#[test]
fn codex_user_agent_selects_models_without_version_query() {
    let mut headers = HeaderMap::new();
    headers.insert("user-agent", HeaderValue::from_static("codex_cli_rs/1.0"));
    let config = test_config("https://up.test");
    assert!(matches!(
        decide(&config, &no_env(), "GET", "/models", None, &headers, false),
        Decision::Models { codex: true, url, .. } if url == "https://up.test/models"
    ));
}

#[test]
fn models_preserves_conditional_etag_response() {
    let mut headers = HeaderMap::new();
    headers.insert("if-none-match", HeaderValue::from_static("\"catalog-v1\""));
    let sent = upstream_headers(true, Provider::OpenAiChat, None, true, &headers, None);
    assert_eq!(sent["if-none-match"], "\"catalog-v1\"");

    let mut source = HeaderMap::new();
    source.insert("etag", HeaderValue::from_static("\"catalog-v1\""));
    let mut target = HeaderMap::new();
    assert!(copy_response_headers(&source, &mut target));
    assert!(vary_by_agent(&mut target));
    assert_eq!(target["etag"], "\"catalog-v1\"");
    assert!(target
        .get_all("vary")
        .iter()
        .any(|value| value == "User-Agent"));
}

#[test]
fn models_rejects_malformed_success_response() {
    match models_answer(br#"{"error": "not a catalog"}"#, true) {
        ModelsAnswer::Fail(failure) => {
            assert_eq!(failure.status, 502);
            assert_eq!(failure.error_type, "api_error");
        }
        other => panic!("{other:?}"),
    }
    assert!(matches!(
        models_answer(b"no json", false),
        ModelsAnswer::Fail(failure) if failure.status == 502
    ));
}

#[test]
fn conversion_errors_use_the_client_protocol_schema() {
    let refused = failure(convert_request(
        InputFormat::OpenAiResponses,
        UpstreamFormat::OpenAiChat,
        br#"{"input": "missing model"}"#,
    ));
    assert_eq!(refused.status, 400);
    let error: Value = serde_json::from_slice(&protocol_error_body(
        InputFormat::OpenAiResponses,
        &refused,
    ))
    .unwrap();
    assert_eq!(error["error"]["type"], "invalid_request_error");

    let refused = failure(convert_request(
        InputFormat::AnthropicMessages,
        UpstreamFormat::OpenAiChat,
        br#"{"messages": []}"#,
    ));
    assert_eq!(refused.status, 400);
    let error: Value = serde_json::from_slice(&protocol_error_body(
        InputFormat::AnthropicMessages,
        &refused,
    ))
    .unwrap();
    assert_eq!(error["type"], "error");
    assert_eq!(error["error"]["type"], "invalid_request_error");
}

#[test]
fn response_conversion_errors_use_the_client_protocol_schema() {
    let refused = failure(convert_response(
        InputFormat::AnthropicMessages,
        UpstreamFormat::OpenAiChat,
        br#"{
            "id": "chatcmpl_audio",
            "model": "gpt-audio",
            "choices": [{
                "index": 0,
                "message": {
                    "role": "assistant",
                    "content": null,
                    "audio": {"id": "audio_1", "data": "AAAA"}
                },
                "finish_reason": "stop"
            }]
        }"#,
    ));
    assert_eq!(refused.status, 502);
    let error = to_value(&protocol_error(
        InputFormat::AnthropicMessages,
        &refused.message,
        &refused.error_type,
    ));
    assert_eq!(error["type"], "error");
    assert_eq!(error["error"]["type"], "api_error");
    assert!(error["error"]["message"].as_str().unwrap().contains("audio"));
}

#[test]
fn unrepresentable_request_fields_fail_instead_of_being_dropped() {
    let refused = failure(convert_request(
        InputFormat::OpenAiChat,
        UpstreamFormat::OpenAiResponses,
        br#"{"model": "gpt-5", "messages": [{"role": "user", "content": "hi"}], "n": 2}"#,
    ));
    assert_eq!(refused.status, 400);
    assert_eq!(refused.error_type, "invalid_request_error");
    assert!(refused.message.contains("field `n`"));
}

#[test]
fn upstream_errors_are_converted_and_keep_retry_metadata() {
    let told = read_upstream_error(
        429,
        br#"{"type": "error", "error": {"type": "rate_limit_error", "message": "slow down"}}"#,
    );
    assert_eq!(told.status, 429);
    let error = to_value(&protocol_error(
        InputFormat::OpenAiResponses,
        &told.message,
        &told.error_type,
    ));
    assert_eq!(error["error"]["type"], "rate_limit_error");
    assert_eq!(error["error"]["message"], "slow down");

    let mut source = HeaderMap::new();
    source.insert("retry-after", HeaderValue::from_static("3"));
    source.insert("x-request-id", HeaderValue::from_static("req_error"));
    source.insert("set-cookie", HeaderValue::from_static("a=b"));
    source.insert("content-type", HeaderValue::from_static("text/plain"));
    let mut target = HeaderMap::new();
    assert!(copy_response_metadata_headers(&source, &mut target));
    assert_eq!(target["retry-after"], "3");
    assert_eq!(target["x-request-id"], "req_error");
    assert!(!target.contains_key("set-cookie"));
    assert!(!target.contains_key("content-type"));
}

#[test]
fn an_error_without_a_form_is_told_by_its_body() {
    let told = read_upstream_error(500, b"oops");
    assert_eq!(told.message, "oops");
    assert_eq!(told.error_type, "api_error");
    let told = read_upstream_error(500, b"\xff");
    assert_eq!(told.message, "upstream request failed");
    let told = read_upstream_error(500, br#"{"message": "outer"}"#);
    assert_eq!(told.message, "outer");
}

#[test]
fn chat_tools_and_multimodal_content_to_anthropic_provider() {
    let sent = body(convert_request(
        InputFormat::OpenAiChat,
        UpstreamFormat::AnthropicMessages,
        br#"{
            "model": "sonnet-4-5",
            "messages": [
                {"role": "system", "content": "Be concise"},
                {"role": "user", "content": [
                    {"type": "text", "text": "Weather?"},
                    {"type": "image_url", "image_url": {"url": "https://example.test/map.png", "detail": "high"}}
                ]},
                {"role": "assistant", "content": null, "tool_calls": [{"id": "call_1", "type": "function", "function": {"name": "weather", "arguments": "{\"city\":\"Paris\"}"}}]},
                {"role": "tool", "tool_call_id": "call_1", "content": "sunny"}
            ],
            "tools": [{"type": "function", "function": {"name": "weather", "description": "Get weather", "parameters": {"type": "object"}, "strict": true}}],
            "tool_choice": {"type": "function", "function": {"name": "weather"}},
            "parallel_tool_calls": false,
            "reasoning_effort": "high",
            "response_format": {"type": "json_schema", "json_schema": {"name": "answer", "schema": {"type": "object"}, "strict": true}},
            "max_tokens": 256
        }"#,
    ));
    assert_eq!(sent["system"][0]["text"], "Be concise");
    assert_eq!(sent["messages"][0]["content"][1]["type"], "image");
    assert_eq!(sent["messages"][1]["content"][0]["type"], "tool_use");
    assert_eq!(sent["messages"][2]["content"][0]["type"], "tool_result");
    assert_eq!(sent["tools"][0]["input_schema"]["type"], "object");
    assert_eq!(sent["tool_choice"]["type"], "tool");
    assert_eq!(sent["tool_choice"]["disable_parallel_tool_use"], true);
    assert_eq!(sent["thinking"]["type"], "adaptive");
    assert_eq!(sent["output_config"]["effort"], "high");
    assert_eq!(sent["output_config"]["format"]["type"], "json_schema");
    assert_eq!(sent["output_config"]["format"]["name"], "answer");

    let output = body(convert_response(
        InputFormat::OpenAiChat,
        UpstreamFormat::AnthropicMessages,
        br#"{
            "id": "msg_tool",
            "type": "message",
            "role": "assistant",
            "model": "sonnet-4-5",
            "content": [
                {"type": "text", "text": "sunny", "citations": [{"type": "web_search_result_location", "url": "https://weather.test/paris", "title": "Paris weather", "cited_text": "sunny", "encrypted_index": "enc-index"}]},
                {"type": "thinking", "thinking": "check weather", "signature": "sig"},
                {"type": "tool_use", "id": "toolu_2", "name": "weather", "input": {"city": "Paris"}}
            ],
            "stop_reason": "tool_use",
            "stop_sequence": null,
            "usage": {"input_tokens": 12, "output_tokens": 5, "cache_read_input_tokens": 4}
        }"#,
    ));
    let message = &output["choices"][0]["message"];
    assert_eq!(output["choices"][0]["finish_reason"], "tool_calls");
    assert_eq!(message["tool_calls"][0]["function"]["name"], "weather");
    assert_eq!(message["reasoning_content"], "check weather");
    assert_eq!(message["content"], "sunny");
    assert_eq!(message["annotations"][0]["type"], "url_citation");
    assert_eq!(
        message["annotations"][0]["url_citation"]["url"],
        "https://weather.test/paris"
    );
    assert!(message["annotations"][0]["url_citation"]
        .get("encrypted_index")
        .is_none());
    assert_eq!(output["usage"]["prompt_tokens"], 12);
    assert_eq!(output["usage"]["prompt_tokens_details"]["cached_tokens"], 4);
}

#[test]
fn chat_tools_to_responses_provider() {
    let sent = body(convert_request(
        InputFormat::OpenAiChat,
        UpstreamFormat::OpenAiResponses,
        br#"{
            "model": "gpt-5",
            "messages": [
                {"role": "user", "content": "Weather?"},
                {"role": "assistant", "content": null, "tool_calls": [{"id": "call_1", "type": "function", "function": {"name": "weather", "arguments": "{}"}}]},
                {"role": "tool", "tool_call_id": "call_1", "content": "sunny"}
            ],
            "tools": [{"type": "function", "function": {"name": "weather", "parameters": {"type": "object"}}}],
            "reasoning_effort": "high",
            "response_format": {"type": "json_schema", "json_schema": {"name": "answer", "schema": {"type": "object"}, "strict": true}},
            "verbosity": "low"
        }"#,
    ));
    assert_eq!(sent["input"][1]["type"], "function_call");
    assert_eq!(sent["input"][2]["type"], "function_call_output");
    assert_eq!(sent["tools"][0]["type"], "function");
    assert_eq!(sent["reasoning"]["effort"], "high");
    assert_eq!(sent["text"]["verbosity"], "low");
    assert_eq!(sent["text"]["format"]["type"], "json_schema");
    assert_eq!(sent["text"]["format"]["name"], "answer");
    assert!(sent["text"]["format"].get("json_schema").is_none());

    let output = body(convert_response(
        InputFormat::OpenAiChat,
        UpstreamFormat::OpenAiResponses,
        br#"{
            "id": "resp_tool",
            "object": "response",
            "model": "gpt-5",
            "status": "completed",
            "output": [
                {"id": "rs_1", "type": "reasoning", "status": "completed", "summary": [{"type": "summary_text", "text": "checked"}], "encrypted_content": "enc"},
                {"id": "fc_1", "type": "function_call", "status": "completed", "call_id": "call_2", "name": "weather", "arguments": "{\"city\":\"Paris\"}"}
            ],
            "usage": {"input_tokens": 9, "output_tokens": 3, "total_tokens": 12, "output_tokens_details": {"reasoning_tokens": 2}}
        }"#,
    ));
    assert_eq!(output["choices"][0]["finish_reason"], "tool_calls");
    let message = &output["choices"][0]["message"];
    assert_eq!(message["tool_calls"][0]["function"]["name"], "weather");
    assert_eq!(message["reasoning_content"], "checked");
    assert_eq!(
        output["usage"]["completion_tokens_details"]["reasoning_tokens"],
        2
    );
}

#[test]
fn chat_stream_to_anthropic_has_complete_lifecycle_and_split_utf8() {
    let text = [
        "data: {\"id\":\"chatcmpl_s1\",\"model\":\"deepseek-chat\",\"choices\":[{\"index\":0,\"delta\":{\"role\":\"assistant\"}}]}\r\n\r\n",
        "data: {\"id\":\"chatcmpl_s1\",\"model\":\"deepseek-chat\",\"choices\":[{\"index\":0,\"delta\":{\"content\":\"你\"}}]}\r\n\r\n",
        "data: {\"id\":\"chatcmpl_s1\",\"model\":\"deepseek-chat\",\"choices\":[{\"index\":0,\"delta\":{},\"finish_reason\":\"stop\"}]}\r\n\r\n",
        "data: {\"id\":\"chatcmpl_s1\",\"model\":\"deepseek-chat\",\"choices\":[],\"usage\":{\"prompt_tokens\":4,\"completion_tokens\":1,\"total_tokens\":5}}\r\n\r\n",
        "data: [DONE]\r\n\r\n",
    ]
    .join("");
    let bytes = text.as_bytes();
    let split = bytes.iter().position(|byte| *byte >= 0x80).unwrap() + 1;
    let told = stream(
        InputFormat::AnthropicMessages,
        UpstreamFormat::OpenAiChat,
        &[&bytes[..split], &bytes[split..split + 1], &bytes[split + 1..]],
    );
    let events = sse_json_events(&told);
    let types = events
        .iter()
        .map(|event| event["type"].as_str().unwrap())
        .collect::<Vec<_>>();
    assert_eq!(
        types,
        [
            "message_start",
            "content_block_start",
            "content_block_delta",
            "content_block_stop",
            "message_delta",
            "message_stop"
        ]
    );
    assert_eq!(events[2]["delta"]["text"], "你");
    assert_eq!(events[4]["delta"]["stop_reason"], "end_turn");
    assert_eq!(events[4]["usage"]["input_tokens"], 4);
    assert_eq!(events[4]["usage"]["output_tokens"], 1);
}

#[test]
fn anthropic_tool_stream_to_responses_has_complete_lifecycle() {
    let text = [
        "event: message_start\ndata: {\"type\":\"message_start\",\"message\":{\"id\":\"msg_s1\",\"type\":\"message\",\"role\":\"assistant\",\"model\":\"sonnet\",\"content\":[],\"stop_reason\":null,\"stop_sequence\":null,\"usage\":{\"input_tokens\":6,\"output_tokens\":0}}}\n\n",
        "event: content_block_start\ndata: {\"type\":\"content_block_start\",\"index\":0,\"content_block\":{\"type\":\"tool_use\",\"id\":\"toolu_1\",\"name\":\"weather\",\"input\":{}}}\n\n",
        "event: content_block_delta\ndata: {\"type\":\"content_block_delta\",\"index\":0,\"delta\":{\"type\":\"input_json_delta\",\"partial_json\":\"{\\\"city\\\":\\\"Paris\\\"}\"}}\n\n",
        "event: content_block_stop\ndata: {\"type\":\"content_block_stop\",\"index\":0}\n\n",
        "event: message_delta\ndata: {\"type\":\"message_delta\",\"delta\":{\"stop_reason\":\"tool_use\",\"stop_sequence\":null},\"usage\":{\"output_tokens\":3}}\n\n",
        "event: message_stop\ndata: {\"type\":\"message_stop\"}\n\n",
    ]
    .join("");
    let midpoint = text.len() / 2;
    let told = stream(
        InputFormat::OpenAiResponses,
        UpstreamFormat::AnthropicMessages,
        &[&text.as_bytes()[..midpoint], &text.as_bytes()[midpoint..]],
    );
    let events = sse_json_events(&told);
    let types = events
        .iter()
        .map(|event| event["type"].as_str().unwrap())
        .collect::<Vec<_>>();
    assert!(types.starts_with(&[
        "response.created",
        "response.output_item.added",
        "response.function_call_arguments.delta"
    ]));
    assert!(types.contains(&"response.function_call_arguments.done"));
    assert!(types.contains(&"response.output_item.done"));
    assert_eq!(types.last(), Some(&"response.completed"));
    let completed = events.last().unwrap();
    assert_eq!(completed["response"]["output"][0]["type"], "function_call");
    assert_eq!(completed["response"]["output"][0]["call_id"], "toolu_1");
    assert_eq!(completed["response"]["output"][0]["name"], "weather");
    assert_eq!(
        completed["response"]["output"][0]["arguments"],
        "{\"city\":\"Paris\"}"
    );
    assert_eq!(completed["response"]["usage"]["input_tokens"], 6);
    assert_eq!(completed["response"]["usage"]["output_tokens"], 3);
}

#[test]
fn responses_stream_to_chat_has_finish_usage_and_done_sequence() {
    let text = [
        "event: response.created\ndata: {\"type\":\"response.created\",\"sequence_number\":0,\"response\":{\"id\":\"resp_s1\",\"object\":\"response\",\"status\":\"in_progress\",\"model\":\"gpt-5\",\"output\":[]}}\n\n",
        "event: response.output_item.added\ndata: {\"type\":\"response.output_item.added\",\"sequence_number\":1,\"output_index\":0,\"item\":{\"id\":\"msg_s1\",\"type\":\"message\",\"status\":\"in_progress\",\"role\":\"assistant\",\"content\":[]}}\n\n",
        "event: response.content_part.added\ndata: {\"type\":\"response.content_part.added\",\"sequence_number\":2,\"item_id\":\"msg_s1\",\"output_index\":0,\"content_index\":0,\"part\":{\"type\":\"output_text\",\"text\":\"\",\"annotations\":[]}}\n\n",
        "event: response.output_text.delta\ndata: {\"type\":\"response.output_text.delta\",\"sequence_number\":3,\"item_id\":\"msg_s1\",\"output_index\":0,\"content_index\":0,\"delta\":\"hello\"}\n\n",
        "event: response.output_text.annotation.added\ndata: {\"type\":\"response.output_text.annotation.added\",\"sequence_number\":4,\"item_id\":\"msg_s1\",\"output_index\":0,\"content_index\":0,\"annotation_index\":0,\"annotation\":{\"type\":\"url_citation\",\"start_index\":0,\"end_index\":5,\"url\":\"https://example.test\",\"title\":\"Example\"}}\n\n",
        "event: response.output_item.done\ndata: {\"type\":\"response.output_item.done\",\"sequence_number\":5,\"output_index\":0,\"item\":{\"id\":\"msg_s1\",\"type\":\"message\",\"status\":\"completed\",\"role\":\"assistant\",\"content\":[{\"type\":\"output_text\",\"text\":\"hello\",\"annotations\":[]}]}}\n\n",
        "event: response.completed\ndata: {\"type\":\"response.completed\",\"sequence_number\":6,\"response\":{\"id\":\"resp_s1\",\"object\":\"response\",\"status\":\"completed\",\"model\":\"gpt-5\",\"output\":[{\"id\":\"msg_s1\",\"type\":\"message\",\"status\":\"completed\",\"role\":\"assistant\",\"content\":[{\"type\":\"output_text\",\"text\":\"hello\",\"annotations\":[]}]}],\"usage\":{\"input_tokens\":7,\"output_tokens\":2,\"total_tokens\":9}}}\n\n",
    ]
    .join("");
    let split = text.find("hello").unwrap() + 2;
    let told = stream(
        InputFormat::OpenAiChat,
        UpstreamFormat::OpenAiResponses,
        &[&text.as_bytes()[..split], &text.as_bytes()[split..]],
    );
    assert!(told.ends_with("data: [DONE]\n\n"));
    let events = sse_json_events(&told);
    assert_eq!(events.len(), 5);
    assert_eq!(events[0]["choices"][0]["delta"]["role"], "assistant");
    assert_eq!(events[1]["choices"][0]["delta"]["content"], "hello");
    assert_eq!(
        events[2]["choices"][0]["delta"]["annotations"][0]["url_citation"]["url"],
        "https://example.test"
    );
    assert_eq!(events[3]["choices"][0]["finish_reason"], "stop");
    assert!(events[4]["choices"].as_array().unwrap().is_empty());
    assert_eq!(events[4]["usage"]["prompt_tokens"], 7);
    assert_eq!(events[4]["usage"]["completion_tokens"], 2);
}

#[test]
fn a_stream_that_ends_early_is_told_as_an_error() {
    let mut converter =
        StreamConverter::new(InputFormat::AnthropicMessages, UpstreamFormat::OpenAiChat);
    let output = converter.push(b"data: {\"id\":\"a\",\"choices\":[]}\n\n");
    assert_eq!(output.next, Next::More);
    let output = converter.finish();
    assert_eq!(output.next, Next::Done);
    let last = output.events.last().unwrap();
    assert_eq!(last.event.as_deref(), Some("error"));
    assert!(last
        .data
        .contains("upstream stream ended before a terminal event"));

    let mut converter =
        StreamConverter::new(InputFormat::OpenAiChat, UpstreamFormat::AnthropicMessages);
    let output = converter.fail("connection reset".into());
    assert_eq!(output.next, Next::Done);
    assert!(output.events[0].data.contains("connection reset"));
}

#[test]
fn a_client_without_the_key_of_the_server_is_refused() {
    let mut config = test_config("https://up.test");
    config.api_key = Some("${SERVER_KEY}".into());
    let mut env = Named::new();
    env.insert("SERVER_KEY".to_string(), EnvValue::Text("sk-server".into()));
    let mut headers = HeaderMap::new();
    for path in ["/responses", "/models", "/unknown"] {
        assert!(matches!(
            decide(&config, &env, "POST", path, None, &headers, false),
            Decision::Fail { failure, .. }
                if failure.status == 401 && failure.error_type == "authentication_error"
        ));
    }
    headers.insert("authorization", HeaderValue::from_static("Bearer sk-server"));
    assert!(matches!(
        decide(&config, &env, "POST", "/responses", None, &headers, false),
        Decision::Exchange { .. }
    ));
    assert!(matches!(
        decide(&config, &no_env(), "POST", "/responses", None, &headers, false),
        Decision::Fail { failure, .. } if failure.status == 500
    ));
    let sent = upstream_headers(false, Provider::OpenAiChat, None, false, &headers, None);
    assert!(!sent.contains_key("authorization"));
    let sent = upstream_headers(true, Provider::OpenAiChat, None, false, &headers, None);
    assert_eq!(sent["authorization"], "Bearer sk-server");
}

#[test]
fn sockets_are_joined_for_responses_alone() {
    let config = test_config("https://up.test");
    assert!(matches!(
        decide(&config, &no_env(), "GET", "/openai/responses", None, &HeaderMap::new(), true),
        Decision::Socket { provider } if provider.api_key.as_deref() == Some("sk-openai")
    ));
    assert!(matches!(
        decide(&config, &no_env(), "GET", "/messages", None, &HeaderMap::new(), true),
        Decision::Fail { .. }
    ));
    assert_eq!(socket_error_text("gone"), "{\"error\":\"gone\"}");
}

#[test]
fn raw_answers_are_asked_for_by_header_or_query() {
    let mut headers = HeaderMap::new();
    assert!(!wants_upstream_raw(None, &headers));
    assert!(wants_upstream_raw(
        Some("a=b&llmapi_response_mode=upstream_raw"),
        &headers
    ));
    headers.insert(
        "x-llmapi-response-mode",
        HeaderValue::from_static("upstream_raw"),
    );
    assert!(wants_upstream_raw(None, &headers));
}

#[test]
fn reloads_valid_config_and_keeps_last_good_on_invalid_change() {
    let config = test_config("https://first.test");
    let mut reloader = Reloader::new(config.clone(), None, None);
    assert_eq!(
        reloader.read("one".into(), Ok(config.clone())),
        Reload::Unchanged
    );
    assert!(!reloader.is_new("one"));

    let mut next = config.clone();
    next.default = "openai".into();
    next.server = "127.0.0.1:9090".into();
    assert_eq!(reloader.read("two".into(), Ok(next)), Reload::Changed);
    assert_eq!(reloader.config.default, "openai");
    assert_eq!(reloader.config.server, "127.0.0.1:0");
    assert_eq!(reloader.wanted_address().as_deref(), Some("127.0.0.1:9090"));

    let mut invalid = config.clone();
    invalid.default = "missing".into();
    let error = || invalid.clone().checked();
    assert_eq!(
        reloader.read("three".into(), error()),
        Reload::Failed { warn: true }
    );
    assert_eq!(
        reloader.read("four".into(), error()),
        Reload::Failed { warn: false }
    );
    assert_eq!(reloader.config.default, "openai");

    assert_eq!(
        reloader.read_failed("no such file".into()),
        Reload::Failed { warn: true }
    );
    assert_eq!(reloader.config.default, "openai");

    reloader.bound("127.0.0.1:9090".into());
    assert_eq!(reloader.wanted_address(), None);
    assert_eq!(reloader.config.server, "127.0.0.1:9090");
    assert_eq!(reloader.read("five".into(), Ok(config)), Reload::Changed);
    assert_eq!(reloader.config.default, "deepseek");
}

#[test]
fn reload_preserves_cli_default_override() {
    let file = test_config("https://first.test");
    let mut active = file.clone();
    active.default = "openai".into();
    let mut reloader = Reloader::new(active, None, Some("openai".into()));

    let mut second = file.clone();
    second.providers.insert(
        "openai".into(),
        ProviderConfig {
            provider_type: Provider::OpenAiResponses,
            base_url: "https://second.test".into(),
            api_key: None,
        },
    );
    assert_eq!(reloader.read("a".into(), Ok(second.clone())), Reload::Changed);
    assert_eq!(reloader.config.default, "openai");
    assert_eq!(
        reloader.config.providers.get("openai").unwrap().base_url,
        "https://second.test"
    );

    let mut third = second;
    assert!(third.providers.remove("openai"));
    assert!(matches!(
        reloader.read("b".into(), Ok(third)),
        Reload::Failed { .. }
    ));
    assert!(reloader.config.providers.contains_key("openai"));
}
