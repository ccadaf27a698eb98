use axum::http::{HeaderMap, HeaderName, HeaderValue};
use llmapi::adapters::anthropic::AnthropicAdapter;
use llmapi::adapters::common::read_or;
use llmapi::adapters::openai_chat::OpenAiChatAdapter;
use llmapi::adapters::openai_responses::OpenAiResponsesAdapter;
use llmapi::adapters::{
    anthropic_stream, chat_stream, responses_stream, AdapterError, SseEvent, StreamAdapter,
    StreamState,
};
use llmapi::auth::{apply_api_key, apply_protocol_headers};
use llmapi::config::{Config, Provider, ProviderConfig};
use llmapi::daemon::{failure_told, read_service, service_told, tells_not_found, Service};
use llmapi::json::Json;
use llmapi::model::{LLMContent, LLMStreamEvent};
use llmapi::protocol::{InputFormat, UpstreamFormat};
use llmapi::proxy::convert::{read_client_value, read_upstream_value, ConvertError};
use llmapi::proxy::forward::{
    copy_response_headers, copy_response_metadata_headers, set_models_headers, vary_by_agent,
};
use llmapi::proxy::reply::{tell_models, ModelsAnswer};
use llmapi::query::{any_pair, drop_names, pair_value};
use llmapi::redact;
use llmapi::wire::{parse, to_value};

fn json(text: &str) -> Json {
    parse(text).unwrap()
}

fn pairs(list: &[(&str, &str)]) -> Vec<(String, String)> {
    list.iter()
        .map(|(name, value)| (name.to_string(), value.to_string()))
        .collect()
}

#[test]
fn pairs_are_searched_by_name_and_value() {
    let list = pairs(&[("a", ""), ("b", "1"), ("a", "2"), ("b", "3")]);
    assert_eq!(pair_value(&list, "a").as_deref(), Some(""));
    assert_eq!(pair_value(&list, "b").as_deref(), Some("1"));
    assert_eq!(pair_value(&list, "c"), None);
    assert!(any_pair(&list, "b", Some("3")));
    assert!(!any_pair(&list, "b", Some("2")));
    assert!(any_pair(&list, "a", None));
    assert!(!any_pair(&pairs(&[("a", "")]), "a", None));
    assert!(any_pair(&pairs(&[("a", "")]), "a", Some("")));
    assert_eq!(
        drop_names(&list, &["a", "x"]),
        pairs(&[("b", "1"), ("b", "3")])
    );
    assert_eq!(
        redact::parameters(&pairs(&[("Token", "0123456789"), ("q", "long-value")])),
        "Token=012345...&q=long-value"
    );
}

#[test]
fn texts_of_the_service_are_told_apart() {
    let missing = "x Could not find service \"com.virzz.enyo.llmapi\" in domain y";
    assert!(tells_not_found(missing));
    assert!(!tells_not_found("Could not find service"));
    assert_eq!(
        service_told(true, "up".into(), missing),
        Service::Loaded("up".into())
    );
    assert_eq!(service_told(false, "up".into(), missing), Service::Missing);
    assert_eq!(
        service_told(false, "up".into(), " no\n"),
        Service::Failed("launchctl print failed: no".into())
    );
    assert_eq!(
        read_service(true, "état".as_bytes(), b""),
        Service::Loaded("état".into())
    );
    assert_eq!(
        failure_told(&vec!["print".into(), "x".into()], " no\n"),
        "launchctl print x failed: no"
    );
}

#[test]
fn events_without_a_value_fail_in_every_format() {
    let mut state = StreamState::default();
    for result in [
        chat_stream::read_parsed(None, &mut state),
        responses_stream::read_parsed(None, Some("response.created"), &mut state),
        anthropic_stream::read_parsed(None, Some("ping"), &mut state),
    ] {
        assert!(matches!(
            result,
            Err(AdapterError::InvalidField("stream_json"))
        ));
    }
    assert!(!state.started);
}

#[test]
fn events_are_read_by_their_value_and_name() {
    let mut state = StreamState::default();
    let read = chat_stream::read_parsed(
        Some(json(r#"{"error": {"message": "busy", "code": 3}}"#)),
        &mut state,
    )
    .unwrap();
    assert!(matches!(&read[..], [LLMStreamEvent::Error { message, .. }] if message == "busy"));
    let read = responses_stream::read_parsed(
        Some(json(r#"{"delta": "hi", "output_index": 2}"#)),
        Some("response.output_text.delta"),
        &mut state,
    )
    .unwrap();
    assert!(
        matches!(&read[..], [LLMStreamEvent::TextDelta { index: 2, text }] if text == "hi")
    );
    let named = anthropic_stream::read_parsed(
        Some(json(r#"{"index": 1}"#)),
        Some("content_block_stop"),
        &mut state,
    )
    .unwrap();
    assert!(matches!(
        &named[..],
        [LLMStreamEvent::ContentEnd { index: 1 }]
    ));
    let typed = anthropic_stream::read_parsed(
        Some(json(r#"{"type": "ping"}"#)),
        Some("content_block_stop"),
        &mut state,
    )
    .unwrap();
    assert!(typed.is_empty());
}

#[test]
fn bodies_are_judged_by_what_they_read_as() {
    match read_client_value(InputFormat::OpenAiChat, Err("not json".into())) {
        Err(ConvertError::Failed(failure)) => {
            assert_eq!(failure.status, 400);
            assert_eq!(failure.message, "not json");
            assert_eq!(failure.error_type, "invalid_request_error");
        }
        other => panic!("{other:?}"),
    }
    match read_upstream_value(UpstreamFormat::OpenAiChat, Err("not json".into())) {
        Err(ConvertError::Failed(failure)) => {
            assert_eq!(failure.status, 502);
            assert_eq!(failure.error_type, "api_error");
        }
        other => panic!("{other:?}"),
    }
    let request = read_client_value(
        InputFormat::OpenAiChat,
        Ok(json(r#"{"model": "m", "messages": []}"#)),
    )
    .unwrap();
    assert_eq!(request.model, "m");
    let response = read_upstream_value(
        UpstreamFormat::OpenAiChat,
        Ok(json(r#"{"id": "r", "choices": []}"#)),
    )
    .unwrap();
    assert_eq!(response.id.as_deref(), Some("r"));
    assert!(matches!(
        tell_models(Err("bad".into()), true),
        ModelsAnswer::Fail(failure) if failure.status == 502 && failure.message == "bad"
    ));
    assert_eq!(
        tell_models(Ok(json(r#"{"data": []}"#)), false),
        ModelsAnswer::Native
    );
    assert_eq!(to_value(&read_or(None, json("7"))), 7);
    assert_eq!(to_value(&read_or(Some(json("8")), json("7"))), 8);
}

fn numbered_header(prefix: &str, number: usize) -> HeaderName {
    HeaderName::from_bytes(format!("{prefix}{number}").as_bytes()).unwrap()
}

#[test]
fn headers_are_sent_back_though_there_are_many() {
    let mut source = HeaderMap::new();
    for i in 0..7000 {
        source.insert(numbered_header("x-other-", i), HeaderValue::from_static("v"));
    }
    source.insert("etag", HeaderValue::from_static("\"e\""));
    source.insert("retry-after", HeaderValue::from_static("3"));

    let mut target = HeaderMap::new();
    assert!(copy_response_headers(&source, &mut target));
    assert_eq!(target.len(), 2);
    assert_eq!(target["etag"], "\"e\"");
    assert_eq!(target["retry-after"], "3");

    let mut target = HeaderMap::new();
    assert!(copy_response_metadata_headers(&source, &mut target));
    assert_eq!(target.len(), 1);

    let mut target = HeaderMap::new();
    assert!(set_models_headers(&source, &mut target, true));
    assert_eq!(target["etag"], "\"e\"");
    assert_eq!(target["vary"], "User-Agent");
    assert_eq!(target.len(), 3);

    for i in 0..8000 {
        source.insert(
            numbered_header("x-ratelimit-", i),
            HeaderValue::from_static("v"),
        );
    }
    let mut target = HeaderMap::new();
    assert!(copy_response_metadata_headers(&source, &mut target));
    assert_eq!(target.len(), 8001);
    assert!(vary_by_agent(&mut target));
    assert!(apply_api_key(&mut target, Provider::Anthropic, Some("sk"), None));
    assert_eq!(target["x-api-key"], "sk");
}

#[test]
fn a_full_map_takes_no_more_headers() {
    let mut target = HeaderMap::new();
    let mut i = 0;
    while target.keys_len() < 24_576 {
        let _ = target.try_insert(
            numbered_header("x-other-", i),
            HeaderValue::from_static("v"),
        );
        i += 1;
    }
    let mut source = HeaderMap::new();
    source.insert("etag", HeaderValue::from_static("\"e\""));
    source.insert("accept", HeaderValue::from_static("a"));
    assert!(!copy_response_headers(&source, &mut target));
    assert!(copy_response_metadata_headers(&source, &mut target));
    assert!(!set_models_headers(&source, &mut target, true));
    assert!(!vary_by_agent(&mut target));
    assert!(!apply_api_key(&mut target, Provider::OpenAiChat, Some("sk"), None));
    assert!(apply_api_key(&mut target, Provider::OpenAiChat, None, None));
    assert!(!apply_protocol_headers(
        &mut target,
        Provider::OpenAiChat,
        &source
    ));
    assert_eq!(target.len(), 24_576);
    assert!(!target.contains_key("etag"));
}

#[test]
fn the_first_provider_comes_and_goes() {
    let mut config = Config::default();
    let before = config.clone();
    config
        .add_provider(
            "one".into(),
            ProviderConfig {
                provider_type: Provider::Anthropic,
                base_url: "https://e".into(),
                api_key: None,
            },
        )
        .unwrap();
    assert_eq!(config.default, "one");
    config.remove_provider("one").unwrap();
    assert_eq!(config, before);
}

#[test]
fn every_started_block_is_stopped_once() {
    let mut source = StreamState::default();
    let mut target = StreamState::default();
    let mut steps = Vec::new();
    for data in [
        r#"{"id": "c", "model": "m", "choices": [{"delta": {"content": "a"}}]}"#,
        r#"{"choices": [{"delta": {"reasoning_content": "b", "content": "c"}}]}"#,
        r#"{"choices": [{"delta": {"tool_calls": [{"index": 0, "id": "t", "function": {"name": "f", "arguments": "{}"}}]}}]}"#,
        "[DONE]",
    ] {
        let event = SseEvent {
            event: None,
            data: data.to_string(),
            id: None,
            retry: None,
        };
        let events = OpenAiChatAdapter::parse_stream_event(&event, &mut source).unwrap();
        for written in AnthropicAdapter::format_stream_events(&events, &mut target).unwrap() {
            let value = to_value(&json(&written.data));
            let name = written.event.unwrap();
            if name.starts_with("content_block_st") || name == "message_delta" {
                steps.push((name, value["index"].as_u64()));
            }
        }
    }
    let mut open = Vec::new();
    for (name, index) in &steps {
        match name.as_str() {
            "content_block_start" => {
                assert!(!open.contains(index));
                open.push(*index);
            }
            "content_block_stop" => {
                assert!(open.contains(index));
                open.retain(|other| other != index);
            }
            _ => assert!(open.is_empty()),
        }
    }
    assert_eq!(steps.len(), 7);
    assert_eq!(steps[6].0, "message_delta");
}

#[test]
fn numbers_run_on_up_to_the_last() {
    let mut state = StreamState::default();
    state.sequence_number = u64::MAX - 3;
    let mut numbers = Vec::new();
    for event in [
        LLMStreamEvent::MessageStart {
            id: None,
            model: None,
            usage: None,
        },
        LLMStreamEvent::ContentStart {
            index: 0,
            content: LLMContent::text(""),
        },
    ] {
        for written in OpenAiResponsesAdapter::format_stream_events(&[event], &mut state).unwrap() {
            numbers.push(to_value(&json(&written.data))["sequence_number"].as_u64());
        }
    }
    assert_eq!(
        numbers,
        [
            Some(u64::MAX - 3),
            Some(u64::MAX - 2),
            Some(u64::MAX - 1)
        ]
    );
    assert_eq!(state.sequence_number, u64::MAX);
}
