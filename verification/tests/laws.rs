use llmapi::adapters::annotations::{
    annotation_from_anthropic, annotation_from_openai, annotation_to_anthropic,
    annotation_to_openai,
};
use llmapi::adapters::anthropic::{
    anthropic_finish_reason_to_value, parse_anthropic_finish_reason, AnthropicAdapter,
};
use llmapi::adapters::anthropic_stream::merge_usage;
use llmapi::adapters::openai_chat::{
    chat_finish_reason_to_value, parse_chat_finish_reason, OpenAiChatAdapter,
};
use llmapi::adapters::openai_responses::OpenAiResponsesAdapter;
use llmapi::adapters::tools::{
    tools_from_anthropic, tools_from_openai_chat, tools_from_openai_responses, tools_to_anthropic,
    tools_to_openai_chat, tools_to_openai_responses,
};
use llmapi::adapters::{
    AdapterError, RequestAdapter, ResponseAdapter, SseDecoder, SseEvent, StreamAdapter, StreamState,
};
use llmapi::cmd::format_provider_list;
use llmapi::config::{Config, Provider, ProviderConfig};
use llmapi::json::{Json, JsonMap};
use llmapi::model::{
    joined_text, text_content, LLMContent, LLMContentKind, LLMFinishReason, LLMMessage,
    LLMProtocol, LLMRequest, LLMResponse, LLMRole, LLMStreamEvent, LLMUsage,
};
use llmapi::models::for_client;
use llmapi::protocol::{detect_route, InputFormat, UpstreamFormat};
use llmapi::proxy::convert::{convert_request, convert_response, ConvertError};
use llmapi::proxy::stream::{convert_sse_event, Next, StreamConverter};
use llmapi::redact;
use llmapi::server::providers;
use llmapi::wire::{parse, render, to_value};
use serde_json::Value;

fn json(text: &str) -> Json {
    parse(text).unwrap()
}

fn chat_request(text: &str) -> LLMRequest {
    OpenAiChatAdapter::to_llm_request(json(text)).unwrap()
}

#[test]
fn every_format_asks_for_the_model_and_the_stream_of_the_client() {
    for stream in [true, false] {
        let request = chat_request(&format!(
            r#"{{"model": "m-1", "messages": [{{"role": "user", "content": "hi"}}], "stream": {stream}}}"#
        ));
        for value in [
            OpenAiChatAdapter::from_llm_request(&request).unwrap(),
            OpenAiResponsesAdapter::from_llm_request(&request).unwrap(),
            AnthropicAdapter::from_llm_request(&request).unwrap(),
        ] {
            let value = to_value(&value);
            assert_eq!(value["model"], "m-1");
            assert_eq!(value["stream"], stream);
        }
    }
}

#[test]
fn fields_without_a_form_are_refused_unless_they_say_nothing() {
    let body = |extra: &str| {
        format!(r#"{{"model": "m", "messages": [{{"role": "user", "content": "hi"}}], {extra}}}"#)
    };
    for extra in [
        r#""n": 1"#,
        r#""logprobs": false"#,
        r#""store": null"#,
        r#""modalities": ["text"]"#,
        r#""audio": {}"#,
        r#""top_logprobs": 0"#,
    ] {
        let request = chat_request(&body(extra));
        assert!(AnthropicAdapter::from_llm_request(&request).is_ok(), "{extra}");
    }
    for (extra, name) in [
        (r#""n": 2"#, "n"),
        (r#""logprobs": true"#, "logprobs"),
        (r#""modalities": ["text", "audio"]"#, "modalities"),
        (r#""logit_bias": {"1": 2}"#, "logit_bias"),
        (r#""top_logprobs": 3"#, "top_logprobs"),
    ] {
        let request = chat_request(&body(extra));
        match AnthropicAdapter::from_llm_request(&request) {
            Err(AdapterError::Unsupported(message)) => assert_eq!(
                message,
                format!("AnthropicMessages cannot preserve OpenAiChat request field `{name}`")
            ),
            other => panic!("{other:?}"),
        }
    }
}

#[test]
fn function_tools_round_trip_in_every_format() {
    let tools = tools_from_openai_chat(&json(
        r#"[{"type": "function", "function": {"name": "f", "description": "d", "parameters": {"type": "object", "x": 1}, "strict": false, "x-note": 1, "other": 2}}]"#,
    ))
    .unwrap();
    assert_eq!(
        tools_from_openai_chat(&Json::array(tools_to_openai_chat(&tools).unwrap())).unwrap(),
        tools
    );
    let back =
        tools_from_anthropic(&Json::array(tools_to_anthropic(&tools).unwrap())).unwrap();
    assert_eq!(back[0].kind, tools[0].kind);
    assert_eq!(back[0].source, LLMProtocol::AnthropicMessages);
    assert!(back[0].metadata.contains_key("x-note"));
    assert!(!back[0].metadata.contains_key("other"));
    let back =
        tools_from_openai_responses(&Json::array(tools_to_openai_responses(&tools).unwrap()))
            .unwrap();
    assert_eq!(back[0].kind, tools[0].kind);
}

#[test]
fn builtin_tools_are_unchanged_at_home() {
    let list = json(r#"[{"type": "file_search", "vector_store_ids": ["v"]}, {"type": "mcp"}]"#);
    let tools = tools_from_openai_responses(&list).unwrap();
    assert_eq!(Json::array(tools_to_openai_responses(&tools).unwrap()), list);
}

#[test]
fn a_tool_without_a_name_is_refused() {
    assert_eq!(
        tools_from_openai_chat(&json(r#"[{"type": "function", "function": {}}]"#)),
        Err(AdapterError::MissingField("tools.name"))
    );
}

#[test]
fn citations_survive_where_they_have_a_form() {
    let web = json(
        r#"{"type": "url_citation", "url_citation": {"url": "https://a.test", "title": "A", "start_index": 1, "end_index": 2, "extra": true}}"#,
    );
    let citation = annotation_from_openai(&web, LLMProtocol::OpenAiChat);
    assert_eq!(
        annotation_to_openai(&citation, LLMProtocol::OpenAiChat).unwrap(),
        web
    );
    let flat = to_value(&annotation_to_openai(&citation, LLMProtocol::OpenAiResponses).unwrap());
    assert_eq!(flat["type"], "url_citation");
    assert_eq!(flat["url"], "https://a.test");
    assert!(flat.get("extra").is_none());
    assert!(annotation_to_anthropic(&citation).is_err());

    let quoted = annotation_from_anthropic(&json(
        r#"{"type": "web_search_result_location", "url": "https://a.test", "cited_text": "q"}"#,
    ));
    assert!(annotation_to_openai(&quoted, LLMProtocol::OpenAiChat).is_ok());
    let placed = annotation_from_anthropic(&json(r#"{"type": "char_location", "file_id": "f"}"#));
    assert_eq!(
        annotation_to_openai(&placed, LLMProtocol::OpenAiChat),
        Err(AdapterError::Unsupported(
            "OpenAI Chat cannot represent a foreign file citation".into()
        ))
    );
    assert!(annotation_to_openai(&placed, LLMProtocol::OpenAiResponses).is_ok());
}

#[test]
fn finish_reasons_settle_after_one_writing() {
    for reason in [
        LLMFinishReason::Stop,
        LLMFinishReason::Length,
        LLMFinishReason::ToolUse,
        LLMFinishReason::FunctionCall,
        LLMFinishReason::ContentFilter,
        LLMFinishReason::ContextLimit,
        LLMFinishReason::PauseTurn,
        LLMFinishReason::Unknown,
    ] {
        let chat = chat_finish_reason_to_value(reason);
        let again = parse_chat_finish_reason(chat.as_text().unwrap());
        assert_eq!(chat_finish_reason_to_value(again), chat);
        let anthropic = anthropic_finish_reason_to_value(reason);
        let again = parse_anthropic_finish_reason(anthropic.as_text().unwrap());
        assert_eq!(anthropic_finish_reason_to_value(again), anthropic);
    }
    assert_eq!(
        chat_finish_reason_to_value(LLMFinishReason::FunctionCall).as_text(),
        Some("tool_calls")
    );
}

#[test]
fn parts_keep_their_index_and_share_none() {
    let mut state = StreamState::default();
    assert_eq!(state.target_content_index(7), 0);
    assert_eq!(state.target_content_index(3), 1);
    assert_eq!(state.target_content_index(7), 0);
    assert_eq!(state.target_content_index(3), 1);
    assert_eq!(state.next_content_index, 2);
}

#[test]
fn the_end_of_a_message_ends_every_open_block() {
    let events = vec![
        LLMStreamEvent::MessageStart {
            id: None,
            model: Some("m".into()),
            usage: None,
        },
        LLMStreamEvent::ContentStart {
            index: 4,
            content: LLMContent::text(""),
        },
        LLMStreamEvent::ContentStart {
            index: 2,
            content: LLMContent::text(""),
        },
        LLMStreamEvent::MessageEnd {
            finish_reason: None,
            usage: None,
            metadata: JsonMap::new(),
        },
    ];
    let mut state = StreamState::default();
    let out = AnthropicAdapter::format_stream_events(&events, &mut state).unwrap();
    let names: Vec<_> = out.iter().map(|e| e.event.as_deref().unwrap()).collect();
    assert_eq!(
        names,
        [
            "message_start",
            "content_block_start",
            "content_block_start",
            "content_block_stop",
            "content_block_stop",
            "message_delta",
            "message_stop"
        ]
    );
    assert!(out[0].data.contains("\"id\":\"msg_"));
    assert!(state.ended && state.open_content.is_empty());
    assert_eq!(
        out[6].encode(),
        "event: message_stop\ndata: {\"type\":\"message_stop\"}\n\n"
    );
}

#[test]
fn updates_of_usage_settle() {
    let update = LLMUsage {
        output_tokens: Some(7),
        ..LLMUsage::default()
    };
    let mut usage = Some(LLMUsage {
        input_tokens: Some(3),
        output_tokens: Some(1),
        ..LLMUsage::default()
    });
    merge_usage(&mut usage, &update);
    assert_eq!(usage.as_ref().unwrap().input_tokens, Some(3));
    assert_eq!(usage.as_ref().unwrap().output_tokens, Some(7));
    let once = format!("{usage:?}");
    merge_usage(&mut usage, &update);
    assert_eq!(format!("{usage:?}"), once);
}

#[test]
fn a_chat_stream_is_read_in_order() {
    let mut state = StreamState::default();
    let mut read = |data: &str| {
        let event = SseEvent {
            event: None,
            data: data.to_string(),
            id: None,
            retry: None,
        };
        OpenAiChatAdapter::parse_stream_event(&event, &mut state).unwrap()
    };
    let first = read(
        r#"{"id": "c", "model": "m", "choices": [{"delta": {"content": "a", "tool_calls": [{"index": 0, "id": "t", "function": {"name": "f", "arguments": "{"}}]}}]}"#,
    );
    assert!(matches!(first[0], LLMStreamEvent::MessageStart { .. }));
    assert!(matches!(first[1], LLMStreamEvent::ContentStart { index: 0, .. }));
    assert!(matches!(first[2], LLMStreamEvent::TextDelta { index: 0, .. }));
    assert!(matches!(first[3], LLMStreamEvent::ContentStart { index: 3, .. }));
    assert!(matches!(first[4], LLMStreamEvent::ToolCallDelta { index: 3, .. }));
    let second = read(r#"{"choices": [{"delta": {"content": "b"}, "finish_reason": "stop"}]}"#);
    assert_eq!(second.len(), 1);
    let last = read(" [DONE] ");
    assert!(matches!(last[0], LLMStreamEvent::ContentEnd { index: 0 }));
    assert!(matches!(last[1], LLMStreamEvent::ContentEnd { index: 3 }));
    assert!(matches!(
        last[2],
        LLMStreamEvent::MessageEnd {
            finish_reason: Some(LLMFinishReason::Stop),
            ..
        }
    ));
    assert!(read("[DONE]").is_empty());
}

#[test]
fn pieces_of_a_stream_do_not_matter() {
    let text = "event: a\r\ndata: 1\r\n\r\n: note\n\nid: 7\nretry: 9\ndata:x\ndata\n\ndata: tail";
    let mut whole = SseDecoder::default();
    let mut events = whole.push(text.as_bytes()).unwrap();
    events.extend(whole.finish().unwrap());
    assert_eq!(events.len(), 3);
    assert_eq!(events[1].id.as_deref(), Some("7"));
    assert_eq!(events[1].retry, Some(9));
    assert_eq!(events[1].data, "x\n");
    assert_eq!(events[2].data, "tail");

    let mut pieces = SseDecoder::default();
    let mut again = Vec::new();
    for byte in text.as_bytes() {
        again.extend(pieces.push(&[*byte]).unwrap());
    }
    again.extend(pieces.finish().unwrap());
    assert_eq!(again, events);
}

#[test]
fn encoded_events_are_decoded() {
    let events = [
        SseEvent {
            event: Some("delta".into()),
            data: "line one\nline two".into(),
            id: Some("4".into()),
            retry: Some(1500),
        },
        SseEvent {
            event: None,
            data: "{\"a\":\"你\"}".into(),
            id: None,
            retry: None,
        },
    ];
    let text: String = events.iter().map(SseEvent::encode).collect();
    let mut decoder = SseDecoder::default();
    assert_eq!(decoder.push(text.as_bytes()).unwrap(), events);
    assert!(decoder.finish().unwrap().is_empty());
}

#[test]
fn streams_that_cannot_be_read_fail() {
    let mut decoder = SseDecoder::default();
    assert_eq!(
        decoder.push(b"data: \xff\n\n"),
        Err(AdapterError::InvalidStreamUtf8)
    );
    let mut decoder = SseDecoder::default();
    let long = vec![b'a'; 8 * 1024 * 1024 + 1];
    assert_eq!(decoder.push(&long), Err(AdapterError::StreamEventTooLarge));
    assert_eq!(
        AdapterError::StreamEventTooLarge.message(),
        "stream event exceeds 8388608 bytes"
    );
    let broken = SseEvent {
        event: None,
        data: "{".into(),
        id: None,
        retry: None,
    };
    for error in [
        OpenAiChatAdapter::parse_stream_event(&broken, &mut StreamState::default()).unwrap_err(),
        OpenAiResponsesAdapter::parse_stream_event(&broken, &mut StreamState::default())
            .unwrap_err(),
        AnthropicAdapter::parse_stream_event(&broken, &mut StreamState::default()).unwrap_err(),
    ] {
        assert_eq!(error, AdapterError::InvalidField("stream_json"));
        assert_eq!(error.message(), "invalid field: stream_json");
    }
}

#[test]
fn missing_fields_are_named() {
    assert_eq!(
        OpenAiChatAdapter::to_llm_request(json(r#"{"messages": []}"#)),
        Err(AdapterError::MissingField("model"))
    );
    assert_eq!(
        AnthropicAdapter::to_llm_request(json(r#"{"model": "m"}"#)),
        Err(AdapterError::MissingField("messages"))
    );
    assert_eq!(
        AdapterError::MissingField("model").message(),
        "missing field: model"
    );
}

#[test]
fn values_that_cannot_take_a_field_are_told_apart() {
    let refused = convert_request(
        InputFormat::AnthropicMessages,
        UpstreamFormat::OpenAiChat,
        br#"{"model": "m", "messages": [], "thinking": 1, "output_config": {"effort": "low"}}"#,
    );
    assert_eq!(refused, Err(ConvertError::NotAnObject));
}

#[test]
fn answers_without_identifiers_get_fresh_ones() {
    let convert = || -> Value {
        let body = convert_response(
            InputFormat::OpenAiChat,
            UpstreamFormat::AnthropicMessages,
            br#"{"content": [{"type": "text", "text": "hi"}]}"#,
        )
        .unwrap();
        serde_json::from_slice(&body).unwrap()
    };
    let (first, second) = (convert(), convert());
    let id = first["id"].as_str().unwrap();
    assert!(id.starts_with("chatcmpl_"));
    assert_eq!(id.len(), "chatcmpl_".len() + 36);
    assert_ne!(first["id"], second["id"]);
    assert!(first["created"].as_i64().unwrap() > 1_600_000_000);
}

#[test]
fn one_event_is_converted_at_a_time() {
    let event = SseEvent {
        event: Some("content_block_delta".into()),
        data: r#"{"type":"content_block_delta","index":0,"delta":{"type":"text_delta","text":"x"}}"#
            .into(),
        id: None,
        retry: None,
    };
    let out = convert_sse_event(
        &event,
        InputFormat::OpenAiChat,
        UpstreamFormat::AnthropicMessages,
        &mut StreamState::default(),
        &mut StreamState::default(),
    )
    .unwrap();
    let value: Value = serde_json::from_str(&out[0].data).unwrap();
    assert_eq!(value["choices"][0]["delta"]["content"], "x");
}

#[test]
fn an_event_that_has_no_form_ends_the_stream() {
    let mut converter =
        StreamConverter::new(InputFormat::AnthropicMessages, UpstreamFormat::OpenAiChat);
    let output = converter.push(
        b"data: {\"choices\":[{\"delta\":{\"audio\":{\"id\":\"a\"}}}]}\n\ndata: [DONE]\n\n",
    );
    assert_eq!(output.next, Next::Done);
    assert!(output
        .events
        .last()
        .unwrap()
        .data
        .contains("Anthropic Messages cannot represent a OpenAiChat stream event"));
}

#[test]
fn lists_of_models_settle() {
    let data = json(r#"{"object": "list", "data": [{"id": "m", "object": "model", "created": 1, "owned_by": "o"}]}"#);
    let codex = for_client(data.clone(), true).unwrap();
    assert_eq!(for_client(codex.clone(), true).unwrap(), codex);
    assert_eq!(for_client(data.clone(), false).unwrap(), data);
    let back = to_value(&for_client(codex, false).unwrap());
    assert_eq!(back["data"][0]["id"], "m");
    assert_eq!(back["data"][0]["created"], 1);
    assert_eq!(back["data"][0]["owned_by"], "o");
}

#[test]
fn keys_are_shown_nowhere() {
    let with_key = |key: &str| {
        let mut config = Config::default();
        config
            .add_provider(
                "p".into(),
                ProviderConfig {
                    provider_type: Provider::Anthropic,
                    base_url: "https://p.test".into(),
                    api_key: Some(key.into()),
                },
            )
            .unwrap();
        config
    };
    let (a, b) = (with_key("sk-one"), with_key("sk-other"));
    assert_eq!(format_provider_list(&a), format_provider_list(&b));
    assert_eq!(providers(&a), providers(&b));
    assert_eq!(redact::query("token=abcdefgh"), redact::query("token=abcdefxx"));
}

#[test]
fn routes_of_named_providers_are_found() {
    for (path, input) in [
        ("/p-1/chat/completions", InputFormat::OpenAiChat),
        ("/p-1/responses", InputFormat::OpenAiResponses),
        ("/p-1/messages", InputFormat::AnthropicMessages),
    ] {
        let route = detect_route(path).unwrap();
        assert_eq!(route.provider.as_deref(), Some("p-1"));
        assert_eq!(route.input, input);
    }
}

#[test]
fn texts_of_content_are_joined() {
    let content = text_content("hello");
    assert_eq!(content[0].text_value(), Some("hello"));
    assert_eq!(joined_text(&content), "hello");
    let message = LLMMessage {
        source: None,
        role: LLMRole::User,
        content: vec![
            LLMContent::text("a"),
            LLMContent {
                source: None,
                kind: LLMContentKind::Refusal { refusal: "no".into() },
                metadata: JsonMap::new(),
            },
            LLMContent::text("b"),
        ],
        name: None,
        metadata: JsonMap::new(),
    };
    assert_eq!(message.content[1].text_value(), None);
    assert_eq!(joined_text(&message.content), "ab");
    let response: LLMResponse =
        AnthropicAdapter::to_llm_response(json(r#"{"content": "plain"}"#)).unwrap();
    assert_eq!(
        joined_text(&response.primary_choice().unwrap().content),
        "plain"
    );
}

#[test]
fn numbers_and_names_pass_through_unchanged() {
    for text in [
        r#"{"a":[null,true,false,"x"],"b":{"c":18446744073709551615,"d":-9223372036854775808}}"#,
        r#"[0.5,-0.0,1e300,0.1,100000000000000000000.0,"\u0000\"\\"]"#,
    ] {
        let direct: Value = serde_json::from_str(text).unwrap();
        assert_eq!(to_value(&json(text)), direct);
        assert_eq!(render(&json(text)), direct.to_string());
    }
    assert_eq!(parse("{"), None);
    assert_eq!(render(&json(r#"{"b":1,"a":2}"#)), r#"{"a":2,"b":1}"#);
}

#[test]
fn doubles_keep_their_value() {
    let request = chat_request(
        r#"{"model": "m", "messages": [], "temperature": 0.3, "top_p": 1}"#,
    );
    let value = to_value(&OpenAiResponsesAdapter::from_llm_request(&request).unwrap());
    assert_eq!(value["temperature"], 0.3);
    assert_eq!(value["top_p"], 1.0);
}
