use llmapi::adapters::annotations::{
    annotation_from_anthropic, annotation_from_openai, annotation_to_anthropic,
    annotation_to_openai,
};
use llmapi::adapters::anthropic::AnthropicAdapter;
use llmapi::adapters::openai_chat::OpenAiChatAdapter;
use llmapi::adapters::openai_responses::OpenAiResponsesAdapter;
use llmapi::adapters::tools::{
    tools_from_anthropic, tools_from_openai_chat, tools_from_openai_responses, tools_to_anthropic,
    tools_to_openai_responses,
};
use llmapi::adapters::{
    AdapterError, RequestAdapter, ResponseAdapter, SseDecoder, SseEvent, StreamAdapter, StreamState,
};
use llmapi::json::{Json, JsonMap};
use llmapi::model::{
    LLMAnnotation, LLMContent, LLMContentKind, LLMFinishReason, LLMProtocol, LLMRole,
    LLMStreamEvent,
};
use llmapi::wire::{parse, to_value};
use serde_json::Value;

fn json(text: &str) -> Json {
    parse(text).unwrap()
}

fn value(json: &Json) -> Value {
    to_value(json)
}

fn values(list: &[Json]) -> Vec<Value> {
    list.iter().map(to_value).collect()
}

#[test]
fn translates_function_tool_schemas_without_losing_extensions() {
    let chat = json(
        r#"[{
            "type": "function",
            "function": {
                "name": "weather",
                "description": "Get weather",
                "parameters": {"type": "object"},
                "strict": true,
                "x-extension": "kept"
            }
        }]"#,
    );
    let normalized = tools_from_openai_chat(&chat).unwrap();
    let anthropic = values(&tools_to_anthropic(&normalized).unwrap());
    let responses = values(&tools_to_openai_responses(&normalized).unwrap());

    assert_eq!(anthropic[0]["name"], "weather");
    assert_eq!(anthropic[0]["input_schema"]["type"], "object");
    assert_eq!(anthropic[0]["x-extension"], "kept");
    assert_eq!(responses[0]["type"], "function");
}

#[test]
fn translates_compatible_builtin_tools_and_rejects_unrepresentable_tools() {
    let responses = tools_from_openai_responses(&json(
        r#"[{
            "type": "web_search",
            "search_context_size": "high",
            "filters": {"allowed_domains": ["example.test"]}
        }]"#,
    ))
    .unwrap();
    let anthropic = values(&tools_to_anthropic(&responses).unwrap());
    assert_eq!(anthropic[0]["type"], "web_search_20250305");
    assert_eq!(anthropic[0]["name"], "web_search");
    assert_eq!(anthropic[0]["allowed_domains"][0], "example.test");

    let computer = tools_from_anthropic(&json(
        r#"[{
            "type": "computer_20250124",
            "name": "computer",
            "display_width_px": 1280,
            "display_height_px": 720
        }]"#,
    ))
    .unwrap();
    let responses = values(&tools_to_openai_responses(&computer).unwrap());
    assert_eq!(responses[0]["type"], "computer_use_preview");
    assert_eq!(responses[0]["display_width"], 1280);

    let file_search = tools_from_openai_responses(&json(r#"[{"type": "file_search"}]"#)).unwrap();
    assert!(matches!(
        tools_to_anthropic(&file_search),
        Err(AdapterError::Unsupported(_))
    ));
}

#[test]
fn citation_shapes_round_trip_only_in_representable_protocols() {
    for text in [
        r#"{
            "type": "char_location",
            "cited_text": "quoted",
            "document_index": 1,
            "document_title": "Guide",
            "start_char_index": 4,
            "end_char_index": 10
        }"#,
        r#"{
            "type": "page_location",
            "cited_text": "quoted",
            "document_index": 1,
            "document_title": "Guide",
            "start_page_number": 2,
            "end_page_number": 3
        }"#,
        r#"{
            "type": "content_block_location",
            "cited_text": "quoted",
            "document_index": 1,
            "document_title": "Guide",
            "start_block_index": 2,
            "end_block_index": 3
        }"#,
    ] {
        let citation = json(text);
        let normalized = annotation_from_anthropic(&citation);
        assert_eq!(annotation_to_anthropic(&normalized).unwrap(), citation);
        assert!(matches!(
            annotation_to_openai(&normalized, LLMProtocol::OpenAiResponses),
            Err(AdapterError::Unsupported(_))
        ));
    }

    let file = json(
        r#"{
            "type": "file_citation",
            "file_id": "file_1",
            "filename": "guide.pdf",
            "index": 12
        }"#,
    );
    let normalized = annotation_from_openai(&file, LLMProtocol::OpenAiResponses);
    assert_eq!(
        annotation_to_openai(&normalized, LLMProtocol::OpenAiResponses).unwrap(),
        file
    );
    assert!(matches!(
        annotation_to_anthropic(&normalized),
        Err(AdapterError::Unsupported(_))
    ));
}

#[test]
fn semantic_zero_fields_are_not_silently_treated_as_defaults() {
    let with_seed = OpenAiChatAdapter::to_llm_request(json(
        r#"{
            "model": "gpt-4.1",
            "messages": [{"role": "user", "content": "hello"}],
            "seed": 0
        }"#,
    ))
    .unwrap();
    assert!(matches!(
        AnthropicAdapter::from_llm_request(&with_seed),
        Err(AdapterError::Unsupported(message)) if message.contains("field `seed`")
    ));

    let default_penalties = OpenAiChatAdapter::to_llm_request(json(
        r#"{
            "model": "gpt-4.1",
            "messages": [{"role": "user", "content": "hello"}],
            "frequency_penalty": 0,
            "presence_penalty": 0
        }"#,
    ))
    .unwrap();
    assert!(AnthropicAdapter::from_llm_request(&default_penalties).is_ok());
}

#[test]
fn decoder_handles_crlf_multiline_data_and_split_utf8() {
    let mut decoder = SseDecoder::default();
    let bytes = "event: delta\r\ndata: {\"text\":\"你\"}\r\n\r\n".as_bytes();
    let split = bytes.iter().position(|byte| *byte >= 0x80).unwrap() + 1;

    assert!(decoder.push(&bytes[..split]).unwrap().is_empty());
    let events = decoder.push(&bytes[split..]).unwrap();

    assert_eq!(events.len(), 1);
    assert_eq!(events[0].event.as_deref(), Some("delta"));
    assert_eq!(events[0].data, "{\"text\":\"你\"}");
}

#[test]
fn decoder_preserves_multiple_data_lines() {
    let mut decoder = SseDecoder::default();
    let events = decoder.push(b"data: first\ndata: second\n\n").unwrap();
    assert_eq!(events[0].data, "first\nsecond");
}

#[test]
fn chat_request_preserves_tool_calls_results_and_images() {
    let request = OpenAiChatAdapter::to_llm_request(json(
        r#"{
            "model": "gpt-4.1",
            "messages": [
                {"role": "user", "content": [{"type": "text", "text": "look"}, {"type": "image_url", "image_url": {"url": "https://example.test/a.png", "detail": "high"}}]},
                {"role": "assistant", "content": null, "tool_calls": [{"id": "call_1", "type": "function", "function": {"name": "weather", "arguments": "{\"city\":\"Paris\"}"}}]},
                {"role": "tool", "tool_call_id": "call_1", "content": "sunny"}
            ],
            "tools": [{"type": "function", "function": {"name": "weather", "parameters": {"type": "object"}}}],
            "tool_choice": {"type": "function", "function": {"name": "weather"}}
        }"#,
    ))
    .unwrap();

    assert!(matches!(
        request.messages[0].content[1].kind,
        LLMContentKind::Image { .. }
    ));
    assert!(matches!(
        request.messages[1].content[0].kind,
        LLMContentKind::ToolCall { .. }
    ));
    assert!(matches!(
        request.messages[2].content[0].kind,
        LLMContentKind::ToolResult { .. }
    ));
    let round_trip = value(&OpenAiChatAdapter::from_llm_request(&request).unwrap());
    assert_eq!(
        round_trip["messages"][1]["tool_calls"][0]["function"]["name"],
        "weather"
    );
    assert_eq!(round_trip["messages"][2]["tool_call_id"], "call_1");
}

#[test]
fn chat_usage_and_finish_reason_are_normalized() {
    let response = OpenAiChatAdapter::to_llm_response(json(
        r#"{
            "id": "chatcmpl_1", "model": "gpt", "choices": [{"index": 0, "message": {"role": "assistant", "content": "ok"}, "finish_reason": "tool_calls"}],
            "usage": {"prompt_tokens": 10, "completion_tokens": 4, "total_tokens": 14, "prompt_tokens_details": {"cached_tokens": 3}, "completion_tokens_details": {"reasoning_tokens": 2}}
        }"#,
    ))
    .unwrap();
    assert_eq!(
        response.choices[0].finish_reason,
        Some(LLMFinishReason::ToolCalls)
    );
    assert_eq!(response.usage.as_ref().unwrap().cache_read_tokens, Some(3));
    assert_eq!(response.usage.as_ref().unwrap().reasoning_tokens, Some(2));
}

#[test]
fn chat_audio_response_round_trips_without_becoming_input_audio() {
    let response = OpenAiChatAdapter::to_llm_response(json(
        r#"{
            "id": "chatcmpl_audio",
            "model": "gpt-audio",
            "choices": [{
                "index": 0,
                "message": {
                    "role": "assistant",
                    "content": null,
                    "audio": {"id": "audio_1", "expires_at": 123, "transcript": "hello"}
                },
                "finish_reason": "stop"
            }]
        }"#,
    ))
    .unwrap();
    assert!(matches!(
        response.choices[0].content[0].kind,
        LLMContentKind::Audio { .. }
    ));

    let output = value(&OpenAiChatAdapter::from_llm_response(&response).unwrap());
    assert_eq!(output["choices"][0]["message"]["audio"]["id"], "audio_1");
    assert_eq!(
        output["choices"][0]["message"]["audio"]["transcript"],
        "hello"
    );
    assert!(output["choices"][0]["message"]["content"].is_null());
}

#[test]
fn chat_audio_stream_fails_explicitly_for_incompatible_targets() {
    let source = SseEvent::json(
        None,
        &json(
            r#"{
                "id": "chatcmpl_audio",
                "model": "gpt-audio",
                "choices": [{
                    "index": 0,
                    "delta": {"audio": {"id": "audio_1", "data": "AAAA"}},
                    "finish_reason": null
                }]
            }"#,
        ),
    );
    let normalized =
        OpenAiChatAdapter::parse_stream_event(&source, &mut StreamState::default()).unwrap();
    assert!(normalized
        .iter()
        .any(|event| matches!(event, LLMStreamEvent::Raw { .. })));

    assert!(matches!(
        AnthropicAdapter::format_stream_events(&normalized, &mut StreamState::default()),
        Err(AdapterError::Unsupported(_))
    ));
    assert!(matches!(
        OpenAiResponsesAdapter::format_stream_events(&normalized, &mut StreamState::default()),
        Err(AdapterError::Unsupported(_))
    ));
}

#[test]
fn parses_function_calls_outputs_reasoning_and_multimodal_input() {
    let request = OpenAiResponsesAdapter::to_llm_request(json(
        r#"{
            "model": "gpt-5", "instructions": "be concise", "input": [
                {"type": "message", "role": "user", "content": [{"type": "input_text", "text": "inspect"}, {"type": "input_image", "image_url": "https://example.test/a.png"}]},
                {"type": "function_call", "call_id": "call_1", "name": "weather", "arguments": "{\"city\":\"Paris\"}"},
                {"type": "function_call_output", "call_id": "call_1", "output": "sunny"},
                {"type": "reasoning", "summary": [{"type": "summary_text", "text": "checked"}], "encrypted_content": "enc"}
            ]
        }"#,
    ))
    .unwrap();
    assert_eq!(request.messages[0].role, LLMRole::Developer);
    assert!(matches!(
        request.messages[1].content[1].kind,
        LLMContentKind::Image { .. }
    ));
    assert!(matches!(
        request.messages[2].content[0].kind,
        LLMContentKind::ToolCall { .. }
    ));
    assert!(matches!(
        request.messages[3].content[0].kind,
        LLMContentKind::ToolResult { .. }
    ));
    assert!(matches!(
        request.messages[4].content[0].kind,
        LLMContentKind::Reasoning { .. }
    ));
}

#[test]
fn responses_output_keeps_tool_call_and_usage_details() {
    let response = OpenAiResponsesAdapter::to_llm_response(json(
        r#"{
            "id": "resp_1", "model": "gpt-5", "status": "completed",
            "output": [{"type": "function_call", "call_id": "call_1", "name": "weather", "arguments": "{}"}],
            "usage": {"input_tokens": 10, "output_tokens": 5, "total_tokens": 15, "input_tokens_details": {"cached_tokens": 4}, "output_tokens_details": {"reasoning_tokens": 2}}
        }"#,
    ))
    .unwrap();
    assert_eq!(
        response.choices[0].finish_reason,
        Some(LLMFinishReason::ToolCalls)
    );
    assert!(matches!(
        response.choices[0].content[0].kind,
        LLMContentKind::ToolCall { .. }
    ));
    assert_eq!(response.usage.as_ref().unwrap().reasoning_tokens, Some(2));
}

#[test]
fn response_stream_accumulates_annotations_in_terminal_items() {
    let annotation = LLMAnnotation {
        source: LLMProtocol::AnthropicMessages,
        annotation_type: "web_search_result_location".into(),
        start_index: Some(0),
        end_index: Some(5),
        url: Some("https://example.test".into()),
        title: Some("Example".into()),
        file_id: None,
        filename: None,
        cited_text: Some("hello".into()),
        metadata: JsonMap::new(),
    };
    let events = vec![
        LLMStreamEvent::MessageStart {
            id: Some("resp_test".into()),
            model: Some("gpt-5".into()),
            usage: None,
        },
        LLMStreamEvent::ContentStart {
            index: 0,
            content: LLMContent::text(""),
        },
        LLMStreamEvent::TextDelta {
            index: 0,
            text: "hello".into(),
        },
        LLMStreamEvent::AnnotationAdded {
            index: 0,
            annotation,
        },
        LLMStreamEvent::ContentEnd { index: 0 },
        LLMStreamEvent::MessageEnd {
            finish_reason: Some(LLMFinishReason::Completed),
            usage: None,
            metadata: JsonMap::new(),
        },
    ];
    let output =
        OpenAiResponsesAdapter::format_stream_events(&events, &mut StreamState::default()).unwrap();
    let values = output
        .iter()
        .map(|event| serde_json::from_str::<Value>(&event.data).unwrap())
        .collect::<Vec<_>>();
    let item_done = values
        .iter()
        .find(|value| value["type"] == "response.output_item.done")
        .unwrap();
    let completed = values
        .iter()
        .find(|value| value["type"] == "response.completed")
        .unwrap();

    assert_eq!(
        item_done["item"]["content"][0]["annotations"][0]["url"],
        "https://example.test"
    );
    assert_eq!(
        completed["response"]["output"][0]["content"][0]["annotations"][0]["url"],
        "https://example.test"
    );
    for (number, value) in values.iter().enumerate() {
        assert_eq!(value["sequence_number"], number);
    }
}

#[test]
fn anthropic_system_cache_metadata_does_not_leak_into_responses() {
    let request = AnthropicAdapter::to_llm_request(json(
        r#"{
            "model": "sonnet",
            "max_tokens": 256,
            "system": [{
                "type": "text",
                "text": "Be concise",
                "cache_control": {"type": "ephemeral", "ttl": "1h"}
            }],
            "messages": [{
                "role": "user",
                "content": [{
                    "type": "text",
                    "text": "hello",
                    "cache_control": {"type": "ephemeral"}
                }]
            }]
        }"#,
    ))
    .unwrap();

    let output = value(&OpenAiResponsesAdapter::from_llm_request(&request).unwrap());
    assert_eq!(output["input"][0]["role"], "system");
    assert_eq!(output["input"][0]["content"], "Be concise");
    assert_eq!(output["input"][1]["content"], "hello");
    assert!(!output.to_string().contains("cache_control"));
}

#[test]
fn advanced_response_items_fail_explicitly_when_target_cannot_represent_them() {
    for item_type in [
        "custom_tool_call",
        "mcp_call",
        "web_search_call",
        "file_search_call",
        "computer_call",
        "code_interpreter_call",
        "local_shell_call",
        "shell_call",
        "apply_patch_call",
    ] {
        let request = OpenAiResponsesAdapter::to_llm_request(json(&format!(
            r#"{{"model": "gpt-5", "input": [{{"type": "{item_type}", "id": "item_1"}}]}}"#
        )))
        .unwrap();

        let chat_error = OpenAiChatAdapter::from_llm_request(&request).unwrap_err();
        let anthropic_error = AnthropicAdapter::from_llm_request(&request).unwrap_err();
        assert!(chat_error.message().contains(item_type));
        assert!(anthropic_error.message().contains(item_type));
    }
}

#[test]
fn anthropic_request_preserves_tools_results_thinking_and_cache_control() {
    let request = AnthropicAdapter::to_llm_request(json(
        r#"{
            "model": "sonnet-4-5", "max_tokens": 1024,
            "system": [{"type": "text", "text": "be concise", "cache_control": {"type": "ephemeral"}}],
            "messages": [
                {"role": "user", "content": [{"type": "image", "source": {"type": "base64", "media_type": "image/png", "data": "abc"}}]},
                {"role": "assistant", "content": [{"type": "thinking", "thinking": "check", "signature": "sig"}, {"type": "tool_use", "id": "toolu_1", "name": "weather", "input": {"city": "Paris"}}]},
                {"role": "user", "content": [{"type": "tool_result", "tool_use_id": "toolu_1", "content": "sunny"}]}
            ]
        }"#,
    ))
    .unwrap();
    let cache_control = request.messages[0].content[0]
        .metadata
        .get("cache_control")
        .unwrap();
    assert_eq!(value(cache_control)["type"], "ephemeral");
    assert!(matches!(
        request.messages[1].content[0].kind,
        LLMContentKind::Image { .. }
    ));
    assert!(matches!(
        request.messages[2].content[0].kind,
        LLMContentKind::Reasoning { .. }
    ));
    assert!(matches!(
        request.messages[2].content[1].kind,
        LLMContentKind::ToolCall { .. }
    ));
    assert!(matches!(
        request.messages[3].content[0].kind,
        LLMContentKind::ToolResult { .. }
    ));
}

#[test]
fn anthropic_usage_and_finish_reason_are_normalized() {
    let response = AnthropicAdapter::to_llm_response(json(
        r#"{
            "id": "msg_1", "type": "message", "role": "assistant", "model": "sonnet",
            "content": [{"type": "text", "text": "ok"}], "stop_reason": "max_tokens", "stop_sequence": null,
            "usage": {"input_tokens": 10, "output_tokens": 5, "cache_read_input_tokens": 4}
        }"#,
    ))
    .unwrap();
    assert_eq!(
        response.choices[0].finish_reason,
        Some(LLMFinishReason::MaxTokens)
    );
    assert_eq!(response.usage.as_ref().unwrap().cache_read_tokens, Some(4));
}

#[test]
fn output_effort_survives_without_explicit_thinking_config() {
    let request = AnthropicAdapter::to_llm_request(json(
        r#"{
            "model": "opus",
            "max_tokens": 128,
            "messages": [{"role": "user", "content": "hello"}],
            "output_config": {"effort": "high"}
        }"#,
    ))
    .unwrap();

    assert_eq!(value(request.reasoning.as_ref().unwrap())["effort"], "high");
    let output = value(&AnthropicAdapter::from_llm_request(&request).unwrap());
    assert_eq!(output["output_config"]["effort"], "high");
    assert!(output.get("thinking").is_none());
}
