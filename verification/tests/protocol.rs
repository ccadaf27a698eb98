use llmapi::config::Provider;
use llmapi::protocol::{
    detect_request_route, detect_route, is_transparent, upstream_for, InputFormat, Route,
    UpstreamFormat,
};

#[test]
fn detects_default_provider_routes() {
    assert_eq!(
        detect_route("/chat/completions"),
        Some(Route {
            provider: None,
            input: InputFormat::OpenAiChat,
        })
    );
    assert_eq!(
        detect_route("/responses").unwrap().input,
        InputFormat::OpenAiResponses
    );
    assert_eq!(
        detect_route("/messages").unwrap().input,
        InputFormat::AnthropicMessages
    );
}

#[test]
fn detects_named_provider_routes() {
    assert_eq!(
        detect_route("/anthropic/chat/completions"),
        Some(Route {
            provider: Some("anthropic".into()),
            input: InputFormat::OpenAiChat,
        })
    );
    assert_eq!(
        detect_route("/openai/responses")
            .unwrap()
            .provider
            .as_deref(),
        Some("openai")
    );
    assert_eq!(
        detect_route("/deepseek/messages").unwrap().input,
        InputFormat::AnthropicMessages
    );
}

#[test]
fn rejects_unknown_routes() {
    assert_eq!(detect_route("/models"), None);
    assert_eq!(detect_route("/openai/models"), None);
    assert_eq!(detect_route("/too/many/responses"), None);
}

#[test]
fn maps_provider_to_canonical_upstream_endpoint() {
    assert_eq!(
        upstream_for(Provider::OpenAiChat),
        (UpstreamFormat::OpenAiChat, "/chat/completions")
    );
    assert_eq!(
        upstream_for(Provider::OpenAiResponses),
        (UpstreamFormat::OpenAiResponses, "/responses")
    );
    assert_eq!(
        upstream_for(Provider::Anthropic),
        (UpstreamFormat::AnthropicMessages, "/messages")
    );
}

#[test]
fn lists_of_models_have_routes_of_their_own() {
    for path in ["/models", "/v1/models"] {
        let route = detect_request_route(path).unwrap();
        assert_eq!(route.provider, None);
        assert_eq!(route.input, InputFormat::Models);
    }
    for path in ["/openai/models", "/openai/v1/models"] {
        let route = detect_request_route(path).unwrap();
        assert_eq!(route.provider.as_deref(), Some("openai"));
        assert_eq!(route.input, InputFormat::Models);
    }
    assert_eq!(
        detect_request_route("/responses").unwrap().input,
        InputFormat::OpenAiResponses
    );
    assert_eq!(detect_request_route("/unknown"), None);
}

#[test]
fn a_format_passes_through_to_itself_alone() {
    assert!(is_transparent(
        InputFormat::OpenAiChat,
        UpstreamFormat::OpenAiChat
    ));
    assert!(!is_transparent(
        InputFormat::OpenAiChat,
        UpstreamFormat::AnthropicMessages
    ));
    assert!(!is_transparent(
        InputFormat::AnthropicMessages,
        UpstreamFormat::OpenAiResponses
    ));
}
