//! What is done with a request: a reply at once, or a request to a provider.

use super::address::{request_address, upstream_url};
use super::forward::{wants_raw, wants_upstream_raw};
use super::reply::{failure, Failure, FailureView};
use crate::auth::{authorized, is_authorized};
use crate::config::{
    config_error_message, opt_expanded, provider_at, server_key, Config, ConfigView, EnvView,
    Environment, Provider, ProviderConfig, ProviderView,
};
use crate::headers::{header_content, Headers};
use crate::models::{codex_client, is_codex_client};
use crate::protocol::{
    detect_request_route, is_transparent, own_format, request_route_of, transparent, upstream_for,
    upstream_format, upstream_path, InputFormat, Route, RouteView, UpstreamFormat,
};
use crate::text::{borrow, cat3, opt_str, same};
use axum::http::HeaderMap;
use vstd::prelude::*;

verus! {

/// What is done with a request.
#[derive(Debug, PartialEq)]
pub enum Decision {
    /// The path is none of the proxy's.
    UnknownRoute,
    /// The client is told why it gets no answer.
    Fail { input: InputFormat, failure: Failure },
    /// A socket of the client is joined to one of the provider.
    Socket { provider: ProviderConfig },
    /// The provider is asked for its models.
    Models { provider: ProviderConfig, url: String, codex: bool },
    /// The request is sent to the provider.
    Exchange {
        input: InputFormat,
        provider: ProviderConfig,
        upstream: UpstreamFormat,
        url: String,
        /// Whether the request and its answer are sent on as they are.
        transparent: bool,
        /// Whether the answer is sent on as it is.
        raw: bool,
    },
}

/// What a decision stands for.
#[verifier::ext_equal]
pub enum DecisionView {
    UnknownRoute,
    Fail { input: InputFormat, failure: FailureView },
    Socket { provider: ProviderView },
    Models { provider: ProviderView, url: Seq<char>, codex: bool },
    Exchange {
        input: InputFormat,
        provider: ProviderView,
        upstream: UpstreamFormat,
        url: Seq<char>,
        transparent: bool,
        raw: bool,
    },
}

impl View for Decision {
    type V = DecisionView;

    open spec fn view(&self) -> DecisionView {
        match self {
            Decision::UnknownRoute => DecisionView::UnknownRoute,
            Decision::Fail { input, failure } => DecisionView::Fail {
                input: *input,
                failure: failure@,
            },
            Decision::Socket { provider } => DecisionView::Socket { provider: provider@ },
            Decision::Models { provider, url, codex } => DecisionView::Models {
                provider: provider@,
                url: url@,
                codex: *codex,
            },
            Decision::Exchange {
                input,
                provider,
                upstream,
                url,
                transparent,
                raw,
            } => DecisionView::Exchange {
                input: *input,
                provider: provider@,
                upstream: *upstream,
                url: url@,
                transparent: *transparent,
                raw: *raw,
            },
        }
    }
}

/// A reply that says why there is no answer.
pub open spec fn refused(
    input: InputFormat,
    status: u16,
    message: Seq<char>,
    error_type: Seq<char>,
) -> DecisionView {
    DecisionView::Fail { input, failure: FailureView { status, message, error_type } }
}

fn refuse(input: InputFormat, status: u16, message: &str, error_type: &str) -> (r: Decision)
    ensures
        r@ == refused(input, status, message@, error_type@),
{
    Decision::Fail { input, failure: failure(status, message, error_type) }
}

/// What is done with a request for a socket: only a provider that speaks the format of the
/// Responses has one.
pub open spec fn socket_decision(c: ConfigView, route: RouteView) -> DecisionView {
    if route.input != InputFormat::OpenAiResponses {
        refused(
            route.input,
            405,
            "WebSocket is supported only for the Responses endpoint"@,
            "invalid_request_error"@,
        )
    } else {
        match provider_at(c, route.provider) {
            Err(_) => refused(
                route.input,
                404,
                "provider not found"@,
                "invalid_request_error"@,
            ),
            Ok((_, provider)) => if provider.provider_type != Provider::OpenAiResponses {
                refused(
                    route.input,
                    400,
                    "WebSocket requires an openai-responses provider"@,
                    "invalid_request_error"@,
                )
            } else {
                DecisionView::Socket { provider }
            },
        }
    }
}

/// What is done with a request of a client to a provider, once its key is known.
pub open spec fn provider_decision(
    route: RouteView,
    provider: ProviderView,
    query: Option<Seq<char>>,
    h: Headers,
) -> DecisionView {
    if route.input == InputFormat::Models {
        DecisionView::Models {
            provider,
            url: request_address(provider.base_url, "/models"@, query),
            codex: codex_client(h, query),
        }
    } else {
        DecisionView::Exchange {
            input: route.input,
            provider,
            upstream: upstream_format(provider.provider_type),
            url: request_address(
                provider.base_url,
                upstream_path(provider.provider_type),
                query,
            ),
            transparent: transparent(route.input, upstream_format(provider.provider_type)),
            raw: wants_raw(h, query),
        }
    }
}

/// What is done with a request that is none for a socket.
pub open spec fn exchange_decision(
    c: ConfigView,
    env: EnvView,
    route: RouteView,
    method: Seq<char>,
    query: Option<Seq<char>>,
    h: Headers,
) -> DecisionView {
    if route.input == InputFormat::Models && method != "GET"@ {
        refused(
            route.input,
            405,
            "llmapi models endpoint requires GET"@,
            "invalid_request_error"@,
        )
    } else if route.input != InputFormat::Models && method != "POST"@ {
        refused(route.input, 405, "llmapi endpoints require POST"@, "invalid_request_error"@)
    } else {
        match provider_at(c, route.provider) {
            Err(e) => refused(
                route.input,
                404,
                config_error_message(e),
                "invalid_request_error"@,
            ),
            Ok((_, provider)) => match opt_expanded(provider.api_key, env) {
                Err(e) => refused(route.input, 502, config_error_message(e), "api_error"@),
                Ok(api_key) => provider_decision(
                    route,
                    ProviderView { api_key, ..provider },
                    query,
                    h,
                ),
            },
        }
    }
}

/// The format in which a client is told something before its format is known.
pub open spec fn format_or_plain(route: Option<RouteView>) -> InputFormat {
    match route {
        Some(route) => route.input,
        None => InputFormat::Models,
    }
}

/// What is done with a client that sends no key, or not that of the proxy: nothing.
pub open spec fn key_decision(
    c: ConfigView,
    env: EnvView,
    input: InputFormat,
    query: Option<Seq<char>>,
    h: Headers,
) -> Option<DecisionView> {
    match server_key(c, env) {
        Err(e) => Some(refused(input, 500, config_error_message(e), "api_error"@)),
        Ok(key) => if authorized(key, h, query) {
            None
        } else {
            Some(refused(input, 401, "missing or invalid API key"@, "authentication_error"@))
        },
    }
}

/// What is done with a request.
pub open spec fn decision(
    c: ConfigView,
    env: EnvView,
    method: Seq<char>,
    path: Seq<char>,
    query: Option<Seq<char>>,
    h: Headers,
    socket: bool,
) -> DecisionView {
    let route = request_route_of(path);
    match key_decision(c, env, format_or_plain(route), query, h) {
        Some(refusal) => refusal,
        None => match route {
            None => DecisionView::UnknownRoute,
            Some(route) => if socket {
                socket_decision(c, route)
            } else {
                exchange_decision(c, env, route, method, query, h)
            },
        },
    }
}

/// What an optional decision stands for.
pub open spec fn opt_decision(o: Option<Decision>) -> Option<DecisionView> {
    match o {
        Some(d) => Some(d@),
        None => None,
    }
}

/// What is done with a client that sends no key, or not that of the proxy.
pub fn check_key(
    config: &Config,
    env: &Environment,
    input: InputFormat,
    query: Option<&str>,
    headers: &HeaderMap,
) -> (r: Option<Decision>)
    ensures
        opt_decision(r) == key_decision(
            config@,
            env@,
            input,
            opt_str(query),
            header_content(*headers),
        ),
{
    let key = match config.api_key(env) {
        Ok(key) => key,
        Err(e) => {
            return Some(refuse(input, 500, e.message().as_str(), "api_error"));
        },
    };
    if is_authorized(borrow(&key), headers, query) {
        None
    } else {
        Some(refuse(input, 401, "missing or invalid API key", "authentication_error"))
    }
}

fn decide_socket(config: &Config, route: &Route) -> (r: Decision)
    ensures
        r@ == socket_decision(config@, route@),
{
    if route.input != InputFormat::OpenAiResponses {
        return refuse(
            route.input,
            405,
            "WebSocket is supported only for the Responses endpoint",
            "invalid_request_error",
        );
    }
    match config.provider(borrow(&route.provider)) {
        Ok((_, provider)) => {
            if provider.provider_type != Provider::OpenAiResponses {
                refuse(
                    route.input,
                    400,
                    "WebSocket requires an openai-responses provider",
                    "invalid_request_error",
                )
            } else {
                Decision::Socket { provider: provider.clone() }
            }
        },
        Err(_) => refuse(route.input, 404, "provider not found", "invalid_request_error"),
    }
}

fn decide_provider(
    route: &Route,
    provider: ProviderConfig,
    query: Option<&str>,
    headers: &HeaderMap,
) -> (r: Decision)
    ensures
        r@ == provider_decision(route@, provider@, opt_str(query), header_content(*headers)),
{
    if route.input == InputFormat::Models {
        let url = upstream_url(provider.base_url.as_str(), "/models", query);
        let codex = is_codex_client(headers, query);
        return Decision::Models { provider, url, codex };
    }
    let (upstream, path) = upstream_for(provider.provider_type);
    let url = upstream_url(provider.base_url.as_str(), path, query);
    let transparent = is_transparent(route.input, upstream);
    let raw = wants_upstream_raw(query, headers);
    Decision::Exchange { input: route.input, provider, upstream, url, transparent, raw }
}

fn decide_exchange(
    config: &Config,
    env: &Environment,
    route: &Route,
    method: &str,
    query: Option<&str>,
    headers: &HeaderMap,
) -> (r: Decision)
    ensures
        r@ == exchange_decision(
            config@,
            env@,
            route@,
            method@,
            opt_str(query),
            header_content(*headers),
        ),
{
    let models = route.input == InputFormat::Models;
    if models && !same(method, "GET") {
        return refuse(
            route.input,
            405,
            "llmapi models endpoint requires GET",
            "invalid_request_error",
        );
    }
    if !models && !same(method, "POST") {
        return refuse(
            route.input,
            405,
            "llmapi endpoints require POST",
            "invalid_request_error",
        );
    }
    let provider = match config.provider(borrow(&route.provider)) {
        Ok((_, provider)) => provider,
        Err(e) => {
            return refuse(route.input, 404, e.message().as_str(), "invalid_request_error");
        },
    };
    match provider.api_key(env) {
        Ok(api_key) => {
            let provider = ProviderConfig {
                provider_type: provider.provider_type,
                base_url: provider.base_url.clone(),
                api_key,
            };
            decide_provider(route, provider, query, headers)
        },
        Err(e) => refuse(route.input, 502, e.message().as_str(), "api_error"),
    }
}

/// What is done with a request.
pub fn decide(
    config: &Config,
    env: &Environment,
    method: &str,
    path: &str,
    query: Option<&str>,
    headers: &HeaderMap,
    socket: bool,
) -> (r: Decision)
    ensures
        r@ == decision(
            config@,
            env@,
            method@,
            path@,
            opt_str(query),
            header_content(*headers),
            socket,
        ),
{
    let route = detect_request_route(path);
    let input = match &route {
        Some(route) => route.input,
        None => InputFormat::Models,
    };
    if let Some(refusal) = check_key(config, env, input, query, headers) {
        return refusal;
    }
    match route {
        None => Decision::UnknownRoute,
        Some(route) => {
            if socket {
                decide_socket(config, &route)
            } else {
                decide_exchange(config, env, &route, method, query, headers)
            }
        },
    }
}

/// The words that a client of a socket is sent before it is closed.
pub open spec fn socket_error(message: Seq<char>) -> Seq<char> {
    "{\"error\":\""@ + message + "\"}"@
}

/// The words that a client of a socket is sent before it is closed.
pub fn socket_error_text(message: &str) -> (r: String)
    ensures
        r@ == socket_error(message@),
{
    cat3("{\"error\":\"", message, "\"}")
}

/// The format in which a client of a provider is told of an error, where nothing is converted.
pub fn provider_input(provider: Provider) -> (r: InputFormat)
    ensures
        r == own_format(provider),
{
    match provider {
        Provider::OpenAiChat => InputFormat::OpenAiChat,
        Provider::OpenAiResponses => InputFormat::OpenAiResponses,
        Provider::Anthropic => InputFormat::AnthropicMessages,
    }
}

/// A proxy with a key answers no request, on whatever path, that does not bring it.
pub proof fn key_is_required(
    c: ConfigView,
    env: EnvView,
    method: Seq<char>,
    path: Seq<char>,
    query: Option<Seq<char>>,
    h: Headers,
    socket: bool,
)
    requires
        server_key(c, env) matches Ok(Some(key)) && crate::auth::sent_key(h, query) != Some(key),
    ensures
        decision(c, env, method, path, query, h, socket) matches DecisionView::Fail {
            failure,
            ..
        } && failure.status == 401,
{
}

/// A proxy without a key answers as if each client had brought one.
pub proof fn no_key_keeps_open(
    c: ConfigView,
    env: EnvView,
    input: InputFormat,
    query: Option<Seq<char>>,
    h: Headers,
)
    requires
        c.api_key is None,
    ensures
        key_decision(c, env, input, query, h) is None,
{
}

/// A request that is sent on as it is goes to a provider that speaks the format of the client.
pub proof fn transparent_decision(
    c: ConfigView,
    env: EnvView,
    method: Seq<char>,
    path: Seq<char>,
    query: Option<Seq<char>>,
    h: Headers,
)
    ensures
        decision(c, env, method, path, query, h, false) matches DecisionView::Exchange {
            input,
            provider,
            transparent,
            ..
        } ==> (transparent <==> input == own_format(provider.provider_type)) && input
            != InputFormat::Models,
{
}

} // verus!
