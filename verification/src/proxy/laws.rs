//! What holds of keys, headers, addresses, decisions and replies.

use super::address::{endpoint, forwarded_pairs, own_parameters, request_address, socket_address};
use super::convert::{
    client_body_written, client_response_value, client_value_read, upstream_body_written,
    upstream_request_value, upstream_response_of, upstream_value_read, ConvertErrorView,
};
use super::decide::{decision, DecisionView};
use super::forward::{
    answer_of, client_key, models_headers, request_headers, wants_raw, with_returned,
};
use super::reply::{error_value, failure_of, models_told, FailureView, ModelsAnswerView};
use super::stream::{client_write_step, upstream_event_read, ConverterView, Draw};
use crate::adapters::anthropic::{
    anthropic_request_of, anthropic_request_value, anthropic_response_of, anthropic_response_value,
};
use crate::adapters::anthropic_stream::{anthropic_event_read, anthropic_write_step};
use crate::adapters::chat_stream::{chat_event_read, chat_write_step};
use crate::adapters::error::ErrorView;
use crate::adapters::fresh::IdsView;
use crate::adapters::openai_chat::{
    chat_request_of, chat_request_value, chat_response_of, chat_response_value,
};
use crate::adapters::openai_responses::{
    responses_request_of, responses_request_value, responses_response_of, responses_response_value,
};
use crate::adapters::part_laws::says;
use crate::adapters::responses_stream::{responses_event_read, responses_write_step};
use crate::adapters::sse::SseView;
use crate::adapters::state::StateView;
use crate::adapters::stream::written;
use crate::auth::{
    authorized, forwarded_names, sent_key, with_copies, with_key, with_protocol_headers,
};
use crate::config::{
    opt_expanded, provider_at, server_key, ConfigErrorView, ConfigView, EnvView, Provider,
    ProviderView,
};
use crate::headers::{header_bytes, header_text_of, no_headers, Headers};
use crate::json::JsonView;
use crate::model::{RequestView, ResponseView};
use crate::models::client_models;
use crate::protocol::{
    endpoint_of, models_route_of, provider_and_path, request_route_of, route_of, upstream_format,
    upstream_path, InputFormat, RouteView, UpstreamFormat,
};
use crate::query::{first_value, form_pairs, form_text, has_pair, is_wanted, pairs_without};
use crate::redact::{
    sensitive, shown_key, shown_pair, shown_pairs, shown_query, shown_request, shown_url,
};
use crate::text::{contains_text, lower_text, split_once, without_end};
use crate::text_laws::{first_characters, prefix_and_rest, splits_at_the_first};
use crate::wire::value_text;
use vstd::prelude::*;
use vstd::utf8::encode_utf8;

verus! {

proof fn header_names_differ()
    ensures
        "authorization"@ != "x-api-key"@,
        "authorization"@ != "api-key"@,
        "x-api-key"@ != "api-key"@,
        "accept"@ != "idempotency-key"@,
        "accept"@ != "x-client-request-id"@,
        "accept"@ != "anthropic-version"@,
        "accept"@ != "anthropic-beta"@,
        "accept"@ != "openai-beta"@,
        "idempotency-key"@ != "x-client-request-id"@,
        "idempotency-key"@ != "anthropic-version"@,
        "idempotency-key"@ != "anthropic-beta"@,
        "idempotency-key"@ != "openai-beta"@,
        "x-client-request-id"@ != "anthropic-version"@,
        "x-client-request-id"@ != "anthropic-beta"@,
        "x-client-request-id"@ != "openai-beta"@,
        "anthropic-version"@ != "anthropic-beta"@,
{
    reveal_strlit("authorization");
    reveal_strlit("x-api-key");
    reveal_strlit("api-key");
    reveal_strlit("accept");
    reveal_strlit("idempotency-key");
    reveal_strlit("x-client-request-id");
    reveal_strlit("anthropic-version");
    reveal_strlit("anthropic-beta");
    reveal_strlit("openai-beta");
    assert("authorization"@.len() == 13 && "x-api-key"@.len() == 9 && "api-key"@.len() == 7);
    assert("accept"@.len() == 6 && "idempotency-key"@.len() == 15 && "x-client-request-id"@.len()
        == 19);
    assert("anthropic-version"@.len() == 17 && "anthropic-beta"@.len() == 14);
    assert("openai-beta"@.len() == 11);
}

/// The key that a client sends: its bearer token, else its `x-api-key` or `api-key` header, else
/// the `key` of its query.
pub proof fn keys_of_clients(h: Headers, query: Seq<char>, key: Seq<char>)
    ensures
        header_text_of(h, "authorization"@) == Some("Bearer "@ + key) ==> sent_key(h, Some(query))
            == Some(key),
        header_text_of(h, "authorization"@) is None && header_text_of(h, "x-api-key"@) == Some(key)
            ==> sent_key(h, Some(query)) == Some(key),
        header_text_of(h, "authorization"@) is None && header_text_of(h, "x-api-key"@) is None
            && header_text_of(h, "api-key"@) == Some(key) ==> sent_key(h, Some(query)) == Some(key),
        header_text_of(h, "authorization"@) is None && header_text_of(h, "x-api-key"@) is None
            && header_text_of(h, "api-key"@) is None ==> sent_key(h, Some(query)) == first_value(
            form_pairs(query),
            "key"@,
        ) && sent_key(h, None) is None,
{
    prefix_and_rest(key, "Bearer "@);
}

/// A client is let in where the server wants no key, or where it sent the one that the server
/// wants.
pub proof fn who_is_let_in(h: Headers, query: Option<Seq<char>>, key: Seq<char>)
    ensures
        authorized(None, h, query),
        authorized(Some(key), h, query) <==> sent_key(h, query) == Some(key),
{
}

/// The value of a parameter is that of the first pair with its name.
pub proof fn first_pairs_count(pairs: Seq<(Seq<char>, Seq<char>)>, name: Seq<char>)
    ensures
        first_value(pairs, name) matches Some(value) ==> exists|i: int|
            0 <= i < pairs.len() && #[trigger] pairs[i] == (name, value) && forall|j: int|
                0 <= j < i ==> (#[trigger] pairs[j]).0 != name,
        first_value(pairs, name) is None ==> forall|i: int|
            0 <= i < pairs.len() ==> (#[trigger] pairs[i]).0 != name,
    decreases pairs.len(),
{
    if pairs.len() > 0 {
        let first = pairs.drop_last();
        first_pairs_count(first, name);
        assert(forall|i: int| 0 <= i < first.len() ==> first[i] == pairs[i]);
        if let Some(value) = first_value(first, name) {
            let i = choose|i: int|
                0 <= i < first.len() && #[trigger] first[i] == (name, value) && forall|j: int|
                    0 <= j < i ==> (#[trigger] first[j]).0 != name;
            assert(pairs[i] == (name, value));
            assert(forall|j: int| 0 <= j < i ==> (#[trigger] pairs[j]).0 == first[j].0);
        } else if pairs.last().0 == name {
            assert(pairs[pairs.len() - 1] == (name, pairs.last().1));
            assert(forall|j: int| 0 <= j < pairs.len() - 1 ==> (#[trigger] pairs[j]) == first[j]);
        }
    }
}

/// A parameter of another name stays, in order; one of the names goes.
pub proof fn other_pairs_stay(
    pairs: Seq<(Seq<char>, Seq<char>)>,
    pair: (Seq<char>, Seq<char>),
    names: Seq<Seq<char>>,
)
    ensures
        pairs_without(Seq::empty(), names) == Seq::<(Seq<char>, Seq<char>)>::empty(),
        names.contains(pair.0) ==> pairs_without(pairs.push(pair), names) == pairs_without(
            pairs,
            names,
        ),
        !names.contains(pair.0) ==> pairs_without(pairs.push(pair), names) == pairs_without(
            pairs,
            names,
        ).push(pair),
{
    assert(pairs.push(pair).drop_last() =~= pairs);
}

/// A provider is sent its own key, or else the client's: as `x-api-key` in Messages, as a bearer
/// token elsewhere. No other header changes.
pub proof fn keys_for_providers(
    h: Headers,
    provider: Provider,
    configured: Option<Seq<char>>,
    extracted: Option<Seq<char>>,
    other: Seq<char>,
)
    ensures
        ({
            let name = if provider == Provider::Anthropic {
                "x-api-key"@
            } else {
                "authorization"@
            };
            let after = with_key(h, provider, configured, extracted);
            &&& configured is None && extracted is None ==> after == h
            &&& other != name ==> after.contains_key(other) == h.contains_key(other) && (
            h.contains_key(other) ==> after[other] == h[other])
            &&& (match configured {
                Some(key) => Some(key),
                None => extracted,
            }) matches Some(key) ==> {
                let value = encode_utf8(
                    if provider == Provider::Anthropic {
                        key
                    } else {
                        "Bearer "@ + key
                    },
                );
                header_bytes(value) ==> after.contains_key(name) && after[name] == seq![value]
            }
        }),
{
}

proof fn copies_in_order(h: Headers, source: Headers, names: Seq<Seq<char>>, i: int)
    requires
        0 <= i < names.len(),
        forall|j: int, k: int| 0 <= j < k < names.len() ==> names[j] != names[k],
    ensures
        ({
            let after = with_copies(h, source, names);
            &&& source.contains_key(names[i]) ==> after.contains_key(names[i]) && after[names[i]]
                == seq![source[names[i]][0]]
            &&& !source.contains_key(names[i]) ==> after.contains_key(names[i]) == h.contains_key(
                names[i],
            )
        }),
    decreases names.len(),
{
    let first = names.drop_last();
    if i < first.len() {
        assert(first[i] == names[i]);
        assert forall|j: int, k: int| 0 <= j < k < first.len() implies first[j] != first[k] by {
            assert(first[j] == names[j] && first[k] == names[k]);
        }
        copies_in_order(h, source, first, i);
        assert(names.last() == names[names.len() - 1]);
        assert(names[i] != names[names.len() - 1]);
    } else {
        copies_of_others(h, source, first, names[i]);
    }
}

proof fn copies_of_others(h: Headers, source: Headers, names: Seq<Seq<char>>, other: Seq<char>)
    ensures
        !source.contains_key(other) ==> with_copies(h, source, names).contains_key(other)
            == h.contains_key(other),
    decreases names.len(),
{
    if names.len() > 0 {
        copies_of_others(h, source, names.drop_last(), other);
    }
}

/// What a client says about the exchange is said to the provider: what it accepts, how it names
/// the request, and the version and betas of the provider's own format. A version of Messages is
/// always named.
pub proof fn headers_for_providers(h: Headers, provider: Provider, source: Headers)
    ensures
        ({
            let after = with_protocol_headers(h, provider, source);
            &&& source.contains_key("accept"@) ==> after.contains_key("accept"@)
                && after["accept"@] == seq![source["accept"@][0]]
            &&& source.contains_key("idempotency-key"@) ==> after.contains_key("idempotency-key"@)
                && after["idempotency-key"@] == seq![source["idempotency-key"@][0]]
            &&& source.contains_key("x-client-request-id"@) ==> after.contains_key(
                "x-client-request-id"@,
            ) && after["x-client-request-id"@] == seq![source["x-client-request-id"@][0]]
            &&& provider == Provider::Anthropic && source.contains_key("anthropic-version"@)
                ==> after.contains_key("anthropic-version"@) && after["anthropic-version"@] == seq![
                source["anthropic-version"@][0],
            ]
            &&& provider == Provider::Anthropic && !source.contains_key("anthropic-version"@)
                && !h.contains_key("anthropic-version"@) ==> after.contains_key(
                "anthropic-version"@,
            ) && after["anthropic-version"@] == seq![encode_utf8("2023-06-01"@)]
            &&& provider == Provider::Anthropic && source.contains_key("anthropic-beta"@)
                ==> after.contains_key("anthropic-beta"@) && after["anthropic-beta"@] == seq![
                source["anthropic-beta"@][0],
            ]
            &&& provider != Provider::Anthropic && source.contains_key("openai-beta"@)
                ==> after.contains_key("openai-beta"@) && after["openai-beta"@] == seq![
                source["openai-beta"@][0],
            ]
        }),
{
    header_names_differ();
    let names = forwarded_names(provider);
    copies_in_order(h, source, names, 0);
    copies_in_order(h, source, names, 1);
    copies_in_order(h, source, names, 2);
    copies_in_order(h, source, names, 3);
    if provider == Provider::Anthropic {
        copies_in_order(h, source, names, 4);
    }
}

/// The client's own key is sent on only where the server is open, and what the client has already
/// is asked about only where something is fetched.
pub proof fn what_is_sent_on(
    server_open: bool,
    provider: Provider,
    key: Option<Seq<char>>,
    source: Headers,
    query: Option<Seq<char>>,
)
    ensures
        client_key(true, source, query) == sent_key(source, query),
        client_key(false, source, query) is None,
        source.contains_key("if-none-match"@) ==> {
            let h = request_headers(server_open, provider, key, true, source, query);
            h.contains_key("if-none-match"@) && h["if-none-match"@] == seq![
                source["if-none-match"@][0],
            ]
        },
{
}

/// A request is sent with the provider's key and with what the client says about the exchange.
pub proof fn requests_have_their_headers(
    server_open: bool,
    provider: Provider,
    key: Option<Seq<char>>,
    get: bool,
    source: Headers,
    query: Option<Seq<char>>,
    name: Seq<char>,
)
    requires
        name != "if-none-match"@,
    ensures
        ({
            let sent = request_headers(server_open, provider, key, get, source, query);
            let with = with_protocol_headers(
                with_key(
                    no_headers(),
                    provider,
                    key,
                    if server_open {
                        sent_key(source, query)
                    } else {
                        None
                    },
                ),
                provider,
                source,
            );
            sent.contains_key(name) == with.contains_key(name) && (with.contains_key(name)
                ==> sent[name] == with[name])
        }),
{
}

/// Whether a header of a provider's reply is one that clients are told.
pub open spec fn is_told(name: Seq<char>) -> bool {
    name == "cache-control"@ || name == "vary"@ || name == "retry-after"@ || name
        == "x-request-id"@ || name == "request-id"@ || name == "anthropic-request-id"@ || name
        == "openai-processing-ms"@
}

/// A client is told how the reply may be kept, when to come back, how the request is named and
/// what of its limits is left; with the body also the type of the body and its tag. What it was
/// told before of other things stays.
pub proof fn what_is_told_back(
    target: Headers,
    source: Headers,
    with_body: bool,
    name: Seq<char>,
    limit: Seq<char>,
)
    ensures
        is_told(name) && source.contains_key(name) ==> with_returned(
            target,
            source,
            with_body,
        ).contains_key(name) && with_returned(target, source, with_body)[name] == seq![
            source[name].last(),
        ],
        source.contains_key("x-ratelimit-"@ + limit) ==> with_returned(
            target,
            source,
            with_body,
        ).contains_key("x-ratelimit-"@ + limit) && with_returned(target, source, with_body)[
            "x-ratelimit-"@ + limit] == seq![source["x-ratelimit-"@ + limit].last()],
        source.contains_key("content-type"@) ==> with_returned(target, source, true).contains_key(
            "content-type"@,
        ) && with_returned(target, source, true)["content-type"@] == seq![
            source["content-type"@].last(),
        ],
        source.contains_key("etag"@) ==> with_returned(target, source, true).contains_key("etag"@)
            && with_returned(target, source, true)["etag"@] == seq![source["etag"@].last()],
        !source.contains_key(name) ==> with_returned(target, source, with_body).contains_key(name)
            == target.contains_key(name) && (target.contains_key(name) ==> with_returned(
            target,
            source,
            with_body,
        )[name] == target[name]),
{
    let long = "x-ratelimit-"@ + limit;
    assert(long.subrange(0, "x-ratelimit-"@.len() as int) =~= "x-ratelimit-"@);
}

/// A list of models varies by client, and has a tag only where it is the provider's own.
pub proof fn lists_vary_by_client(target: Headers, source: Headers, native: bool)
    ensures
        models_headers(target, source, native).contains_key("vary"@),
        models_headers(target, source, native)["vary"@].last() == encode_utf8("User-Agent"@),
        native && source.contains_key("etag"@) ==> models_headers(
            target,
            source,
            native,
        ).contains_key("etag"@) && models_headers(target, source, native)["etag"@] == seq![
            source["etag"@][0],
        ],
{
    reveal_strlit("vary");
    reveal_strlit("etag");
    assert("vary"@[0] != "etag"@[0]);
}

/// How a provider answered: with an error outside of the statuses of success, else with a stream
/// of events where the type says so, else with a whole body.
pub proof fn answers_of_providers(status: u16, headers: Headers, kind: Seq<char>)
    ensures
        status < 200 || status >= 300 ==> answer_of(status, headers) is Failed,
        200 <= status < 300 && header_text_of(headers, "content-type"@) == Some(kind)
            && contains_text(kind, "text/event-stream"@) ==> answer_of(status, headers) is Events,
        200 <= status < 300 && header_text_of(headers, "content-type"@) == Some(kind)
            && !contains_text(kind, "text/event-stream"@) ==> answer_of(status, headers) is Whole,
{
}

/// A client asks for what the provider says as it is, in a header or in its query.
pub proof fn asking_for_the_raw_answer(h: Headers, query: Option<Seq<char>>)
    ensures
        header_text_of(h, "x-llmapi-response-mode"@) == Some("upstream_raw"@) ==> wants_raw(
            h,
            query,
        ),
        query matches Some(q) ==> (form_pairs(q).contains(
            ("llmapi_response_mode"@, "upstream_raw"@),
        ) ==> wants_raw(h, query)),
        query is None && header_text_of(h, "x-llmapi-response-mode"@) is None ==> !wants_raw(
            h,
            query,
        ),
        query matches Some(q) ==> (header_text_of(h, "x-llmapi-response-mode"@) is None
            && !form_pairs(q).contains(("llmapi_response_mode"@, "upstream_raw"@)) ==> !wants_raw(
            h,
            query,
        )),
{
    if let Some(q) = query {
        let pairs = form_pairs(q);
        if pairs.contains(("llmapi_response_mode"@, "upstream_raw"@)) {
            let i = choose|i: int|
                0 <= i < pairs.len() && pairs[i] == ("llmapi_response_mode"@, "upstream_raw"@);
            assert(pairs[i].0 == "llmapi_response_mode"@);
        } else if has_pair(pairs, "llmapi_response_mode"@, Some("upstream_raw"@)) {
            let i = choose|i: int|
                0 <= i < pairs.len() && (#[trigger] pairs[i]).0 == "llmapi_response_mode"@
                    && is_wanted(pairs[i].1, Some("upstream_raw"@));
            assert(pairs[i] == ("llmapi_response_mode"@, "upstream_raw"@));
        }
    }
}

/// The address of a request is the provider's, without slashes at its end, with the path behind
/// it where it is not there already.
pub proof fn addresses_of_requests(base: Seq<char>, path: Seq<char>, query: Seq<char>)
    ensures
        path.is_suffix_of(endpoint(base, path)),
        without_end(base, '/').is_prefix_of(endpoint(base, path)),
        !path.is_suffix_of(without_end(base, '/')) ==> endpoint(base, path) == without_end(base, '/')
            + path,
        path.is_suffix_of(without_end(base, '/')) ==> endpoint(base, path) == without_end(base, '/'),
        request_address(base, path, None) == endpoint(base, path),
        forwarded_pairs(query).len() == 0 ==> request_address(base, path, Some(query)) == endpoint(
            base,
            path,
        ),
        forwarded_pairs(query).len() > 0 ==> request_address(base, path, Some(query)) == endpoint(
            base,
            path,
        ) + "?"@ + form_text(forwarded_pairs(query)),
{
    let b = without_end(base, '/');
    assert((b + path).skip(b.len() as int) =~= path);
    assert((b + path).subrange(b.len() as int, (b + path).len() as int) =~= path);
    assert((b + path).subrange(0, b.len() as int) =~= b);
    assert(b.subrange(0, b.len() as int) =~= b);
}

/// Of a query only what the proxy itself reads is held back: the key, and the mode of the reply.
pub proof fn queries_are_passed_on(pairs: Seq<(Seq<char>, Seq<char>)>, pair: (Seq<char>, Seq<char>))
    ensures
        pair.0 != "key"@ && pair.0 != "llmapi_response_mode"@ ==> pairs_without(
            pairs.push(pair),
            own_parameters(),
        ) == pairs_without(pairs, own_parameters()).push(pair),
        pair.0 == "key"@ || pair.0 == "llmapi_response_mode"@ ==> pairs_without(
            pairs.push(pair),
            own_parameters(),
        ) == pairs_without(pairs, own_parameters()),
{
    other_pairs_stay(pairs, pair, own_parameters());
    let names = own_parameters();
    assert(names[0] == "key"@ && names[1] == "llmapi_response_mode"@);
}

/// A socket has the address of the request under the scheme of sockets, as safe as the request.
pub proof fn addresses_of_sockets(rest: Seq<char>)
    ensures
        socket_address("https://"@ + rest) == "wss://"@ + rest,
        socket_address("http://"@ + rest) == "ws://"@ + rest,
        socket_address("wss://"@ + rest) == "wss://"@ + rest,
        socket_address("ws://"@ + rest) == "ws://"@ + rest,
{
    prefix_and_rest(rest, "https://"@);
    prefix_and_rest(rest, "http://"@);
    reveal_strlit("https://");
    reveal_strlit("http://");
    reveal_strlit("wss://");
    reveal_strlit("ws://");
    let plain = "http://"@ + rest;
    let safe = "wss://"@ + rest;
    let open = "ws://"@ + rest;
    assert(plain[4] == ':' && safe[0] == 'w' && open[0] == 'w');
    if "https://"@.is_prefix_of(plain) {
        assert(plain.subrange(0, 8)[4] == "https://"@[4]);
    }
    if "https://"@.is_prefix_of(safe) {
        assert(safe.subrange(0, 8)[0] == "https://"@[0]);
    }
    if "http://"@.is_prefix_of(safe) {
        assert(safe.subrange(0, 7)[0] == "http://"@[0]);
    }
    if "https://"@.is_prefix_of(open) {
        assert(open.subrange(0, 8)[0] == "https://"@[0]);
    }
    if "http://"@.is_prefix_of(open) {
        assert(open.subrange(0, 7)[0] == "http://"@[0]);
    }
}

/// Which format a path asks in.
pub proof fn paths_of_formats(path: Seq<char>)
    ensures
        path == "/chat/completions"@ || path == "/v1/chat/completions"@ ==> endpoint_of(path)
            == Some(InputFormat::OpenAiChat),
        path == "/responses"@ || path == "/v1/responses"@ ==> endpoint_of(path) == Some(
            InputFormat::OpenAiResponses,
        ),
        path == "/messages"@ || path == "/v1/messages"@ ==> endpoint_of(path) == Some(
            InputFormat::AnthropicMessages,
        ),
        endpoint_of(path) is Some ==> path == "/chat/completions"@ || path
            == "/v1/chat/completions"@ || path == "/responses"@ || path == "/v1/responses"@ || path
            == "/messages"@ || path == "/v1/messages"@,
        endpoint_of(path) is Some ==> route_of(path) == Some(
            RouteView { provider: None, input: endpoint_of(path)->0 },
        ) && request_route_of(path) == route_of(path),
        path == "/models"@ || path == "/v1/models"@ ==> models_route_of(path) == Some(
            RouteView { provider: None, input: InputFormat::Models },
        ),
        endpoint_of(path) != Some(InputFormat::Models),
        route_of(path) is None ==> request_route_of(path) == models_route_of(path),
{
    reveal_strlit("/chat/completions");
    reveal_strlit("/v1/chat/completions");
    reveal_strlit("/responses");
    reveal_strlit("/v1/responses");
    reveal_strlit("/messages");
    reveal_strlit("/v1/messages");
    assert("/chat/completions"@.len() == 17 && "/v1/chat/completions"@.len() == 20);
    assert("/responses"@.len() == 10 && "/v1/responses"@.len() == 13);
    assert("/messages"@.len() == 9 && "/v1/messages"@.len() == 12);
}

/// A path that names a provider asks that provider.
pub proof fn paths_of_providers(name: Seq<char>, rest: Seq<char>)
    requires
        name.len() > 0,
        forall|i: int| 0 <= i < name.len() ==> name[i] != '/',
    ensures
        provider_and_path("/"@ + name + "/"@ + rest) == Some((name, "/"@ + rest)),
        endpoint_of("/"@ + name + "/"@ + rest) is None ==> route_of("/"@ + name + "/"@ + rest)
            == match endpoint_of("/"@ + rest) {
            Some(input) => Some(RouteView { provider: Some(name), input }),
            None => None,
        },
{
    reveal_strlit("/");
    let slash = "/"@;
    let path = slash + name + slash + rest;
    let inner = name + slash + rest;
    assert(path =~= slash + inner);
    prefix_and_rest(inner, slash);
    splits_at_the_first(inner, slash);
    assert(inner.skip(name.len() as int) =~= slash + rest);
    assert((slash + rest).subrange(0, 1) =~= slash);
    assert(slash.is_prefix_of(inner.skip(name.len() as int)));
    if let Some((before, after)) = split_once(inner, slash) {
        if before.len() < name.len() {
            assert(inner[before.len() as int] == slash[0]);
            assert(inner[before.len() as int] == name[before.len() as int]);
        } else if before.len() > name.len() {
            assert(!slash.is_prefix_of(inner.skip(name.len() as int)));
        }
        assert(before =~= name) by {
            assert forall|i: int| 0 <= i < before.len() implies before[i] == name[i] by {
                assert(inner[i] == before[i]);
            }
        }
        assert(after =~= rest) by {
            assert forall|i: int| 0 <= i < after.len() implies after[i] == rest[i] by {
                assert(inner[name.len() + 1 + i] == after[i]);
            }
        }
    }
}

/// A provider is asked in its own format, at the path of that format.
pub proof fn providers_in_their_format()
    ensures
        upstream_format(Provider::OpenAiChat) == UpstreamFormat::OpenAiChat,
        upstream_path(Provider::OpenAiChat) == "/chat/completions"@,
        upstream_format(Provider::OpenAiResponses) == UpstreamFormat::OpenAiResponses,
        upstream_path(Provider::OpenAiResponses) == "/responses"@,
        upstream_format(Provider::Anthropic) == UpstreamFormat::AnthropicMessages,
        upstream_path(Provider::Anthropic) == "/messages"@,
{
}

/// Of a key no more than its first six characters are shown.
pub proof fn little_of_keys_is_shown(key: Seq<char>, name: Seq<char>, value: Seq<char>)
    ensures
        key.len() >= 6 ==> shown_key(key) == key.take(6) + "..."@,
        shown_key(key).len() <= 9,
        sensitive(name) ==> shown_pair((name, value)) == name + "="@ + shown_key(value),
        !sensitive(name) ==> shown_pair((name, value)) == name + "="@ + value,
        sensitive(name) == sensitive(lower_text(name)),
        lower_text(name) == "key"@ || lower_text(name) == "api_key"@ || lower_text(name)
            == "apikey"@ || lower_text(name) == "access_token"@ || lower_text(name) == "token"@
            <==> sensitive(name),
{
    reveal_strlit("...");
    first_characters(key, 6);
    assert(lower_text(lower_text(name)) =~= lower_text(name));
    if key.len() == 6 {
        assert(key.take(6) =~= key);
    }
}

/// Where a request goes is shown whole but for its query, whose parameters are shown in order.
pub proof fn addresses_are_shown(
    base: Seq<char>,
    query: Seq<char>,
    method: Seq<char>,
    pairs: Seq<(Seq<char>, Seq<char>)>,
    pair: (Seq<char>, Seq<char>),
)
    requires
        !contains_text(base, "?"@),
    ensures
        shown_url(base) == base,
        shown_request(method, base, None) == method + " "@ + base,
        shown_request(method, base, Some(query)) == method + " "@ + base + "?"@ + shown_query(query),
        shown_query(query) == shown_pairs(form_pairs(query)),
        shown_pairs(Seq::empty()) == Seq::<char>::empty(),
        shown_pairs(seq![pair]) == shown_pair(pair),
        pairs.len() > 0 ==> shown_pairs(pairs.push(pair)) == shown_pairs(pairs) + "&"@ + shown_pair(
            pair,
        ),
{
    splits_at_the_first(base, "?"@);
    let shown = Seq::new(pairs.len(), |i: int| shown_pair(pairs[i]));
    let more = pairs.push(pair);
    let all = Seq::new(more.len(), |i: int| shown_pair(more[i]));
    assert(all =~= shown.push(shown_pair(pair)));
    assert(all.drop_last() =~= shown);
    let one = seq![pair];
    let single = Seq::new(one.len(), |i: int| shown_pair(one[i]));
    assert(single =~= seq![shown_pair(pair)]);
    let none = Seq::<(Seq<char>, Seq<char>)>::empty();
    assert(Seq::new(none.len(), |i: int| shown_pair(none[i])) =~= Seq::<Seq<char>>::empty());
}

/// Whether a request is refused with a status, for a reason of a type.
pub open spec fn refused_with(d: DecisionView, status: u16, error_type: Seq<char>) -> bool {
    d matches DecisionView::Fail { failure, .. } && failure.status == status && failure.error_type
        == error_type
}

/// A request that is let in is passed on to the provider that it names, or to the default one, with
/// the provider's key, at its address, and asks in the format of its path.
pub proof fn requests_are_decided(
    c: ConfigView,
    env: EnvView,
    method: Seq<char>,
    path: Seq<char>,
    query: Option<Seq<char>>,
    h: Headers,
    route: RouteView,
    name: Seq<char>,
    provider: ProviderView,
    key: Option<Seq<char>>,
)
    requires
        server_key(c, env) == Ok::<Option<Seq<char>>, ConfigErrorView>(None),
        request_route_of(path) == Some(route),
        provider_at(c, route.provider) == Ok::<
            (Seq<char>, ProviderView),
            ConfigErrorView,
        >((name, provider)),
        opt_expanded(provider.api_key, env) == Ok::<
            Option<Seq<char>>,
            ConfigErrorView,
        >(key),
    ensures
        route.input != InputFormat::Models && method == "POST"@ ==> (decision(
            c,
            env,
            method,
            path,
            query,
            h,
            false,
        ) matches DecisionView::Exchange { input, provider: asked, upstream, url, raw, .. } && input
            == route.input && asked.api_key == key && asked.base_url == provider.base_url
            && asked.provider_type == provider.provider_type && upstream == upstream_format(
            provider.provider_type,
        ) && url == request_address(
            provider.base_url,
            upstream_path(provider.provider_type),
            query,
        ) && raw == wants_raw(h, query)),
        route.input == InputFormat::Models && method == "GET"@ ==> (decision(
            c,
            env,
            method,
            path,
            query,
            h,
            false,
        ) matches DecisionView::Models { provider: asked, url, .. } && asked.api_key == key
            && asked.base_url == provider.base_url && asked.provider_type == provider.provider_type
            && url == request_address(provider.base_url, "/models"@, query)),
        route.input != InputFormat::Models && method != "POST"@ ==> refused_with(
            decision(c, env, method, path, query, h, false),
            405,
            "invalid_request_error"@,
        ),
        route.input == InputFormat::Models && method != "GET"@ ==> refused_with(
            decision(c, env, method, path, query, h, false),
            405,
            "invalid_request_error"@,
        ),
        route.input == InputFormat::OpenAiResponses && provider.provider_type
            == Provider::OpenAiResponses ==> decision(c, env, method, path, query, h, true) == (
        DecisionView::Socket { provider }),
        route.input == InputFormat::OpenAiResponses && provider.provider_type
            != Provider::OpenAiResponses ==> refused_with(
            decision(c, env, method, path, query, h, true),
            400,
            "invalid_request_error"@,
        ),
        route.input != InputFormat::OpenAiResponses ==> refused_with(
            decision(c, env, method, path, query, h, true),
            405,
            "invalid_request_error"@,
        ),
{
}

/// What requests are refused for, in this order: a key of the server that cannot be had, a key
/// that is not the server's, a path that is none, a provider that is none, and a key of the
/// provider that cannot be had.
pub proof fn requests_are_refused(
    c: ConfigView,
    env: EnvView,
    path: Seq<char>,
    query: Option<Seq<char>>,
    h: Headers,
)
    ensures
        server_key(c, env) is Err ==> refused_with(
            decision(c, env, "POST"@, path, query, h, false),
            500,
            "api_error"@,
        ),
        server_key(c, env) matches Ok(key) ==> (!authorized(key, h, query) ==> refused_with(
            decision(c, env, "POST"@, path, query, h, false),
            401,
            "authentication_error"@,
        )),
        server_key(c, env) matches Ok(key) ==> (authorized(key, h, query) && request_route_of(path)
            is None ==> decision(c, env, "POST"@, path, query, h, false) is UnknownRoute),
        server_key(c, env) matches Ok(key) ==> (authorized(key, h, query) ==> (request_route_of(
            path,
        ) matches Some(route) ==> (route.input != InputFormat::Models && provider_at(
            c,
            route.provider,
        ) is Err ==> refused_with(
            decision(c, env, "POST"@, path, query, h, false),
            404,
            "invalid_request_error"@,
        )))),
        server_key(c, env) matches Ok(key) ==> (authorized(key, h, query) ==> (request_route_of(
            path,
        ) matches Some(route) ==> (route.input != InputFormat::Models ==> (provider_at(
            c,
            route.provider,
        ) matches Ok((_, provider)) ==> (opt_expanded(provider.api_key, env) is Err
            ==> refused_with(
            decision(c, env, "POST"@, path, query, h, false),
            502,
            "api_error"@,
        )))))),
{
}

/// An error is told in the client's format with its message and type.
pub proof fn errors_are_told(message: Seq<char>, error_type: Seq<char>, input: InputFormat)
    ensures
        says(error_value(input, message, error_type).at("error"@), "message"@, message),
        says(error_value(input, message, error_type).at("error"@), "type"@, error_type),
        input == InputFormat::AnthropicMessages ==> says(
            error_value(input, message, error_type),
            "type"@,
            "error"@,
        ),
{
    reveal_strlit("error");
    reveal_strlit("type");
    reveal_strlit("message");
    reveal_strlit("param");
    reveal_strlit("code");
    assert("error"@.len() == 5 && "type"@.len() == 4 && "message"@.len() == 7 && "param"@.len() == 5
        && "code"@.len() == 4);
    assert("type"@[0] == 't' && "code"@[0] == 'c');
}

/// An error of a provider keeps its status, its message and its type.
pub proof fn errors_are_passed_on(
    status: u16,
    value: JsonView,
    body: Seq<u8>,
    message: Seq<char>,
    error_type: Seq<char>,
    what: Seq<char>,
)
    ensures
        failure_of(status, Ok(value), body).status == status,
        says(value.at("error"@), "message"@, message) ==> failure_of(status, Ok(value), body).message
            == message,
        says(value.at("error"@), "type"@, error_type) ==> failure_of(
            status,
            Ok(value),
            body,
        ).error_type == error_type,
        value.at("error"@) == JsonView::Null && says(value, "message"@, message) ==> failure_of(
            status,
            Ok(value),
            body,
        ).message == message,
        failure_of(status, Err(what), body).status == status,
        failure_of(status, Err(what), body).error_type == "api_error"@,
        vstd::utf8::valid_utf8(body) ==> failure_of(status, Err(what), body).message
            == vstd::utf8::decode_utf8(body),
{
}

/// A list of models that suits the client is passed on as it is; another is told as the client
/// has it; one that cannot be told is an error of the provider.
pub proof fn lists_of_models(value: JsonView, codex: bool, list: Seq<JsonView>, message: Seq<char>)
    ensures
        codex && value.at("models"@) == JsonView::Array(list) && value.field("data"@) is None
            ==> models_told(Ok(value), codex) is Native,
        !codex && value.at("data"@) == JsonView::Array(list) && value.field("models"@) is None
            ==> models_told(Ok(value), codex) is Native,
        models_told(Ok(value), codex) matches ModelsAnswerView::Converted(body) ==> (client_models(
            value,
            codex,
        ) matches Ok(told) && body == encode_utf8(value_text(told))),
        models_told(Ok(value), codex) matches ModelsAnswerView::Fail(f) ==> f.status == 502
            && client_models(value, codex) == Err::<JsonView, Seq<char>>(f.message),
        models_told(Err(message), codex) == ModelsAnswerView::Fail(
            FailureView { status: 502, message, error_type: "api_error"@ },
        ),
{
}

/// A body that a client sends is read in the client's format, and what is wrong with it is the
/// client's fault.
pub proof fn bodies_of_clients(value: JsonView, input: InputFormat, message: Seq<char>)
    ensures
        input == InputFormat::OpenAiChat ==> (client_value_read(input, Ok(value)) matches Ok(r)
            ==> chat_request_of(value) == Ok::<RequestView, ErrorView>(r)),
        input == InputFormat::OpenAiResponses ==> (client_value_read(input, Ok(value)) matches Ok(r)
            ==> responses_request_of(value) == Ok::<RequestView, ErrorView>(r)),
        input == InputFormat::AnthropicMessages ==> (client_value_read(input, Ok(value)) matches Ok(
            r,
        ) ==> anthropic_request_of(value) == Ok::<RequestView, ErrorView>(r)),
        client_value_read(input, Ok(value)) matches Err(ConvertErrorView::Failed(f)) ==> f.status
            == 400 && f.error_type == "invalid_request_error"@,
        client_value_read(input, Err(message)) == Err::<RequestView, ConvertErrorView>(
            ConvertErrorView::Failed(
                FailureView { status: 400, message, error_type: "invalid_request_error"@ },
            ),
        ),
{
}

/// What is wrong with a provider's answer is the provider's fault, and so is what of a request
/// cannot be written, unless the provider's format has no place for it.
pub proof fn faults_of_providers(
    upstream: UpstreamFormat,
    input: InputFormat,
    request: RequestView,
    response: ResponseView,
    value: Result<JsonView, Seq<char>>,
    ids: IdsView,
    created: i64,
)
    ensures
        upstream_value_read(upstream, value) matches Err(ConvertErrorView::Failed(f)) ==> f.status
            == 502 && f.error_type == "api_error"@,
        client_body_written(input, response, ids, created) matches Err(ConvertErrorView::Failed(f))
            ==> f.status == 502 && f.error_type == "api_error"@,
        upstream_body_written(upstream, request, ids) matches Err(ConvertErrorView::Failed(f)) ==> (
        f.status == 400 && f.error_type == "invalid_request_error"@ || f.status == 502
            && f.error_type == "api_error"@),
        upstream_body_written(UpstreamFormat::OpenAiChat, request, ids) matches Ok(body) ==> (
        chat_request_value(request, ids) matches Ok(v) && body == encode_utf8(value_text(v))),
        client_body_written(InputFormat::OpenAiChat, response, ids, created) matches Ok(body) ==> (
        chat_response_value(response, ids, created) matches Ok(v) && body == encode_utf8(
            value_text(v),
        )),
{
}

/// Each format is read and written as itself.
pub proof fn formats_are_kept_apart(
    value: JsonView,
    request: RequestView,
    response: ResponseView,
    ids: IdsView,
    now: i64,
    event: SseView,
    s: StateView,
)
    ensures
        upstream_request_value(UpstreamFormat::OpenAiChat, request, ids) == chat_request_value(
            request,
            ids,
        ),
        upstream_request_value(UpstreamFormat::OpenAiResponses, request, ids)
            == responses_request_value(request, ids),
        upstream_request_value(UpstreamFormat::AnthropicMessages, request, ids)
            == anthropic_request_value(request, ids),
        upstream_response_of(UpstreamFormat::OpenAiChat, value) == chat_response_of(value),
        upstream_response_of(UpstreamFormat::OpenAiResponses, value) == responses_response_of(value),
        upstream_response_of(UpstreamFormat::AnthropicMessages, value) == Ok::<
            ResponseView,
            ErrorView,
        >(anthropic_response_of(value)),
        client_response_value(InputFormat::OpenAiChat, response, ids, now) == chat_response_value(
            response,
            ids,
            now,
        ),
        client_response_value(InputFormat::OpenAiResponses, response, ids, now)
            == responses_response_value(response, ids, now),
        client_response_value(InputFormat::AnthropicMessages, response, ids, now)
            == anthropic_response_value(response, ids),
        upstream_event_read(UpstreamFormat::OpenAiChat, event, s) == chat_event_read(event.data, s),
        upstream_event_read(UpstreamFormat::OpenAiResponses, event, s) == responses_event_read(
            event,
            s,
        ),
        upstream_event_read(UpstreamFormat::AnthropicMessages, event, s) == anthropic_event_read(
            event,
            s,
        ),
        client_write_step(InputFormat::OpenAiChat, now) == chat_write_step(now),
        client_write_step(InputFormat::OpenAiResponses, now) == responses_write_step(now),
        client_write_step(InputFormat::AnthropicMessages, now) == anthropic_write_step(),
{
}

/// An event of a provider's stream is told to the client as the events that it is read as, one
/// after another; what cannot be read or written is told as an error, and ends the stream.
pub proof fn events_are_passed_on(c: ConverterView, done: Seq<SseView>, event: SseView, draw: Draw)
    ensures
        ({
            let (source, read) = upstream_event_read(c.upstream, event, c.source);
            let (after, out) = c.advance(done, event, draw);
            &&& after.source == source
            &&& after.input == c.input && after.upstream == c.upstream && after.buffer == c.buffer
            &&& read matches Ok(events) ==> {
                let (target, sent) = written(
                    events,
                    draw.ids,
                    c.target,
                    client_write_step(c.input, draw.created),
                );
                sent matches Ok(more) ==> out.events == done + more && out.next is More
                    && after.target == target
            }
            &&& done.is_prefix_of(out.events)
            &&& read is Err ==> !(out.next is More)
        }),
{
    reveal(ConverterView::step);
    let (after, out) = c.advance(done, event, draw);
    assert(out.events.subrange(0, done.len() as int) =~= done);
}

} // verus!
