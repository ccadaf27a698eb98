//! What holds of whole exchanges: bodies and streams that are converted, and what is told of them.

use super::convert::{
    client_request_of, client_response_value, request_converted, response_converted,
    upstream_request_value, upstream_response_of, ConvertErrorView,
};
use super::decide::socket_error;
use super::forward::with_returned;
use super::laws::is_told;
use super::reply::{failure_of, models_answered, models_told, too_large, upstream_failure};
use super::stream::{client_write_step, ConverterView, Draw, Next, OutputView};
use crate::adapters::error::{error_message, ErrorView};
use crate::adapters::fresh::{no_ids, IdsView};
use crate::adapters::sse::{finished, pushed, SseView};
use crate::adapters::stream::written;
use crate::config::{config_error_message, var_error_message, ConfigErrorView, VarErrorView};
use crate::headers::{header_text_of, Headers};
use crate::json::JsonView;
use crate::model::{no_fields, EventView, RequestView, ResponseView};
use crate::models::codex_client;
use crate::protocol::{InputFormat, UpstreamFormat};
use crate::query::form_pairs;
use crate::text::{decimal_text, lower_text};
use crate::wire::{bytes_value, value_text};
use vstd::prelude::*;
use vstd::utf8::encode_utf8;

verus! {

/// A request that can be read in the client's format and written in the provider's is sent as that
/// writing.
pub proof fn requests_are_converted(
    input: InputFormat,
    upstream: UpstreamFormat,
    body: Seq<u8>,
    ids: IdsView,
    value: JsonView,
    request: RequestView,
    out: JsonView,
)
    requires
        bytes_value(body) == Ok::<JsonView, Seq<char>>(value),
        client_request_of(input, value) == Ok::<RequestView, ErrorView>(request),
        upstream_request_value(upstream, request, ids) == Ok::<JsonView, ErrorView>(out),
    ensures
        request_converted(input, upstream, body, ids) == Ok::<Seq<u8>, ConvertErrorView>(
            encode_utf8(value_text(out)),
        ),
{
}

/// A request that cannot be read is refused as the client's fault; one for which the provider's
/// format has no place as well.
pub proof fn requests_cannot_be_converted(
    input: InputFormat,
    upstream: UpstreamFormat,
    body: Seq<u8>,
    ids: IdsView,
    message: Seq<char>,
    value: JsonView,
    request: RequestView,
    what: Seq<char>,
)
    ensures
        bytes_value(body) == Err::<JsonView, Seq<char>>(message) ==> (request_converted(
            input,
            upstream,
            body,
            ids,
        ) matches Err(ConvertErrorView::Failed(f)) && f.status == 400 && f.message == message),
        bytes_value(body) == Ok::<JsonView, Seq<char>>(value) && client_request_of(input, value)
            == Err::<RequestView, ErrorView>(ErrorView::MissingField(what)) ==> (request_converted(
            input,
            upstream,
            body,
            ids,
        ) matches Err(ConvertErrorView::Failed(f)) && f.status == 400 && f.message == error_message(
            ErrorView::MissingField(what),
        )),
        bytes_value(body) == Ok::<JsonView, Seq<char>>(value) && client_request_of(input, value)
            == Ok::<RequestView, ErrorView>(request) && upstream_request_value(
            upstream,
            request,
            ids,
        ) == Err::<JsonView, ErrorView>(ErrorView::Unsupported(what)) ==> (request_converted(
            input,
            upstream,
            body,
            ids,
        ) matches Err(ConvertErrorView::Failed(f)) && f.status == 400 && f.message == error_message(
            ErrorView::Unsupported(what),
        )),
{
}

/// An answer that can be read in the provider's format and written in the client's is told as that
/// writing.
pub proof fn answers_are_converted(
    input: InputFormat,
    upstream: UpstreamFormat,
    body: Seq<u8>,
    ids: IdsView,
    created: i64,
    value: JsonView,
    response: ResponseView,
    out: JsonView,
)
    requires
        bytes_value(body) == Ok::<JsonView, Seq<char>>(value),
        upstream_response_of(upstream, value) == Ok::<ResponseView, ErrorView>(response),
        client_response_value(input, response, ids, created) == Ok::<JsonView, ErrorView>(out),
    ensures
        response_converted(input, upstream, body, ids, created) == Ok::<
            Seq<u8>,
            ConvertErrorView,
        >(encode_utf8(value_text(out))),
{
}

/// What went wrong with a stream is told to the client as an error, after what was told before,
/// and the stream is done.
pub proof fn failures_end_streams(
    c: ConverterView,
    events: Seq<SseView>,
    message: Seq<char>,
    created: i64,
)
    ensures
        ({
            let (after, out) = c.fail(events, message, created);
            let (target, told) = written(
                seq![EventView::Error { message, metadata: no_fields() }],
                no_ids(),
                c.target,
                client_write_step(c.input, created),
            );
            &&& out.next is Done
            &&& told matches Ok(more) ==> out.events == events + more && after.target == target
            &&& after.source == c.source
        }),
{
}

/// A stream that ends where its provider ended it is done; one that ends before that is told to
/// have failed.
pub proof fn streams_end(c: ConverterView, created: i64)
    requires
        c.buffer.len() == 0,
    ensures
        c.source.ended ==> c.finished(Seq::empty(), created).1 == (OutputView {
            events: Seq::empty(),
            next: Next::Done,
        }),
        !c.source.ended ==> c.finished(Seq::empty(), created) == (ConverterView {
            buffer: Seq::empty(),
            ..c
        }).fail(
            Seq::empty(),
            "upstream stream ended before a terminal event"@,
            created,
        ),
{
    assert(c.buffer =~= Seq::<u8>::empty());
    reveal_with_fuel(ConverterView::run, 2);
}

/// Bytes that complete no event are kept, and nothing is told.
pub proof fn incomplete_events_wait(c: ConverterView, chunk: Seq<u8>, created: i64)
    requires
        pushed(c.buffer + chunk) == (c.buffer + chunk, Ok::<Seq<SseView>, ErrorView>(Seq::empty())),
    ensures
        c.pushed(chunk, Seq::empty(), created) == (
            ConverterView { buffer: c.buffer + chunk, ..c },
            OutputView { events: Seq::empty(), next: Next::More },
        ),
{
}

/// Each event of a stream is told after those before it.
pub proof fn one_more_event(
    c: ConverterView,
    events: Seq<SseView>,
    draws: Seq<Draw>,
    event: SseView,
    draw: Draw,
)
    ensures
        c.run(Seq::empty(), Seq::empty()) == (
            c,
            OutputView { events: Seq::empty(), next: Next::More },
        ),
        c.run(events, draws).1.next is More ==> c.run(events.push(event), draws.push(draw))
            == c.run(events, draws).0.advance(c.run(events, draws).1.events, event, draw),
        !(c.run(events, draws).1.next is More) ==> c.run(events.push(event), draws.push(draw))
            == c.run(events, draws),
{
    assert(events.push(event).drop_last() =~= events);
    assert(draws.push(draw).drop_last() =~= draws);
}

/// A client is told no other headers of a provider than those that concern it.
pub proof fn other_headers_stay_behind(
    target: Headers,
    source: Headers,
    with_body: bool,
    name: Seq<char>,
)
    requires
        !is_told(name),
        !"x-ratelimit-"@.is_prefix_of(name),
        with_body ==> name != "content-type"@ && name != "etag"@,
    ensures
        with_returned(target, source, with_body).contains_key(name) == target.contains_key(name),
        target.contains_key(name) ==> with_returned(target, source, with_body)[name]
            == target[name],
{
}

/// A client is Codex where its query names a version of it, or where it says so itself.
pub proof fn who_is_codex(h: Headers, query: Seq<char>, version: Seq<char>, agent: Seq<char>)
    ensures
        version.len() > 0 && form_pairs(query).contains(("client_version"@, version))
            ==> codex_client(h, Some(query)),
        header_text_of(h, "user-agent"@) == Some(agent) && "codex"@.is_prefix_of(lower_text(agent))
            ==> codex_client(h, Some(query)) && codex_client(h, None),
        header_text_of(h, "user-agent"@) == Some(agent) && !"codex"@.is_prefix_of(lower_text(agent))
            ==> !codex_client(h, None),
        header_text_of(h, "user-agent"@) is None ==> !codex_client(h, None),
        header_text_of(h, "user-agent"@) is None && (forall|i: int|
            0 <= i < form_pairs(query).len() && (#[trigger] form_pairs(query)[i]).0
                == "client_version"@ ==> form_pairs(query)[i].1.len() == 0) ==> !codex_client(
            h,
            Some(query),
        ),
{
    let pairs = form_pairs(query);
    if version.len() > 0 && pairs.contains(("client_version"@, version)) {
        let i = choose|i: int| 0 <= i < pairs.len() && pairs[i] == ("client_version"@, version);
        assert(pairs[i].0 == "client_version"@);
    }
}

/// A failed answer keeps its status; what it says is read from its body.
pub proof fn failed_answers(status: u16, body: Seq<u8>, codex: bool)
    ensures
        upstream_failure(status, body) == failure_of(status, bytes_value(body), body),
        upstream_failure(status, body).status == status,
        models_answered(body, codex) == models_told(bytes_value(body), codex),
{
}

/// What an error says names what it is about.
pub proof fn errors_name_their_cause(name: Seq<char>, limit: usize, source: VarErrorView)
    ensures
        name.is_suffix_of(config_error_message(ConfigErrorView::ProviderNotFound(name))),
        name.is_suffix_of(config_error_message(ConfigErrorView::ProviderAlreadyExists(name))),
        name.is_suffix_of(config_error_message(ConfigErrorView::DefaultProviderNotFound(name))),
        name.is_suffix_of(config_error_message(ConfigErrorView::InvalidProviderName(name))),
        name.is_suffix_of(config_error_message(ConfigErrorView::UnsupportedExtension(name))),
        name.is_suffix_of(config_error_message(ConfigErrorView::UnknownProviderType(name))),
        name.is_suffix_of(config_error_message(ConfigErrorView::Yaml(name))),
        name.is_suffix_of(config_error_message(ConfigErrorView::Toml(name))),
        name.is_suffix_of(config_error_message(ConfigErrorView::Json(name))),
        config_error_message(ConfigErrorView::EnvVar { name, source })
            == "expand environment variable "@ + name + ": "@ + var_error_message(source),
        too_large(limit) == "upstream response body exceeds "@ + decimal_text(limit as nat)
            + " bytes"@,
        socket_error(name) == "{\"error\":\""@ + name + "\"}"@,
{
    ends_with_name("provider not found: "@, name);
    ends_with_name("provider already exists: "@, name);
    ends_with_name("default provider is not configured: "@, name);
    ends_with_name("invalid provider name: "@, name);
    ends_with_name("unsupported config extension: "@, name);
    ends_with_name("unknown provider type: "@, name);
    ends_with_name("parse yaml config: "@, name);
    ends_with_name("parse toml config: "@, name);
    ends_with_name("json config: "@, name);
}

proof fn ends_with_name(words: Seq<char>, name: Seq<char>)
    ensures
        name.is_suffix_of(words + name),
{
    let all = words + name;
    assert(all.subrange(all.len() - name.len(), all.len() as int) =~= name);
}

} // verus!
