//! Headers: what a provider is sent, and what a client is sent back.

use crate::auth::{
    apply_api_key, apply_protocol_headers, bearer_is_plain, copy_header, extract_api_key,
    keys_are_not_forwarded, only_forwarded_headers, room_after_key, room_after_protocol_headers,
    sent_key, with_copy, with_key, with_protocol_headers,
};
use crate::config::Provider;
use crate::headers::{
    append_header, get_header_text, has_room, header_at, header_content, header_text_of,
    insert_header, known_headers, list_headers, lists_headers, new_headers, no_headers, plain,
    plain_value, room_within, values_under, with_value, Headers,
};
use crate::query::{any_pair, form_pairs, has_pair, parse_pairs};
use crate::text::{contains, contains_text, opt_str, or_text, same, starts_with};
use axum::http::HeaderMap;
use vstd::prelude::*;
use vstd::utf8::encode_utf8;

verus! {

/// Whether a client asks for the provider's answer as it is: by a header, or by a parameter.
pub open spec fn wants_raw(h: Headers, query: Option<Seq<char>>) -> bool {
    ||| header_text_of(h, "x-llmapi-response-mode"@) == Some("upstream_raw"@)
    ||| (query matches Some(q) && has_pair(
        form_pairs(q),
        "llmapi_response_mode"@,
        Some("upstream_raw"@),
    ))
}

/// Whether a client asks for the provider's answer as it is.
pub fn wants_upstream_raw(query: Option<&str>, headers: &HeaderMap) -> (r: bool)
    ensures
        r == wants_raw(header_content(*headers), opt_str(query)),
{
    proof {
        known_headers();
    }
    if let Some(mode) = get_header_text(headers, "x-llmapi-response-mode") {
        if same(mode.as_str(), "upstream_raw") {
            return true;
        }
    }
    match query {
        Some(query) => any_pair(
            &parse_pairs(query),
            "llmapi_response_mode",
            Some("upstream_raw"),
        ),
        None => false,
    }
}

/// What a provider's answer is.
#[derive(Debug, Clone, Copy, PartialEq, Eq, Structural)]
pub enum Answer {
    /// An error.
    Failed,
    /// A stream of events.
    Events,
    /// One body.
    Whole,
}

/// What a provider's answer is, by its status and headers.
pub open spec fn answer_of(status: u16, headers: Headers) -> Answer {
    if !(200 <= status < 300) {
        Answer::Failed
    } else if contains_text(
        or_text(header_text_of(headers, "content-type"@), ""@),
        "text/event-stream"@,
    ) {
        Answer::Events
    } else {
        Answer::Whole
    }
}

/// What a provider's answer is, by its status and headers.
pub fn answer_kind(status: u16, headers: &HeaderMap) -> (r: Answer)
    ensures
        r == answer_of(status, header_content(*headers)),
{
    if status < 200 || status >= 300 {
        return Answer::Failed;
    }
    proof {
        known_headers();
    }
    let kind = match get_header_text(headers, "content-type") {
        Some(kind) => kind,
        None => "".to_owned(),
    };
    if contains(kind.as_str(), "text/event-stream") {
        Answer::Events
    } else {
        Answer::Whole
    }
}

/// The key of a client that may be sent on: none, where it is that of the proxy.
pub open spec fn client_key(server_open: bool, source: Headers, query: Option<Seq<char>>) -> Option<
    Seq<char>,
> {
    if server_open {
        sent_key(source, query)
    } else {
        None
    }
}

/// The headers of a request to a provider. The key of the provider goes before that of the
/// client, which is sent on only where the proxy itself has none.
pub open spec fn request_headers(
    server_open: bool,
    provider: Provider,
    key: Option<Seq<char>>,
    get: bool,
    source: Headers,
    query: Option<Seq<char>>,
) -> Headers {
    let h = with_protocol_headers(
        with_key(no_headers(), provider, key, client_key(server_open, source, query)),
        provider,
        source,
    );
    if get {
        with_copy(h, source, "if-none-match"@)
    } else {
        h
    }
}

/// The headers of a request to a provider.
pub fn upstream_headers(
    server_open: bool,
    provider: Provider,
    key: Option<&str>,
    get: bool,
    source: &HeaderMap,
    query: Option<&str>,
) -> (r: HeaderMap)
    ensures
        header_content(r) == request_headers(
            server_open,
            provider,
            opt_str(key),
            get,
            header_content(*source),
            opt_str(query),
        ),
{
    let extracted = if server_open {
        extract_api_key(source, query)
    } else {
        None
    };
    let mut headers = new_headers();
    let ghost none = no_headers();
    let ghost sent = crate::text::opt_text(extracted);
    assert(none.dom() =~= Set::empty());
    proof {
        known_headers();
        room_after_key(none, provider, opt_str(key), sent, 7);
        room_after_protocol_headers(
            with_key(none, provider, opt_str(key), sent),
            provider,
            header_content(*source),
            1,
        );
    }
    let keyed = apply_api_key(&mut headers, provider, key, crate::text::borrow(&extracted));
    assert(keyed);
    let set = apply_protocol_headers(&mut headers, provider, source);
    assert(set);
    if get {
        let copied = copy_header(&mut headers, source, "if-none-match");
        assert(copied);
    }
    headers
}

/// Where the proxy has a key of its own and the provider has none, nothing that a client sends as
/// a key goes to the provider.
pub proof fn client_key_stays(
    provider: Provider,
    get: bool,
    source: Headers,
    query: Option<Seq<char>>,
)
    ensures
        ({
            let h = request_headers(false, provider, None, get, source, query);
            &&& !h.contains_key("authorization"@)
            &&& !h.contains_key("x-api-key"@)
            &&& !h.contains_key("api-key"@)
        }),
{
    let h = no_headers();
    keys_are_not_forwarded(provider);
    only_forwarded_headers(h, provider, source, "authorization"@);
    only_forwarded_headers(h, provider, source, "x-api-key"@);
    only_forwarded_headers(h, provider, source, "api-key"@);
    reveal_strlit("authorization");
    reveal_strlit("x-api-key");
    reveal_strlit("api-key");
    reveal_strlit("if-none-match");
    assert("if-none-match"@.len() == 13 && "authorization"@.len() == 13);
    assert("if-none-match"@[0] != "authorization"@[0]);
    assert("x-api-key"@.len() == 9 && "api-key"@.len() == 7);
}

/// The key of the provider is what it is sent, whatever a client sends.
pub proof fn provider_key_is_sent(
    server_open: bool,
    provider: Provider,
    key: Seq<char>,
    get: bool,
    source: Headers,
    query: Option<Seq<char>>,
)
    requires
        plain(key),
    ensures
        ({
            let h = request_headers(server_open, provider, Some(key), get, source, query);
            match provider {
                Provider::Anthropic => h.contains_key("x-api-key"@) && h["x-api-key"@]
                    == seq![encode_utf8(key)],
                _ => h.contains_key("authorization"@) && h["authorization"@] == seq![
                    encode_utf8("Bearer "@ + key),
                ],
            }
        }),
{
    plain_value(key);
    bearer_is_plain(key);
    plain_value("Bearer "@ + key);
    let h = with_key(no_headers(), provider, Some(key), client_key(server_open, source, query));
    keys_are_not_forwarded(provider);
    only_forwarded_headers(h, provider, source, "authorization"@);
    only_forwarded_headers(h, provider, source, "x-api-key"@);
    reveal_strlit("authorization");
    reveal_strlit("x-api-key");
    reveal_strlit("if-none-match");
    assert("if-none-match"@.len() == 13 && "authorization"@.len() == 13);
    assert("if-none-match"@[0] != "authorization"@[0]);
    assert("x-api-key"@.len() == 9);
}

/// Whether a header of the provider's answer says something of the request, not of the body.
pub open spec fn metadata_header(name: Seq<char>) -> bool {
    name == "cache-control"@ || name == "vary"@ || name == "retry-after"@ || name
        == "x-request-id"@ || name == "request-id"@ || name == "anthropic-request-id"@ || name
        == "openai-processing-ms"@ || "x-ratelimit-"@.is_prefix_of(name)
}

/// Whether a header of the provider's answer is sent back: one that says something of the request
/// or, with the body as it is, of the body.
pub open spec fn kept_header(name: Seq<char>, with_body: bool) -> bool {
    metadata_header(name) || (with_body && (name == "content-type"@ || name == "etag"@))
}

fn is_kept_header(name: &str, with_body: bool) -> (r: bool)
    ensures
        r == kept_header(name@, with_body),
{
    same(name, "cache-control") || same(name, "vary") || same(name, "retry-after") || same(
        name,
        "x-request-id",
    ) || same(name, "request-id") || same(name, "anthropic-request-id") || same(
        name,
        "openai-processing-ms",
    ) || starts_with(name, "x-ratelimit-") || (with_body && (same(name, "content-type") || same(
        name,
        "etag",
    )))
}

/// The headers of the provider's answer that are sent back, each with its last value.
pub open spec fn returned_headers(source: Headers, with_body: bool) -> Headers {
    Map::new(
        |name: Seq<char>| source.contains_key(name) && kept_header(name, with_body),
        |name: Seq<char>| seq![source[name].last()],
    )
}

/// The headers with those of the provider's answer that are sent back.
pub open spec fn with_returned(target: Headers, source: Headers, with_body: bool) -> Headers {
    target.union_prefer_right(returned_headers(source, with_body))
}

spec fn picked(s: Seq<(String, Vec<u8>)>, with_body: bool) -> Headers
    decreases s.len(),
{
    if s.len() == 0 {
        no_headers()
    } else {
        let front = picked(s.drop_last(), with_body);
        if kept_header(s.last().0@, with_body) {
            front.insert(s.last().0@, seq![s.last().1@])
        } else {
            front
        }
    }
}

proof fn picked_is(s: Seq<(String, Vec<u8>)>, with_body: bool, name: Seq<char>)
    ensures
        picked(s, with_body).contains_key(name) <==> kept_header(name, with_body) && values_under(
            s,
            name,
        ).len() > 0,
        picked(s, with_body).contains_key(name) ==> picked(s, with_body)[name] == seq![
            values_under(s, name).last(),
        ],
    decreases s.len(),
{
    if s.len() > 0 {
        picked_is(s.drop_last(), with_body, name);
    }
}

proof fn picked_all(s: Seq<(String, Vec<u8>)>, source: Headers, with_body: bool)
    requires
        lists_headers(s, source),
    ensures
        picked(s, with_body) == returned_headers(source, with_body),
{
    let r = returned_headers(source, with_body);
    assert forall|name: Seq<char>| #[trigger] picked(s, with_body).contains_key(name)
        == r.contains_key(name) by {
        picked_is(s, with_body, name);
        if !source.contains_key(name) {
            none_under(s, source, name);
        }
    }
    assert forall|name: Seq<char>| #[trigger] picked(s, with_body).contains_key(name) implies picked(
        s,
        with_body,
    )[name] == r[name] by {
        picked_is(s, with_body, name);
        assert(values_under(s, name) == source[name]);
    }
    assert(picked(s, with_body) =~= r);
}

proof fn none_under(s: Seq<(String, Vec<u8>)>, source: Headers, name: Seq<char>)
    requires
        forall|i: int| 0 <= i < s.len() ==> source.contains_key((#[trigger] s[i]).0@),
        !source.contains_key(name),
    ensures
        values_under(s, name).len() == 0,
    decreases s.len(),
{
    if s.len() > 0 {
        assert(source.contains_key(s[s.len() - 1].0@));
        assert forall|i: int| 0 <= i < s.drop_last().len() implies source.contains_key(
            (#[trigger] s.drop_last()[i]).0@,
        ) by {
            assert(source.contains_key(s[i].0@));
        }
        none_under(s.drop_last(), source, name);
    }
}

/// Whether a header is as it was, or has one of the values that are sent back.
pub open spec fn same_or_copied(
    before: Headers,
    after: Headers,
    source: Headers,
    with_body: bool,
    name: Seq<char>,
) -> bool {
    ||| header_at(after, name) == header_at(before, name)
    ||| kept_header(name, with_body) && source.contains_key(name) && exists|i: int|
        0 <= i < source[name].len() && header_at(after, name) == Some(
            seq![#[trigger] source[name][i]],
        )
}

/// Whether each header is as it was, or has one of the values that are sent back.
pub open spec fn part_copied(before: Headers, after: Headers, source: Headers, with_body: bool)
    -> bool {
    forall|name: Seq<char>| #[trigger] same_or_copied(before, after, source, with_body, name)
}

/// What is under a name in the first of a list is the first of what is under it.
proof fn values_of_first(s: Seq<(String, Vec<u8>)>, name: Seq<char>, n: int)
    requires
        0 <= n <= s.len(),
    ensures
        values_under(s.take(n), name).is_prefix_of(values_under(s, name)),
    decreases s.len() - n,
{
    if n == s.len() {
        assert(s.take(n) =~= s);
    } else {
        values_of_first(s, name, n + 1);
        assert(s.take(n + 1).drop_last() =~= s.take(n));
    }
}

/// What is picked from the first of a list is among what is sent back.
proof fn picked_within(
    s: Seq<(String, Vec<u8>)>,
    source: Headers,
    with_body: bool,
    start: Headers,
    n: int,
)
    requires
        lists_headers(s, source),
        0 <= n <= s.len(),
    ensures
        ({
            let now = start.union_prefer_right(picked(s.take(n), with_body));
            &&& now.dom().subset_of(with_returned(start, source, with_body).dom())
            &&& part_copied(start, now, source, with_body)
        }),
{
    let some = picked(s.take(n), with_body);
    let now = start.union_prefer_right(some);
    assert forall|name: Seq<char>| #[trigger] some.contains_key(name) implies source.contains_key(
        name,
    ) && kept_header(name, with_body) by {
        picked_is(s.take(n), with_body, name);
        if !source.contains_key(name) {
            assert forall|i: int| 0 <= i < s.take(n).len() implies source.contains_key(
                (#[trigger] s.take(n)[i]).0@,
            ) by {
                assert(source.contains_key(s[i].0@));
            }
            none_under(s.take(n), source, name);
        }
    }
    assert forall|name: Seq<char>| now.dom().contains(name) implies with_returned(
        start,
        source,
        with_body,
    ).dom().contains(name) by {
        if some.contains_key(name) {
            assert(returned_headers(source, with_body).contains_key(name));
        }
    }
    assert forall|name: Seq<char>| #[trigger]
        same_or_copied(start, now, source, with_body, name) by {
        if some.contains_key(name) {
            picked_is(s.take(n), with_body, name);
            values_of_first(s, name, n);
            let values = values_under(s.take(n), name);
            assert(values_under(s, name) == source[name]);
            assert(values.last() == source[name][values.len() - 1]);
            assert(header_at(now, name) == Some(seq![source[name][values.len() - 1]]));
        }
    }
}

/// Whether each header has a value.
spec fn have_values(h: Headers) -> bool {
    forall|name: Seq<char>| #[trigger] h.contains_key(name) ==> h[name].len() > 0
}

/// What a copy of headers leaves: all the copies or, where the map refuses to grow, some of them.
/// It does not refuse while there is room.
pub open spec fn copied(
    before: Headers,
    after: Headers,
    wanted: Headers,
    source: Headers,
    with_body: bool,
    r: bool,
) -> bool {
    &&& r ==> after == wanted
    &&& !r ==> part_copied(before, after, source, with_body)
    &&& has_room(wanted, 1) ==> r
}

fn copy_kept(source: &HeaderMap, target: &mut HeaderMap, with_body: bool) -> (r: bool)
    ensures
        copied(
            header_content(*old(target)),
            header_content(*final(target)),
            with_returned(header_content(*old(target)), header_content(*source), with_body),
            header_content(*source),
            with_body,
            r,
        ),
        part_copied(
            header_content(*old(target)),
            header_content(*final(target)),
            header_content(*source),
            with_body,
        ),
        have_values(header_content(*source)),
{
    let list = list_headers(source);
    let ghost start = header_content(*target);
    let ghost from = header_content(*source);
    let ghost s = list@;
    let mut i: usize = 0;
    assert(start.union_prefer_right(picked(s.take(0), with_body)) =~= start);
    assert(have_values(from)) by {
        assert forall|name: Seq<char>| #[trigger] from.contains_key(name) implies from[name].len()
            > 0 by {
            assert(values_under(s, name) == from[name]);
        }
    }
    while i < list.len()
        invariant
            s == list@,
            start == header_content(*old(target)),
            from == header_content(*source),
            have_values(from),
            lists_headers(s, from),
            i <= s.len(),
            header_content(*target) == start.union_prefer_right(
                picked(s.take(i as int), with_body),
            ),
        decreases s.len() - i,
    {
        proof {
            assert(s.take(i + 1).drop_last() =~= s.take(i as int));
            assert(from.contains_key(s[i as int].0@));
        }
        let ghost before = picked(s.take(i as int), with_body);
        let name = list[i].0.as_str();
        if is_kept_header(name, with_body) {
            if !insert_header(target, name, list[i].1.as_slice()) {
                proof {
                    picked_within(s, from, with_body, start, i as int);
                    let all = with_returned(start, from, with_body);
                    if has_room(all, 1) {
                        room_within(header_content(*target), all, 1);
                    }
                }
                return false;
            }
            assert(header_content(*target) =~= start.union_prefer_right(
                before.insert(name@, seq![list@[i as int].1@]),
            ));
        }
        i = i + 1;
    }
    assert(s.take(i as int) =~= s);
    proof {
        picked_all(s, from, with_body);
        picked_within(s, from, with_body, start, i as int);
    }
    true
}

/// Sends the headers of the provider's answer back that go with its body as it is, as far as the
/// map has room for them.
pub fn copy_response_headers(source: &HeaderMap, target: &mut HeaderMap) -> (r: bool)
    ensures
        copied(
            header_content(*old(target)),
            header_content(*final(target)),
            with_returned(header_content(*old(target)), header_content(*source), true),
            header_content(*source),
            true,
            r,
        ),
{
    copy_kept(source, target, true)
}

/// Sends the headers of the provider's answer back that say something of the request, as far as
/// the map has room for them.
pub fn copy_response_metadata_headers(source: &HeaderMap, target: &mut HeaderMap) -> (r: bool)
    ensures
        copied(
            header_content(*old(target)),
            header_content(*final(target)),
            with_returned(header_content(*old(target)), header_content(*source), false),
            header_content(*source),
            false,
            r,
        ),
{
    copy_kept(source, target, false)
}

proof fn agent_is_plain()
    ensures
        plain("User-Agent"@),
{
    reveal_strlit("User-Agent");
    let s = "User-Agent"@;
    assert forall|i: int| 0 <= i < s.len() implies ' ' <= #[trigger] s[i] && s[i] <= '~' by {
        assert(i == 0 || i == 1 || i == 2 || i == 3 || i == 4 || i == 5 || i == 6 || i == 7 || i
            == 8 || i == 9);
    }
}

/// The headers, which now say that the answer depends on the client's name.
pub open spec fn varying(h: Headers) -> Headers {
    with_value(h, "vary"@, encode_utf8("User-Agent"@))
}

/// Says that the answer depends on the client's name, unless the map has no room for it.
pub fn vary_by_agent(headers: &mut HeaderMap) -> (r: bool)
    ensures
        r ==> header_content(*final(headers)) == varying(header_content(*old(headers))),
        !r ==> header_content(*final(headers)) == header_content(*old(headers)),
        has_room(header_content(*old(headers)), 1) ==> r,
{
    proof {
        known_headers();
        agent_is_plain();
        plain_value("User-Agent"@);
    }
    append_header(headers, "vary", "User-Agent".as_bytes())
}

/// The headers of a list of models: those that say something of the request, the tag where the
/// list is as the provider sent it, and that the answer depends on the client's name.
pub open spec fn models_headers(target: Headers, source: Headers, native: bool) -> Headers {
    let h = with_returned(target, source, false);
    varying(
        if native {
            with_copy(h, source, "etag"@)
        } else {
            h
        },
    )
}

/// A copy of the tag is one of the values that are sent back.
proof fn tag_copied(before: Headers, h: Headers, source: Headers)
    requires
        part_copied(before, h, source, false),
        have_values(source),
    ensures
        part_copied(before, h, source, true),
        part_copied(before, with_copy(h, source, "etag"@), source, true),
{
    let after = with_copy(h, source, "etag"@);
    assert forall|name: Seq<char>|
        #![trigger same_or_copied(before, h, source, true, name)]
        #![trigger same_or_copied(before, after, source, true, name)]
        same_or_copied(before, h, source, true, name) && same_or_copied(
            before,
            after,
            source,
            true,
            name,
        ) by {
        assert(same_or_copied(before, h, source, false, name));
        if name == "etag"@ && source.contains_key(name) {
            assert(header_at(after, name) == Some(seq![source[name][0]]));
        } else {
            assert(header_at(after, name) == header_at(h, name));
        }
    }
}

/// Sets the headers of a list of models, as far as the map has room for them.
pub fn set_models_headers(source: &HeaderMap, target: &mut HeaderMap, native: bool) -> (r: bool)
    ensures
        copied(
            header_content(*old(target)),
            header_content(*final(target)),
            models_headers(header_content(*old(target)), header_content(*source), native),
            header_content(*source),
            true,
            r,
        ),
{
    let ghost start = header_content(*target);
    let ghost from = header_content(*source);
    let ghost wanted = models_headers(start, from, native);
    let ghost returned = with_returned(start, from, false);
    proof {
        known_headers();
        if has_room(wanted, 1) {
            room_within(returned, wanted, 1);
            if native {
                room_within(with_copy(returned, from, "etag"@), wanted, 1);
            }
        }
    }
    let kept = copy_kept(source, target, false);
    proof {
        tag_copied(start, header_content(*target), from);
    }
    kept && (!native || copy_header(target, source, "etag")) && vary_by_agent(target)
}

} // verus!
