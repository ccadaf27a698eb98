//! Keys and headers: which key a client sends, and what a provider is sent.

use crate::config::Provider;
use crate::headers::{
    first_header, get_header, get_header_text, halfway, has_room, header_at, header_bytes,
    header_content, header_name, header_text_of, insert_header, is_header_value, known_headers,
    plain, plain_value, room_within, Headers,
};
use crate::query::{first_value, form_pairs, query_value};
use crate::text::{cat, either, opt_str, opt_text, same, strip_prefix, texts, without_prefix};
use axum::http::HeaderMap;
use vstd::prelude::*;
use vstd::utf8::encode_utf8;

verus! {

/// The token of an `Authorization` header.
pub open spec fn bearer_token(h: Headers) -> Option<Seq<char>> {
    match header_text_of(h, "authorization"@) {
        Some(value) => strip_prefix(value, "Bearer "@),
        None => None,
    }
}

/// The parameter `key` of a query.
pub open spec fn query_key(query: Option<Seq<char>>) -> Option<Seq<char>> {
    match query {
        Some(query) => first_value(form_pairs(query), "key"@),
        None => None,
    }
}

/// The key that a client sends: the bearer token before `x-api-key` before `api-key` before the
/// parameter `key` of the query.
pub open spec fn sent_key(h: Headers, query: Option<Seq<char>>) -> Option<Seq<char>> {
    either(
        either(
            either(bearer_token(h), header_text_of(h, "x-api-key"@)),
            header_text_of(h, "api-key"@),
        ),
        query_key(query),
    )
}

/// The key that a client sends.
pub fn extract_api_key(headers: &HeaderMap, query: Option<&str>) -> (r: Option<String>)
    ensures
        opt_text(r) == sent_key(header_content(*headers), opt_str(query)),
{
    proof {
        known_headers();
    }
    if let Some(value) = get_header_text(headers, "authorization") {
        if let Some(token) = without_prefix(value.as_str(), "Bearer ") {
            return Some(token);
        }
    }
    if let Some(value) = get_header_text(headers, "x-api-key") {
        return Some(value);
    }
    if let Some(value) = get_header_text(headers, "api-key") {
        return Some(value);
    }
    match query {
        Some(query) => query_value(query, "key"),
        None => None,
    }
}

/// Whether a client may use a server with the given key.
pub open spec fn authorized(key: Option<Seq<char>>, h: Headers, query: Option<Seq<char>>) -> bool {
    match key {
        Some(key) => sent_key(h, query) == Some(key),
        None => true,
    }
}

/// Whether a client may use a server with the given key: anyone, where there is none.
pub fn is_authorized(key: Option<&str>, headers: &HeaderMap, query: Option<&str>) -> (r: bool)
    ensures
        r == authorized(opt_str(key), header_content(*headers), opt_str(query)),
{
    match key {
        Some(key) => match extract_api_key(headers, query) {
            Some(sent) => same(sent.as_str(), key),
            None => false,
        },
        None => true,
    }
}

/// The headers with one value of a header, where it may be one.
pub open spec fn with_text_header(h: Headers, name: Seq<char>, value: Seq<char>) -> Headers {
    if header_bytes(encode_utf8(value)) {
        h.insert(name, seq![encode_utf8(value)])
    } else {
        h
    }
}

/// The headers with the key that a provider takes: the configured one, or else the client's.
pub open spec fn with_key(
    h: Headers,
    provider: Provider,
    configured: Option<Seq<char>>,
    extracted: Option<Seq<char>>,
) -> Headers {
    match either(configured, extracted) {
        None => h,
        Some(key) => match provider {
            Provider::Anthropic => with_text_header(h, "x-api-key"@, key),
            _ => with_text_header(h, "authorization"@, "Bearer "@ + key),
        },
    }
}

fn set_text_header(headers: &mut HeaderMap, name: &str, value: &str) -> (r: bool)
    requires
        header_name(name@),
    ensures
        r ==> header_content(*final(headers)) == with_text_header(
            header_content(*old(headers)),
            name@,
            value@,
        ),
        !r ==> header_content(*final(headers)) == header_content(*old(headers)),
        has_room(header_content(*old(headers)), 1) ==> r,
{
    let bytes = value.as_bytes();
    if is_header_value(bytes) {
        insert_header(headers, name, bytes)
    } else {
        true
    }
}

/// Sets the key that a provider takes: the configured one, or else the client's. Nothing is set
/// where the map has no room for it.
pub fn apply_api_key(
    headers: &mut HeaderMap,
    provider: Provider,
    configured: Option<&str>,
    extracted: Option<&str>,
) -> (r: bool)
    ensures
        r ==> header_content(*final(headers)) == with_key(
            header_content(*old(headers)),
            provider,
            opt_str(configured),
            opt_str(extracted),
        ),
        !r ==> header_content(*final(headers)) == header_content(*old(headers)),
        has_room(header_content(*old(headers)), 1) ==> r,
{
    proof {
        known_headers();
    }
    let key = match configured {
        Some(key) => key,
        None => match extracted {
            Some(key) => key,
            None => {
                return true;
            },
        },
    };
    match provider {
        Provider::Anthropic => set_text_header(headers, "x-api-key", key),
        _ => set_text_header(headers, "authorization", cat("Bearer ", key).as_str()),
    }
}

/// The headers with the first value that `source` has of a header.
pub open spec fn with_copy(h: Headers, source: Headers, name: Seq<char>) -> Headers {
    match first_header(source, name) {
        Some(value) => h.insert(name, seq![value]),
        None => h,
    }
}

/// The headers with the first values that `source` has of some headers.
pub open spec fn with_copies(h: Headers, source: Headers, names: Seq<Seq<char>>) -> Headers
    decreases names.len(),
{
    if names.len() == 0 {
        h
    } else {
        with_copy(with_copies(h, source, names.drop_last()), source, names.last())
    }
}

/// The headers that a client's request and the provider's have in common.
pub open spec fn forwarded_names(provider: Provider) -> Seq<Seq<char>> {
    match provider {
        Provider::Anthropic => seq![
            "accept"@,
            "idempotency-key"@,
            "x-client-request-id"@,
            "anthropic-version"@,
            "anthropic-beta"@,
        ],
        _ => seq!["accept"@, "idempotency-key"@, "x-client-request-id"@, "openai-beta"@],
    }
}

/// The headers with those of the client that the provider takes, and the version that Anthropic
/// wants.
pub open spec fn with_protocol_headers(h: Headers, provider: Provider, source: Headers)
    -> Headers {
    let copied = with_copies(h, source, forwarded_names(provider));
    if provider == Provider::Anthropic && !copied.contains_key("anthropic-version"@) {
        copied.insert("anthropic-version"@, seq![encode_utf8("2023-06-01"@)])
    } else {
        copied
    }
}

/// More headers leave less room.
pub proof fn room_after(h: Headers, name: Seq<char>, value: Seq<Seq<u8>>, n: nat)
    requires
        has_room(h, n + 1),
    ensures
        has_room(h.insert(name, value), n),
{
    assert(h.insert(name, value).dom() =~= h.dom().insert(name));
}

/// Copies of headers leave less room.
pub proof fn room_after_copies(h: Headers, source: Headers, names: Seq<Seq<char>>, n: nat)
    requires
        has_room(h, n + names.len()),
    ensures
        has_room(with_copies(h, source, names), n),
    decreases names.len(),
{
    if names.len() > 0 {
        room_after_copies(h, source, names.drop_last(), n + 1);
        let front = with_copies(h, source, names.drop_last());
        if let Some(value) = first_header(source, names.last()) {
            room_after(front, names.last(), seq![value], n);
        }
    }
}

/// A key leaves less room.
pub proof fn room_after_key(
    h: Headers,
    provider: Provider,
    configured: Option<Seq<char>>,
    extracted: Option<Seq<char>>,
    n: nat,
)
    requires
        has_room(h, n + 1),
    ensures
        has_room(with_key(h, provider, configured, extracted), n),
{
    if let Some(key) = either(configured, extracted) {
        room_after(h, "x-api-key"@, seq![encode_utf8(key)], n);
        room_after(h, "authorization"@, seq![encode_utf8("Bearer "@ + key)], n);
    }
}

/// The headers of the client leave less room.
pub proof fn room_after_protocol_headers(h: Headers, provider: Provider, source: Headers, n: nat)
    requires
        has_room(h, n + 6),
    ensures
        has_room(with_protocol_headers(h, provider, source), n),
{
    let names = forwarded_names(provider);
    room_after_copies(h, source, names, n + 1);
    room_after(
        with_copies(h, source, names),
        "anthropic-version"@,
        seq![encode_utf8("2023-06-01"@)],
        n,
    );
}

/// Copies the first value of a header.
pub(crate) fn copy_header(headers: &mut HeaderMap, source: &HeaderMap, name: &str) -> (r: bool)
    requires
        header_name(name@),
    ensures
        r ==> header_content(*final(headers)) == with_copy(
            header_content(*old(headers)),
            header_content(*source),
            name@,
        ),
        !r ==> header_content(*final(headers)) == header_content(*old(headers)),
        has_room(header_content(*old(headers)), 1) ==> r,
{
    match get_header(source, name) {
        Some(value) => insert_header(headers, name, value.as_slice()),
        None => true,
    }
}

/// The copies of the first of some headers are among the copies of all.
proof fn copies_within(h: Headers, source: Headers, names: Seq<Seq<char>>, n: int)
    requires
        0 <= n <= names.len(),
    ensures
        with_copies(h, source, names.take(n)).dom().subset_of(
            with_copies(h, source, names).dom(),
        ),
        halfway(h, with_copies(h, source, names.take(n)), with_copies(h, source, names)),
    decreases names.len() - n,
{
    if n == names.len() {
        assert(names.take(n) =~= names);
    } else {
        copies_within(h, source, names, n + 1);
        assert(names.take(n + 1).drop_last() =~= names.take(n));
        let some = with_copies(h, source, names.take(n));
        let more = with_copies(h, source, names.take(n + 1));
        let all = with_copies(h, source, names);
        assert forall|name: Seq<char>|
            #![trigger header_at(some, name)]
            header_at(some, name) == header_at(h, name) || header_at(some, name) == header_at(
                all,
                name,
            ) by {
            copies_are(h, source, names.take(n), name);
            copies_are(h, source, names, name);
            if names.take(n).contains(name) {
                let i = choose|i: int| 0 <= i < names.take(n).len() && names.take(n)[i] == name;
                assert(names[i] == name);
                assert(names.contains(name));
            }
        }
        assert(some.dom().subset_of(more.dom()));
    }
}

/// What copies leave of a header: its first value in the source, or what it had.
proof fn copies_are(h: Headers, source: Headers, names: Seq<Seq<char>>, name: Seq<char>)
    ensures
        header_at(with_copies(h, source, names), name) == if names.contains(name)
            && source.contains_key(name) {
            Some(seq![source[name][0]])
        } else {
            header_at(h, name)
        },
    decreases names.len(),
{
    if names.len() > 0 {
        copies_are(h, source, names.drop_last(), name);
        let front = names.drop_last();
        assert(names.contains(name) == (front.contains(name) || names.last() == name)) by {
            if names.contains(name) {
                let i = choose|i: int| 0 <= i < names.len() && names[i] == name;
                if i < front.len() {
                    assert(front[i] == name);
                }
            }
            if front.contains(name) {
                let i = choose|i: int| 0 <= i < front.len() && front[i] == name;
                assert(names[i] == name);
            }
            assert(names[names.len() - 1] == names.last());
        }
    }
}

fn copy_headers(headers: &mut HeaderMap, source: &HeaderMap, names: &[&str]) -> (r: bool)
    requires
        forall|i: int| 0 <= i < names@.len() ==> header_name(#[trigger] names@[i]@),
    ensures
        ({
            let before = header_content(*old(headers));
            let after = header_content(*final(headers));
            let wanted = with_copies(before, header_content(*source), texts(names@));
            &&& r ==> after == wanted
            &&& !r ==> halfway(before, after, wanted)
            &&& has_room(wanted, 1) ==> r
        }),
{
    let ghost start = header_content(*headers);
    let ghost all = texts(names@);
    let mut i: usize = 0;
    assert(all.take(0) =~= Seq::empty());
    while i < names.len()
        invariant
            start == header_content(*old(headers)),
            all == texts(names@),
            i <= names@.len(),
            forall|j: int| 0 <= j < names@.len() ==> header_name(#[trigger] names@[j]@),
            header_content(*headers) == with_copies(
                start,
                header_content(*source),
                all.take(i as int),
            ),
        decreases names@.len() - i,
    {
        assert(all.take(i + 1).drop_last() =~= all.take(i as int));
        if !copy_header(headers, source, names[i]) {
            proof {
                let from = header_content(*source);
                copies_within(start, from, all, i as int);
                if has_room(with_copies(start, from, all), 1) {
                    room_within(header_content(*headers), with_copies(start, from, all), 1);
                }
            }
            return false;
        }
        i = i + 1;
    }
    assert(all.take(i as int) =~= all);
    true
}

/// Halfway to some headers is halfway to them with one more that there was not before.
proof fn halfway_more(before: Headers, after: Headers, some: Headers, wanted: Headers)
    requires
        halfway(before, after, some),
        forall|name: Seq<char>| #[trigger]
            some.contains_key(name) ==> header_at(some, name) == header_at(wanted, name),
        before.dom().subset_of(some.dom()),
    ensures
        halfway(before, after, wanted),
{
    assert forall|name: Seq<char>|
        #![trigger header_at(after, name)]
        header_at(after, name) == header_at(before, name) || header_at(after, name) == header_at(
            wanted,
            name,
        ) by {
        if some.contains_key(name) {
            assert(header_at(some, name) == header_at(wanted, name));
        } else {
            assert(!before.contains_key(name));
        }
    }
}

proof fn version_is_plain()
    ensures
        plain("2023-06-01"@),
{
    reveal_strlit("2023-06-01");
    let s = "2023-06-01"@;
    assert forall|i: int| 0 <= i < s.len() implies ' ' <= #[trigger] s[i] && s[i] <= '~' by {
        assert(i == 0 || i == 1 || i == 2 || i == 3 || i == 4 || i == 5 || i == 6 || i == 7 || i
            == 8 || i == 9);
    }
}

/// Sets the headers of the client that the provider takes, and the version that Anthropic wants,
/// as far as the map has room for them.
pub fn apply_protocol_headers(headers: &mut HeaderMap, provider: Provider, source: &HeaderMap)
    -> (r: bool)
    ensures
        ({
            let before = header_content(*old(headers));
            let after = header_content(*final(headers));
            let wanted = with_protocol_headers(before, provider, header_content(*source));
            &&& r ==> after == wanted
            &&& !r ==> halfway(before, after, wanted)
            &&& has_room(wanted, 1) ==> r
        }),
{
    let ghost before = header_content(*headers);
    let ghost wanted = with_protocol_headers(before, provider, header_content(*source));
    let ghost copies = with_copies(before, header_content(*source), forwarded_names(provider));
    proof {
        known_headers();
    }
    match provider {
        Provider::Anthropic => {
            let names = [
                "accept",
                "idempotency-key",
                "x-client-request-id",
                "anthropic-version",
                "anthropic-beta",
            ];
            assert(texts(names@) =~= forwarded_names(provider));
            proof {
                if has_room(wanted, 1) {
                    room_within(copies, wanted, 1);
                }
            }
            let all = copy_headers(headers, source, &names);
            proof {
                let names = forwarded_names(provider);
                copies_within(before, header_content(*source), names, 0);
                assert(names.take(0) =~= Seq::empty());
                halfway_more(before, header_content(*headers), copies, wanted);
            }
            if !all {
                return false;
            }
            if get_header(headers, "anthropic-version").is_none() {
                let version = "2023-06-01".as_bytes();
                proof {
                    version_is_plain();
                    plain_value("2023-06-01"@);
                }
                insert_header(headers, "anthropic-version", version)
            } else {
                true
            }
        },
        _ => {
            let names = ["accept", "idempotency-key", "x-client-request-id", "openai-beta"];
            assert(texts(names@) =~= forwarded_names(provider));
            copy_headers(headers, source, &names)
        },
    }
}

proof fn copies_leave_others(h: Headers, source: Headers, names: Seq<Seq<char>>, other: Seq<char>)
    requires
        !names.contains(other),
    ensures
        with_copies(h, source, names).contains_key(other) == h.contains_key(other),
        h.contains_key(other) ==> with_copies(h, source, names)[other] == h[other],
    decreases names.len(),
{
    if names.len() > 0 {
        assert(!names.drop_last().contains(other)) by {
            if names.drop_last().contains(other) {
                let i = choose|i: int|
                    0 <= i < names.drop_last().len() && names.drop_last()[i] == other;
                assert(names[i] == other);
            }
        }
        copies_leave_others(h, source, names.drop_last(), other);
        assert(names[names.len() - 1] != other);
    }
}

/// Of the headers of a client, only those that the provider takes are sent on: any other header,
/// such as one with the client's key, stays as it was before.
pub proof fn only_forwarded_headers(
    h: Headers,
    provider: Provider,
    source: Headers,
    other: Seq<char>,
)
    requires
        !forwarded_names(provider).contains(other),
    ensures
        with_protocol_headers(h, provider, source).contains_key(other) == h.contains_key(other),
        h.contains_key(other) ==> with_protocol_headers(h, provider, source)[other] == h[other],
{
    let names = forwarded_names(provider);
    copies_leave_others(h, source, names, other);
    if provider == Provider::Anthropic {
        assert(names[3] == "anthropic-version"@);
        assert(names.contains("anthropic-version"@));
    }
}

/// The two headers with keys are none of those that are sent on.
pub proof fn keys_are_not_forwarded(provider: Provider)
    ensures
        !forwarded_names(provider).contains("authorization"@),
        !forwarded_names(provider).contains("x-api-key"@),
        !forwarded_names(provider).contains("api-key"@),
{
    reveal_strlit("authorization");
    reveal_strlit("x-api-key");
    reveal_strlit("api-key");
    reveal_strlit("accept");
    reveal_strlit("idempotency-key");
    reveal_strlit("x-client-request-id");
    reveal_strlit("anthropic-version");
    reveal_strlit("anthropic-beta");
    reveal_strlit("openai-beta");
    assert("authorization"@.len() == 13 && "x-api-key"@.len() == 9 && "api-key"@.len() == 7);
    assert("accept"@.len() == 6 && "idempotency-key"@.len() == 15 && "x-client-request-id"@.len()
        == 19);
    assert("anthropic-version"@.len() == 17 && "anthropic-beta"@.len() == 14);
    assert("openai-beta"@.len() == 11);
    let names = forwarded_names(provider);
    assert forall|i: int| 0 <= i < names.len() implies (#[trigger] names[i]).len() != 13
        && names[i].len() != 9 && names[i].len() != 7 by {
        assert(i == 0 || i == 1 || i == 2 || i == 3 || i == 4);
    }
}

/// A plain key is plain as a bearer token.
pub proof fn bearer_is_plain(key: Seq<char>)
    requires
        plain(key),
    ensures
        plain("Bearer "@ + key),
{
    reveal_strlit("Bearer ");
    let value = "Bearer "@ + key;
    assert forall|i: int| 0 <= i < value.len() implies ' ' <= #[trigger] value[i] && value[i]
        <= '~' by {
        if i < 7 {
            assert(i == 0 || i == 1 || i == 2 || i == 3 || i == 4 || i == 5 || i == 6);
        } else {
            assert(value[i] == key[i - 7]);
        }
    }
}

/// What a provider is sent as a key is read back as the key, where it is plain.
pub proof fn applied_key_is_sent(h: Headers, provider: Provider, key: Seq<char>)
    requires
        plain(key),
        bearer_token(h) is None,
    ensures
        sent_key(with_key(h, provider, Some(key), None), None) == Some(key),
{
    reveal_strlit("authorization");
    reveal_strlit("x-api-key");
    assert("authorization"@.len() != "x-api-key"@.len());
    match provider {
        Provider::Anthropic => {
            plain_value(key);
            let k = with_key(h, provider, Some(key), None);
            assert(bearer_token(k) == bearer_token(h));
        },
        _ => {
            let value = "Bearer "@ + key;
            reveal_strlit("Bearer ");
            bearer_is_plain(key);
            plain_value(value);
            assert("Bearer "@ =~= value.subrange(0, 7));
            assert(value.skip(7) =~= key);
        },
    }
}

} // verus!
