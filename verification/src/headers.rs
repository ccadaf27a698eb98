//! The boundary to `axum::http::HeaderMap`: headers by their names.

use vstd::prelude::*;
use vstd::utf8::{encode_utf8, is_ascii_chars, is_ascii_chars_encode_utf8};

verus! {

/// `axum::http::HeaderMap`.
#[verifier::external_type_specification]
#[verifier::external_body]
#[verifier::reject_recursive_types(T)]
pub struct ExHeaderMap<T>(axum::http::HeaderMap<T>);

/// `axum::http::HeaderValue`.
#[verifier::external_type_specification]
#[verifier::external_body]
pub struct ExHeaderValue(axum::http::HeaderValue);

/// The values of each header, in their order, by its name in lower case.
pub type Headers = Map<Seq<char>, Seq<Seq<u8>>>;

/// What an `axum::http::HeaderMap` holds.
pub uninterp spec fn header_content(h: axum::http::HeaderMap) -> Map<Seq<char>, Seq<Seq<u8>>>;

/// Whether a character may stand in the name of a header in lower case.
pub open spec fn header_char(c: char) -> bool {
    ('a' <= c && c <= 'z') || ('0' <= c && c <= '9') || c == '-' || c == '_' || c == '.' || c == '!'
        || c == '"' || c == '#' || c == '$' || c == '%' || c == '&' || c == '\'' || c == '*' || c
        == '+' || c == '^' || c == '`' || c == '|' || c == '~'
}

/// Whether a text is the name of a header in lower case.
pub open spec fn header_name(s: Seq<char>) -> bool {
    &&& 0 < s.len() <= 65_535
    &&& forall|i: int| 0 <= i < s.len() ==> header_char(#[trigger] s[i])
}

/// Whether a byte may stand in the value of a header.
pub open spec fn header_byte(b: u8) -> bool {
    (b >= 32 && b != 127) || b == 9
}

/// Whether bytes may be the value of a header.
pub open spec fn header_bytes(s: Seq<u8>) -> bool {
    forall|i: int| 0 <= i < s.len() ==> header_byte(#[trigger] s[i])
}

/// Whether there is room for `n` more headers, whatever their names are. With more of them it is
/// for an `axum::http::HeaderMap` to say: where many names collide, it may refuse to grow.
pub open spec fn has_room(h: Headers, n: nat) -> bool {
    h.dom().finite() && h.dom().len() + n <= 6_553
}

/// The first value of a header.
pub open spec fn first_header(h: Headers, name: Seq<char>) -> Option<Seq<u8>> {
    if h.contains_key(name) {
        Some(h[name][0])
    } else {
        None
    }
}

/// The bytes of an optional value.
pub open spec fn opt_bytes(o: Option<Vec<u8>>) -> Option<Seq<u8>> {
    match o {
        Some(v) => Some(v@),
        None => None,
    }
}

/// No headers.
pub open spec fn no_headers() -> Headers {
    Map::empty()
}

/// `axum::http::HeaderMap::new`: a map without headers.
#[verifier::external_body]
pub(crate) fn new_headers() -> (r: axum::http::HeaderMap)
    ensures
        header_content(r) == no_headers(),
{
    axum::http::HeaderMap::new()
}

/// `axum::http::HeaderMap::get`: the bytes of the first value of a header. The name is one that
/// `HeaderName::from_lowercase` takes.
#[verifier::external_body]
pub(crate) fn get_header(headers: &axum::http::HeaderMap, name: &str) -> (r: Option<Vec<u8>>)
    requires
        header_name(name@),
    ensures
        opt_bytes(r) == first_header(header_content(*headers), name@),
        r matches Some(v) ==> header_bytes(v@),
{
    headers.get(axum::http::HeaderName::from_lowercase(name.as_bytes()).unwrap())
        .map(|value| value.as_bytes().to_vec())
}

/// `axum::http::HeaderMap::try_insert`: the one value of a header from now on, unless the map
/// refuses to grow, which leaves it as it is. While there is room it does not refuse; when it does
/// beyond that rests on how the names collide, and is left unsaid. The name and the value are ones
/// that `HeaderName::from_lowercase` and `HeaderValue::from_bytes` take.
#[verifier::external_body]
pub(crate) fn insert_header(headers: &mut axum::http::HeaderMap, name: &str, value: &[u8]) -> (r:
    bool)
    requires
        header_name(name@),
        header_bytes(value@),
    ensures
        r ==> header_content(*final(headers)) == header_content(*old(headers)).insert(
            name@,
            seq![value@],
        ),
        !r ==> header_content(*final(headers)) == header_content(*old(headers)),
        has_room(header_content(*old(headers)), 1) ==> r,
{
    headers.try_insert(
        axum::http::HeaderName::from_lowercase(name.as_bytes()).unwrap(),
        axum::http::HeaderValue::from_bytes(value).unwrap(),
    ).is_ok()
}

/// `axum::http::HeaderMap::try_append`: one more value of a header, behind those that it has,
/// unless the map refuses to grow, which leaves it as it is. While there is room it does not
/// refuse; when it does beyond that rests on how the names collide, and is left unsaid. The name
/// and the value are ones that `HeaderName::from_lowercase` and `HeaderValue::from_bytes` take.
#[verifier::external_body]
pub(crate) fn append_header(headers: &mut axum::http::HeaderMap, name: &str, value: &[u8]) -> (r:
    bool)
    requires
        header_name(name@),
        header_bytes(value@),
    ensures
        r ==> header_content(*final(headers)) == with_value(
            header_content(*old(headers)),
            name@,
            value@,
        ),
        !r ==> header_content(*final(headers)) == header_content(*old(headers)),
        has_room(header_content(*old(headers)), 1) ==> r,
{
    headers.try_append(
        axum::http::HeaderName::from_lowercase(name.as_bytes()).unwrap(),
        axum::http::HeaderValue::from_bytes(value).unwrap(),
    ).is_ok()
}

/// What a header has.
pub open spec fn header_at(h: Headers, name: Seq<char>) -> Option<Seq<Seq<u8>>> {
    if h.contains_key(name) {
        Some(h[name])
    } else {
        None
    }
}

/// Whether each header is as it was or as it is wanted.
pub open spec fn halfway(before: Headers, after: Headers, wanted: Headers) -> bool {
    forall|name: Seq<char>|
        #![trigger header_at(after, name)]
        header_at(after, name) == header_at(before, name) || header_at(after, name) == header_at(
            wanted,
            name,
        )
}

/// Where there is room beside some headers, there is room beside fewer.
pub proof fn room_within(fewer: Headers, h: Headers, n: nat)
    requires
        fewer.dom().subset_of(h.dom()),
        has_room(h, n),
    ensures
        has_room(fewer, n),
{
    vstd::set_lib::lemma_len_subset(fewer.dom(), h.dom());
}

/// The headers with one more value of one of them.
pub open spec fn with_value(h: Headers, name: Seq<char>, value: Seq<u8>) -> Headers {
    if h.contains_key(name) {
        h.insert(name, h[name].push(value))
    } else {
        h.insert(name, seq![value])
    }
}

/// The values under a name in a list of names and values.
pub open spec fn values_under(s: Seq<(String, Vec<u8>)>, name: Seq<char>) -> Seq<Seq<u8>>
    decreases s.len(),
{
    if s.len() == 0 {
        Seq::empty()
    } else {
        let front = values_under(s.drop_last(), name);
        if s.last().0@ == name {
            front.push(s.last().1@)
        } else {
            front
        }
    }
}

/// Whether a list has each value of each header once, the values of one header in their order.
pub open spec fn lists_headers(s: Seq<(String, Vec<u8>)>, h: Headers) -> bool {
    &&& forall|i: int|
        0 <= i < s.len() ==> header_name((#[trigger] s[i]).0@) && header_bytes(s[i].1@)
            && h.contains_key(s[i].0@)
    &&& forall|name: Seq<char>|
        h.contains_key(name) ==> #[trigger] values_under(s, name) == h[name] && h[name].len() > 0
}

/// `axum::http::HeaderMap::iter`: each value of each header once, with the name in lower case. The
/// values of one header come in their order; the order of the headers is left open.
#[verifier::external_body]
pub(crate) fn list_headers(headers: &axum::http::HeaderMap) -> (r: Vec<(String, Vec<u8>)>)
    ensures
        lists_headers(r@, header_content(*headers)),
{
    headers.iter().map(|(name, value)| (name.as_str().to_owned(), value.as_bytes().to_vec()))
        .collect()
}

/// Whether a byte is a visible character of ASCII, a blank or a tab.
pub open spec fn visible(b: u8) -> bool {
    (b >= 32 && b < 127) || b == 9
}

/// The text of a value, where each of its bytes is visible.
pub open spec fn visible_text(s: Seq<u8>) -> Option<Seq<char>> {
    if forall|i: int| 0 <= i < s.len() ==> visible(#[trigger] s[i]) {
        Some(s.map_values(|b: u8| b as char))
    } else {
        None
    }
}

/// The text of a value, where each of its bytes is visible.
pub(crate) fn header_text(value: &Vec<u8>) -> (r: Option<String>)
    ensures
        crate::text::opt_text(r) == visible_text(value@),
{
    let mut out = String::new();
    let mut i: usize = 0;
    assert(out@ =~= value@.take(0).map_values(|b: u8| b as char));
    while i < value.len()
        invariant
            i <= value@.len(),
            forall|j: int| 0 <= j < i ==> visible(#[trigger] value@[j]),
            out@ == value@.take(i as int).map_values(|b: u8| b as char),
        decreases value@.len() - i,
    {
        let b = value[i];
        if !((b >= 32 && b < 127) || b == 9) {
            assert(!visible(value@[i as int]));
            return None;
        }
        out.push(b as char);
        assert(out@ =~= value@.take(i + 1).map_values(|b: u8| b as char));
        i = i + 1;
    }
    assert(value@.take(i as int) =~= value@);
    Some(out)
}

/// The text of the first value of a header, where it has one.
pub open spec fn header_text_of(h: Headers, name: Seq<char>) -> Option<Seq<char>> {
    match first_header(h, name) {
        Some(value) => visible_text(value),
        None => None,
    }
}

/// The text of the first value of a header, where it has one.
pub(crate) fn get_header_text(headers: &axum::http::HeaderMap, name: &str) -> (r: Option<String>)
    requires
        header_name(name@),
    ensures
        crate::text::opt_text(r) == header_text_of(header_content(*headers), name@),
{
    match get_header(headers, name) {
        Some(value) => header_text(&value),
        None => None,
    }
}

/// Whether bytes may be the value of a header.
pub(crate) fn is_header_value(value: &[u8]) -> (r: bool)
    ensures
        r == header_bytes(value@),
{
    let mut i: usize = 0;
    while i < value.len()
        invariant
            i <= value@.len(),
            forall|j: int| 0 <= j < i ==> header_byte(#[trigger] value@[j]),
        decreases value@.len() - i,
    {
        let b = value[i];
        if !((b >= 32 && b != 127) || b == 9) {
            assert(!header_byte(value@[i as int]));
            return false;
        }
        i = i + 1;
    }
    true
}

/// Whether each character is a visible one of ASCII or a blank.
pub open spec fn plain(s: Seq<char>) -> bool {
    forall|i: int| 0 <= i < s.len() ==> ' ' <= #[trigger] s[i] && s[i] <= '~'
}

/// A plain text may be the value of a header, and is read back as it is.
pub proof fn plain_value(s: Seq<char>)
    requires
        plain(s),
    ensures
        header_bytes(encode_utf8(s)),
        visible_text(encode_utf8(s)) == Some(s),
{
    assert(is_ascii_chars(s)) by {
        assert forall|i: int| 0 <= i < s.len() implies '\0' <= #[trigger] s[i] <= '\u{7f}' by {
            assert(' ' <= s[i] && s[i] <= '~');
        }
    }
    is_ascii_chars_encode_utf8(s);
    let b = encode_utf8(s);
    assert forall|i: int| 0 <= i < b.len() implies header_byte(#[trigger] b[i]) && visible(
        b[i],
    ) by {
        assert(b[i] == s[i] as u8);
        assert(' ' <= s[i] && s[i] <= '~');
    }
    assert(b.map_values(|b: u8| b as char) =~= s) by {
        assert forall|i: int| 0 <= i < s.len() implies #[trigger] (b[i] as char) == s[i] by {
            assert(' ' <= s[i] && s[i] <= '~');
        }
    }
}

/// The names of the headers that the library reads and sets are names of headers.
pub proof fn known_headers()
    ensures
        header_name("authorization"@),
        header_name("x-api-key"@),
        header_name("api-key"@),
        header_name("accept"@),
        header_name("idempotency-key"@),
        header_name("x-client-request-id"@),
        header_name("anthropic-version"@),
        header_name("anthropic-beta"@),
        header_name("openai-beta"@),
        header_name("if-none-match"@),
        header_name("user-agent"@),
        header_name("x-llmapi-response-mode"@),
        header_name("content-type"@),
        header_name("cache-control"@),
        header_name("etag"@),
        header_name("vary"@),
        header_name("retry-after"@),
        header_name("x-request-id"@),
        header_name("request-id"@),
        header_name("anthropic-request-id"@),
        header_name("openai-processing-ms"@),
        header_name("x-accel-buffering"@),
{
    reveal_strlit("authorization");
    assert forall|i: int| 0 <= i < "authorization"@.len() implies header_char(
        #[trigger] "authorization"@[i],
    ) by {
        assert(i == 0 || i == 1 || i == 2 || i == 3 || i == 4 || i == 5 || i == 6 || i == 7
            || i == 8 || i == 9 || i == 10 || i == 11 || i == 12);
    }
    reveal_strlit("x-api-key");
    assert forall|i: int| 0 <= i < "x-api-key"@.len() implies header_char(
        #[trigger] "x-api-key"@[i],
    ) by {
        assert(i == 0 || i == 1 || i == 2 || i == 3 || i == 4 || i == 5 || i == 6 || i == 7
            || i == 8);
    }
    reveal_strlit("api-key");
    assert forall|i: int| 0 <= i < "api-key"@.len() implies header_char(
        #[trigger] "api-key"@[i],
    ) by {
        assert(i == 0 || i == 1 || i == 2 || i == 3 || i == 4 || i == 5 || i == 6);
    }
    reveal_strlit("accept");
    assert forall|i: int| 0 <= i < "accept"@.len() implies header_char(#[trigger] "accept"@[i]) by {
        assert(i == 0 || i == 1 || i == 2 || i == 3 || i == 4 || i == 5);
    }
    reveal_strlit("idempotency-key");
    assert forall|i: int| 0 <= i < "idempotency-key"@.len() implies header_char(
        #[trigger] "idempotency-key"@[i],
    ) by {
        assert(i == 0 || i == 1 || i == 2 || i == 3 || i == 4 || i == 5 || i == 6 || i == 7
            || i == 8 || i == 9 || i == 10 || i == 11 || i == 12 || i == 13 || i == 14);
    }
    reveal_strlit("x-client-request-id");
    assert forall|i: int| 0 <= i < "x-client-request-id"@.len() implies header_char(
        #[trigger] "x-client-request-id"@[i],
    ) by {
        assert(i == 0 || i == 1 || i == 2 || i == 3 || i == 4 || i == 5 || i == 6 || i == 7
            || i == 8 || i == 9 || i == 10 || i == 11 || i == 12 || i == 13 || i == 14
            || i == 15 || i == 16 || i == 17 || i == 18);
    }
    reveal_strlit("anthropic-version");
    assert forall|i: int| 0 <= i < "anthropic-version"@.len() implies header_char(
        #[trigger] "anthropic-version"@[i],
    ) by {
        assert(i == 0 || i == 1 || i == 2 || i == 3 || i == 4 || i == 5 || i == 6 || i == 7
            || i == 8 || i == 9 || i == 10 || i == 11 || i == 12 || i == 13 || i == 14
            || i == 15 || i == 16);
    }
    reveal_strlit("anthropic-beta");
    assert forall|i: int| 0 <= i < "anthropic-beta"@.len() implies header_char(
        #[trigger] "anthropic-beta"@[i],
    ) by {
        assert(i == 0 || i == 1 || i == 2 || i == 3 || i == 4 || i == 5 || i == 6 || i == 7
            || i == 8 || i == 9 || i == 10 || i == 11 || i == 12 || i == 13);
    }
    reveal_strlit("openai-beta");
    assert forall|i: int| 0 <= i < "openai-beta"@.len() implies header_char(
        #[trigger] "openai-beta"@[i],
    ) by {
        assert(i == 0 || i == 1 || i == 2 || i == 3 || i == 4 || i == 5 || i == 6 || i == 7
            || i == 8 || i == 9 || i == 10);
    }
    reveal_strlit("if-none-match");
    assert forall|i: int| 0 <= i < "if-none-match"@.len() implies header_char(
        #[trigger] "if-none-match"@[i],
    ) by {
        assert(i == 0 || i == 1 || i == 2 || i == 3 || i == 4 || i == 5 || i == 6 || i == 7
            || i == 8 || i == 9 || i == 10 || i == 11 || i == 12);
    }
    reveal_strlit("user-agent");
    assert forall|i: int| 0 <= i < "user-agent"@.len() implies header_char(
        #[trigger] "user-agent"@[i],
    ) by {
        assert(i == 0 || i == 1 || i == 2 || i == 3 || i == 4 || i == 5 || i == 6 || i == 7
            || i == 8 || i == 9);
    }
    reveal_strlit("x-llmapi-response-mode");
    assert forall|i: int| 0 <= i < "x-llmapi-response-mode"@.len() implies header_char(
        #[trigger] "x-llmapi-response-mode"@[i],
    ) by {
        assert(i == 0 || i == 1 || i == 2 || i == 3 || i == 4 || i == 5 || i == 6 || i == 7
            || i == 8 || i == 9 || i == 10 || i == 11 || i == 12 || i == 13 || i == 14
            || i == 15 || i == 16 || i == 17 || i == 18 || i == 19 || i == 20 || i == 21);
    }
    reveal_strlit("content-type");
    assert forall|i: int| 0 <= i < "content-type"@.len() implies header_char(
        #[trigger] "content-type"@[i],
    ) by {
        assert(i == 0 || i == 1 || i == 2 || i == 3 || i == 4 || i == 5 || i == 6 || i == 7
            || i == 8 || i == 9 || i == 10 || i == 11);
    }
    reveal_strlit("cache-control");
    assert forall|i: int| 0 <= i < "cache-control"@.len() implies header_char(
        #[trigger] "cache-control"@[i],
    ) by {
        assert(i == 0 || i == 1 || i == 2 || i == 3 || i == 4 || i == 5 || i == 6 || i == 7
            || i == 8 || i == 9 || i == 10 || i == 11 || i == 12);
    }
    reveal_strlit("etag");
    assert forall|i: int| 0 <= i < "etag"@.len() implies header_char(#[trigger] "etag"@[i]) by {
        assert(i == 0 || i == 1 || i == 2 || i == 3);
    }
    reveal_strlit("vary");
    assert forall|i: int| 0 <= i < "vary"@.len() implies header_char(#[trigger] "vary"@[i]) by {
        assert(i == 0 || i == 1 || i == 2 || i == 3);
    }
    reveal_strlit("retry-after");
    assert forall|i: int| 0 <= i < "retry-after"@.len() implies header_char(
        #[trigger] "retry-after"@[i],
    ) by {
        assert(i == 0 || i == 1 || i == 2 || i == 3 || i == 4 || i == 5 || i == 6 || i == 7
            || i == 8 || i == 9 || i == 10);
    }
    reveal_strlit("x-request-id");
    assert forall|i: int| 0 <= i < "x-request-id"@.len() implies header_char(
        #[trigger] "x-request-id"@[i],
    ) by {
        assert(i == 0 || i == 1 || i == 2 || i == 3 || i == 4 || i == 5 || i == 6 || i == 7
            || i == 8 || i == 9 || i == 10 || i == 11);
    }
    reveal_strlit("request-id");
    assert forall|i: int| 0 <= i < "request-id"@.len() implies header_char(
        #[trigger] "request-id"@[i],
    ) by {
        assert(i == 0 || i == 1 || i == 2 || i == 3 || i == 4 || i == 5 || i == 6 || i == 7
            || i == 8 || i == 9);
    }
    reveal_strlit("anthropic-request-id");
    assert forall|i: int| 0 <= i < "anthropic-request-id"@.len() implies header_char(
        #[trigger] "anthropic-request-id"@[i],
    ) by {
        assert(i == 0 || i == 1 || i == 2 || i == 3 || i == 4 || i == 5 || i == 6 || i == 7
            || i == 8 || i == 9 || i == 10 || i == 11 || i == 12 || i == 13 || i == 14
            || i == 15 || i == 16 || i == 17 || i == 18 || i == 19);
    }
    reveal_strlit("openai-processing-ms");
    assert forall|i: int| 0 <= i < "openai-processing-ms"@.len() implies header_char(
        #[trigger] "openai-processing-ms"@[i],
    ) by {
        assert(i == 0 || i == 1 || i == 2 || i == 3 || i == 4 || i == 5 || i == 6 || i == 7
            || i == 8 || i == 9 || i == 10 || i == 11 || i == 12 || i == 13 || i == 14
            || i == 15 || i == 16 || i == 17 || i == 18 || i == 19);
    }
    reveal_strlit("x-accel-buffering");
    assert forall|i: int| 0 <= i < "x-accel-buffering"@.len() implies header_char(
        #[trigger] "x-accel-buffering"@[i],
    ) by {
        assert(i == 0 || i == 1 || i == 2 || i == 3 || i == 4 || i == 5 || i == 6 || i == 7
            || i == 8 || i == 9 || i == 10 || i == 11 || i == 12 || i == 13 || i == 14
            || i == 15 || i == 16);
    }
}

} // verus!
