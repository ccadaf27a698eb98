//! The addresses of the providers.

use crate::query::{
    form_pairs, form_text, pair_texts, pairs_without, pairs_without_names, query_without,
    write_pairs,
};
use crate::text::{
    cat, cat3, ends_with, opt_str, opt_text, strip_prefix, texts, trim_end, without_end,
    without_prefix,
};
use vstd::prelude::*;

verus! {

/// The parameters that are the proxy's own, and are not sent on.
pub open spec fn own_parameters() -> Seq<Seq<char>> {
    seq!["key"@, "llmapi_response_mode"@]
}

/// The parameters of a query that are sent on.
pub open spec fn forwarded_pairs(query: Seq<char>) -> Seq<(Seq<char>, Seq<char>)> {
    pairs_without(form_pairs(query), own_parameters())
}

/// The query that is sent on, where a parameter is left.
pub open spec fn forwarded(query: Seq<char>) -> Option<Seq<char>> {
    if forwarded_pairs(query).len() == 0 {
        None
    } else {
        Some(form_text(forwarded_pairs(query)))
    }
}

/// The query that is sent on, where a parameter is left. It is read as the other parameters of the
/// given one, in their order, and holds neither a key nor a parameter of the proxy.
pub fn forwarded_query(query: &str) -> (r: Option<String>)
    ensures
        opt_text(r) == forwarded(query@),
        r matches Some(q) ==> form_pairs(q@) == forwarded_pairs(query@),
        r matches Some(q) ==> forall|i: int|
            0 <= i < form_pairs(q@).len() ==> !own_parameters().contains(
                (#[trigger] form_pairs(q@)[i]).0,
            ),
{
    let names = ["key", "llmapi_response_mode"];
    assert(texts(names@) =~= own_parameters());
    let pairs = query_without(query, &names);
    proof {
        pairs_without_names(form_pairs(query@), own_parameters());
        assert(pair_texts(pairs@).len() == pairs@.len());
    }
    if pairs.len() == 0 {
        return None;
    }
    Some(write_pairs(&pairs))
}

/// The address of a path at a provider, unless the provider's address ends with it.
pub open spec fn endpoint(base_url: Seq<char>, path: Seq<char>) -> Seq<char> {
    let base = without_end(base_url, '/');
    if path.is_suffix_of(base) {
        base
    } else {
        base + path
    }
}

/// The address of a request to a provider.
pub open spec fn request_address(
    base_url: Seq<char>,
    path: Seq<char>,
    query: Option<Seq<char>>,
) -> Seq<char> {
    match query {
        Some(query) => match forwarded(query) {
            Some(query) => endpoint(base_url, path) + "?"@ + query,
            None => endpoint(base_url, path),
        },
        None => endpoint(base_url, path),
    }
}

/// The address of a request to a provider.
pub fn upstream_url(base_url: &str, path: &str, query: Option<&str>) -> (r: String)
    ensures
        r@ == request_address(base_url@, path@, opt_str(query)),
{
    let base = trim_end(base_url, '/');
    let endpoint = if ends_with(base.as_str(), path) {
        base
    } else {
        cat(base.as_str(), path)
    };
    let query = match query {
        Some(query) => forwarded_query(query),
        None => None,
    };
    match query {
        Some(query) => cat3(endpoint.as_str(), "?", query.as_str()),
        None => endpoint,
    }
}

/// The address of a socket where there is one of requests.
pub open spec fn socket_address(address: Seq<char>) -> Seq<char> {
    match strip_prefix(address, "https://"@) {
        Some(rest) => "wss://"@ + rest,
        None => match strip_prefix(address, "http://"@) {
            Some(rest) => "ws://"@ + rest,
            None => address,
        },
    }
}

/// The address of a socket at a provider.
pub fn websocket_url(base_url: &str, path: &str, query: Option<&str>) -> (r: String)
    ensures
        r@ == socket_address(request_address(base_url@, path@, opt_str(query))),
{
    let http_url = upstream_url(base_url, path, query);
    if let Some(rest) = without_prefix(http_url.as_str(), "https://") {
        return cat("wss://", rest.as_str());
    }
    if let Some(rest) = without_prefix(http_url.as_str(), "http://") {
        return cat("ws://", rest.as_str());
    }
    http_url
}

} // verus!
