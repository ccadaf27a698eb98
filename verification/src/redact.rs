//! Texts for the log, without the keys that they hold.

use crate::query::{form_pairs, pair_texts, parse_pairs};
use crate::text::{
    cat, cat3, first_chars, head, join, joined, lower, lower_text, opt_str, same, split_once,
    split_text, strings,
};
use vstd::prelude::*;

verus! {

/// What is shown of a key: its first six characters.
pub open spec fn shown_key(key: Seq<char>) -> Seq<char> {
    head(key, 6) + "..."@
}

/// What is shown of a key.
pub fn key(secret: &str) -> (r: String)
    ensures
        r@ == shown_key(secret@),
{
    cat(first_chars(secret, 6).as_str(), "...")
}

/// Whether the parameter of a name holds a key, in any case of letters.
pub open spec fn sensitive(name: Seq<char>) -> bool {
    let n = lower_text(name);
    n == "key"@ || n == "api_key"@ || n == "apikey"@ || n == "access_token"@ || n == "token"@
}

fn is_sensitive_key(name: &str) -> (r: bool)
    ensures
        r == sensitive(name@),
{
    let n = lower(name);
    same(n.as_str(), "key") || same(n.as_str(), "api_key") || same(n.as_str(), "apikey") || same(
        n.as_str(),
        "access_token",
    ) || same(n.as_str(), "token")
}

/// What is shown of a parameter.
pub open spec fn shown_pair(pair: (Seq<char>, Seq<char>)) -> Seq<char> {
    pair.0 + "="@ + if sensitive(pair.0) {
        shown_key(pair.1)
    } else {
        pair.1
    }
}

/// What is shown of parameters.
pub open spec fn shown_pairs(pairs: Seq<(Seq<char>, Seq<char>)>) -> Seq<char> {
    joined(Seq::new(pairs.len(), |i: int| shown_pair(pairs[i])), "&"@)
}

/// What is shown of parameters.
pub fn parameters(pairs: &Vec<(String, String)>) -> (r: String)
    ensures
        r@ == shown_pairs(pair_texts(pairs@)),
{
    let ghost all = pair_texts(pairs@);
    let mut parts: Vec<String> = Vec::new();
    let mut i: usize = 0;
    while i < pairs.len()
        invariant
            all == pair_texts(pairs@),
            i <= pairs@.len(),
            parts@.len() == i,
            forall|j: int| 0 <= j < i ==> (#[trigger] parts@[j])@ == shown_pair(all[j]),
        decreases pairs@.len() - i,
    {
        let name = pairs[i].0.as_str();
        let value = pairs[i].1.as_str();
        if is_sensitive_key(name) {
            parts.push(cat3(name, "=", key(value).as_str()));
        } else {
            parts.push(cat3(name, "=", value));
        }
        i = i + 1;
    }
    assert(strings(parts@) =~= Seq::new(all.len(), |i: int| shown_pair(all[i])));
    join(&parts, "&")
}

/// What is shown of a query.
pub open spec fn shown_query(query: Seq<char>) -> Seq<char> {
    shown_pairs(form_pairs(query))
}

/// What is shown of a query.
pub fn query(text: &str) -> (r: String)
    ensures
        r@ == shown_query(text@),
{
    parameters(&parse_pairs(text))
}

/// What is shown of an address.
pub open spec fn shown_url(url: Seq<char>) -> Seq<char> {
    match split_once(url, "?"@) {
        Some((base, query)) => base + "?"@ + shown_query(query),
        None => url,
    }
}

/// What is shown of an address.
pub fn url(address: &str) -> (r: String)
    ensures
        r@ == shown_url(address@),
{
    match split_text(address, "?") {
        Some((base, rest)) => cat3(base.as_str(), "?", query(rest.as_str()).as_str()),
        None => address.to_owned(),
    }
}

/// What is shown of a request.
pub open spec fn shown_request(
    method: Seq<char>,
    path: Seq<char>,
    query: Option<Seq<char>>,
) -> Seq<char> {
    match query {
        Some(query) => method + " "@ + path + "?"@ + shown_query(query),
        None => method + " "@ + path,
    }
}

/// What is shown of a request.
pub fn request(method: &str, path: &str, asked: Option<&str>) -> (r: String)
    ensures
        r@ == shown_request(method@, path@, opt_str(asked)),
{
    let mut out = cat3(method, " ", path);
    if let Some(text) = asked {
        out.push_str("?");
        out.push_str(query(text).as_str());
    }
    out
}

/// Of a parameter with a key nothing is shown beyond its first six characters: two lists of
/// parameters that differ in nothing else are shown alike.
pub proof fn keys_are_not_shown(a: Seq<(Seq<char>, Seq<char>)>, b: Seq<(Seq<char>, Seq<char>)>)
    requires
        a.len() == b.len(),
        forall|i: int|
            0 <= i < a.len() ==> (#[trigger] a[i]).0 == b[i].0 && (a[i].1 == b[i].1 || (sensitive(
                a[i].0,
            ) && head(a[i].1, 6) == head(b[i].1, 6))),
    ensures
        shown_pairs(a) == shown_pairs(b),
{
    assert forall|i: int| 0 <= i < a.len() implies shown_pair(#[trigger] a[i]) == shown_pair(
        b[i],
    ) by {
        assert(a[i].0 == b[i].0);
    }
    assert(Seq::new(a.len(), |i: int| shown_pair(a[i])) =~= Seq::new(
        b.len(),
        |i: int| shown_pair(b[i]),
    ));
}

} // verus!
