//! Which wire format a path asks for, and which one a provider speaks.

use crate::config::Provider;
use crate::text::{
    borrow, cat, opt_text, own, same, split_once, split_text, strip_prefix, without_prefix,
};
use vstd::prelude::*;

verus! {

/// The wire format of a client.
#[derive(Debug, Clone, Copy, PartialEq, Eq, Structural)]
pub enum InputFormat {
    OpenAiChat,
    OpenAiResponses,
    AnthropicMessages,
    /// The list of models.
    Models,
}

/// The wire format of a provider.
#[derive(Debug, Clone, Copy, PartialEq, Eq, Structural)]
pub enum UpstreamFormat {
    OpenAiChat,
    OpenAiResponses,
    AnthropicMessages,
}

/// Whom a path asks, and in which format.
#[derive(Debug, PartialEq, Eq)]
pub struct Route {
    /// The provider; the default where there is none.
    pub provider: Option<String>,
    pub input: InputFormat,
}

/// What a route stands for.
#[verifier::ext_equal]
pub struct RouteView {
    pub provider: Option<Seq<char>>,
    pub input: InputFormat,
}

impl View for Route {
    type V = RouteView;

    open spec fn view(&self) -> RouteView {
        RouteView { provider: opt_text(self.provider), input: self.input }
    }
}

impl Clone for Route {
    fn clone(&self) -> (r: Route)
        ensures
            r@ == self@,
    {
        Route { provider: own(borrow(&self.provider)), input: self.input }
    }
}

/// What an optional route stands for.
pub open spec fn opt_route(o: Option<Route>) -> Option<RouteView> {
    match o {
        Some(r) => Some(r@),
        None => None,
    }
}

/// The format of a path without a provider.
pub open spec fn endpoint_of(path: Seq<char>) -> Option<InputFormat> {
    if path == "/chat/completions"@ || path == "/v1/chat/completions"@ {
        Some(InputFormat::OpenAiChat)
    } else if path == "/responses"@ || path == "/v1/responses"@ {
        Some(InputFormat::OpenAiResponses)
    } else if path == "/messages"@ || path == "/v1/messages"@ {
        Some(InputFormat::AnthropicMessages)
    } else {
        None
    }
}

/// Whether a path without a provider is that of the list of models.
pub open spec fn is_models_path(path: Seq<char>) -> bool {
    path == "/models"@ || path == "/v1/models"@
}

/// The provider that a path starts with, and the path behind it.
pub open spec fn provider_and_path(path: Seq<char>) -> Option<(Seq<char>, Seq<char>)> {
    match strip_prefix(path, "/"@) {
        None => None,
        Some(rest) => match split_once(rest, "/"@) {
            None => None,
            Some((provider, endpoint)) => if provider.len() == 0 {
                None
            } else {
                Some((provider, "/"@ + endpoint))
            },
        },
    }
}

/// The route of a path to one of the three formats: with the default provider, or with the one
/// that the path starts with.
pub open spec fn route_of(path: Seq<char>) -> Option<RouteView> {
    match endpoint_of(path) {
        Some(input) => Some(RouteView { provider: None, input }),
        None => match provider_and_path(path) {
            None => None,
            Some((provider, endpoint)) => match endpoint_of(endpoint) {
                None => None,
                Some(input) => Some(RouteView { provider: Some(provider), input }),
            },
        },
    }
}

/// The route of a path to the list of models.
pub open spec fn models_route_of(path: Seq<char>) -> Option<RouteView> {
    if is_models_path(path) {
        Some(RouteView { provider: None, input: InputFormat::Models })
    } else {
        match provider_and_path(path) {
            None => None,
            Some((provider, endpoint)) => if is_models_path(endpoint) {
                Some(RouteView { provider: Some(provider), input: InputFormat::Models })
            } else {
                None
            },
        }
    }
}

/// The route of a request: to one of the three formats, or to the list of models.
pub open spec fn request_route_of(path: Seq<char>) -> Option<RouteView> {
    match route_of(path) {
        Some(route) => Some(route),
        None => models_route_of(path),
    }
}

fn detect_endpoint(path: &str) -> (r: Option<InputFormat>)
    ensures
        r == endpoint_of(path@),
{
    if same(path, "/chat/completions") || same(path, "/v1/chat/completions") {
        Some(InputFormat::OpenAiChat)
    } else if same(path, "/responses") || same(path, "/v1/responses") {
        Some(InputFormat::OpenAiResponses)
    } else if same(path, "/messages") || same(path, "/v1/messages") {
        Some(InputFormat::AnthropicMessages)
    } else {
        None
    }
}

fn split_provider(path: &str) -> (r: Option<(String, String)>)
    ensures
        match r {
            Some((provider, endpoint)) => provider_and_path(path@) == Some(
                (provider@, endpoint@),
            ),
            None => provider_and_path(path@) is None,
        },
{
    let rest = match without_prefix(path, "/") {
        Some(rest) => rest,
        None => {
            return None;
        },
    };
    match split_text(rest.as_str(), "/") {
        Some((provider, endpoint)) => {
            proof {
                reveal_strlit("");
                if provider@.len() == 0 {
                    assert(provider@ =~= ""@);
                }
            }
            if same(provider.as_str(), "") {
                None
            } else {
                let endpoint = cat("/", endpoint.as_str());
                Some((provider, endpoint))
            }
        },
        None => None,
    }
}

/// The route of a path to one of the three formats.
pub fn detect_route(path: &str) -> (r: Option<Route>)
    ensures
        opt_route(r) == route_of(path@),
{
    if let Some(input) = detect_endpoint(path) {
        return Some(Route { provider: None, input });
    }
    match split_provider(path) {
        Some((provider, endpoint)) => match detect_endpoint(endpoint.as_str()) {
            Some(input) => Some(Route { provider: Some(provider), input }),
            None => None,
        },
        None => None,
    }
}

/// The route of a request.
pub fn detect_request_route(path: &str) -> (r: Option<Route>)
    ensures
        opt_route(r) == request_route_of(path@),
{
    if let Some(route) = detect_route(path) {
        return Some(route);
    }
    if same(path, "/models") || same(path, "/v1/models") {
        return Some(Route { provider: None, input: InputFormat::Models });
    }
    match split_provider(path) {
        Some((provider, endpoint)) => {
            if same(endpoint.as_str(), "/models") || same(endpoint.as_str(), "/v1/models") {
                Some(Route { provider: Some(provider), input: InputFormat::Models })
            } else {
                None
            }
        },
        None => None,
    }
}

/// The format that a provider speaks.
pub open spec fn upstream_format(p: Provider) -> UpstreamFormat {
    match p {
        Provider::OpenAiChat => UpstreamFormat::OpenAiChat,
        Provider::OpenAiResponses => UpstreamFormat::OpenAiResponses,
        Provider::Anthropic => UpstreamFormat::AnthropicMessages,
    }
}

/// The path at which a provider takes requests.
pub open spec fn upstream_path(p: Provider) -> Seq<char> {
    match p {
        Provider::OpenAiChat => "/chat/completions"@,
        Provider::OpenAiResponses => "/responses"@,
        Provider::Anthropic => "/messages"@,
    }
}

/// The format that a provider speaks, and the path at which it takes requests.
pub fn upstream_for(provider: Provider) -> (r: (UpstreamFormat, &'static str))
    ensures
        r.0 == upstream_format(provider),
        r.1@ == upstream_path(provider),
{
    match provider {
        Provider::OpenAiChat => (UpstreamFormat::OpenAiChat, "/chat/completions"),
        Provider::OpenAiResponses => (UpstreamFormat::OpenAiResponses, "/responses"),
        Provider::Anthropic => (UpstreamFormat::AnthropicMessages, "/messages"),
    }
}

/// The format of a client that speaks as the provider does.
pub open spec fn own_format(p: Provider) -> InputFormat {
    match p {
        Provider::OpenAiChat => InputFormat::OpenAiChat,
        Provider::OpenAiResponses => InputFormat::OpenAiResponses,
        Provider::Anthropic => InputFormat::AnthropicMessages,
    }
}

/// Whether a request needs no conversion.
pub open spec fn transparent(input: InputFormat, upstream: UpstreamFormat) -> bool {
    match upstream {
        UpstreamFormat::OpenAiChat => input == InputFormat::OpenAiChat,
        UpstreamFormat::OpenAiResponses => input == InputFormat::OpenAiResponses,
        UpstreamFormat::AnthropicMessages => input == InputFormat::AnthropicMessages,
    }
}

/// Whether a request needs no conversion.
pub fn is_transparent(input: InputFormat, upstream: UpstreamFormat) -> (r: bool)
    ensures
        r == transparent(input, upstream),
{
    match (input, upstream) {
        (InputFormat::OpenAiChat, UpstreamFormat::OpenAiChat) => true,
        (InputFormat::OpenAiResponses, UpstreamFormat::OpenAiResponses) => true,
        (InputFormat::AnthropicMessages, UpstreamFormat::AnthropicMessages) => true,
        _ => false,
    }
}

/// A request needs no conversion exactly where the client speaks as the provider does.
pub proof fn transparent_iff_own_format(input: InputFormat, p: Provider)
    ensures
        transparent(input, upstream_format(p)) <==> input == own_format(p),
{
}

/// The path of a provider's own format leads to the default provider in that format.
pub proof fn default_route_found(p: Provider)
    ensures
        route_of(upstream_path(p)) == Some(RouteView { provider: None, input: own_format(p) }),
{
    reveal_strlit("/chat/completions");
    reveal_strlit("/v1/chat/completions");
    reveal_strlit("/responses");
    reveal_strlit("/v1/responses");
    reveal_strlit("/messages");
    reveal_strlit("/v1/messages");
    assert("/chat/completions"@.len() == 17 && "/v1/chat/completions"@.len() == 20);
    assert("/responses"@.len() == 10 && "/v1/responses"@.len() == 13);
    assert("/messages"@.len() == 9 && "/v1/messages"@.len() == 12);
}

proof fn split_at_slash(name: Seq<char>, rest: Seq<char>)
    requires
        forall|i: int| 0 <= i < name.len() ==> name[i] != '/',
    ensures
        crate::text::first_match(name + "/"@ + rest, "/"@) == Some(name.len() as int),
    decreases name.len(),
{
    reveal_strlit("/");
    let whole = name + "/"@ + rest;
    if name.len() == 0 {
        assert("/"@ =~= whole.subrange(0, 1));
        assert("/"@.is_prefix_of(whole));
    } else {
        assert(whole[0] == name[0]);
        assert(!"/"@.is_prefix_of(whole)) by {
            if "/"@.is_prefix_of(whole) {
                assert(whole.subrange(0, 1)[0] == '/');
            }
        }
        let tail = name.subrange(1, name.len() as int);
        split_at_slash(tail, rest);
        assert(whole.subrange(1, whole.len() as int) =~= tail + "/"@ + rest);
    }
}

/// A provider's name in front of the path of a format leads to that provider in that format. The
/// name `v1` is that of a version in a path, not of a provider.
pub proof fn named_route_found(name: Seq<char>, p: Provider)
    requires
        name.len() > 0,
        forall|i: int| 0 <= i < name.len() ==> name[i] != '/',
        name != "v1"@,
    ensures
        route_of("/"@ + name + upstream_path(p)) == Some(
            RouteView { provider: Some(name), input: own_format(p) },
        ),
{
    let whole = "/"@ + name + upstream_path(p);
    reveal_strlit("/");
    reveal_strlit("v1");
    reveal_strlit("/chat/completions");
    reveal_strlit("/v1/chat/completions");
    reveal_strlit("/responses");
    reveal_strlit("/v1/responses");
    reveal_strlit("/messages");
    reveal_strlit("/v1/messages");
    let n = name.len() as int;
    assert(whole[1 + n] == '/');
    assert forall|i: int| 1 <= i <= n implies whole[i] != '/' by {
        assert(whole[i] == name[i - 1]);
    }
    assert(endpoint_of(whole) is None) by {
        if whole == "/chat/completions"@ {
            assert(n >= 4);
            assert(whole[5] == '/');
            assert(n == 4);
            assert(whole.len() == 17);
        }
        if whole == "/responses"@ {
            assert(whole[1 + n] == "/responses"@[1 + n]);
        }
        if whole == "/messages"@ {
            assert(whole[1 + n] == "/messages"@[1 + n]);
        }
        if whole == "/v1/chat/completions"@ || whole == "/v1/responses"@ || whole
            == "/v1/messages"@ {
            assert(whole[3] == '/');
            assert(whole[1] == 'v' && whole[2] == '1');
            assert(n <= 2);
            assert(n == 2);
            assert(name =~= "v1"@) by {
                assert(name[0] == whole[1] && name[1] == whole[2]);
            }
        }
    }
    let path = upstream_path(p);
    let rest = path.subrange(1, path.len() as int);
    assert(path =~= "/"@ + rest);
    assert(strip_prefix(whole, "/"@) == Some(name + "/"@ + rest)) by {
        assert("/"@ =~= whole.subrange(0, 1));
        assert(whole.skip(1) =~= name + "/"@ + rest);
    }
    split_at_slash(name, rest);
    let tail = name + "/"@ + rest;
    assert(tail.take(n) =~= name);
    assert(tail.skip(n + 1) =~= rest);
    assert(provider_and_path(whole) == Some((name, path)));
    default_route_found(p);
}

} // verus!
