//! What the adapters of all wire formats share.

use super::error::{AdapterError, ErrorView};
use crate::json::{opt_view, Json, JsonMap, JsonView};
use crate::model::{
    no_fields, ContentView, Fields, LLMContent, LLMContentKind, LLMMediaSource, LLMMessage,
    LLMProtocol, LLMRequest, MediaView, MessageView, RequestView,
};
use crate::text::{borrow, one_of, or_text, same, text_before, text_before_total_order, texts};
use crate::wire::{double, double_of, parse, render, text_value, value_text};
use vstd::prelude::*;

verus! {

/// The name of a wire format.
pub open spec fn protocol_text(p: LLMProtocol) -> Seq<char> {
    match p {
        LLMProtocol::OpenAiChat => "OpenAiChat"@,
        LLMProtocol::OpenAiResponses => "OpenAiResponses"@,
        LLMProtocol::AnthropicMessages => "AnthropicMessages"@,
    }
}

/// The name of a wire format.
pub(crate) fn protocol_name(p: LLMProtocol) -> (r: &'static str)
    ensures
        r@ == protocol_text(p),
{
    match p {
        LLMProtocol::OpenAiChat => "OpenAiChat",
        LLMProtocol::OpenAiResponses => "OpenAiResponses",
        LLMProtocol::AnthropicMessages => "AnthropicMessages",
    }
}

/// The extensions of a message, for its own format only.
pub open spec fn message_fields(m: MessageView, target: LLMProtocol) -> Fields {
    if m.source == Some(target) {
        m.metadata
    } else {
        no_fields()
    }
}

/// The extensions of a message, for its own format only.
pub(crate) fn message_extensions_for(message: &LLMMessage, target: LLMProtocol) -> (r: JsonMap)
    ensures
        r@ == message_fields(message@, target),
{
    match message.source {
        Some(source) => if source == target {
            message.metadata.clone()
        } else {
            JsonMap::new()
        },
        None => JsonMap::new(),
    }
}

/// The extensions of a part of a message, for its own format only.
pub open spec fn content_fields(c: ContentView, target: LLMProtocol) -> Fields {
    if c.source == Some(target) {
        c.metadata
    } else {
        no_fields()
    }
}

/// The extensions of a part of a message, for its own format only.
pub(crate) fn content_extensions_for(content: &LLMContent, target: LLMProtocol) -> (r: JsonMap)
    ensures
        r@ == content_fields(content@, target),
{
    match content.source {
        Some(source) => if source == target {
            content.metadata.clone()
        } else {
            JsonMap::new()
        },
        None => JsonMap::new(),
    }
}

/// Whether a field of a request says what is so without it.
pub open spec fn says_nothing(name: Seq<char>, value: JsonView) -> bool {
    if value == JsonView::Null || value.text() == Some(""@) || value.items() == Some(
        Seq::<JsonView>::empty(),
    ) || value.fields() == Some(Map::<Seq<char>, JsonView>::empty()) {
        true
    } else if name == "n"@ {
        value.uint() == Some(1u64)
    } else if name == "background"@ || name == "logprobs"@ || name == "store"@ {
        value.truth() == Some(false)
    } else if name == "frequency_penalty"@ || name == "presence_penalty"@ || name
        == "top_logprobs"@ {
        is_zero(double_of(value))
    } else if name == "modalities"@ {
        value is Array && forall|i: int|
            0 <= i < value.list().len() ==> (#[trigger] value.list()[i]).text() == Some("text"@)
    } else if name == "truncation"@ {
        value.text() == Some("disabled"@)
    } else {
        false
    }
}

/// Whether a double, by its text, is zero.
pub open spec fn is_zero(text: Option<Seq<char>>) -> bool {
    text == Some("0.0"@) || text == Some("-0.0"@)
}

/// Whether `text` is there and is `word`.
pub(crate) fn equals(text: Option<&str>, word: &str) -> (r: bool)
    ensures
        r == (crate::text::opt_str(text) == Some(word@)),
{
    match text {
        Some(text) => same(text, word),
        None => false,
    }
}

/// Whether every item is the text `word`.
fn all_are(items: &Vec<Json>, word: &str) -> (r: bool)
    ensures
        r == forall|i: int|
            0 <= i < items@.len() ==> (#[trigger] crate::seqs::views(items@)[i]).text() == Some(
                word@,
            ),
{
    let ghost all = crate::seqs::views(items@);
    let mut i: usize = 0;
    while i < items.len()
        invariant
            all == crate::seqs::views(items@),
            i <= items@.len(),
            forall|j: int| 0 <= j < i ==> (#[trigger] all[j]).text() == Some(word@),
        decreases items@.len() - i,
    {
        if !equals(items[i].as_text(), word) {
            assert(all[i as int].text() != Some(word@));
            return false;
        }
        i = i + 1;
    }
    true
}

/// Whether a field of a request says what is so without it.
pub(crate) fn is_effectively_default(name: &str, value: &Json) -> (r: bool)
    ensures
        r == says_nothing(name@, value@),
{
    if value.is_null() || equals(value.as_text(), "") {
        return true;
    }
    if let Some(items) = value.as_array() {
        if items.len() == 0 {
            assert(value@.list() =~= Seq::empty());
            return true;
        }
        assert(value@.list().len() > 0);
    }
    if let Some(fields) = value.as_object() {
        if fields.is_empty() {
            return true;
        }
    }
    if same(name, "n") {
        match value.as_uint() {
            Some(n) => n == 1,
            None => false,
        }
    } else if same(name, "background") || same(name, "logprobs") || same(name, "store") {
        match value.as_bool() {
            Some(b) => !b,
            None => false,
        }
    } else if same(name, "frequency_penalty") || same(name, "presence_penalty") || same(
        name,
        "top_logprobs",
    ) {
        match double(value) {
            Some(f) => same(f.as_text(), "0.0") || same(f.as_text(), "-0.0"),
            None => false,
        }
    } else if same(name, "modalities") {
        match value.as_array() {
            Some(items) => all_are(items, "text"),
            None => false,
        }
    } else if same(name, "truncation") {
        equals(value.as_text(), "disabled")
    } else {
        false
    }
}

/// Whether the field `name` of a request has no form in the target format.
pub open spec fn refused(extra: Fields, accepted: Seq<Seq<char>>, name: Seq<char>) -> bool {
    extra.contains_key(name) && !accepted.contains(name) && !says_nothing(name, extra[name])
}

/// Whether `name` is the first, in the order of names, that is refused.
pub open spec fn refused_first(extra: Fields, accepted: Seq<Seq<char>>, name: Seq<char>) -> bool {
    refused(extra, accepted, name) && forall|k: Seq<char>| #[trigger]
        refused(extra, accepted, k) ==> k == name || text_before(name, k)
}

/// The first field of a request that is refused.
pub open spec fn first_refused(extra: Fields, accepted: Seq<Seq<char>>) -> Option<Seq<char>> {
    if exists|k: Seq<char>| refused(extra, accepted, k) {
        Some(choose|k: Seq<char>| refused_first(extra, accepted, k))
    } else {
        None
    }
}

/// Why a request with fields that are refused is refused.
pub open spec fn extras_outcome(
    r: RequestView,
    target: LLMProtocol,
    accepted: Seq<Seq<char>>,
) -> Result<(), ErrorView> {
    match first_refused(r.extra, accepted) {
        Some(name) => Err(
            ErrorView::Unsupported(
                protocol_text(target) + " cannot preserve "@ + protocol_text(r.source)
                    + " request field `"@ + name + "`"@,
            ),
        ),
        None => Ok(()),
    }
}

/// Refuses a request with a field that the target format has no form for: one that is not among
/// `accepted` and says something.
pub(crate) fn validate_request_extras(
    request: &LLMRequest,
    target: LLMProtocol,
    accepted: &[&str],
) -> (r: Result<(), AdapterError>)
    ensures
        match r {
            Ok(()) => extras_outcome(request@, target, texts(accepted@)) is Ok,
            Err(e) => extras_outcome(request@, target, texts(accepted@)) == Err::<(), ErrorView>(
                e@,
            ),
        },
{
    let ghost extra = request.extra@;
    let ghost known = texts(accepted@);
    let n = request.extra.len();
    let ghost names = request.extra.names();
    let mut i: usize = 0;
    while i < n
        invariant
            extra == request.extra@,
            known == texts(accepted@),
            names == request.extra.names(),
            n == names.len(),
            request.extra.well_listed(),
            i <= n,
            forall|j: int| 0 <= j < i ==> !refused(extra, known, #[trigger] names[j]),
        decreases n - i,
    {
        let name = request.extra.name_at(i);
        let value = request.extra.value_at(i);
        if !one_of(name, accepted) && !is_effectively_default(name, value) {
            proof {
                let k0 = names[i as int];
                assert(refused(extra, known, k0));
                assert forall|k: Seq<char>| #[trigger] refused(extra, known, k) implies k == k0
                    || text_before(k0, k) by {
                    let j = choose|j: int| 0 <= j < names.len() && names[j] == k;
                    if j < i {
                        assert(!refused(extra, known, names[j]));
                    } else if j > i {
                        assert(text_before(names[i as int], names[j]));
                    }
                }
                assert(refused_first(extra, known, k0));
                let c = choose|k: Seq<char>| refused_first(extra, known, k);
                text_before_total_order(c, k0, c);
                assert(refused_first(extra, known, c));
                if c != k0 {
                    assert(text_before(c, k0) && text_before(k0, c));
                }
            }
            let mut message = protocol_name(target).to_owned();
            message.push_str(" cannot preserve ");
            message.push_str(protocol_name(request.source));
            message.push_str(" request field `");
            message.push_str(name);
            message.push_str("`");
            return Err(AdapterError::Unsupported(message));
        }
        i = i + 1;
    }
    assert forall|k: Seq<char>| !refused(extra, known, k) by {
        if refused(extra, known, k) {
            let j = choose|j: int| 0 <= j < names.len() && names[j] == k;
            assert(!refused(extra, known, names[j]));
        }
    }
    Ok(())
}

/// The arguments of a call, read from their text; the text itself where it is no JSON.
pub open spec fn arguments_of(text: Seq<char>) -> JsonView {
    match text_value(text) {
        Some(v) => v,
        None => JsonView::Text(text),
    }
}

/// The value that was read, or the one for a text that is no JSON.
pub fn read_or(parsed: Option<Json>, other: Json) -> (r: Json)
    ensures
        r@ == match opt_view(parsed) {
            Some(v) => v,
            None => other@,
        },
{
    match parsed {
        Some(value) => value,
        None => other,
    }
}

/// The arguments of a call, read from their text; the text itself where it is no JSON.
pub(crate) fn parse_arguments(arguments: &str) -> (r: Json)
    ensures
        r@ == arguments_of(arguments@),
{
    read_or(parse(arguments), Json::text(arguments))
}

/// The text of the arguments of a call.
pub open spec fn arguments_text(arguments: JsonView) -> Seq<char> {
    match arguments {
        JsonView::Text(s) => s,
        _ => value_text(arguments),
    }
}

/// The text of the arguments of a call.
pub(crate) fn arguments_to_string(arguments: &Json) -> (r: String)
    ensures
        r@ == arguments_text(arguments@),
{
    match arguments.as_text() {
        Some(s) => s.to_owned(),
        None => render(arguments),
    }
}

/// The address of a source of media.
pub open spec fn media_url(source: MediaView) -> Seq<char> {
    match source {
        MediaView::Url { url } => url,
        MediaView::Data { data, media_type } => "data:"@ + or_text(
            media_type,
            "application/octet-stream"@,
        ) + ";base64,"@ + data,
        MediaView::FileId { file_id } => file_id,
        MediaView::Raw { value } => or_text(value.text(), ""@),
    }
}

/// The address of a source of media.
pub(crate) fn media_source_to_url(source: &LLMMediaSource) -> (r: String)
    ensures
        r@ == media_url(source@),
{
    match source {
        LLMMediaSource::Url { url } => url.clone(),
        LLMMediaSource::Data { data, media_type } => {
            let mut s = "data:".to_owned();
            s.push_str(borrow(media_type).unwrap_or("application/octet-stream"));
            s.push_str(";base64,");
            s.push_str(data.as_str());
            s
        },
        LLMMediaSource::FileId { file_id } => file_id.clone(),
        LLMMediaSource::Raw { value } => value.as_text().unwrap_or("").to_owned(),
    }
}

/// Whether every part is a text.
pub open spec fn all_text(s: Seq<ContentView>) -> bool {
    forall|i: int| 0 <= i < s.len() ==> (#[trigger] s[i]).kind is Text
}

/// Whether every part is a text.
pub(crate) fn is_all_text(content: &[LLMContent]) -> (r: bool)
    ensures
        r == all_text(crate::model::content_views(content@)),
{
    let ghost all = crate::model::content_views(content@);
    let mut i: usize = 0;
    while i < content.len()
        invariant
            all == crate::model::content_views(content@),
            i <= content@.len(),
            forall|j: int| 0 <= j < i ==> (#[trigger] all[j]).kind is Text,
        decreases content@.len() - i,
    {
        match &content[i].kind {
            LLMContentKind::Text { .. } => {},
            _ => {
                assert(!(all[i as int].kind is Text));
                return false;
            },
        }
        i = i + 1;
    }
    true
}

/// An error that names what a format cannot represent.
pub open spec fn cannot(
    who: Seq<char>,
    protocol: LLMProtocol,
    what: Seq<char>,
    item: Seq<char>,
) -> ErrorView {
    ErrorView::Unsupported(who + protocol_text(protocol) + what + item + "`"@)
}

/// An error that names what a format cannot represent.
pub(crate) fn cannot_represent(
    who: &str,
    protocol: LLMProtocol,
    what: &str,
    item: &str,
) -> (r: AdapterError)
    ensures
        r@ == cannot(who@, protocol, what@, item@),
{
    let mut message = who.to_owned();
    message.push_str(protocol_name(protocol));
    message.push_str(what);
    message.push_str(item);
    message.push_str("`");
    AdapterError::Unsupported(message)
}

/// The type that a raw value gives itself.
pub open spec fn raw_type(value: JsonView) -> Seq<char> {
    or_text(value.at("type"@).text(), "unknown"@)
}

/// An object with a field that is `key`.
pub open spec fn object1(k1: Seq<char>, v1: JsonView) -> JsonView {
    JsonView::Object(no_fields().insert(k1, v1))
}

/// An object with one field.
pub(crate) fn json1(k1: &str, v1: Json) -> (r: Json)
    ensures
        r@ == object1(k1@, v1@),
{
    let mut m = JsonMap::new();
    m.put(k1, v1);
    Json::object(m)
}

/// An object with two fields.
pub open spec fn object2(k1: Seq<char>, v1: JsonView, k2: Seq<char>, v2: JsonView) -> JsonView {
    JsonView::Object(no_fields().insert(k1, v1).insert(k2, v2))
}

/// An object with two fields.
pub(crate) fn json2(k1: &str, v1: Json, k2: &str, v2: Json) -> (r: Json)
    ensures
        r@ == object2(k1@, v1@, k2@, v2@),
{
    let mut m = JsonMap::new();
    m.put(k1, v1);
    m.put(k2, v2);
    Json::object(m)
}

/// An object with three fields.
pub open spec fn object3(
    k1: Seq<char>,
    v1: JsonView,
    k2: Seq<char>,
    v2: JsonView,
    k3: Seq<char>,
    v3: JsonView,
) -> JsonView {
    JsonView::Object(no_fields().insert(k1, v1).insert(k2, v2).insert(k3, v3))
}

/// An object with three fields.
pub(crate) fn json3(k1: &str, v1: Json, k2: &str, v2: Json, k3: &str, v3: Json) -> (r: Json)
    ensures
        r@ == object3(k1@, v1@, k2@, v2@, k3@, v3@),
{
    let mut m = JsonMap::new();
    m.put(k1, v1);
    m.put(k2, v2);
    m.put(k3, v3);
    Json::object(m)
}

/// An array with one item.
pub open spec fn array1(v: JsonView) -> JsonView {
    JsonView::Array(seq![v])
}

/// An array with one item.
pub(crate) fn json_array1(v: Json) -> (r: Json)
    ensures
        r@ == array1(v@),
{
    let mut list: Vec<Json> = Vec::new();
    list.push(v);
    assert(crate::seqs::views(list@) =~= seq![v@]);
    Json::array(list)
}

/// An array without items.
pub open spec fn array0() -> JsonView {
    JsonView::Array(Seq::empty())
}

/// An array without items.
pub(crate) fn json_array0() -> (r: Json)
    ensures
        r@ == array0(),
{
    let list: Vec<Json> = Vec::new();
    assert(crate::seqs::views(list@) =~= Seq::empty());
    Json::array(list)
}

/// An object without fields.
pub open spec fn object0() -> JsonView {
    JsonView::Object(no_fields())
}

/// An object without fields.
pub(crate) fn json_object0() -> (r: Json)
    ensures
        r@ == object0(),
{
    Json::object(JsonMap::new())
}

/// The value with the field `key` set, where the value is an object or null (which becomes an
/// object); otherwise an error.
pub open spec fn with_field(value: JsonView, key: Seq<char>, v: JsonView) -> Result<
    JsonView,
    ErrorView,
> {
    match value {
        JsonView::Object(m) => Ok(JsonView::Object(m.insert(key, v))),
        JsonView::Null => Ok(object1(key, v)),
        _ => Err(ErrorView::NotAnObject),
    }
}

/// The value with the field `key` set.
pub(crate) fn set_field(value: Json, key: &str, v: Json) -> (r: Result<Json, AdapterError>)
    ensures
        crate::seqs::outcome(r) == with_field(value@, key@, v@),
{
    match value.as_object() {
        Some(m) => {
            let mut m = m.clone();
            m.put(key, v);
            Ok(Json::object(m))
        },
        None => if value.is_null() {
            Ok(json1(key, v))
        } else {
            Err(AdapterError::NotAnObject)
        },
    }
}

} // verus!
