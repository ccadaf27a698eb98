//! The list of models, in the form of either client.

use crate::adapters::common::{
    array0, array1, json2, json_array0, json_array1, object1, object2, json1,
};
use crate::headers::{get_header_text, header_content, header_text_of, known_headers, Headers};
use crate::json::{jint, jtext, lookup, Json, JsonMap, JsonView};
use crate::model::{no_fields, Fields};
use crate::query::{any_pair, form_pairs, has_pair, parse_pairs};
use crate::seqs::views;
use crate::text::{lower, lower_text, opt_str, same, starts_with};
use axum::http::HeaderMap;
use vstd::prelude::*;

verus! {

/// Whether a client is Codex: by a version of the client in the query, or by its name.
pub open spec fn codex_client(h: Headers, query: Option<Seq<char>>) -> bool {
    ||| (query matches Some(q) && has_pair(form_pairs(q), "client_version"@, None))
    ||| (header_text_of(h, "user-agent"@) matches Some(agent) && "codex"@.is_prefix_of(
        lower_text(agent),
    ))
}

/// Whether a client is Codex.
pub fn is_codex_client(headers: &HeaderMap, query: Option<&str>) -> (r: bool)
    ensures
        r == codex_client(header_content(*headers), opt_str(query)),
{
    proof {
        known_headers();
    }
    if let Some(query) = query {
        if any_pair(&parse_pairs(query), "client_version", None) {
            return true;
        }
    }
    match get_header_text(headers, "user-agent") {
        Some(agent) => starts_with(lower(agent.as_str()).as_str(), "codex"),
        None => false,
    }
}

/// A model without what is missing for Codex: each field that it lacks has its default.
pub open spec fn with_default(m: Fields, key: Seq<char>, value: JsonView) -> Fields {
    if m.contains_key(key) {
        m
    } else {
        m.insert(key, value)
    }
}

fn put_default(m: &mut JsonMap, key: &str, value: Json)
    ensures
        final(m)@ == with_default(old(m)@, key@, value@),
{
    if !m.contains_key(key) {
        m.put(key, value);
    }
}

/// The text of a field, where it has a character.
pub open spec fn filled_text(v: JsonView, key: Seq<char>) -> Option<Seq<char>> {
    match v.at(key).text() {
        Some(s) => if s.len() > 0 {
            Some(s)
        } else {
            None
        },
        None => None,
    }
}

fn filled_text_at<'a>(v: &'a Json, key: &str) -> (r: Option<&'a str>)
    ensures
        opt_str(r) == filled_text(v@, key@),
{
    match v.text_at(key) {
        Some(s) => {
            proof {
                reveal_strlit("");
                if s@.len() == 0 {
                    assert(s@ =~= ""@);
                }
            }
            if same(s, "") {
                None
            } else {
                Some(s)
            }
        },
        None => None,
    }
}

/// A model of the list of OpenAI, as one of the list of Codex.
pub open spec fn codex_fields(m: Fields, id: Seq<char>) -> Fields {
    let m = m.insert("slug"@, jtext(id));
    let m = with_default(m, "display_name"@, jtext(id));
    let m = with_default(m, "supported_reasoning_levels"@, array0());
    let m = with_default(m, "shell_type"@, jtext("unified_exec"@));
    let m = with_default(m, "visibility"@, jtext("list"@));
    let m = with_default(m, "supported_in_api"@, JsonView::Bool(true));
    let m = with_default(m, "priority"@, jint(0));
    let m = with_default(m, "availability_nux"@, JsonView::Null);
    let m = with_default(m, "upgrade"@, JsonView::Null);
    let m = with_default(m, "support_verbosity"@, JsonView::Bool(false));
    let m = with_default(
        m,
        "truncation_policy"@,
        object2("mode"@, jtext("tokens"@), "limit"@, jint(10000)),
    );
    let m = with_default(m, "experimental_supported_tools"@, array0());
    let m = with_default(m, "input_modalities"@, array1(jtext("text"@)));
    with_default(m, "base_instructions"@, jtext(""@))
}

/// A model of the list of OpenAI, as one of the list of Codex, or why it is none.
pub open spec fn codex_model(v: JsonView) -> Result<JsonView, Seq<char>> {
    match v {
        JsonView::Object(m) => match filled_text(v, "id"@) {
            Some(id) => Ok(JsonView::Object(codex_fields(m, id))),
            None => Err("upstream data item has no id"@),
        },
        _ => Err("upstream data item is not an object"@),
    }
}

/// A model of the list of Codex, as one of the list of OpenAI, or why it is none.
pub open spec fn api_model(v: JsonView) -> Result<JsonView, Seq<char>> {
    match filled_text(v, "slug"@) {
        None => Err("upstream model has no slug"@),
        Some(slug) => Ok(
            JsonView::Object(
                no_fields().insert("id"@, jtext(slug)).insert("object"@, jtext("model"@)).insert(
                    "created"@,
                    jint(
                        match v.at("created"@).uint() {
                            Some(n) => n,
                            None => 0,
                        },
                    ),
                ).insert(
                    "owned_by"@,
                    jtext(crate::text::or_text(v.at("owned_by"@).text(), "unknown"@)),
                ),
            ),
        ),
    }
}

/// A result by what it stands for.
pub open spec fn model_outcome(r: Result<Json, &'static str>) -> Result<JsonView, Seq<char>> {
    match r {
        Ok(v) => Ok(v@),
        Err(e) => Err(e@),
    }
}

fn to_codex_model(value: &Json) -> (r: Result<Json, &'static str>)
    ensures
        model_outcome(r) == codex_model(value@),
{
    let mut model = match value.as_object() {
        Some(fields) => fields.clone(),
        None => {
            return Err("upstream data item is not an object");
        },
    };
    let id = match filled_text_at(value, "id") {
        Some(id) => id,
        None => {
            return Err("upstream data item has no id");
        },
    };
    model.put_text("slug", id);
    put_default(&mut model, "display_name", Json::text(id));
    put_default(&mut model, "supported_reasoning_levels", json_array0());
    put_default(&mut model, "shell_type", Json::text("unified_exec"));
    put_default(&mut model, "visibility", Json::text("list"));
    put_default(&mut model, "supported_in_api", Json::bool(true));
    put_default(&mut model, "priority", Json::uint(0));
    put_default(&mut model, "availability_nux", Json::null());
    put_default(&mut model, "upgrade", Json::null());
    put_default(&mut model, "support_verbosity", Json::bool(false));
    put_default(
        &mut model,
        "truncation_policy",
        json2("mode", Json::text("tokens"), "limit", Json::uint(10000)),
    );
    put_default(&mut model, "experimental_supported_tools", json_array0());
    put_default(&mut model, "input_modalities", json_array1(Json::text("text")));
    put_default(&mut model, "base_instructions", Json::text(""));
    Ok(Json::object(model))
}

fn to_api_model(value: &Json) -> (r: Result<Json, &'static str>)
    ensures
        model_outcome(r) == api_model(value@),
{
    let slug = match filled_text_at(value, "slug") {
        Some(slug) => slug,
        None => {
            return Err("upstream model has no slug");
        },
    };
    let mut model = JsonMap::new();
    model.put_text("id", slug);
    model.put_text("object", "model");
    model.put_uint("created", value.uint_at("created").unwrap_or(0));
    model.put_text("owned_by", value.text_at("owned_by").unwrap_or("unknown"));
    Ok(Json::object(model))
}

/// Each model in the other form; where that fails for some, the error of the first.
pub open spec fn each_model(s: Seq<JsonView>, codex: bool) -> Result<Seq<JsonView>, Seq<char>>
    decreases s.len(),
{
    if s.len() == 0 {
        Ok(Seq::empty())
    } else {
        match each_model(s.drop_last(), codex) {
            Err(e) => Err(e),
            Ok(done) => match if codex {
                codex_model(s.last())
            } else {
                api_model(s.last())
            } {
                Err(e) => Err(e),
                Ok(v) => Ok(done.push(v)),
            },
        }
    }
}

proof fn each_model_fails(s: Seq<JsonView>, codex: bool, n: int)
    requires
        0 <= n <= s.len(),
        each_model(s.take(n), codex) is Err,
    ensures
        each_model(s, codex) == each_model(s.take(n), codex),
    decreases s.len() - n,
{
    if n < s.len() {
        assert(s.take(n + 1).drop_last() =~= s.take(n));
        each_model_fails(s, codex, n + 1);
    } else {
        assert(s.take(n) =~= s);
    }
}

fn convert_models(list: &Vec<Json>, codex: bool) -> (r: Result<Vec<Json>, &'static str>)
    ensures
        match r {
            Ok(v) => each_model(views(list@), codex) == Ok::<Seq<JsonView>, Seq<char>>(views(v@)),
            Err(e) => each_model(views(list@), codex) == Err::<Seq<JsonView>, Seq<char>>(e@),
        },
{
    let ghost all = views(list@);
    let mut out: Vec<Json> = Vec::new();
    let mut i: usize = 0;
    assert(all.take(0) =~= Seq::empty());
    assert(views(out@) =~= Seq::empty());
    while i < list.len()
        invariant
            all == views(list@),
            i <= list@.len(),
            each_model(all.take(i as int), codex) == Ok::<Seq<JsonView>, Seq<char>>(views(out@)),
        decreases list@.len() - i,
    {
        assert(all.take(i + 1).drop_last() =~= all.take(i as int));
        assert(all.take(i + 1).last() == list@[i as int]@);
        let ghost before = views(out@);
        let model = if codex {
            to_codex_model(&list[i])
        } else {
            to_api_model(&list[i])
        };
        match model {
            Ok(value) => {
                out.push(value);
                assert(views(out@) =~= before.push(value@));
            },
            Err(e) => {
                proof {
                    each_model_fails(all, codex, i + 1);
                }
                return Err(e);
            },
        }
        i = i + 1;
    }
    assert(all.take(i as int) =~= all);
    Ok(out)
}

/// The list of models in the form of the client: as it is, without the list in the other form,
/// where it has one in the client's; else the list in the other form, converted.
pub open spec fn client_models(value: JsonView, codex: bool) -> Result<JsonView, Seq<char>> {
    let (wanted, other) = if codex {
        ("models"@, "data"@)
    } else {
        ("data"@, "models"@)
    };
    if value.at(wanted).items() is Some {
        Ok(JsonView::Object(value.fields_or_none().remove(other)))
    } else {
        match value.at(other).items() {
            None => Err("upstream models response has no data or models array"@),
            Some(list) => match each_model(list, codex) {
                Err(e) => Err(e),
                Ok(models) => Ok(
                    if codex {
                        object1("models"@, JsonView::Array(models))
                    } else {
                        object2("object"@, jtext("list"@), "data"@, JsonView::Array(models))
                    },
                ),
            },
        }
    }
}

/// The list of models in the form of the client.
pub fn for_client(value: Json, codex: bool) -> (r: Result<Json, &'static str>)
    ensures
        model_outcome(r) == client_models(value@, codex),
{
    let (wanted, other) = if codex {
        ("models", "data")
    } else {
        ("data", "models")
    };
    if value.array_at(wanted).is_some() {
        let mut fields = value.fields();
        fields.remove(other);
        return Ok(Json::object(fields));
    }
    let list = match value.array_at(other) {
        Some(list) => list,
        None => {
            return Err("upstream models response has no data or models array");
        },
    };
    match convert_models(list, codex) {
        Ok(models) => {
            if codex {
                Ok(json1("models", Json::array(models)))
            } else {
                Ok(json2("object", Json::text("list"), "data", Json::array(models)))
            }
        },
        Err(e) => Err(e),
    }
}

/// A list in the form of the client is left as it is.
pub proof fn client_models_idempotent(value: JsonView, codex: bool)
    ensures
        client_models(value, codex) matches Ok(w) ==> client_models(w, codex) == Ok::<
            JsonView,
            Seq<char>,
        >(w),
{
    reveal_strlit("models");
    reveal_strlit("data");
    reveal_strlit("object");
    assert("models"@.len() == 6 && "data"@.len() == 4 && "object"@.len() == 6);
    assert("models"@[0] != "object"@[0]);
    if let Ok(w) = client_models(value, codex) {
        let (wanted, other) = if codex {
            ("models"@, "data"@)
        } else {
            ("data"@, "models"@)
        };
        let m = w.fields_or_none();
        assert(w == JsonView::Object(m));
        assert(!m.contains_key(other));
        assert(m.remove(other) =~= m);
        assert(w.at(wanted).items() is Some);
    }
}

proof fn defaults_keep(m: Fields, id: Seq<char>, key: Seq<char>)
    requires
        key != "display_name"@,
        key != "supported_reasoning_levels"@,
        key != "shell_type"@,
        key != "visibility"@,
        key != "supported_in_api"@,
        key != "priority"@,
        key != "availability_nux"@,
        key != "upgrade"@,
        key != "support_verbosity"@,
        key != "truncation_policy"@,
        key != "experimental_supported_tools"@,
        key != "input_modalities"@,
        key != "base_instructions"@,
    ensures
        lookup(codex_fields(m, id), key) == lookup(m.insert("slug"@, jtext(id)), key),
{
}

proof fn fields_differ()
    ensures
        "slug"@ != "display_name"@,
        "slug"@ != "supported_reasoning_levels"@,
        "slug"@ != "shell_type"@,
        "slug"@ != "visibility"@,
        "slug"@ != "supported_in_api"@,
        "slug"@ != "priority"@,
        "slug"@ != "availability_nux"@,
        "slug"@ != "upgrade"@,
        "slug"@ != "support_verbosity"@,
        "slug"@ != "truncation_policy"@,
        "slug"@ != "experimental_supported_tools"@,
        "slug"@ != "input_modalities"@,
        "slug"@ != "base_instructions"@,
        "created"@ != "display_name"@,
        "created"@ != "supported_reasoning_levels"@,
        "created"@ != "shell_type"@,
        "created"@ != "visibility"@,
        "created"@ != "supported_in_api"@,
        "created"@ != "priority"@,
        "created"@ != "availability_nux"@,
        "created"@ != "upgrade"@,
        "created"@ != "support_verbosity"@,
        "created"@ != "truncation_policy"@,
        "created"@ != "experimental_supported_tools"@,
        "created"@ != "input_modalities"@,
        "created"@ != "base_instructions"@,
        "created"@ != "slug"@,
        "owned_by"@ != "display_name"@,
        "owned_by"@ != "supported_reasoning_levels"@,
        "owned_by"@ != "shell_type"@,
        "owned_by"@ != "visibility"@,
        "owned_by"@ != "supported_in_api"@,
        "owned_by"@ != "priority"@,
        "owned_by"@ != "availability_nux"@,
        "owned_by"@ != "upgrade"@,
        "owned_by"@ != "support_verbosity"@,
        "owned_by"@ != "truncation_policy"@,
        "owned_by"@ != "experimental_supported_tools"@,
        "owned_by"@ != "input_modalities"@,
        "owned_by"@ != "base_instructions"@,
        "owned_by"@ != "slug"@,
{
    reveal_strlit("display_name");
    reveal_strlit("supported_reasoning_levels");
    reveal_strlit("shell_type");
    reveal_strlit("visibility");
    reveal_strlit("supported_in_api");
    reveal_strlit("priority");
    reveal_strlit("availability_nux");
    reveal_strlit("upgrade");
    reveal_strlit("support_verbosity");
    reveal_strlit("truncation_policy");
    reveal_strlit("experimental_supported_tools");
    reveal_strlit("input_modalities");
    reveal_strlit("base_instructions");
    reveal_strlit("slug");
    reveal_strlit("created");
    reveal_strlit("owned_by");
    assert("display_name"@.len() == 12);
    assert("supported_reasoning_levels"@.len() == 26);
    assert("shell_type"@.len() == 10);
    assert("visibility"@.len() == 10);
    assert("supported_in_api"@.len() == 16);
    assert("priority"@.len() == 8);
    assert("availability_nux"@.len() == 16);
    assert("upgrade"@.len() == 7);
    assert("support_verbosity"@.len() == 17);
    assert("truncation_policy"@.len() == 17);
    assert("experimental_supported_tools"@.len() == 28);
    assert("input_modalities"@.len() == 16);
    assert("base_instructions"@.len() == 17);
    assert("slug"@.len() == 4);
    assert("created"@.len() == 7);
    assert("owned_by"@.len() == 8);
    assert("created"@[0] != "upgrade"@[0]);
    assert("owned_by"@[0] != "priority"@[0]);
}

/// What a list of OpenAI says of a model, its name, its time and its owner, is what it says again
/// after it was converted for Codex and back.
pub proof fn models_round_trip(v: JsonView)
    ensures
        codex_model(v) matches Ok(c) ==> {
            &&& api_model(c) matches Ok(a) && a.at("id"@).text() == v.at("id"@).text()
            &&& c.at("created"@) == v.at("created"@)
            &&& c.at("owned_by"@) == v.at("owned_by"@)
        },
{
    if let Ok(c) = codex_model(v) {
        let m = v->Object_0;
        let id = filled_text(v, "id"@)->Some_0;
        let f = codex_fields(m, id);
        fields_differ();
        defaults_keep(m, id, "slug"@);
        defaults_keep(m, id, "created"@);
        defaults_keep(m, id, "owned_by"@);
        assert(filled_text(JsonView::Object(f), "slug"@) == Some(id));
        reveal_strlit("created");
        reveal_strlit("owned_by");
        reveal_strlit("id");
        reveal_strlit("object");
        assert("created"@.len() == 7 && "owned_by"@.len() == 8 && "id"@.len() == 2
            && "object"@.len() == 6);
    }
}

/// A model in the other form.
pub open spec fn model_in(v: JsonView, codex: bool) -> Result<JsonView, Seq<char>> {
    if codex {
        codex_model(v)
    } else {
        api_model(v)
    }
}

/// Converting a list goes model by model: each stands at its place, none is lost or added, and the
/// conversion fails exactly where one of them cannot be converted.
pub proof fn every_model_is_converted(s: Seq<JsonView>, codex: bool)
    ensures
        each_model(s, codex) matches Ok(out) ==> out.len() == s.len() && forall|i: int|
            0 <= i < s.len() ==> #[trigger] model_in(s[i], codex) == Ok::<JsonView, Seq<char>>(
                out[i],
            ),
        each_model(s, codex) is Err <==> exists|i: int|
            0 <= i < s.len() && #[trigger] model_in(s[i], codex) is Err,
    decreases s.len(),
{
    if s.len() > 0 {
        let front = s.drop_last();
        let n = s.len() - 1;
        every_model_is_converted(front, codex);
        assert(model_in(s[n], codex) == model_in(s.last(), codex));
        if each_model(front, codex) is Err {
            let i = choose|i: int| 0 <= i < front.len() && #[trigger] model_in(front[i], codex) is Err;
            assert(model_in(s[i], codex) is Err);
        } else if let Ok(out) = each_model(s, codex) {
            assert forall|i: int| 0 <= i < s.len() implies #[trigger] model_in(s[i], codex) == Ok::<
                JsonView,
                Seq<char>,
            >(out[i]) by {
                if i < n {
                    assert(model_in(front[i], codex) == Ok::<JsonView, Seq<char>>(out[i]));
                }
            }
        }
    }
}

/// A model that is converted for Codex goes by its name, and keeps whatever the provider says of
/// it; one without a name is refused.
pub proof fn codex_models_keep_what_is_said(v: JsonView, key: Seq<char>)
    ensures
        codex_model(v) is Ok <==> v is Object && (v.at("id"@).text() matches Some(id) && id.len()
            > 0),
        codex_model(v) matches Ok(c) ==> c.at("slug"@) == v.at("id"@),
        codex_model(v) matches Ok(c) ==> (key != "slug"@ && v.field(key) is Some ==> c.field(key)
            == v.field(key)),
        codex_model(v) matches Ok(c) ==> (v.field("display_name"@) is None ==> c.at(
            "display_name"@,
        ) == v.at("id"@)),
{
    fields_differ();
    if let Ok(c) = codex_model(v) {
        let m = v->Object_0;
        let id = filled_text(v, "id"@)->Some_0;
        defaults_keep(m, id, "slug"@);
        assert(c == JsonView::Object(codex_fields(m, id)));
        shown_by_id(m, id);
    }
}

proof fn shown_by_id(m: Fields, id: Seq<char>)
    ensures
        lookup(m, "display_name"@) is None ==> lookup(codex_fields(m, id), "display_name"@) == Some(
            jtext(id),
        ),
{
    fields_differ();
}

/// A model that is converted from the list of Codex goes by its name, with the time and the owner
/// that the provider says; one without a name is refused.
pub proof fn api_models_keep_what_is_said(v: JsonView)
    ensures
        api_model(v) is Ok <==> (v.at("slug"@).text() matches Some(slug) && slug.len() > 0),
        api_model(v) matches Ok(a) ==> {
            &&& a.at("id"@) == v.at("slug"@)
            &&& a.at("object"@) == jtext("model"@)
            &&& v.at("created"@).uint() is Some ==> a.at("created"@) == v.at("created"@)
            &&& v.at("created"@).uint() is None ==> a.at("created"@) == jint(0)
            &&& v.at("owned_by"@).text() is Some ==> a.at("owned_by"@) == v.at("owned_by"@)
            &&& v.at("owned_by"@).text() is None ==> a.at("owned_by"@) == jtext("unknown"@)
        },
{
    reveal_strlit("created");
    reveal_strlit("owned_by");
    reveal_strlit("id");
    reveal_strlit("object");
    assert("created"@.len() == 7 && "owned_by"@.len() == 8 && "id"@.len() == 2 && "object"@.len()
        == 6);
}

/// A client is shown the models of the provider: as they are where the list has the client's form,
/// else each of them converted, in their order; and nothing where there is no list.
pub proof fn clients_are_shown_every_model(value: JsonView, codex: bool)
    ensures
        ({
            let (wanted, other) = if codex {
                ("models"@, "data"@)
            } else {
                ("data"@, "models"@)
            };
            &&& value.at(wanted) is Array ==> (client_models(value, codex) matches Ok(w) && w.at(
                wanted,
            ) == value.at(wanted) && w.field(other) is None)
            &&& !(value.at(wanted) is Array) && value.at(other) is Array ==> (client_models(
                value,
                codex,
            ) matches Ok(w) ==> each_model(value.at(other).list(), codex) == Ok::<
                Seq<JsonView>,
                Seq<char>,
            >(w.at(wanted).list()) && w.field(other) is None)
            &&& !(value.at(wanted) is Array) && !(value.at(other) is Array) ==> client_models(
                value,
                codex,
            ) is Err
        }),
        !codex && !(value.at("data"@) is Array) ==> (client_models(value, codex) matches Ok(w)
            ==> w.at("object"@) == jtext("list"@)),
{
    reveal_strlit("models");
    reveal_strlit("data");
    reveal_strlit("object");
    assert("models"@.len() == 6 && "data"@.len() == 4 && "object"@.len() == 6);
    assert("models"@[0] != "object"@[0]);
}

} // verus!
