//! The boundary to `serde_json`: values read from and written to text.

use crate::json::{int_num, opt_float, Case, Float, Json, JsonMap, JsonView, Num, NumView};
use crate::seqs::views;
use crate::text::opt_text;
use vstd::prelude::*;
use vstd::utf8::encode_utf8;

verus! {

/// `serde_json::Value`: an opaque tree, read one level at a time.
#[verifier::external_type_specification]
#[verifier::external_body]
pub struct ExValue(serde_json::Value);

/// What a `serde_json::Value` holds. A double is held by the text that it is displayed as.
pub uninterp spec fn value_content(v: serde_json::Value) -> JsonView;

/// What a text gives when it is read as a double (`str::parse`), kept where it is finite
/// (`serde_json::Number::from_f64`), and displayed again.
pub uninterp spec fn double_text(text: Seq<char>) -> Option<Seq<char>>;

/// What `serde_json::Value::as_f64` gives, displayed as a `serde_json::Number`.
pub uninterp spec fn double_of(v: JsonView) -> Option<Seq<char>>;

/// What `serde_json::from_str` reads from a text; nothing where it fails.
pub uninterp spec fn text_value(text: Seq<char>) -> Option<JsonView>;

/// What `serde_json::from_slice` reads from bytes, or the message of its error.
pub uninterp spec fn bytes_value(bytes: Seq<u8>) -> Result<JsonView, Seq<char>>;

/// The text that `serde_json::Value` is displayed as.
pub uninterp spec fn value_text(v: JsonView) -> Seq<char>;

/// One level of a `serde_json::Value`.
pub enum ValueParts {
    Null,
    Bool(bool),
    PosInt(u64),
    NegInt(i64),
    Float(String),
    Text(String),
    Array(Vec<serde_json::Value>),
    Object(Vec<(String, serde_json::Value)>),
}

/// What each value of a list holds.
pub open spec fn contents(s: Seq<serde_json::Value>) -> Seq<JsonView> {
    Seq::new(s.len(), |i: int| value_content(s[i]))
}

/// What a list of named values holds: of two of one name, the later.
pub open spec fn named_contents(s: Seq<(String, serde_json::Value)>) -> Map<Seq<char>, JsonView>
    decreases s.len(),
{
    if s.len() == 0 {
        Map::empty()
    } else {
        named_contents(s.drop_last()).insert(s.last().0@, value_content(s.last().1))
    }
}

/// What one level of a value, with what hangs below it, holds.
pub open spec fn parts_content(p: ValueParts) -> JsonView {
    match p {
        ValueParts::Null => JsonView::Null,
        ValueParts::Bool(b) => JsonView::Bool(b),
        ValueParts::PosInt(n) => JsonView::Number(NumView::PosInt(n)),
        ValueParts::NegInt(n) => JsonView::Number(int_num(n)),
        ValueParts::Float(t) => JsonView::Number(NumView::Float(t@)),
        ValueParts::Text(s) => JsonView::Text(s@),
        ValueParts::Array(items) => JsonView::Array(contents(items@)),
        ValueParts::Object(fields) => JsonView::Object(named_contents(fields@)),
    }
}

/// Takes the top level of a `serde_json::Value` off. The case is that of the value's variant; a
/// number is given as the integer it holds (`Number::as_u64`, `Number::as_i64`) or else as its
/// displayed text, which reads back as the same double; `serde_json::Map` gives each name once.
#[verifier::external_body]
fn take_apart(v: serde_json::Value) -> (p: ValueParts)
    ensures
        parts_content(p) == value_content(v),
        p matches ValueParts::Float(t) ==> double_text(t@) == Some(t@),
        p matches ValueParts::Object(fields) ==> forall|i: int, j: int|
            0 <= i < j < fields@.len() ==> #[trigger] fields@[i].0@ != #[trigger] fields@[j].0@,
{
    match v {
        serde_json::Value::Null => ValueParts::Null,
        serde_json::Value::Bool(b) => ValueParts::Bool(b),
        serde_json::Value::Number(n) => match (n.as_u64(), n.as_i64()) {
            (Some(u), _) => ValueParts::PosInt(u),
            (None, Some(i)) => ValueParts::NegInt(i),
            (None, None) => ValueParts::Float(n.to_string()),
        },
        serde_json::Value::String(s) => ValueParts::Text(s),
        serde_json::Value::Array(items) => ValueParts::Array(items),
        serde_json::Value::Object(map) => ValueParts::Object(map.into_iter().collect()),
    }
}

/// Builds a `serde_json::Value` from its top level: the variant of the case, `Value::from` of an
/// integer, `Number::from_f64` of a double, a `serde_json::Map` of the named values.
#[verifier::external_body]
fn put_together(p: ValueParts) -> (v: serde_json::Value)
    requires
        p matches ValueParts::Float(t) ==> double_text(t@) == Some(t@),
    ensures
        value_content(v) == parts_content(p),
{
    match p {
        ValueParts::Null => serde_json::Value::Null,
        ValueParts::Bool(b) => serde_json::Value::Bool(b),
        ValueParts::PosInt(n) => serde_json::Value::from(n),
        ValueParts::NegInt(n) => serde_json::Value::from(n),
        ValueParts::Float(t) => t.parse().ok().and_then(serde_json::Number::from_f64).map_or(
            serde_json::Value::Null, serde_json::Value::Number),
        ValueParts::Text(s) => serde_json::Value::String(s),
        ValueParts::Array(items) => serde_json::Value::Array(items),
        ValueParts::Object(fields) => serde_json::Value::Object(fields.into_iter().collect()),
    }
}

/// `serde_json::from_str` into a `serde_json::Value`.
#[verifier::external_body]
fn read_str(text: &str) -> (r: Option<serde_json::Value>)
    ensures
        match r {
            Some(v) => text_value(text@) == Some(value_content(v)),
            None => text_value(text@) is None,
        },
{
    serde_json::from_str(text).ok()
}

/// `serde_json::from_slice` into a `serde_json::Value`; an error by its displayed message.
#[verifier::external_body]
fn read_slice(bytes: &[u8]) -> (r: Result<serde_json::Value, String>)
    ensures
        match r {
            Ok(v) => bytes_value(bytes@) == Ok::<JsonView, Seq<char>>(value_content(v)),
            Err(e) => bytes_value(bytes@) == Err::<JsonView, Seq<char>>(e@),
        },
{
    serde_json::from_slice(bytes).map_err(|e| e.to_string())
}

/// The displayed text of a `serde_json::Value`.
#[verifier::external_body]
fn write_value(v: &serde_json::Value) -> (r: String)
    ensures
        r@ == value_text(value_content(*v)),
{
    v.to_string()
}

/// `serde_json::Value::as_f64`, by the displayed text of the double, which reads back as the same
/// double.
#[verifier::external_body]
fn value_double(v: &serde_json::Value) -> (r: Option<String>)
    ensures
        opt_text(r) == double_of(value_content(*v)),
        r matches Some(t) ==> double_text(t@) == Some(t@),
{
    v.as_f64().and_then(serde_json::Number::from_f64).map(|n| n.to_string())
}

proof fn named_contents_at(s: Seq<(String, serde_json::Value)>, i: int)
    requires
        0 <= i < s.len(),
        forall|a: int, b: int|
            0 <= a < b < s.len() ==> #[trigger] s[a].0@ != #[trigger] s[b].0@,
    ensures
        named_contents(s).contains_key(s[i].0@),
        named_contents(s)[s[i].0@] == value_content(s[i].1),
    decreases s.len(),
{
    if i < s.len() - 1 {
        let t = s.drop_last();
        assert forall|a: int, b: int| 0 <= a < b < t.len() implies #[trigger] t[a].0@
            != #[trigger] t[b].0@ by {
            assert(s[a].0@ != s[b].0@);
        }
        named_contents_at(t, i);
        assert(s[i].0@ != s[s.len() - 1].0@);
    }
}

/// The value that a `serde_json::Value` holds.
pub fn from_value(v: serde_json::Value) -> (r: Json)
    ensures
        r@ == value_content(v),
    decreases value_content(v),
{
    let ghost whole = value_content(v);
    match take_apart(v) {
        ValueParts::Null => Json::null(),
        ValueParts::Bool(b) => Json::bool(b),
        ValueParts::PosInt(n) => Json::uint(n),
        ValueParts::NegInt(n) => Json::signed(n),
        ValueParts::Float(t) => Json::number(Num::Float(Float::from_written(t))),
        ValueParts::Text(s) => Json::text(s.as_str()),
        ValueParts::Array(items) => {
            let ghost s = items@;
            let mut rest = items;
            let mut back: Vec<Json> = Vec::new();
            while rest.len() > 0
                invariant
                    whole == value_content(v),
                    whole == JsonView::Array(contents(s)),
                    rest@.len() + back@.len() == s.len(),
                    rest@ == s.take(rest@.len() as int),
                    forall|j: int|
                        0 <= j < back@.len() ==> (#[trigger] back@[j])@ == value_content(
                            s[s.len() - 1 - j],
                        ),
                decreases rest@.len(),
            {
                let ghost n = rest@.len() - 1;
                let item = rest.pop();
                match item {
                    Some(x) => {
                        assert(contents(s)[n] == value_content(x));
                        assert(decreases_to!(whole => whole->Array_0));
                        assert(decreases_to!(contents(s) => contents(s)[n]));
                        back.push(from_value(x));
                    },
                    None => {},
                }
                assert(rest@ =~= s.take(rest@.len() as int));
            }
            let out = reversed(back);
            assert(views(out@) =~= contents(s));
            Json::array(out)
        },
        ValueParts::Object(fields) => {
            let ghost s = fields@;
            let mut rest = fields;
            let mut map = JsonMap::new();
            assert(s.take(s.len() as int) =~= s);
            let ghost all = named_contents(s);
            assert(map@ =~= Map::new(
                |k: Seq<char>| named_from(s, s.len() as int, k),
                |k: Seq<char>| all[k],
            ));
            while rest.len() > 0
                invariant
                    whole == value_content(v),
                    whole == JsonView::Object(all),
                    all == named_contents(s),
                    forall|i: int, j: int|
                        0 <= i < j < s.len() ==> #[trigger] s[i].0@ != #[trigger] s[j].0@,
                    rest@.len() <= s.len(),
                    rest@ == s.take(rest@.len() as int),
                    map@ == Map::new(
                        |k: Seq<char>| named_from(s, rest@.len() as int, k),
                        |k: Seq<char>| all[k],
                    ),
                decreases rest@.len(),
            {
                let ghost n = rest@.len() - 1;
                let ghost before = map@;
                let item = rest.pop();
                match item {
                    Some((name, x)) => {
                        proof {
                            named_contents_at(s, n);
                        }
                        assert(s[n].0@ == name@);
                        assert(decreases_to!(whole => whole->Object_0[name@]));
                        let ghost k0 = name@;
                        map.insert(name, from_value(x));
                        assert forall|k: Seq<char>| named_from(s, n, k) == (named_from(s, n + 1, k)
                            || k == k0) by {
                            if named_from(s, n, k) && k != k0 {
                                let i = choose|i: int|
                                    n <= i < s.len() && #[trigger] s[i].0@ == k;
                                assert(n + 1 <= i);
                            }
                        }
                        assert(map@ =~= Map::new(
                            |k: Seq<char>| named_from(s, n, k),
                            |k: Seq<char>| all[k],
                        ));
                    },
                    None => {},
                }
                assert(rest@ =~= s.take(rest@.len() as int));
            }
            proof {
                named_contents_dom(s);
            }
            assert(map@ =~= all);
            Json::object(map)
        },
    }
}

/// Whether `k` is the name of an entry of `s` at position `n` or later.
spec fn named_from(s: Seq<(String, serde_json::Value)>, n: int, k: Seq<char>) -> bool {
    exists|i: int| n <= i < s.len() && #[trigger] s[i].0@ == k
}

proof fn named_contents_dom(s: Seq<(String, serde_json::Value)>)
    ensures
        forall|k: Seq<char>| #[trigger] named_contents(s).contains_key(k) == named_from(s, 0, k),
    decreases s.len(),
{
    if s.len() > 0 {
        let t = s.drop_last();
        named_contents_dom(t);
        assert forall|k: Seq<char>| #[trigger]
            named_contents(s).contains_key(k) == named_from(s, 0, k) by {
            if named_contents(s).contains_key(k) {
                if k == s.last().0@ {
                    assert(s[s.len() - 1].0@ == k);
                } else {
                    assert(named_contents(t).contains_key(k));
                    let i = choose|i: int| 0 <= i < t.len() && #[trigger] t[i].0@ == k;
                    assert(s[i].0@ == k);
                }
            }
            if named_from(s, 0, k) && k != s.last().0@ {
                let i = choose|i: int| 0 <= i < s.len() && #[trigger] s[i].0@ == k;
                assert(t[i].0@ == k);
                assert(named_contents(t).contains_key(k));
            }
        }
    }
}

fn reversed(list: Vec<Json>) -> (r: Vec<Json>)
    ensures
        r@.len() == list@.len(),
        forall|i: int| 0 <= i < r@.len() ==> #[trigger] r@[i] == list@[list@.len() - 1 - i],
{
    let ghost s = list@;
    let mut rest = list;
    let mut out: Vec<Json> = Vec::new();
    while rest.len() > 0
        invariant
            rest@.len() + out@.len() == s.len(),
            rest@ == s.take(rest@.len() as int),
            forall|i: int| 0 <= i < out@.len() ==> #[trigger] out@[i] == s[s.len() - 1 - i],
        decreases rest@.len(),
    {
        let item = rest.pop();
        match item {
            Some(x) => {
                out.push(x);
            },
            None => {},
        }
        assert(rest@ =~= s.take(rest@.len() as int));
    }
    out
}

/// The `serde_json::Value` that holds a value.
pub fn to_value(j: &Json) -> (r: serde_json::Value)
    ensures
        value_content(r) == j@,
    decreases j@,
{
    match j.case() {
        Case::Null => put_together(ValueParts::Null),
        Case::Bool(b) => put_together(ValueParts::Bool(b)),
        Case::Number(n) => match n {
            Num::PosInt(n) => put_together(ValueParts::PosInt(*n)),
            Num::NegInt(n) => put_together(ValueParts::NegInt(*n)),
            Num::Float(f) => put_together(ValueParts::Float(f.as_text().to_owned())),
        },
        Case::Text(s) => put_together(ValueParts::Text(s.to_owned())),
        Case::Array(items) => {
            let mut out: Vec<serde_json::Value> = Vec::new();
            let ghost all = views(items@);
            let mut i: usize = 0;
            while i < items.len()
                invariant
                    all == views(items@),
                    j@ == JsonView::Array(all),
                    i <= items@.len(),
                    out@.len() == i,
                    forall|k: int| 0 <= k < i ==> value_content(#[trigger] out@[k]) == all[k],
                decreases items@.len() - i,
            {
                assert(decreases_to!(j@ => j@->Array_0));
                assert(decreases_to!(all => all[i as int]));
                out.push(to_value(&items[i]));
                i = i + 1;
            }
            assert(contents(out@) =~= all);
            put_together(ValueParts::Array(out))
        },
        Case::Object(map) => {
            let mut out: Vec<(String, serde_json::Value)> = Vec::new();
            let n = map.len();
            let ghost names = map.names();
            let mut i: usize = 0;
            while i < n
                invariant
                    j@ == JsonView::Object(map@),
                    names == map.names(),
                    n == names.len(),
                    map.well_listed(),
                    i <= n,
                    out@.len() == i,
                    forall|k: int|
                        0 <= k < i ==> (#[trigger] out@[k]).0@ == names[k] && value_content(
                            out@[k].1,
                        ) == map@[names[k]],
                decreases n - i,
            {
                let name = map.name_at(i).to_owned();
                let value = map.value_at(i);
                assert(decreases_to!(j@ => j@->Object_0[names[i as int]]));
                out.push((name, to_value(value)));
                i = i + 1;
            }
            proof {
                assert forall|a: int, b: int| 0 <= a < b < out@.len() implies #[trigger] out@[a].0@
                    != #[trigger] out@[b].0@ by {
                    assert(out@[a].0@ == names[a] && out@[b].0@ == names[b]);
                    assert(crate::text::text_before(names[a], names[b]));
                    crate::text::text_before_total_order(names[a], names[a], names[a]);
                }
                named_contents_dom(out@);
                assert forall|k: Seq<char>| named_contents(out@).contains_key(k)
                    == map@.contains_key(k) by {
                    if named_contents(out@).contains_key(k) {
                        let i = choose|i: int| 0 <= i < out@.len() && #[trigger] out@[i].0@ == k;
                        assert(names[i] == k);
                    }
                    if map@.contains_key(k) {
                        let i = choose|i: int| 0 <= i < names.len() && names[i] == k;
                        assert(out@[i].0@ == k);
                    }
                }
                assert forall|k: Seq<char>| map@.contains_key(k) implies #[trigger] named_contents(
                    out@,
                )[k] == map@[k] by {
                    assert(named_contents(out@).contains_key(k));
                    let i = choose|i: int| 0 <= i < out@.len() && #[trigger] out@[i].0@ == k;
                    named_contents_at(out@, i);
                }
                assert(named_contents(out@) =~= map@);
            }
            put_together(ValueParts::Object(out))
        },
    }
}

/// The value that a text reads as; nothing where it is no JSON.
pub fn parse(text: &str) -> (r: Option<Json>)
    ensures
        crate::json::opt_view(r) == text_value(text@),
{
    match read_str(text) {
        Some(v) => Some(from_value(v)),
        None => None,
    }
}

/// What reading gives: a value, or why there is none.
pub open spec fn parsed(r: Result<Json, String>) -> Result<JsonView, Seq<char>> {
    match r {
        Ok(j) => Ok(j@),
        Err(e) => Err(e@),
    }
}

/// The value that bytes read as, or why they are no JSON.
pub fn parse_bytes(bytes: &[u8]) -> (r: Result<Json, String>)
    ensures
        parsed(r) == bytes_value(bytes@),
{
    match read_slice(bytes) {
        Ok(v) => Ok(from_value(v)),
        Err(e) => Err(e),
    }
}

/// The text of a value.
pub fn render(j: &Json) -> (r: String)
    ensures
        r@ == value_text(j@),
{
    let v = to_value(j);
    write_value(&v)
}

/// The bytes of the text of a value.
pub fn render_bytes(j: &Json) -> (r: Vec<u8>)
    ensures
        r@ == encode_utf8(value_text(j@)),
{
    let text = render(j);
    text.as_str().as_bytes_vec()
}

/// The double that a value stands for.
pub fn double(j: &Json) -> (r: Option<Float>)
    ensures
        opt_float(r) == double_of(j@),
{
    let v = to_value(j);
    match value_double(&v) {
        Some(t) => Some(Float::from_written(t)),
        None => None,
    }
}

} // verus!
