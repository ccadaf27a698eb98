//! JSON values: the tree that every wire format of the library is read from and written to.

use crate::seqs::views;
use crate::text::{
    comes_before, one_of, opt_str, same, starts_with, text_before, text_before_total_order, texts,
};
use crate::wire::double_text;
use vstd::prelude::*;

verus! {

/// A finite double, by the text that `serde_json` writes for it.
#[derive(Debug, PartialEq)]
pub struct Float {
    text: String,
}

/// A JSON number: an integer of 64 bits where it is one, else the text of a double.
/// `NegInt` is for the integers below zero; one that is not stands for the same `PosInt`.
#[derive(Debug, PartialEq)]
pub enum Num {
    PosInt(u64),
    NegInt(i64),
    Float(Float),
}

/// A JSON value.
#[derive(Debug, PartialEq)]
pub enum Json {
    Null,
    Bool(bool),
    Number(Num),
    Text(String),
    Array(Vec<Json>),
    Object(JsonMap),
}

/// The fields of a JSON object, in the order of their names, each name once.
#[derive(Debug, PartialEq)]
pub struct JsonMap {
    entries: Vec<(String, Json)>,
}

/// What a JSON number stands for.
pub enum NumView {
    PosInt(u64),
    NegInt(i64),
    Float(Seq<char>),
}

/// What a JSON value stands for.
#[verifier::ext_equal]
pub enum JsonView {
    Null,
    Bool(bool),
    Number(NumView),
    Text(Seq<char>),
    Array(Seq<JsonView>),
    Object(Map<Seq<char>, JsonView>),
}

impl View for Float {
    type V = Seq<char>;

    closed spec fn view(&self) -> Seq<char> {
        self.text@
    }
}

impl Float {
    #[verifier::type_invariant]
    spec fn written(self) -> bool {
        double_text(self.text@) == Some(self.text@)
    }

    /// The double of which `text` is the written form.
    pub(crate) fn from_written(text: String) -> (r: Float)
        requires
            double_text(text@) == Some(text@),
        ensures
            r@ == text@,
    {
        Float { text }
    }

    /// The written form.
    pub fn as_text(&self) -> (r: &str)
        ensures
            r@ == self@,
            double_text(r@) == Some(r@),
    {
        proof {
            use_type_invariant(self);
        }
        self.text.as_str()
    }
}

/// The written form of an optional double.
pub open spec fn opt_float(o: Option<Float>) -> Option<Seq<char>> {
    match o {
        Some(f) => Some(f@),
        None => None,
    }
}

/// The number that a signed integer is.
pub open spec fn int_num(n: i64) -> NumView {
    if n >= 0 {
        NumView::PosInt(n as u64)
    } else {
        NumView::NegInt(n)
    }
}

impl View for Num {
    type V = NumView;

    open spec fn view(&self) -> NumView {
        match self {
            Num::PosInt(n) => NumView::PosInt(*n),
            Num::NegInt(n) => int_num(*n),
            Num::Float(f) => NumView::Float(f@),
        }
    }
}

/// What a value stands for, by recursion over the value.
pub closed spec fn json_view(j: Json) -> JsonView
    decreases j,
{
    match j {
        Json::Null => JsonView::Null,
        Json::Bool(b) => JsonView::Bool(b),
        Json::Number(n) => JsonView::Number(n@),
        Json::Text(s) => JsonView::Text(s@),
        Json::Array(items) => JsonView::Array(
            Seq::new(
                items@.len(),
                |i: int|
                    if 0 <= i < items@.len() {
                        json_view(items@[i])
                    } else {
                        JsonView::Null
                    },
            ),
        ),
        Json::Object(map) => JsonView::Object(fields_view(map.entries@)),
    }
}

spec fn fields_view(s: Seq<(String, Json)>) -> Map<Seq<char>, JsonView>
    decreases s,
{
    if s.len() == 0 {
        Map::empty()
    } else {
        fields_view(s.drop_last()).insert(s.last().0@, json_view(s.last().1))
    }
}

spec fn sorted(s: Seq<(String, Json)>) -> bool {
    forall|i: int, j: int| 0 <= i < j < s.len() ==> #[trigger] text_before(s[i].0@, s[j].0@)
}

impl View for Json {
    type V = JsonView;

    closed spec fn view(&self) -> JsonView {
        json_view(*self)
    }
}

impl View for JsonMap {
    type V = Map<Seq<char>, JsonView>;

    closed spec fn view(&self) -> Map<Seq<char>, JsonView> {
        fields_view(self.entries@)
    }
}

proof fn fields_view_at(s: Seq<(String, Json)>, i: int)
    requires
        0 <= i < s.len(),
        sorted(s),
    ensures
        fields_view(s).contains_key(s[i].0@),
        fields_view(s)[s[i].0@] == json_view(s[i].1),
    decreases s.len(),
{
    if i < s.len() - 1 {
        assert(sorted(s.drop_last())) by {
            assert forall|a: int, b: int| 0 <= a < b < s.drop_last().len() implies #[trigger] text_before(
                s.drop_last()[a].0@,
                s.drop_last()[b].0@,
            ) by {
                assert(text_before(s[a].0@, s[b].0@));
            }
        }
        fields_view_at(s.drop_last(), i);
        assert(text_before(s[i].0@, s[s.len() - 1].0@));
        text_before_total_order(s[i].0@, s[i].0@, s[i].0@);
    }
}

proof fn fields_view_dom(s: Seq<(String, Json)>, k: Seq<char>)
    ensures
        fields_view(s).contains_key(k) ==> exists|i: int| 0 <= i < s.len() && #[trigger] s[i].0@ == k,
    decreases s.len(),
{
    if s.len() > 0 {
        fields_view_dom(s.drop_last(), k);
        if fields_view(s).contains_key(k) {
            if k == s.last().0@ {
                assert(s[s.len() - 1].0@ == k);
            } else {
                let i = choose|i: int| 0 <= i < s.drop_last().len() && #[trigger] s.drop_last()[i].0@ == k;
                assert(s[i].0@ == k);
            }
        }
    }
}

/// In a sorted list the fields are exactly those listed.
proof fn fields_view_iff(s: Seq<(String, Json)>)
    requires
        sorted(s),
    ensures
        forall|i: int|
            0 <= i < s.len() ==> fields_view(s).contains_key(#[trigger] s[i].0@)
                && fields_view(s)[s[i].0@] == json_view(s[i].1),
        forall|k: Seq<char>| #[trigger]
            fields_view(s).contains_key(k) ==> exists|i: int|
                0 <= i < s.len() && #[trigger] s[i].0@ == k,
{
    assert forall|i: int| 0 <= i < s.len() implies fields_view(s).contains_key(#[trigger] s[i].0@)
        && fields_view(s)[s[i].0@] == json_view(s[i].1) by {
        fields_view_at(s, i);
    }
    assert forall|k: Seq<char>| #[trigger] fields_view(s).contains_key(k) implies exists|i: int|
        0 <= i < s.len() && #[trigger] s[i].0@ == k by {
        fields_view_dom(s, k);
    }
}

/// Putting a field at its place sets it and leaves the others as they are.
proof fn fields_view_put(s: Seq<(String, Json)>, p: int, e: (String, Json))
    requires
        sorted(s),
        0 <= p <= s.len(),
        forall|i: int| 0 <= i < p ==> text_before(#[trigger] s[i].0@, e.0@),
    ensures
        p < s.len() && s[p].0@ == e.0@ ==> sorted(s.update(p, e)) && fields_view(s.update(p, e))
            == fields_view(s).insert(e.0@, json_view(e.1)),
        p == s.len() || text_before(e.0@, s[p].0@) ==> sorted(s.insert(p, e)) && fields_view(
            s.insert(p, e),
        ) == fields_view(s).insert(e.0@, json_view(e.1)),
{
    fields_view_iff(s);
    if p < s.len() && s[p].0@ == e.0@ {
        let t = s.update(p, e);
        assert forall|a: int, b: int| 0 <= a < b < t.len() implies #[trigger] text_before(
            t[a].0@,
            t[b].0@,
        ) by {
            assert(text_before(s[a].0@, s[b].0@));
        }
        fields_view_iff(t);
        assert forall|k: Seq<char>| fields_view(t).contains_key(k) == fields_view(s).insert(
            e.0@,
            json_view(e.1),
        ).contains_key(k) by {
            if fields_view(t).contains_key(k) {
                let i = choose|i: int| 0 <= i < t.len() && #[trigger] t[i].0@ == k;
                assert(s[i].0@ == k);
            }
            if fields_view(s).contains_key(k) {
                let i = choose|i: int| 0 <= i < s.len() && #[trigger] s[i].0@ == k;
                assert(t[i].0@ == k);
            }
            assert(t[p].0@ == e.0@);
        }
        assert forall|k: Seq<char>| fields_view(t).contains_key(k) implies #[trigger] fields_view(
            t,
        )[k] == fields_view(s).insert(e.0@, json_view(e.1))[k] by {
            let i = choose|i: int| 0 <= i < t.len() && #[trigger] t[i].0@ == k;
            assert(s[i].0@ == k);
            if i != p {
                if i < p {
                    assert(text_before(s[i].0@, s[p].0@));
                } else {
                    assert(text_before(s[p].0@, s[i].0@));
                }
                text_before_total_order(s[p].0@, s[p].0@, s[p].0@);
            }
        }
        assert(fields_view(t) =~= fields_view(s).insert(e.0@, json_view(e.1)));
    }
    if p == s.len() || text_before(e.0@, s[p].0@) {
        let t = s.insert(p, e);
        assert forall|i: int| p <= i < s.len() implies text_before(e.0@, #[trigger] s[i].0@) by {
            if p < i {
                assert(text_before(s[p].0@, s[i].0@));
                text_before_total_order(e.0@, s[p].0@, s[i].0@);
            }
        }
        assert forall|a: int, b: int| 0 <= a < b < t.len() implies #[trigger] text_before(
            t[a].0@,
            t[b].0@,
        ) by {
            let sa = if a < p {
                a
            } else {
                a - 1
            };
            let sb = if b < p {
                b
            } else {
                b - 1
            };
            if a == p {
                assert(t[b] == s[sb]);
            } else if b == p {
                assert(t[a] == s[sa]);
            } else {
                assert(text_before(s[sa].0@, s[sb].0@));
            }
        }
        fields_view_iff(t);
        assert forall|k: Seq<char>| fields_view(t).contains_key(k) == fields_view(s).insert(
            e.0@,
            json_view(e.1),
        ).contains_key(k) by {
            if fields_view(t).contains_key(k) {
                let i = choose|i: int| 0 <= i < t.len() && #[trigger] t[i].0@ == k;
                if i < p {
                    assert(s[i].0@ == k);
                } else if i > p {
                    assert(s[i - 1].0@ == k);
                }
            }
            if fields_view(s).contains_key(k) {
                let i = choose|i: int| 0 <= i < s.len() && #[trigger] s[i].0@ == k;
                if i < p {
                    assert(t[i].0@ == k);
                } else {
                    assert(t[i + 1].0@ == k);
                }
            }
            assert(t[p].0@ == e.0@);
        }
        assert forall|k: Seq<char>| fields_view(t).contains_key(k) implies #[trigger] fields_view(
            t,
        )[k] == fields_view(s).insert(e.0@, json_view(e.1))[k] by {
            let i = choose|i: int| 0 <= i < t.len() && #[trigger] t[i].0@ == k;
            text_before_total_order(e.0@, e.0@, e.0@);
            if i < p {
                assert(s[i].0@ == k);
            } else if i > p {
                assert(s[i - 1].0@ == k);
            }
        }
        assert(fields_view(t) =~= fields_view(s).insert(e.0@, json_view(e.1)));
    }
}

/// The view of an optional value.
pub open spec fn opt_view(o: Option<Json>) -> Option<JsonView> {
    match o {
        Some(j) => Some(j@),
        None => None,
    }
}

/// The view of an optional borrowed value.
pub open spec fn opt_ref(o: Option<&Json>) -> Option<JsonView> {
    match o {
        Some(j) => Some(j@),
        None => None,
    }
}

/// The fields of `m` but for those named in `known`.
pub open spec fn without(m: Map<Seq<char>, JsonView>, known: Seq<Seq<char>>) -> Map<
    Seq<char>,
    JsonView,
> {
    Map::new(|k: Seq<char>| m.contains_key(k) && !known.contains(k), |k: Seq<char>| m[k])
}

/// The fields of `m` whose name `p` accepts.
pub open spec fn kept(m: Map<Seq<char>, JsonView>, p: spec_fn(Seq<char>) -> bool) -> Map<
    Seq<char>,
    JsonView,
> {
    Map::new(|k: Seq<char>| m.contains_key(k) && p(k), |k: Seq<char>| m[k])
}

/// The fields of `m` that are named in `names`.
pub open spec fn selected(m: Map<Seq<char>, JsonView>, names: Seq<Seq<char>>) -> Map<
    Seq<char>,
    JsonView,
> {
    Map::new(|k: Seq<char>| m.contains_key(k) && names.contains(k), |k: Seq<char>| m[k])
}

/// The fields of `m` whose name starts with `prefix`.
pub open spec fn prefixed(m: Map<Seq<char>, JsonView>, prefix: Seq<char>) -> Map<
    Seq<char>,
    JsonView,
> {
    Map::new(|k: Seq<char>| m.contains_key(k) && prefix.is_prefix_of(k), |k: Seq<char>| m[k])
}

/// The field `k` of `m`, where it has one.
pub open spec fn lookup(m: Map<Seq<char>, JsonView>, k: Seq<char>) -> Option<JsonView> {
    if m.contains_key(k) {
        Some(m[k])
    } else {
        None
    }
}

impl JsonView {
    /// The field `key`, where the value is an object that has one.
    pub open spec fn field(self, key: Seq<char>) -> Option<JsonView> {
        match self {
            JsonView::Object(m) => lookup(m, key),
            _ => None,
        }
    }

    /// The field `key`, or null.
    pub open spec fn at(self, key: Seq<char>) -> JsonView {
        match self.field(key) {
            Some(v) => v,
            None => JsonView::Null,
        }
    }

    /// The text, where the value is one.
    pub open spec fn text(self) -> Option<Seq<char>> {
        match self {
            JsonView::Text(s) => Some(s),
            _ => None,
        }
    }

    /// The integer, where the value is one that is not below zero.
    pub open spec fn uint(self) -> Option<u64> {
        match self {
            JsonView::Number(NumView::PosInt(n)) => Some(n),
            _ => None,
        }
    }

    /// The truth value, where the value is one.
    pub open spec fn truth(self) -> Option<bool> {
        match self {
            JsonView::Bool(b) => Some(b),
            _ => None,
        }
    }

    /// The number, where the value is one.
    pub open spec fn number(self) -> Option<NumView> {
        match self {
            JsonView::Number(n) => Some(n),
            _ => None,
        }
    }

    /// The items, where the value is an array.
    pub open spec fn items(self) -> Option<Seq<JsonView>> {
        match self {
            JsonView::Array(s) => Some(s),
            _ => None,
        }
    }

    /// The items of an array; none of any other value.
    pub open spec fn list(self) -> Seq<JsonView> {
        match self {
            JsonView::Array(s) => s,
            _ => Seq::empty(),
        }
    }

    /// The fields, where the value is an object.
    pub open spec fn fields(self) -> Option<Map<Seq<char>, JsonView>> {
        match self {
            JsonView::Object(m) => Some(m),
            _ => None,
        }
    }

    /// The fields of an object; none of any other value.
    pub open spec fn fields_or_none(self) -> Map<Seq<char>, JsonView> {
        match self {
            JsonView::Object(m) => m,
            _ => Map::empty(),
        }
    }
}

impl JsonMap {
    #[verifier::type_invariant]
    spec fn in_order(self) -> bool {
        sorted(self.entries@)
    }

    /// The names of the fields, in their order.
    pub closed spec fn names(self) -> Seq<Seq<char>> {
        Seq::new(self.entries@.len(), |i: int| self.entries@[i].0@)
    }

    /// An object without fields.
    pub fn new() -> (r: JsonMap)
        ensures
            r@ == Map::<Seq<char>, JsonView>::empty(),
    {
        JsonMap { entries: Vec::new() }
    }

    /// Sets the field `key`.
    pub fn insert(&mut self, key: String, value: Json)
        ensures
            final(self)@ == old(self)@.insert(key@, value@),
    {
        proof {
            use_type_invariant(&*self);
        }
        let mut entries: Vec<(String, Json)> = Vec::new();
        std::mem::swap(&mut entries, &mut self.entries);
        let ghost s = entries@;
        let mut p: usize = 0;
        while p < entries.len() && comes_before(entries[p].0.as_str(), key.as_str())
            invariant
                s == entries@,
                p <= s.len(),
                forall|i: int| 0 <= i < p ==> text_before(#[trigger] s[i].0@, key@),
            decreases s.len() - p,
        {
            p = p + 1;
        }
        let ghost e = (key, value);
        proof {
            fields_view_put(s, p as int, e);
            if p < s.len() {
                text_before_total_order(s[p as int].0@, e.0@, e.0@);
            }
        }
        if p < entries.len() && same(entries[p].0.as_str(), key.as_str()) {
            entries[p] = (key, value);
        } else {
            entries.insert(p, (key, value));
        }
        self.entries = entries;
    }

    /// The position of the field `key`.
    fn position(&self, key: &str) -> (r: Option<usize>)
        ensures
            match r {
                Some(i) => i < self.entries@.len() && self.entries@[i as int].0@ == key@
                    && self@.contains_key(key@) && self@[key@] == json_view(
                    self.entries@[i as int].1,
                ),
                None => !self@.contains_key(key@),
            },
    {
        proof {
            use_type_invariant(self);
            fields_view_iff(self.entries@);
        }
        let mut i: usize = 0;
        while i < self.entries.len()
            invariant
                i <= self.entries@.len(),
                sorted(self.entries@),
                forall|j: int| 0 <= j < i ==> #[trigger] self.entries@[j].0@ != key@,
            decreases self.entries@.len() - i,
        {
            if same(self.entries[i].0.as_str(), key) {
                proof {
                    fields_view_at(self.entries@, i as int);
                }
                return Some(i);
            }
            i = i + 1;
        }
        None
    }

    /// The field `key`, where there is one.
    pub fn get(&self, key: &str) -> (r: Option<&Json>)
        ensures
            opt_ref(r) == lookup(self@, key@),
    {
        match self.position(key) {
            Some(i) => Some(&self.entries[i].1),
            None => None,
        }
    }

    /// Whether there is a field `key`.
    pub fn contains_key(&self, key: &str) -> (r: bool)
        ensures
            r == self@.contains_key(key@),
    {
        match self.position(key) {
            Some(_) => true,
            None => false,
        }
    }

    /// Removes the field `key`.
    pub fn remove(&mut self, key: &str)
        ensures
            final(self)@ == old(self)@.remove(key@),
    {
        proof {
            use_type_invariant(&*self);
        }
        match self.position(key) {
            Some(p) => {
                let mut entries: Vec<(String, Json)> = Vec::new();
                std::mem::swap(&mut entries, &mut self.entries);
                let ghost s = entries@;
                entries.remove(p);
                proof {
                    fields_view_remove(s, p as int);
                }
                self.entries = entries;
            },
            None => {
                assert(self@.remove(key@) =~= self@);
            },
        }
    }

    /// Whether there is no field.
    pub fn is_empty(&self) -> (r: bool)
        ensures
            r == (self@ == Map::<Seq<char>, JsonView>::empty()),
    {
        proof {
            use_type_invariant(self);
            fields_view_iff(self.entries@);
            if self.entries@.len() > 0 {
                assert(self@.contains_key(self.entries@[0].0@));
            }
        }
        self.entries.len() == 0
    }

    /// The number of fields.
    pub fn len(&self) -> (r: usize)
        ensures
            r == self.names().len(),
            self.well_listed(),
    {
        proof {
            use_type_invariant(self);
            self.lists_all();
        }
        self.entries.len()
    }

    /// `names` lists each field once, in the order of the names.
    pub open spec fn well_listed(self) -> bool {
        &&& forall|i: int| 0 <= i < self.names().len() ==> self@.contains_key(#[trigger] self.names()[i])
        &&& forall|k: Seq<char>| #[trigger] self@.contains_key(k) ==> self.names().contains(k)
        &&& forall|i: int, j: int|
            0 <= i < j < self.names().len() ==> #[trigger] text_before(
                self.names()[i],
                self.names()[j],
            )
    }

    proof fn lists_all(self)
        requires
            sorted(self.entries@),
        ensures
            self.well_listed(),
    {
        let s = self.entries@;
        fields_view_iff(s);
        assert forall|i: int| 0 <= i < self.names().len() implies self@.contains_key(
            #[trigger] self.names()[i],
        ) by {
            assert(self.names()[i] == s[i].0@);
        }
        assert forall|k: Seq<char>| #[trigger] self@.contains_key(k) implies self.names().contains(
            k,
        ) by {
            let i = choose|i: int| 0 <= i < s.len() && #[trigger] s[i].0@ == k;
            assert(self.names()[i] == k);
        }
    }

    /// The name of the field at position `i`.
    pub fn name_at(&self, i: usize) -> (r: &str)
        requires
            i < self.names().len(),
        ensures
            r@ == self.names()[i as int],
    {
        self.entries[i].0.as_str()
    }

    /// The value of the field at position `i`.
    pub fn value_at(&self, i: usize) -> (r: &Json)
        requires
            i < self.names().len(),
        ensures
            self@.contains_key(self.names()[i as int]),
            r@ == self@[self.names()[i as int]],
    {
        proof {
            use_type_invariant(self);
            fields_view_iff(self.entries@);
            assert(self.names()[i as int] == self.entries@[i as int].0@);
        }
        &self.entries[i].1
    }
}

proof fn fields_view_remove(s: Seq<(String, Json)>, p: int)
    requires
        sorted(s),
        0 <= p < s.len(),
    ensures
        sorted(s.remove(p)),
        fields_view(s.remove(p)) == fields_view(s).remove(s[p].0@),
{
    let t = s.remove(p);
    assert forall|a: int, b: int| 0 <= a < b < t.len() implies #[trigger] text_before(
        t[a].0@,
        t[b].0@,
    ) by {
        let sa = if a < p {
            a
        } else {
            a + 1
        };
        let sb = if b < p {
            b
        } else {
            b + 1
        };
        assert(text_before(s[sa].0@, s[sb].0@));
    }
    fields_view_iff(s);
    fields_view_iff(t);
    let key = s[p].0@;
    assert forall|k: Seq<char>| fields_view(t).contains_key(k) == fields_view(s).remove(
        key,
    ).contains_key(k) by {
        if fields_view(t).contains_key(k) {
            let i = choose|i: int| 0 <= i < t.len() && #[trigger] t[i].0@ == k;
            let si = if i < p {
                i
            } else {
                i + 1
            };
            assert(s[si].0@ == k);
            if i < p {
                assert(text_before(s[si].0@, s[p].0@));
            } else {
                assert(text_before(s[p].0@, s[si].0@));
            }
            text_before_total_order(key, key, key);
        }
        if fields_view(s).contains_key(k) && k != key {
            let i = choose|i: int| 0 <= i < s.len() && #[trigger] s[i].0@ == k;
            if i < p {
                assert(t[i].0@ == k);
            } else {
                assert(t[i - 1].0@ == k);
            }
        }
    }
    assert forall|k: Seq<char>| fields_view(t).contains_key(k) implies #[trigger] fields_view(t)[k]
        == fields_view(s).remove(key)[k] by {
        let i = choose|i: int| 0 <= i < t.len() && #[trigger] t[i].0@ == k;
        let si = if i < p {
            i
        } else {
            i + 1
        };
        assert(s[si].0@ == k);
    }
    assert(fields_view(t) =~= fields_view(s).remove(key));
}

proof fn fields_view_same(s: Seq<(String, Json)>, t: Seq<(String, Json)>)
    requires
        s.len() == t.len(),
        forall|i: int|
            0 <= i < s.len() ==> (#[trigger] s[i]).0@ == t[i].0@ && json_view(s[i].1) == json_view(
                t[i].1,
            ),
    ensures
        fields_view(s) == fields_view(t),
        sorted(s) ==> sorted(t),
    decreases s.len(),
{
    if s.len() > 0 {
        assert forall|i: int| 0 <= i < s.drop_last().len() implies (#[trigger] s.drop_last()[i]).0@
            == t.drop_last()[i].0@ && json_view(s.drop_last()[i].1) == json_view(
            t.drop_last()[i].1,
        ) by {
            assert(s[i].0@ == t[i].0@);
        }
        fields_view_same(s.drop_last(), t.drop_last());
        assert(s[s.len() - 1].0@ == t[t.len() - 1].0@);
    }
    if sorted(s) {
        assert forall|a: int, b: int| 0 <= a < b < t.len() implies #[trigger] text_before(
            t[a].0@,
            t[b].0@,
        ) by {
            assert(text_before(s[a].0@, s[b].0@));
        }
    }
}

impl Clone for JsonMap {
    fn clone(&self) -> (r: JsonMap)
        ensures
            r@ == self@,
        decreases self,
    {
        proof {
            use_type_invariant(self);
        }
        let mut entries: Vec<(String, Json)> = Vec::new();
        let mut i: usize = 0;
        while i < self.entries.len()
            invariant
                i <= self.entries@.len(),
                entries@.len() == i,
                forall|j: int|
                    0 <= j < i ==> (#[trigger] self.entries@[j]).0@ == entries@[j].0@ && json_view(
                        self.entries@[j].1,
                    ) == json_view(entries@[j].1),
            decreases self.entries@.len() - i,
        {
            let key = self.entries[i].0.clone();
            let value = self.entries[i].1.clone();
            entries.push((key, value));
            i = i + 1;
        }
        proof {
            fields_view_same(self.entries@, entries@);
        }
        JsonMap { entries }
    }
}

impl Clone for Float {
    fn clone(&self) -> (r: Float)
        ensures
            r@ == self@,
    {
        proof {
            use_type_invariant(self);
        }
        Float { text: self.text.clone() }
    }
}

impl Clone for Num {
    fn clone(&self) -> (r: Num)
        ensures
            r@ == self@,
    {
        match self {
            Num::PosInt(n) => Num::PosInt(*n),
            Num::NegInt(n) => Num::NegInt(*n),
            Num::Float(f) => Num::Float(f.clone()),
        }
    }
}

impl Clone for Json {
    fn clone(&self) -> (r: Json)
        ensures
            r@ == self@,
        decreases self,
    {
        match self {
            Json::Null => Json::Null,
            Json::Bool(b) => Json::Bool(*b),
            Json::Number(n) => Json::Number(n.clone()),
            Json::Text(s) => Json::Text(s.clone()),
            Json::Array(items) => {
                let mut out: Vec<Json> = Vec::new();
                let mut i: usize = 0;
                while i < items.len()
                    invariant
                        i <= items@.len(),
                        decreases_to!(self => items@),
                        out@.len() == i,
                        forall|j: int| 0 <= j < i ==> json_view(#[trigger] out@[j]) == json_view(items@[j]),
                    decreases items@.len() - i,
                {
                    assert(decreases_to!(items@ => items@[i as int]));
                    out.push(items[i].clone());
                    i = i + 1;
                }
                let r = Json::Array(out);
                assert(json_view(r)->Array_0 =~= json_view(*self)->Array_0);
                r
            },
            Json::Object(map) => Json::Object(map.clone()),
        }
    }
}

/// A copy of a list of values.
pub fn copy_all(list: &Vec<Json>) -> (r: Vec<Json>)
    ensures
        views(r@) == views(list@),
{
    let mut out: Vec<Json> = Vec::new();
    let mut i: usize = 0;
    while i < list.len()
        invariant
            i <= list.len(),
            out.len() == i,
            forall|j: int| 0 <= j < i ==> #[trigger] out@[j]@ == list@[j]@,
        decreases list.len() - i,
    {
        out.push(list[i].clone());
        i = i + 1;
    }
    assert(views(out@) =~= views(list@));
    out
}

/// A copy of an optional value.
pub fn copy_opt(o: Option<&Json>) -> (r: Option<Json>)
    ensures
        opt_view(r) == opt_ref(o),
{
    match o {
        Some(j) => Some(j.clone()),
        None => None,
    }
}

/// A text value.
pub open spec fn jtext(s: Seq<char>) -> JsonView {
    JsonView::Text(s)
}

/// An integer value.
pub open spec fn jint(n: u64) -> JsonView {
    JsonView::Number(NumView::PosInt(n))
}

/// A text, or null.
pub open spec fn jopt(o: Option<Seq<char>>) -> JsonView {
    match o {
        Some(s) => JsonView::Text(s),
        None => JsonView::Null,
    }
}

/// `m` with the field `key` set where there is a value.
pub open spec fn with_some(
    m: Map<Seq<char>, JsonView>,
    key: Seq<char>,
    value: Option<JsonView>,
) -> Map<Seq<char>, JsonView> {
    match value {
        Some(v) => m.insert(key, v),
        None => m,
    }
}

/// `m` with the field `key` set where there is a text.
pub open spec fn with_text(
    m: Map<Seq<char>, JsonView>,
    key: Seq<char>,
    value: Option<Seq<char>>,
) -> Map<Seq<char>, JsonView> {
    match value {
        Some(v) => m.insert(key, JsonView::Text(v)),
        None => m,
    }
}

/// `m` with the field `key` set where there is an integer.
pub open spec fn with_int(
    m: Map<Seq<char>, JsonView>,
    key: Seq<char>,
    value: Option<u64>,
) -> Map<Seq<char>, JsonView> {
    match value {
        Some(v) => m.insert(key, jint(v)),
        None => m,
    }
}

/// `m` with the field `key` set where there is a truth value.
pub open spec fn with_truth(
    m: Map<Seq<char>, JsonView>,
    key: Seq<char>,
    value: Option<bool>,
) -> Map<Seq<char>, JsonView> {
    match value {
        Some(v) => m.insert(key, JsonView::Bool(v)),
        None => m,
    }
}

/// `m` with the field `key` set where there is a double.
pub open spec fn with_float(
    m: Map<Seq<char>, JsonView>,
    key: Seq<char>,
    value: Option<Seq<char>>,
) -> Map<Seq<char>, JsonView> {
    match value {
        Some(v) => m.insert(key, JsonView::Number(NumView::Float(v))),
        None => m,
    }
}

impl JsonMap {
    /// Sets the field `key`.
    pub fn put(&mut self, key: &str, value: Json)
        ensures
            final(self)@ == old(self)@.insert(key@, value@),
    {
        self.insert(key.to_owned(), value);
    }

    /// Sets the field `key` to a text.
    pub fn put_text(&mut self, key: &str, value: &str)
        ensures
            final(self)@ == old(self)@.insert(key@, JsonView::Text(value@)),
    {
        self.insert(key.to_owned(), Json::text(value));
    }

    /// Sets the field `key` to a truth value.
    pub fn put_bool(&mut self, key: &str, value: bool)
        ensures
            final(self)@ == old(self)@.insert(key@, JsonView::Bool(value)),
    {
        self.insert(key.to_owned(), Json::bool(value));
    }

    /// Sets the field `key` to an integer.
    pub fn put_uint(&mut self, key: &str, value: u64)
        ensures
            final(self)@ == old(self)@.insert(key@, jint(value)),
    {
        self.insert(key.to_owned(), Json::uint(value));
    }

    /// Sets the field `key` to an object.
    pub fn put_object(&mut self, key: &str, value: JsonMap)
        ensures
            final(self)@ == old(self)@.insert(key@, JsonView::Object(value@)),
    {
        self.insert(key.to_owned(), Json::object(value));
    }

    /// Sets the field `key` to an array.
    pub fn put_array(&mut self, key: &str, value: Vec<Json>)
        ensures
            final(self)@ == old(self)@.insert(key@, JsonView::Array(views(value@))),
    {
        self.insert(key.to_owned(), Json::array(value));
    }

    /// Sets the field `key` to a copy of the value, where there is one.
    pub fn put_some(&mut self, key: &str, value: Option<&Json>)
        ensures
            final(self)@ == with_some(old(self)@, key@, opt_ref(value)),
    {
        if let Some(v) = value {
            self.insert(key.to_owned(), v.clone());
        }
    }

    /// Sets the field `key` to the text, where there is one.
    pub fn put_some_text(&mut self, key: &str, value: Option<&str>)
        ensures
            final(self)@ == with_text(old(self)@, key@, opt_str(value)),
    {
        if let Some(v) = value {
            self.insert(key.to_owned(), Json::text(v));
        }
    }

    /// Sets the field `key` to the integer, where there is one.
    pub fn put_some_uint(&mut self, key: &str, value: Option<u64>)
        ensures
            final(self)@ == with_int(old(self)@, key@, value),
    {
        if let Some(v) = value {
            self.insert(key.to_owned(), Json::uint(v));
        }
    }

    /// Sets the field `key` to the truth value, where there is one.
    pub fn put_some_bool(&mut self, key: &str, value: Option<bool>)
        ensures
            final(self)@ == with_truth(old(self)@, key@, value),
    {
        if let Some(v) = value {
            self.insert(key.to_owned(), Json::bool(v));
        }
    }

    /// Sets the field `key` to the double, where there is one.
    pub fn put_some_float(&mut self, key: &str, value: &Option<Float>)
        ensures
            final(self)@ == with_float(old(self)@, key@, opt_float(*value)),
    {
        if let Some(v) = value {
            self.insert(key.to_owned(), Json::float(v));
        }
    }

    /// Sets every field of `other`.
    pub fn extend(&mut self, other: &JsonMap)
        ensures
            final(self)@ == old(self)@.union_prefer_right(other@),
    {
        let ghost start = self@;
        let ghost s = other.entries@;
        let mut i: usize = 0;
        assert(s.take(0) =~= Seq::empty());
        assert(start.union_prefer_right(Map::empty()) =~= start);
        while i < other.entries.len()
            invariant
                s == other.entries@,
                i <= s.len(),
                self@ == start.union_prefer_right(fields_view(s.take(i as int))),
            decreases s.len() - i,
        {
            assert(s.take(i + 1).drop_last() =~= s.take(i as int));
            let ghost m = fields_view(s.take(i as int));
            let ghost k = s[i as int].0@;
            let ghost v = json_view(s[i as int].1);
            assert(start.union_prefer_right(m.insert(k, v)) =~= start.union_prefer_right(m).insert(
                k,
                v,
            ));
            let key = other.entries[i].0.clone();
            let value = other.entries[i].1.clone();
            self.insert(key, value);
            i = i + 1;
        }
        assert(s.take(i as int) =~= s);
    }

    /// The fields whose name `f` accepts.
    fn keep<F: Fn(&str) -> bool>(
        &self,
        f: F,
        Ghost(p): Ghost<spec_fn(Seq<char>) -> bool>,
    ) -> (r: JsonMap)
        requires
            forall|x: &str| call_requires(f, (x,)),
            forall|x: &str, b: bool| #[trigger] call_ensures(f, (x,), b) ==> b == p(x@),
        ensures
            r@ == kept(self@, p),
    {
        let ghost s = self.entries@;
        let mut out = JsonMap::new();
        let mut i: usize = 0;
        assert(s.take(0) =~= Seq::empty());
        assert(out@ =~= kept(fields_view(s.take(0)), p));
        while i < self.entries.len()
            invariant
                forall|x: &str| call_requires(f, (x,)),
                forall|x: &str, b: bool| #[trigger] call_ensures(f, (x,), b) ==> b == p(x@),
                s == self.entries@,
                i <= s.len(),
                out@ == kept(fields_view(s.take(i as int)), p),
            decreases s.len() - i,
        {
            assert(s.take(i + 1).drop_last() =~= s.take(i as int));
            let ghost m = fields_view(s.take(i as int));
            let ghost k = s[i as int].0@;
            let ghost v = json_view(s[i as int].1);
            if f(self.entries[i].0.as_str()) {
                let key = self.entries[i].0.clone();
                let value = self.entries[i].1.clone();
                out.insert(key, value);
                assert(kept(m.insert(k, v), p) =~= kept(m, p).insert(k, v));
            } else {
                assert(kept(m.insert(k, v), p) =~= kept(m, p));
            }
            i = i + 1;
        }
        assert(s.take(i as int) =~= s);
        out
    }

    /// The fields that `known` does not name.
    pub fn without(&self, known: &[&str]) -> (r: JsonMap)
        ensures
            r@ == without(self@, texts(known@)),
    {
        let ghost names = texts(known@);
        let unknown = |k: &str| -> (b: bool)
            ensures
                b == !texts(known@).contains(k@),
        {
            !one_of(k, known)
        };
        let r = self.keep(unknown, Ghost(|k: Seq<char>| !names.contains(k)));
        assert(r@ =~= without(self@, names));
        r
    }

    /// The fields that `names` names.
    pub fn selected(&self, names: &[&str]) -> (r: JsonMap)
        ensures
            r@ == selected(self@, texts(names@)),
    {
        let ghost wanted = texts(names@);
        let named = |k: &str| -> (b: bool)
            ensures
                b == texts(names@).contains(k@),
        {
            one_of(k, names)
        };
        let r = self.keep(named, Ghost(|k: Seq<char>| wanted.contains(k)));
        assert(r@ =~= selected(self@, wanted));
        r
    }

    /// The fields whose name starts with `prefix`.
    pub fn prefixed(&self, prefix: &str) -> (r: JsonMap)
        ensures
            r@ == prefixed(self@, prefix@),
    {
        let fits = |k: &str| -> (b: bool)
            ensures
                b == prefix@.is_prefix_of(k@),
        {
            starts_with(k, prefix)
        };
        let r = self.keep(fits, Ghost(|k: Seq<char>| prefix@.is_prefix_of(k)));
        assert(r@ =~= prefixed(self@, prefix@));
        r
    }
}

/// A value, seen through its case.
pub(crate) enum Case<'a> {
    Null,
    Bool(bool),
    Number(&'a Num),
    Text(&'a str),
    Array(&'a Vec<Json>),
    Object(&'a JsonMap),
}

impl Default for JsonMap {
    fn default() -> (r: JsonMap)
        ensures
            r@ == Map::<Seq<char>, JsonView>::empty(),
    {
        JsonMap::new()
    }
}

impl Json {
    /// Null.
    pub fn null() -> (r: Json)
        ensures
            r@ == JsonView::Null,
    {
        Json::Null
    }

    /// A truth value.
    pub fn bool(b: bool) -> (r: Json)
        ensures
            r@ == JsonView::Bool(b),
    {
        Json::Bool(b)
    }

    /// A text.
    pub fn text(s: &str) -> (r: Json)
        ensures
            r@ == JsonView::Text(s@),
    {
        Json::Text(s.to_owned())
    }

    /// A text, or null.
    pub fn opt_text(s: Option<&str>) -> (r: Json)
        ensures
            r@ == jopt(opt_str(s)),
    {
        match s {
            Some(s) => Json::Text(s.to_owned()),
            None => Json::Null,
        }
    }

    /// An integer that is not below zero.
    pub fn uint(n: u64) -> (r: Json)
        ensures
            r@ == jint(n),
    {
        Json::Number(Num::PosInt(n))
    }

    /// An integer.
    pub fn signed(n: i64) -> (r: Json)
        ensures
            r@ == JsonView::Number(int_num(n)),
    {
        Json::Number(Num::NegInt(n))
    }

    /// A number.
    pub fn number(n: Num) -> (r: Json)
        ensures
            r@ == JsonView::Number(n@),
    {
        Json::Number(n)
    }

    /// A number that is no integer.
    pub fn float(f: &Float) -> (r: Json)
        ensures
            r@ == JsonView::Number(NumView::Float(f@)),
    {
        Json::Number(Num::Float(f.clone()))
    }

    /// An array.
    pub fn array(items: Vec<Json>) -> (r: Json)
        ensures
            r@ == JsonView::Array(views(items@)),
    {
        let r = Json::Array(items);
        assert(json_view(r)->Array_0 =~= views(items@));
        r
    }

    /// An object.
    pub fn object(map: JsonMap) -> (r: Json)
        ensures
            r@ == JsonView::Object(map@),
    {
        Json::Object(map)
    }

    /// The text, where the value is one.
    pub fn as_text(&self) -> (r: Option<&str>)
        ensures
            opt_str(r) == self@.text(),
    {
        match self {
            Json::Text(s) => Some(s.as_str()),
            _ => None,
        }
    }

    /// The integer, where the value is one that is not below zero.
    pub fn as_uint(&self) -> (r: Option<u64>)
        ensures
            r == self@.uint(),
    {
        match self {
            Json::Number(Num::PosInt(n)) => Some(*n),
            Json::Number(Num::NegInt(n)) => if *n >= 0 {
                Some(*n as u64)
            } else {
                None
            },
            _ => None,
        }
    }

    /// The truth value, where the value is one.
    pub fn as_bool(&self) -> (r: Option<bool>)
        ensures
            r == self@.truth(),
    {
        match self {
            Json::Bool(b) => Some(*b),
            _ => None,
        }
    }

    /// The items, where the value is an array.
    pub fn as_array(&self) -> (r: Option<&Vec<Json>>)
        ensures
            match r {
                Some(items) => self@.items() == Some(views(items@)) && decreases_to!(
                    self => items@
                ),
                None => self@.items() is None,
            },
    {
        match self {
            Json::Array(items) => {
                assert(json_view(*self)->Array_0 =~= views(items@));
                Some(items)
            },
            _ => None,
        }
    }

    /// The fields, where the value is an object.
    pub fn as_object(&self) -> (r: Option<&JsonMap>)
        ensures
            match r {
                Some(map) => self@.fields() == Some(map@),
                None => self@.fields() is None,
            },
    {
        match self {
            Json::Object(map) => Some(map),
            _ => None,
        }
    }

    /// The case that the value is.
    pub(crate) fn case(&self) -> (r: Case<'_>)
        ensures
            match r {
                Case::Null => self@ == JsonView::Null,
                Case::Bool(b) => self@ == JsonView::Bool(b),
                Case::Number(n) => self@ == JsonView::Number(n@),
                Case::Text(s) => self@ == JsonView::Text(s@),
                Case::Array(items) => self@ == JsonView::Array(views(items@)),
                Case::Object(map) => self@ == JsonView::Object(map@),
            },
    {
        match self {
            Json::Null => Case::Null,
            Json::Bool(b) => Case::Bool(*b),
            Json::Number(n) => Case::Number(n),
            Json::Text(s) => Case::Text(s.as_str()),
            Json::Array(items) => {
                assert(json_view(*self)->Array_0 =~= views(items@));
                Case::Array(items)
            },
            Json::Object(map) => Case::Object(map),
        }
    }

    /// Whether the value is null.
    pub fn is_null(&self) -> (r: bool)
        ensures
            r == (self@ == JsonView::Null),
    {
        match self {
            Json::Null => true,
            _ => false,
        }
    }

    /// Whether the value is an object.
    pub fn is_object(&self) -> (r: bool)
        ensures
            r == (self@ is Object),
    {
        match self {
            Json::Object(_) => true,
            _ => false,
        }
    }

    /// The field `key`, where the value is an object that has one.
    pub fn get(&self, key: &str) -> (r: Option<&Json>)
        ensures
            opt_ref(r) == self@.field(key@),
    {
        match self {
            Json::Object(map) => map.get(key),
            _ => None,
        }
    }

    /// The field `key`, or null.
    pub fn at(&self, key: &str) -> (r: &Json)
        ensures
            r@ == self@.at(key@),
    {
        match self.get(key) {
            Some(v) => v,
            None => &Json::Null,
        }
    }

    /// The text at the field `key`.
    pub fn text_at(&self, key: &str) -> (r: Option<&str>)
        ensures
            opt_str(r) == self@.at(key@).text(),
    {
        match self.get(key) {
            Some(v) => v.as_text(),
            None => None,
        }
    }

    /// The integer at the field `key`.
    pub fn uint_at(&self, key: &str) -> (r: Option<u64>)
        ensures
            r == self@.at(key@).uint(),
    {
        match self.get(key) {
            Some(v) => v.as_uint(),
            None => None,
        }
    }

    /// The truth value at the field `key`.
    pub fn bool_at(&self, key: &str) -> (r: Option<bool>)
        ensures
            r == self@.at(key@).truth(),
    {
        match self.get(key) {
            Some(v) => v.as_bool(),
            None => None,
        }
    }

    /// The items at the field `key`.
    pub fn array_at(&self, key: &str) -> (r: Option<&Vec<Json>>)
        ensures
            match r {
                Some(items) => self@.at(key@).items() == Some(views(items@)),
                None => self@.at(key@).items() is None,
            },
    {
        match self.get(key) {
            Some(v) => v.as_array(),
            None => None,
        }
    }

    /// The fields of the value but for those that `known` names.
    pub fn fields_without(&self, known: &[&str]) -> (r: JsonMap)
        ensures
            r@ == without(self@.fields_or_none(), texts(known@)),
    {
        match self {
            Json::Object(map) => map.without(known),
            _ => {
                let r = JsonMap::new();
                assert(r@ =~= without(self@.fields_or_none(), texts(known@)));
                r
            },
        }
    }

    /// The fields of an object; none of any other value.
    pub fn fields(&self) -> (r: JsonMap)
        ensures
            r@ == self@.fields_or_none(),
    {
        match self {
            Json::Object(map) => map.clone(),
            _ => JsonMap::new(),
        }
    }
}

} // verus!
