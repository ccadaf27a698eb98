//! What a conversion of a stream remembers between two events.

use crate::json::{Json, JsonView};
use crate::model::{opt_usage, AnnotationView, LLMAnnotation, LLMFinishReason, LLMUsage, UsageView};
use crate::seqs::views;
use crate::text::{opt_str, opt_text};
use std::collections::{BTreeMap, BTreeSet};
use vstd::prelude::*;
use vstd::std_specs::btree::{group_btree_axioms, increasing_seq};
use vstd::std_specs::cmp::OrdSpec;
use vstd::std_specs::iter::IteratorSpec;

verus! {

broadcast use group_btree_axioms;

/// What a conversion of a stream remembers between two events.
#[derive(Debug)]
pub struct StreamState {
    pub id: Option<String>,
    pub model: Option<String>,
    pub started: bool,
    pub ended: bool,
    pub next_content_index: usize,
    pub open_content: BTreeSet<usize>,
    pub content_indices: BTreeMap<usize, usize>,
    pub content_ids: BTreeMap<usize, String>,
    pub content_kinds: BTreeMap<usize, String>,
    pub content_buffers: BTreeMap<usize, String>,
    pub content_annotations: BTreeMap<usize, Vec<LLMAnnotation>>,
    pub tool_names: BTreeMap<usize, String>,
    pub tool_call_ids: BTreeMap<usize, String>,
    pub completed_items: Vec<Json>,
    pub tool_indices: BTreeMap<usize, usize>,
    pub sequence_number: u64,
    pub finish_reason: Option<LLMFinishReason>,
    pub usage: Option<LLMUsage>,
}

/// What the state of a conversion stands for.
#[verifier::ext_equal]
pub struct StateView {
    pub id: Option<Seq<char>>,
    pub model: Option<Seq<char>>,
    pub started: bool,
    pub ended: bool,
    pub next_content_index: usize,
    pub open_content: Set<usize>,
    pub content_indices: Map<usize, usize>,
    pub content_ids: Map<usize, Seq<char>>,
    pub content_kinds: Map<usize, Seq<char>>,
    pub content_buffers: Map<usize, Seq<char>>,
    pub content_annotations: Map<usize, Seq<AnnotationView>>,
    pub tool_names: Map<usize, Seq<char>>,
    pub tool_call_ids: Map<usize, Seq<char>>,
    pub completed_items: Seq<JsonView>,
    pub tool_indices: Map<usize, usize>,
    pub sequence_number: u64,
    pub finish_reason: Option<LLMFinishReason>,
    pub usage: Option<UsageView>,
}

/// The texts that a map holds.
pub open spec fn text_map(m: Map<usize, String>) -> Map<usize, Seq<char>> {
    m.map_values(|s: String| s@)
}

/// The citations that a map holds.
pub open spec fn annotation_map(m: Map<usize, Vec<LLMAnnotation>>) -> Map<
    usize,
    Seq<AnnotationView>,
> {
    m.map_values(|v: Vec<LLMAnnotation>| views(v@))
}

/// What `m` has at `k`.
pub open spec fn get<V>(m: Map<usize, V>, k: usize) -> Option<V> {
    if m.contains_key(k) {
        Some(m[k])
    } else {
        None
    }
}

impl View for StreamState {
    type V = StateView;

    open spec fn view(&self) -> StateView {
        StateView {
            id: opt_text(self.id),
            model: opt_text(self.model),
            started: self.started,
            ended: self.ended,
            next_content_index: self.next_content_index,
            open_content: self.open_content@,
            content_indices: self.content_indices@,
            content_ids: text_map(self.content_ids@),
            content_kinds: text_map(self.content_kinds@),
            content_buffers: text_map(self.content_buffers@),
            content_annotations: annotation_map(self.content_annotations@),
            tool_names: text_map(self.tool_names@),
            tool_call_ids: text_map(self.tool_call_ids@),
            completed_items: views(self.completed_items@),
            tool_indices: self.tool_indices@,
            sequence_number: self.sequence_number,
            finish_reason: self.finish_reason,
            usage: opt_usage(self.usage),
        }
    }
}

/// The state before the first event.
pub open spec fn first_state() -> StateView {
    StateView {
        id: None,
        model: None,
        started: false,
        ended: false,
        next_content_index: 0,
        open_content: Set::empty(),
        content_indices: Map::empty(),
        content_ids: Map::empty(),
        content_kinds: Map::empty(),
        content_buffers: Map::empty(),
        content_annotations: Map::empty(),
        tool_names: Map::empty(),
        tool_call_ids: Map::empty(),
        completed_items: Seq::empty(),
        tool_indices: Map::empty(),
        sequence_number: 0,
        finish_reason: None,
        usage: None,
    }
}

impl Default for StreamState {
    fn default() -> (r: StreamState)
        ensures
            r@ == first_state(),
    {
        let r = StreamState {
            id: None,
            model: None,
            started: false,
            ended: false,
            next_content_index: 0,
            open_content: BTreeSet::new(),
            content_indices: BTreeMap::new(),
            content_ids: BTreeMap::new(),
            content_kinds: BTreeMap::new(),
            content_buffers: BTreeMap::new(),
            content_annotations: BTreeMap::new(),
            tool_names: BTreeMap::new(),
            tool_call_ids: BTreeMap::new(),
            completed_items: Vec::new(),
            tool_indices: BTreeMap::new(),
            sequence_number: 0,
            finish_reason: None,
            usage: None,
        };
        assert(r@ =~= first_state());
        r
    }
}

/// Sets a text.
pub(crate) fn put_text(m: &mut BTreeMap<usize, String>, k: usize, v: String)
    ensures
        text_map(final(m)@) == text_map(old(m)@).insert(k, v@),
{
    m.insert(k, v);
    assert(text_map(m@) =~= text_map(old(m)@).insert(k, v@));
}

/// The text at `k`.
pub(crate) fn text_at(m: &BTreeMap<usize, String>, k: usize) -> (r: Option<&str>)
    ensures
        opt_str(r) == get(text_map(m@), k),
{
    match m.get(&k) {
        Some(s) => Some(s.as_str()),
        None => None,
    }
}

/// Sets citations.
pub(crate) fn put_annotations(
    m: &mut BTreeMap<usize, Vec<LLMAnnotation>>,
    k: usize,
    v: Vec<LLMAnnotation>,
)
    ensures
        annotation_map(final(m)@) == annotation_map(old(m)@).insert(k, views(v@)),
{
    m.insert(k, v);
    assert(annotation_map(m@) =~= annotation_map(old(m)@).insert(k, views(v@)));
}

/// The citations at `k`.
pub(crate) fn annotations_at(m: &BTreeMap<usize, Vec<LLMAnnotation>>, k: usize) -> (r: Option<
    &Vec<LLMAnnotation>,
>)
    ensures
        match r {
            Some(v) => get(annotation_map(m@), k) == Some(views(v@)),
            None => get(annotation_map(m@), k) is None,
        },
{
    m.get(&k)
}

/// The state and the target's index for a content index of the source: the one that was given
/// out before, or the next one.
pub open spec fn target_of(s: StateView, index: usize) -> (StateView, usize) {
    match get(s.content_indices, index) {
        Some(target) => (s, target),
        None => (
            StateView {
                next_content_index: s.next_content_index.wrapping_add(1),
                content_indices: s.content_indices.insert(index, s.next_content_index),
                ..s
            },
            s.next_content_index,
        ),
    }
}

impl StreamState {
    /// The target's index for a content index of the source.
    pub fn target_content_index(&mut self, source_index: usize) -> (r: usize)
        ensures
            (final(self)@, r) == target_of(old(self)@, source_index),
    {
        if let Some(index) = self.content_indices.get(&source_index) {
            return *index;
        }
        let index = self.next_content_index;
        self.next_content_index = self.next_content_index.wrapping_add(1);
        self.content_indices.insert(source_index, index);
        index
    }
}

/// Whether `s` lists `set` in increasing order.
pub open spec fn lists(s: Seq<usize>, set: Set<usize>) -> bool {
    &&& forall|i: int, j: int| 0 <= i < j < s.len() ==> s[i] < s[j]
    &&& forall|x: usize| #[trigger] set.contains(x) <==> s.contains(x)
}

/// The indices of a set, in increasing order.
pub open spec fn ascending(set: Set<usize>) -> Seq<usize> {
    choose|s: Seq<usize>| lists(s, set)
}

/// A set is listed in one way only.
pub proof fn lists_once(a: Seq<usize>, b: Seq<usize>, set: Set<usize>)
    requires
        lists(a, set),
        lists(b, set),
    ensures
        a == b,
    decreases a.len(),
{
    if a.len() == 0 {
        if b.len() > 0 {
            assert(b.contains(b[0]));
            assert(set.contains(b[0]));
            assert(a.contains(b[0]));
        }
        assert(a =~= b);
    } else {
        assert(a.contains(a[0]) && set.contains(a[0]) && b.contains(a[0]));
        assert(b.contains(b[0]) && set.contains(b[0]) && a.contains(b[0]));
        let x = a[0];
        assert(b[0] == x) by {
            let i = choose|i: int| 0 <= i < b.len() && b[i] == x;
            let j = choose|j: int| 0 <= j < a.len() && a[j] == b[0];
            if i > 0 {
                assert(b[0] < b[i]);
            }
            if j > 0 {
                assert(a[0] < a[j]);
            }
        }
        let a1 = a.subrange(1, a.len() as int);
        let b1 = b.subrange(1, b.len() as int);
        lists_tail(a, set);
        lists_tail(b, set);
        lists_once(a1, b1, set.remove(x));
        assert(a =~= seq![x] + a1);
        assert(b =~= seq![x] + b1);
    }
}

proof fn lists_tail(a: Seq<usize>, set: Set<usize>)
    requires
        lists(a, set),
        a.len() > 0,
    ensures
        lists(a.subrange(1, a.len() as int), set.remove(a[0])),
{
    let t = a.subrange(1, a.len() as int);
    let rest = set.remove(a[0]);
    assert forall|x: usize| #[trigger] rest.contains(x) <==> t.contains(x) by {
        if rest.contains(x) {
            assert(set.contains(x));
            let i = choose|i: int| 0 <= i < a.len() && a[i] == x;
            assert(t[i - 1] == x);
        }
        if t.contains(x) {
            let i = choose|i: int| 0 <= i < t.len() && t[i] == x;
            assert(a[i + 1] == x);
            assert(a.contains(x));
            assert(a[0] < a[i + 1]);
        }
    }
}

/// The indices of a set, in increasing order.
pub(crate) fn ascending_list(set: &BTreeSet<usize>) -> (r: Vec<usize>)
    ensures
        r@ == ascending(set@),
{
    let mut out: Vec<usize> = Vec::new();
    let ghost seen = set.iter().remaining();
    for x in it: set.iter()
        invariant
            out@.len() == it.index(),
            forall|i: int| 0 <= i < out@.len() ==> out@[i] == *it.seq()[i],
            it.seq().unref().to_set() == set@,
            increasing_seq(it.seq()),
    {
        out.push(*x);
    }
    proof {
        let s = out@;
        assert(seen.unref() =~= s);
        assert(s.to_set() == set@);
        assert(vstd::laws_cmp::obeys_cmp::<&usize>());
        assert(increasing_seq(seen));
        assert forall|i: int, j: int| 0 <= i < j < s.len() implies s[i] < s[j] by {
            let (x, y) = (seen[i], seen[j]);
            assert(x == s[i] && y == s[j]);
            assert(OrdSpec::cmp_spec(&seen[i], &seen[j]) is Less);
        }
        assert forall|x: usize| #[trigger] set@.contains(x) <==> s.contains(x) by {
            assert(s.to_set().contains(x) == s.contains(x));
        }
        assert(lists(s, set@));
        lists_once(s, ascending(set@), set@);
    }
    out
}

} // verus!
