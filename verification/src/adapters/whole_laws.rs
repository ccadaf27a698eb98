//! What a whole stream says: the pieces that are written, put together, are the pieces that the
//! events hold, put together.

use super::anthropic_stream::{anthropic_event_written, anthropic_write_step, block_stops};
use super::chat_stream::{chat_event_written, chat_write_step};
use super::common::{array0, object2};
use super::event_laws::{
    chat_ends_written, chat_pieces_written, chunk_call, chunk_delta, messages_pieces_written,
    numbered_as, tells, typed,
};
use super::fresh::IdsView;
use super::names::names_differ;
use super::part_laws::says;
use super::responses_event_laws::{responses_pieces_written, responses_thoughts_written};
use super::responses_stream::{
    about, blank, buffered, cited_values, content_closed, content_id_text, end_written,
    item_completed, item_started, output_text, remembered, responses_event_written,
    responses_write_step, start_written, Written,
};
use super::sse::SseView;
use super::state::{ascending, get, target_of, StateView};
use super::stream::{written, WriteStep};
use super::stream_laws::placed;
use crate::json::{jint, JsonView};
use crate::model::{no_fields, ContentView, EventView, Fields};
use crate::text::or_text;
use vstd::prelude::*;

verus! {

/// What the elements of a list say, one after another.
pub open spec fn run_together<A>(s: Seq<A>, f: spec_fn(A) -> Seq<char>) -> Seq<char>
    decreases s.len(),
{
    if s.len() == 0 {
        Seq::empty()
    } else {
        run_together(s.drop_last(), f) + f(s.last())
    }
}

pub(crate) proof fn run_together_adds<A>(a: Seq<A>, b: Seq<A>, f: spec_fn(A) -> Seq<char>)
    ensures
        run_together(a + b, f) == run_together(a, f) + run_together(b, f),
    decreases b.len(),
{
    if b.len() == 0 {
        assert(a + b =~= a);
    } else {
        run_together_adds(a, b.drop_last(), f);
        assert((a + b).drop_last() =~= a + b.drop_last());
    }
}

pub(crate) proof fn run_together_ends<A>(a: Seq<A>, x: A, f: spec_fn(A) -> Seq<char>)
    ensures
        run_together(a.push(x), f) == run_together(a, f) + f(x),
        run_together(Seq::<A>::empty(), f) == Seq::<char>::empty(),
        run_together(seq![x], f) == f(x),
{
    assert(a.push(x).drop_last() =~= a);
    assert(seq![x].drop_last() =~= Seq::<A>::empty());
    reveal_with_fuel(run_together, 2);
    assert(run_together(seq![x], f) =~= f(x));
}

/// The piece of text that an event holds.
pub open spec fn text_said() -> spec_fn(EventView) -> Seq<char> {
    |e: EventView|
        match e {
            EventView::TextDelta { text, .. } => text,
            _ => Seq::empty(),
        }
}

/// The piece of reasoning that an event holds.
pub open spec fn thought_said() -> spec_fn(EventView) -> Seq<char> {
    |e: EventView|
        match e {
            EventView::ReasoningDelta { text: Some(text), .. } => text,
            _ => Seq::empty(),
        }
}

/// The piece of a refusal that an event holds.
pub open spec fn refusal_said() -> spec_fn(EventView) -> Seq<char> {
    |e: EventView|
        match e {
            EventView::RefusalDelta { refusal, .. } => refusal,
            _ => Seq::empty(),
        }
}

/// The piece of the arguments of the call at `part` that an event holds.
pub open spec fn arguments_said(part: usize) -> spec_fn(EventView) -> Seq<char> {
    |e: EventView|
        match e {
            EventView::ToolCallDelta { index, arguments_delta, .. } => if index == part {
                arguments_delta
            } else {
                Seq::empty()
            },
            _ => Seq::empty(),
        }
}

/// The words of a field, or none.
pub open spec fn words_at(v: JsonView, name: Seq<char>) -> Seq<char> {
    or_text(v.at(name).text(), Seq::empty())
}

/// The piece of a field that a chunk adds to what it shows.
pub open spec fn chunk_words(name: Seq<char>) -> spec_fn(JsonView) -> Seq<char> {
    |v: JsonView| words_at(chunk_delta(v), name)
}

/// The piece of the arguments of the call at `index` that a chunk adds.
pub open spec fn chunk_arguments(index: usize) -> spec_fn(JsonView) -> Seq<char> {
    |v: JsonView|
        if numbered_as(chunk_call(v), "index"@, index) {
            words_at(chunk_call(v).at("function"@), "arguments"@)
        } else {
            Seq::empty()
        }
}

/// Whether events are the texts of values, one for one; the mark of the end stands for none.
pub open spec fn all_tell(out: Seq<SseView>, vs: Seq<JsonView>) -> bool {
    out.len() == vs.len() && forall|i: int|
        0 <= i < out.len() ==> tells(#[trigger] out[i], vs[i]) || (out[i].data == "[DONE]"@ && vs[i]
            == JsonView::Null)
}

pub(crate) proof fn all_tell_adds(
    a: Seq<SseView>,
    b: Seq<SseView>,
    vs: Seq<JsonView>,
    ws: Seq<JsonView>,
)
    requires
        all_tell(a, vs),
        all_tell(b, ws),
    ensures
        all_tell(a + b, vs + ws),
{
    assert forall|i: int| 0 <= i < (a + b).len() implies tells(#[trigger] (a + b)[i], (vs + ws)[i])
        || ((a + b)[i].data == "[DONE]"@ && (vs + ws)[i] == JsonView::Null) by {
        if i < a.len() {
            assert((a + b)[i] == a[i]);
            assert((vs + ws)[i] == vs[i]);
        } else {
            assert((a + b)[i] == b[i - a.len()]);
            assert((vs + ws)[i] == ws[i - a.len()]);
        }
    }
}

spec fn same_places(a: StateView, b: StateView) -> bool {
    a.content_indices == b.content_indices && a.next_content_index == b.next_content_index
}

/// Whether an index has been given out to no part but, perhaps, one.
spec fn one_more_place(s: StateView, after: StateView) -> bool {
    same_places(after, s) || exists|part: usize| same_places(after, (#[trigger] target_of(s, part)).0)
}

proof fn places_grow(s: StateView, after: StateView)
    requires
        placed(s),
        s.next_content_index < usize::MAX,
        one_more_place(s, after),
    ensures
        placed(after),
        s.next_content_index <= after.next_content_index <= s.next_content_index + 1,
        forall|p: usize| #[trigger]
            s.content_indices.contains_key(p) ==> after.content_indices.contains_key(p)
                && after.content_indices[p] == s.content_indices[p],
        forall|p: usize| #[trigger]
            after.content_indices.contains_key(p) && !s.content_indices.contains_key(p)
                ==> after.content_indices[p] == s.next_content_index && after.next_content_index
                == s.next_content_index + 1,
{
    if !same_places(after, s) {
        let part = choose|part: usize| same_places(after, (#[trigger] target_of(s, part)).0);
        let t = target_of(s, part).0;
        assert(after.content_indices == t.content_indices);
        assert forall|i: usize, j: usize|
            #![trigger after.content_indices[i], after.content_indices[j]]
            after.content_indices.contains_key(i) && after.content_indices.contains_key(j) && i
                != j implies after.content_indices[i] != after.content_indices[j] by {
            if i != part {
                assert(s.content_indices.contains_key(i));
            }
            if j != part {
                assert(s.content_indices.contains_key(j));
            }
        }
    }
}

/// What one event says, and what is written of it for Chat.
proof fn one_chat_event(s: StateView, event: EventView, ids: IdsView, now: i64) -> (vs: Seq<
    JsonView,
>)
    requires
        !(event is Raw),
    ensures
        ({
            let (after, sent) = chat_event_written(s, event, ids, now);
            &&& one_more_place(s, after)
            &&& sent matches Ok(out) ==> {
                &&& all_tell(out, vs)
                &&& run_together(vs, chunk_words("content"@)) == text_said()(event)
                &&& run_together(vs, chunk_words("reasoning_content"@)) == thought_said()(event)
                &&& run_together(vs, chunk_words("refusal"@)) == refusal_said()(event)
                &&& event matches EventView::ToolCallDelta { index, .. }
                    ==> after.content_indices.contains_key(index)
                &&& forall|t: usize|
                    #[trigger] run_together(vs, chunk_arguments(t)) == match event {
                        EventView::ToolCallDelta { index, arguments_delta, .. } => if t
                            == after.content_indices[index] {
                            arguments_delta
                        } else {
                            Seq::empty()
                        },
                        _ => Seq::empty(),
                    }
            }
        }),
{
    names_differ();
    reveal_strlit("");
    assert(""@ =~= Seq::<char>::empty());
    let (after, sent) = chat_event_written(s, event, ids, now);
    match event {
        EventView::ContentStart { index, .. } => {
            assert(same_places(after, target_of(s, index).0));
        },
        EventView::ToolCallDelta { index, .. } => {
            assert(same_places(after, target_of(s, index).0));
        },
        _ => {},
    }
    if event is MessageEnd {
        let (end, cost) = chat_ends_written(s, event, ids, now);
        let vs = if after.usage is Some {
            seq![end, cost, JsonView::Null]
        } else {
            seq![end, JsonView::Null]
        };
        says_nothing(vs);
        vs
    } else {
        let v = chat_pieces_written(s, event, ids, now);
        match sent {
            Ok(out) => {
                if out.len() == 1 {
                    says_one_thing(v);
                    assert(all_tell(out, seq![v]));
                    says_no_more(v);
                    seq![v]
                } else {
                    says_nothing(Seq::empty());
                    Seq::empty()
                }
            },
            Err(_) => { Seq::empty() },
        }
    }
}

proof fn says_one_thing(v: JsonView)
    ensures
        run_together(seq![v], chunk_words("content"@)) == words_at(chunk_delta(v), "content"@),
        run_together(seq![v], chunk_words("reasoning_content"@)) == words_at(
            chunk_delta(v),
            "reasoning_content"@,
        ),
        run_together(seq![v], chunk_words("refusal"@)) == words_at(chunk_delta(v), "refusal"@),
        forall|t: usize| #[trigger] run_together(seq![v], chunk_arguments(t)) == chunk_arguments(t)(v),
{
    run_together_ends(Seq::empty(), v, chunk_words("content"@));
    run_together_ends(Seq::empty(), v, chunk_words("reasoning_content"@));
    run_together_ends(Seq::empty(), v, chunk_words("refusal"@));
    assert forall|t: usize|
        #[trigger] run_together(seq![v], chunk_arguments(t)) == chunk_arguments(t)(v) by {
        run_together_ends(Seq::empty(), v, chunk_arguments(t));
    }
}

proof fn says_no_more(v: JsonView)
    ensures
        chunk_delta(v).field("content"@) is None ==> words_at(chunk_delta(v), "content"@)
            == Seq::<char>::empty(),
        chunk_delta(v).field("reasoning_content"@) is None ==> words_at(
            chunk_delta(v),
            "reasoning_content"@,
        ) == Seq::<char>::empty(),
        chunk_delta(v).field("refusal"@) is None ==> words_at(chunk_delta(v), "refusal"@) == Seq::<
            char,
        >::empty(),
        chunk_delta(v).field("tool_calls"@) is None ==> forall|t: usize|
            #[trigger] chunk_arguments(t)(v) == Seq::<char>::empty(),
{
}

proof fn says_nothing(vs: Seq<JsonView>)
    requires
        forall|i: int|
            0 <= i < vs.len() ==> (#[trigger] chunk_delta(vs[i])).fields_or_none() == Map::<
                Seq<char>,
                JsonView,
            >::empty(),
    ensures
        run_together(vs, chunk_words("content"@)) == Seq::<char>::empty(),
        run_together(vs, chunk_words("reasoning_content"@)) == Seq::<char>::empty(),
        run_together(vs, chunk_words("refusal"@)) == Seq::<char>::empty(),
        forall|t: usize| #[trigger] run_together(vs, chunk_arguments(t)) == Seq::<char>::empty(),
    decreases vs.len(),
{
    if vs.len() > 0 {
        assert forall|i: int| 0 <= i < vs.drop_last().len() implies (#[trigger] chunk_delta(
            vs.drop_last()[i],
        )).fields_or_none() == Map::<Seq<char>, JsonView>::empty() by {
            assert(chunk_delta(vs[i]).fields_or_none() == Map::<Seq<char>, JsonView>::empty());
        }
        says_nothing(vs.drop_last());
        let v = vs.last();
        assert(chunk_delta(vs[vs.len() - 1]).fields_or_none() == Map::<Seq<char>, JsonView>::empty());
        assert(chunk_delta(v).field("content"@) is None);
        assert(chunk_delta(v).field("reasoning_content"@) is None);
        assert(chunk_delta(v).field("refusal"@) is None);
        assert(chunk_delta(v).field("tool_calls"@) is None);
        assert forall|t: usize|
            #[trigger] run_together(vs, chunk_arguments(t)) == Seq::<char>::empty() by {
            assert(run_together(vs.drop_last(), chunk_arguments(t)) == Seq::<char>::empty());
            assert(chunk_arguments(t)(v) =~= Seq::<char>::empty());
        }
    }
}

/// A stream that is written for Chat says what the events say: the chunks' contents, one after
/// another, are the events' texts, and likewise the reasoning and the refusal; and the arguments
/// of the call at the index of a part are the arguments that the events hold for that part.
pub proof fn chat_streams_are_whole(
    events: Seq<EventView>,
    ids: IdsView,
    s: StateView,
    now: i64,
) -> (vs: Seq<JsonView>)
    requires
        placed(s),
        s.next_content_index + events.len() < usize::MAX,
        forall|i: int| 0 <= i < events.len() ==> !(#[trigger] events[i] is Raw),
    ensures
        ({
            let (after, sent) = written(events, ids, s, chat_write_step(now));
            &&& placed(after)
            &&& s.next_content_index <= after.next_content_index <= s.next_content_index
                + events.len()
            &&& sent matches Ok(out) ==> {
                &&& all_tell(out, vs)
                &&& run_together(vs, chunk_words("content"@)) == run_together(events, text_said())
                &&& run_together(vs, chunk_words("reasoning_content"@)) == run_together(
                    events,
                    thought_said(),
                )
                &&& run_together(vs, chunk_words("refusal"@)) == run_together(
                    events,
                    refusal_said(),
                )
                &&& forall|part: usize| #[trigger]
                    after.content_indices.contains_key(part) ==> run_together(
                        vs,
                        chunk_arguments(after.content_indices[part]),
                    ) == run_together(events, arguments_said(part))
                &&& forall|part: usize|
                    !after.content_indices.contains_key(part) ==> #[trigger] run_together(
                        events,
                        arguments_said(part),
                    ) == Seq::<char>::empty()
                &&& forall|t: usize|
                    t >= after.next_content_index ==> #[trigger] run_together(
                        vs,
                        chunk_arguments(t),
                    ) == Seq::<char>::empty()
            }
        }),
    decreases events.len(),
{
    let step = chat_write_step(now);
    if events.len() == 0 {
        Seq::empty()
    } else {
        let first = events.drop_last();
        let event = events.last();
        assert(forall|i: int| 0 <= i < first.len() ==> first[i] == events[i]);
        assert(event == events[events.len() - 1]);
        let vs = chat_streams_are_whole(first, ids, s, now);
        let (mid, sent) = written(first, ids, s, step);
        match sent {
            Err(_) => { vs },
            Ok(out) => {
                let more = one_chat_event(mid, event, ids.at(events.len() - 1), now);
                let (after, last) = chat_event_written(mid, event, ids.at(events.len() - 1), now);
                assert(step(mid, event, ids.at(events.len() - 1)) == (after, last));
                places_grow(mid, after);
                if let Ok(new) = last {
                    all_tell_adds(out, new, vs, more);
                    run_together_adds(vs, more, chunk_words("content"@));
                    run_together_adds(vs, more, chunk_words("reasoning_content"@));
                    run_together_adds(vs, more, chunk_words("refusal"@));
                    assert forall|part: usize| #[trigger]
                        after.content_indices.contains_key(part) implies run_together(
                        vs + more,
                        chunk_arguments(after.content_indices[part]),
                    ) == run_together(events, arguments_said(part)) by {
                        let t = after.content_indices[part];
                        run_together_adds(vs, more, chunk_arguments(t));
                        assert(run_together(events, arguments_said(part)) == run_together(
                            first,
                            arguments_said(part),
                        ) + arguments_said(part)(event));
                        if mid.content_indices.contains_key(part) {
                        } else {
                            assert(run_together(first, arguments_said(part)) == Seq::<char>::empty());
                            assert(run_together(vs, chunk_arguments(t)) == Seq::<char>::empty());
                        }
                        assert(run_together(more, chunk_arguments(t)) == arguments_said(part)(event))
                            by {
                            if let EventView::ToolCallDelta { index, .. } = event {
                                if index != part {
                                    assert(after.content_indices[index]
                                        != after.content_indices[part]);
                                }
                            }
                        }
                    }
                    assert forall|part: usize|
                        !after.content_indices.contains_key(part) implies #[trigger] run_together(
                        events,
                        arguments_said(part),
                    ) == Seq::<char>::empty() by {
                        assert(!mid.content_indices.contains_key(part));
                        assert(run_together(first, arguments_said(part)) == Seq::<char>::empty());
                        assert(arguments_said(part)(event) == Seq::<char>::empty());
                        assert(run_together(events, arguments_said(part)) =~= Seq::<char>::empty());
                    }
                    assert forall|t: usize|
                        t >= after.next_content_index implies #[trigger] run_together(
                        vs + more,
                        chunk_arguments(t),
                    ) == Seq::<char>::empty() by {
                        run_together_adds(vs, more, chunk_arguments(t));
                        assert(run_together(vs, chunk_arguments(t)) == Seq::<char>::empty());
                        assert(run_together(more, chunk_arguments(t)) == Seq::<char>::empty());
                    }
                }
                vs + more
            },
        }
    }
}

/// The part to which an event adds a piece.
pub open spec fn piece_of(event: EventView) -> Option<usize> {
    match event {
        EventView::TextDelta { index, .. } => Some(index),
        EventView::ReasoningDelta { index, .. } => Some(index),
        EventView::RefusalDelta { index, .. } => Some(index),
        EventView::ToolCallDelta { index, .. } => Some(index),
        _ => None,
    }
}

/// Whether `vs` is what is written of an event, and says of each index what the event says of the
/// part at that index.
spec fn step_tells(
    step: WriteStep,
    told: spec_fn(usize) -> spec_fn(JsonView) -> Seq<char>,
    said: spec_fn(usize) -> spec_fn(EventView) -> Seq<char>,
    s: StateView,
    event: EventView,
    ids: IdsView,
    vs: Seq<JsonView>,
) -> bool {
    let (after, sent) = step(s, event, ids);
    &&& one_more_place(s, after)
    &&& sent matches Ok(out) ==> {
        &&& all_tell(out, vs)
        &&& forall|t: usize|
            #[trigger] run_together(vs, told(t)) == match piece_of(event) {
                Some(part) => if after.content_indices.contains_key(part)
                    && after.content_indices[part] == t {
                    said(part)(event)
                } else {
                    Seq::empty()
                },
                None => Seq::empty(),
            }
        &&& piece_of(event) matches Some(part) ==> after.content_indices.contains_key(part)
        &&& forall|part: usize|
            piece_of(event) != Some(part) ==> #[trigger] said(part)(event) == Seq::<char>::empty()
    }
}

/// Whether some values are what is written of an event, and say what it says.
spec fn can_tell(
    step: WriteStep,
    told: spec_fn(usize) -> spec_fn(JsonView) -> Seq<char>,
    said: spec_fn(usize) -> spec_fn(EventView) -> Seq<char>,
    s: StateView,
    event: EventView,
    ids: IdsView,
) -> bool {
    exists|vs: Seq<JsonView>| step_tells(step, told, said, s, event, ids, vs)
}

proof fn stream_tells(
    events: Seq<EventView>,
    ids: IdsView,
    s: StateView,
    step: WriteStep,
    told: spec_fn(usize) -> spec_fn(JsonView) -> Seq<char>,
    said: spec_fn(usize) -> spec_fn(EventView) -> Seq<char>,
) -> (vs: Seq<JsonView>)
    requires
        placed(s),
        s.next_content_index + events.len() < usize::MAX,
        forall|i: int| 0 <= i < events.len() ==> !(#[trigger] events[i] is Raw),
        forall|t: StateView, e: EventView, i: IdsView|
            !(e is Raw) ==> #[trigger] can_tell(step, told, said, t, e, i),
    ensures
        ({
            let (after, sent) = written(events, ids, s, step);
            &&& placed(after)
            &&& s.next_content_index <= after.next_content_index <= s.next_content_index
                + events.len()
            &&& sent matches Ok(out) ==> {
                &&& all_tell(out, vs)
                &&& forall|part: usize| #[trigger]
                    after.content_indices.contains_key(part) ==> run_together(
                        vs,
                        told(after.content_indices[part]),
                    ) == run_together(events, said(part))
                &&& forall|part: usize|
                    !after.content_indices.contains_key(part) ==> #[trigger] run_together(
                        events,
                        said(part),
                    ) == Seq::<char>::empty()
                &&& forall|t: usize|
                    t >= after.next_content_index ==> #[trigger] run_together(vs, told(t)) == Seq::<
                        char,
                    >::empty()
            }
        }),
    decreases events.len(),
{
    if events.len() == 0 {
        Seq::empty()
    } else {
        let first = events.drop_last();
        let event = events.last();
        assert(forall|i: int| 0 <= i < first.len() ==> first[i] == events[i]);
        assert(event == events[events.len() - 1]);
        let vs = stream_tells(first, ids, s, step, told, said);
        let (mid, sent) = written(first, ids, s, step);
        match sent {
            Err(_) => { vs },
            Ok(out) => {
                let at = ids.at(events.len() - 1);
                let (after, last) = step(mid, event, at);
                assert(can_tell(step, told, said, mid, event, at));
                let more = choose|vs: Seq<JsonView>|
                    step_tells(step, told, said, mid, event, at, vs);
                places_grow(mid, after);
                if let Ok(new) = last {
                    all_tell_adds(out, new, vs, more);
                    assert forall|part: usize| #[trigger]
                        after.content_indices.contains_key(part) implies run_together(
                        vs + more,
                        told(after.content_indices[part]),
                    ) == run_together(events, said(part)) by {
                        let t = after.content_indices[part];
                        run_together_adds(vs, more, told(t));
                        assert(run_together(events, said(part)) == run_together(first, said(part))
                            + said(part)(event));
                        if !mid.content_indices.contains_key(part) {
                            assert(run_together(first, said(part)) == Seq::<char>::empty());
                            assert(run_together(vs, told(t)) == Seq::<char>::empty());
                        }
                        assert(run_together(more, told(t)) == said(part)(event)) by {
                            if let Some(other) = piece_of(event) {
                                if other != part {
                                    assert(after.content_indices[other]
                                        != after.content_indices[part]);
                                }
                            }
                        }
                    }
                    assert forall|part: usize|
                        !after.content_indices.contains_key(part) implies #[trigger] run_together(
                        events,
                        said(part),
                    ) == Seq::<char>::empty() by {
                        assert(!mid.content_indices.contains_key(part));
                        assert(run_together(first, said(part)) == Seq::<char>::empty());
                        assert(said(part)(event) == Seq::<char>::empty());
                        assert(run_together(events, said(part)) =~= Seq::<char>::empty());
                    }
                    assert forall|t: usize|
                        t >= after.next_content_index implies #[trigger] run_together(
                        vs + more,
                        told(t),
                    ) == Seq::<char>::empty() by {
                        run_together_adds(vs, more, told(t));
                        assert(run_together(vs, told(t)) == Seq::<char>::empty());
                        assert(run_together(more, told(t)) == Seq::<char>::empty());
                    }
                }
                vs + more
            },
        }
    }
}

/// What an event says of a part that Messages tells under a name: its text or refusal, its
/// reasoning, its signature or its arguments.
pub open spec fn said_in_messages(key: Seq<char>) -> spec_fn(usize) -> spec_fn(EventView) -> Seq<
    char,
> {
    |part: usize|
        |e: EventView|
            match e {
                EventView::TextDelta { index, text } => if index == part && key == "text"@ {
                    text
                } else {
                    Seq::empty()
                },
                EventView::RefusalDelta { index, refusal } => if index == part && key == "text"@ {
                    refusal
                } else {
                    Seq::empty()
                },
                EventView::ReasoningDelta { index, text, signature } => if index == part && key
                    == "thinking"@ {
                    or_text(text, Seq::empty())
                } else if index == part && key == "signature"@ {
                    or_text(signature, Seq::empty())
                } else {
                    Seq::empty()
                },
                EventView::ToolCallDelta { index, arguments_delta, .. } => if index == part && key
                    == "partial_json"@ {
                    arguments_delta
                } else {
                    Seq::empty()
                },
                _ => Seq::empty(),
            }
}

/// The piece that an event of a Messages stream adds to the block of an index under a name.
pub open spec fn told_in_messages(key: Seq<char>) -> spec_fn(usize) -> spec_fn(JsonView) -> Seq<
    char,
> {
    |index: usize|
        |v: JsonView|
            if says(v, "type"@, "content_block_delta"@) && numbered_as(v, "index"@, index) {
                words_at(v.at("delta"@), key)
            } else {
                Seq::empty()
            }
}

proof fn one_messages_event(key: Seq<char>, s: StateView, event: EventView, ids: IdsView) -> (vs:
    Seq<JsonView>)
    requires
        !(event is Raw),
        key == "text"@ || key == "thinking"@ || key == "signature"@ || key == "partial_json"@,
    ensures
        step_tells(
            anthropic_write_step(),
            told_in_messages(key),
            said_in_messages(key),
            s,
            event,
            ids,
            vs,
        ),
{
    names_differ();
    let step = anthropic_write_step();
    let told = told_in_messages(key);
    let said = said_in_messages(key);
    let (after, sent) = anthropic_event_written(s, event, ids);
    assert(step(s, event, ids) == (after, sent));
    match event {
        EventView::ContentStart { index, .. } => {
            assert(same_places(after, target_of(s, index).0));
        },
        EventView::TextDelta { index, .. } => {
            assert(same_places(after, target_of(s, index).0));
        },
        EventView::RefusalDelta { index, .. } => {
            assert(same_places(after, target_of(s, index).0));
        },
        EventView::ReasoningDelta { index, .. } => {
            assert(same_places(after, target_of(s, index).0));
        },
        EventView::AnnotationAdded { index, .. } => {
            assert(same_places(after, target_of(s, index).0));
        },
        EventView::ToolCallDelta { index, .. } => {
            assert(same_places(after, target_of(s, index).0));
        },
        EventView::ContentEnd { index } => {
            assert(same_places(after, target_of(s, index).0));
        },
        _ => {},
    }
    let vs = messages_pieces_written(s, event, ids);
    match sent {
        Err(_) => { vs },
        Ok(out) => {
            if event is MessageEnd {
                let stops = out.take(out.len() - 2);
                let stopped = Seq::new(
                    stops.len(),
                    |i: int|
                        object2(
                            "type"@,
                            JsonView::Text("content_block_stop"@),
                            "index"@,
                            jint(ascending(s.open_content)[i] as u64),
                        ),
                );
                let all = stopped + vs;
                assert(all_tell(out, all)) by {
                    assert forall|i: int| 0 <= i < out.len() implies tells(#[trigger] out[i], all[i]) by {
                        if i < stops.len() {
                            assert(out[i] == block_stops(
                                ascending(s.open_content),
                            )[i]);
                        }
                    }
                }
                assert forall|t: usize| #[trigger] run_together(all, told(t)) == Seq::<char>::empty() by {
                    nothing_told(all, told(t));
                }
                all
            } else {
                assert(all_tell(out, vs));
                assert forall|t: usize| #[trigger] run_together(vs, told(t)) == match piece_of(event) {
                    Some(part) => if after.content_indices.contains_key(part)
                        && after.content_indices[part] == t {
                        said(part)(event)
                    } else {
                        Seq::empty()
                    },
                    None => Seq::empty(),
                } by {
                    if vs.len() == 0 {
                        nothing_told(vs, told(t));
                    } else if vs.len() == 1 {
                        run_together_ends(Seq::empty(), vs[0], told(t));
                        assert(vs =~= seq![vs[0]]);
                    } else {
                        run_together_ends(seq![vs[0]], vs[1], told(t));
                        run_together_ends(Seq::empty(), vs[0], told(t));
                        assert(vs =~= seq![vs[0]].push(vs[1]));
                    }
                }
                vs
            }
        },
    }
}

proof fn nothing_told(vs: Seq<JsonView>, f: spec_fn(JsonView) -> Seq<char>)
    requires
        forall|i: int| 0 <= i < vs.len() ==> f(#[trigger] vs[i]) == Seq::<char>::empty(),
    ensures
        run_together(vs, f) == Seq::<char>::empty(),
    decreases vs.len(),
{
    if vs.len() > 0 {
        assert(vs.last() == vs[vs.len() - 1]);
        assert forall|i: int| 0 <= i < vs.drop_last().len() implies f(#[trigger] vs.drop_last()[i])
            == Seq::<char>::empty() by {
            assert(vs.drop_last()[i] == vs[i]);
        }
        nothing_told(vs.drop_last(), f);
        assert(run_together(vs, f) =~= Seq::<char>::empty());
    }
}

/// A stream that is written for Messages says what the events say: the pieces of the block at the
/// index of a part, one after another, are the pieces that the events hold for that part. That
/// holds of texts and refusals (`text`), of reasoning (`thinking`), of signatures (`signature`)
/// and of the arguments of calls (`partial_json`).
pub proof fn messages_streams_are_whole(
    events: Seq<EventView>,
    ids: IdsView,
    s: StateView,
    key: Seq<char>,
) -> (vs: Seq<JsonView>)
    requires
        placed(s),
        s.next_content_index + events.len() < usize::MAX,
        forall|i: int| 0 <= i < events.len() ==> !(#[trigger] events[i] is Raw),
        key == "text"@ || key == "thinking"@ || key == "signature"@ || key == "partial_json"@,
    ensures
        ({
            let (after, sent) = written(events, ids, s, anthropic_write_step());
            &&& placed(after)
            &&& sent matches Ok(out) ==> {
                &&& all_tell(out, vs)
                &&& forall|part: usize| #[trigger]
                    after.content_indices.contains_key(part) ==> run_together(
                        vs,
                        told_in_messages(key)(after.content_indices[part]),
                    ) == run_together(events, said_in_messages(key)(part))
                &&& forall|part: usize|
                    !after.content_indices.contains_key(part) ==> #[trigger] run_together(
                        events,
                        said_in_messages(key)(part),
                    ) == Seq::<char>::empty()
            }
        }),
{
    let step = anthropic_write_step();
    let told = told_in_messages(key);
    let said = said_in_messages(key);
    assert forall|t: StateView, e: EventView, i: IdsView| !(e is Raw) implies #[trigger] can_tell(
        step,
        told,
        said,
        t,
        e,
        i,
    ) by {
        let vs = one_messages_event(key, t, e, i);
        assert(step_tells(step, told, said, t, e, i, vs));
    }
    stream_tells(events, ids, s, step, told, said)
}

/// What an event says of a part that Responses tells in events of a kind: its text, its refusal,
/// its reasoning or its arguments.
pub open spec fn said_in_responses(kind: Seq<char>) -> spec_fn(usize) -> spec_fn(EventView) -> Seq<
    char,
> {
    |part: usize|
        |e: EventView|
            match e {
                EventView::TextDelta { index, text } => if index == part && kind
                    == "response.output_text.delta"@ {
                    text
                } else {
                    Seq::empty()
                },
                EventView::RefusalDelta { index, refusal } => if index == part && kind
                    == "response.refusal.delta"@ {
                    refusal
                } else {
                    Seq::empty()
                },
                EventView::ReasoningDelta { index, text, .. } => if index == part && kind
                    == "response.reasoning_summary_text.delta"@ {
                    or_text(text, Seq::empty())
                } else {
                    Seq::empty()
                },
                EventView::ToolCallDelta { index, arguments_delta, .. } => if index == part && kind
                    == "response.function_call_arguments.delta"@ {
                    arguments_delta
                } else {
                    Seq::empty()
                },
                _ => Seq::empty(),
            }
}

/// The piece that an event of a kind adds to the item of an index in a Responses stream.
pub open spec fn told_in_responses(kind: Seq<char>) -> spec_fn(usize) -> spec_fn(JsonView) -> Seq<
    char,
> {
    |index: usize|
        |v: JsonView|
            if says(v, "type"@, kind) && numbered_as(v, "output_index"@, index) {
                words_at(v, "delta"@)
            } else {
                Seq::empty()
            }
}

spec fn all_typed(out: Seq<SseView>, vs: Seq<JsonView>) -> bool {
    out.len() == vs.len() && forall|i: int|
        0 <= i < out.len() ==> (#[trigger] out[i]).event is Some && typed(
            out[i],
            vs[i],
            out[i].event->0,
        )
}

proof fn emitted(w: Written, vs: Seq<JsonView>, kind: Seq<char>, fields: Fields) -> (ws: Seq<
    JsonView,
>)
    requires
        all_typed(w.out, vs),
    ensures
        all_typed(w.emit(kind, fields).out, ws),
        w.emit(kind, fields).out.last().event == Some(kind),
        w.emit(kind, fields).out.drop_last() == w.out,
{
    names_differ();
    let v = JsonView::Object(
        fields.insert("type"@, JsonView::Text(kind)).insert(
            "sequence_number"@,
            jint(w.state.sequence_number),
        ),
    );
    let next = w.emit(kind, fields);
    assert(next.out.drop_last() =~= w.out);
    assert(typed(next.out.last(), v, kind));
    vs.push(v)
}

spec fn adds_nothing(e: SseView) -> bool {
    e.event == Some("response.output_item.added"@) || e.event == Some(
        "response.content_part.added"@,
    ) || e.event == Some("response.output_text.done"@) || e.event == Some(
        "response.content_part.done"@,
    ) || e.event == Some("response.function_call_arguments.done"@) || e.event == Some(
        "response.output_item.done"@,
    )
}

proof fn part_begun(s: StateView, index: usize, content: ContentView, ids: IdsView) -> (vs: Seq<
    JsonView,
>)
    ensures
        start_written(s, index, content, ids).1 matches Ok(out) ==> all_typed(out, vs) && forall|
            i: int,
        |
            0 <= i < out.len() ==> adds_nothing(#[trigger] out[i]),
{
    let (u, target) = target_of(s, index);
    let id = content_id_text(content, ids);
    let u = remembered(u, target, content, ids);
    match item_started(content, id) {
        Err(_) => { Seq::empty() },
        Ok((kind, item)) => {
            let u = StateView {
                content_kinds: u.content_kinds.insert(target, kind),
                open_content: u.open_content.insert(target),
                ..u
            };
            let fields = no_fields().insert(
                "output_index"@,
                jint(target as u64),
            ).insert("item"@, item);
            let vs = emitted(blank(u), Seq::empty(), "response.output_item.added"@, fields);
            let w = blank(u).emit("response.output_item.added"@, fields);
            if kind == "text"@ || kind == "refusal"@ {
                let fields = about(id, target).insert(
                    "content_index"@,
                    jint(0),
                ).insert(
                    "part"@,
                    if kind == "text"@ {
                        output_text(""@, array0())
                    } else {
                        object2(
                            "type"@,
                            JsonView::Text("refusal"@),
                            "refusal"@,
                            JsonView::Text(""@),
                        )
                    },
                );
                let ws = emitted(w, vs, "response.content_part.added"@, fields);
                let out = w.emit("response.content_part.added"@, fields).out;
                assert(out[0] == w.out[0] && out[1] == out.last() && out.len() == 2);
                ws
            } else {
                vs
            }
        },
    }
}

proof fn part_ended(s: StateView, index: usize) -> (vs: Seq<JsonView>)
    ensures
        end_written(s, index).1 matches Ok(out) ==> all_typed(out, vs) && forall|i: int|
            0 <= i < out.len() ==> adds_nothing(#[trigger] out[i]),
{
    let (u, target) = target_of(s, index);
    let id = or_text(get(u.content_ids, target), ""@);
    let kind = or_text(get(u.content_kinds, target), "text"@);
    let content = buffered(u, target);
    match content_closed(u, target, id, kind) {
        Err(_) => { Seq::empty() },
        Ok(w) => match item_completed(w.state, target, id, kind) {
            Err(_) => { Seq::empty() },
            Ok(item) => {
                let vs = if kind == "text"@ {
                    let list = cited_values(u, target)->Ok_0;
                    let base = about(id, target).insert("content_index"@, jint(0));
                    let fields = base.insert("text"@, JsonView::Text(content));
                    let vs = emitted(blank(u), Seq::empty(), "response.output_text.done"@, fields);
                    let first = blank(u).emit("response.output_text.done"@, fields);
                    let fields = base.insert("part"@, output_text(content, JsonView::Array(list)));
                    let ws = emitted(first, vs, "response.content_part.done"@, fields);
                    assert(w == first.emit("response.content_part.done"@, fields));
                    assert(w.out[0] == first.out[0] && w.out[1] == w.out.last());
                    ws
                } else if kind == "tool_call"@ {
                    let fields = about(id, target).insert("arguments"@, JsonView::Text(content));
                    emitted(
                        blank(u),
                        Seq::empty(),
                        "response.function_call_arguments.done"@,
                        fields,
                    )
                } else {
                    Seq::empty()
                };
                assert(all_typed(w.out, vs));
                assert forall|i: int| 0 <= i < w.out.len() implies adds_nothing(
                    #[trigger] w.out[i],
                ) by {}
                let fields = no_fields().insert(
                    "output_index"@,
                    jint(target as u64),
                ).insert("item"@, item);
                let ws = emitted(w, vs, "response.output_item.done"@, fields);
                let out = w.emit("response.output_item.done"@, fields).out;
                assert forall|i: int| 0 <= i < out.len() implies adds_nothing(#[trigger] out[i]) by {
                    if i < w.out.len() {
                        assert(out[i] == w.out[i]);
                    }
                }
                ws
            },
        },
    }
}

proof fn one_responses_event(
    kind: Seq<char>,
    s: StateView,
    event: EventView,
    ids: IdsView,
    now: i64,
) -> (vs: Seq<JsonView>)
    requires
        !(event is Raw),
        kind == "response.output_text.delta"@ || kind == "response.refusal.delta"@ || kind
            == "response.reasoning_summary_text.delta"@ || kind
            == "response.function_call_arguments.delta"@,
    ensures
        step_tells(
            responses_write_step(now),
            told_in_responses(kind),
            said_in_responses(kind),
            s,
            event,
            ids,
            vs,
        ),
{
    names_differ();
    let step = responses_write_step(now);
    let told = told_in_responses(kind);
    let said = said_in_responses(kind);
    let (after, sent) = responses_event_written(s, event, ids, now);
    assert(step(s, event, ids) == (after, sent));
    match event {
        EventView::ContentStart { index, .. } => {
            assert(same_places(after, target_of(s, index).0));
        },
        EventView::TextDelta { index, .. } => {
            assert(same_places(after, target_of(s, index).0));
        },
        EventView::RefusalDelta { index, .. } => {
            assert(same_places(after, target_of(s, index).0));
        },
        EventView::ReasoningDelta { index, .. } => {
            assert(same_places(after, target_of(s, index).0));
        },
        EventView::AnnotationAdded { index, .. } => {
            assert(same_places(after, target_of(s, index).0));
        },
        EventView::ToolCallDelta { index, .. } => {
            assert(same_places(after, target_of(s, index).0));
        },
        EventView::ContentEnd { index } => {
            assert(same_places(after, target_of(s, index).0));
        },
        _ => {},
    }
    let vs = match event {
        EventView::ContentStart { index, content } => part_begun(s, index, content, ids),
        EventView::ContentEnd { index } => part_ended(s, index),
        EventView::ReasoningDelta { text, signature, .. } => {
            let (thought, signed) = responses_thoughts_written(s, event, ids, now);
            (if text is Some {
                seq![thought]
            } else {
                Seq::empty()
            }) + (if signature is Some {
                seq![signed]
            } else {
                Seq::empty()
            })
        },
        EventView::Usage { .. } => Seq::empty(),
        _ => {
            let v = responses_pieces_written(s, event, ids, now);
            seq![v]
        },
    };
    if let Ok(out) = sent {
        assert(all_tell(out, vs));
        assert forall|t: usize| #[trigger] run_together(vs, told(t)) == match piece_of(event) {
            Some(part) => if after.content_indices.contains_key(part)
                && after.content_indices[part] == t {
                said(part)(event)
            } else {
                Seq::empty()
            },
            None => Seq::empty(),
        } by {
            if piece_of(event) is None {
                assert forall|i: int| 0 <= i < vs.len() implies told(t)(#[trigger] vs[i]) == Seq::<
                    char,
                >::empty() by {
                    assert(tells(out[i], vs[i]));
                    if event is ContentStart || event is ContentEnd {
                        assert(adds_nothing(out[i]));
                        assert(typed(out[i], vs[i], out[i].event->0));
                    }
                }
                nothing_told(vs, told(t));
            } else if vs.len() == 0 {
                nothing_told(vs, told(t));
            } else if vs.len() == 1 {
                run_together_ends(Seq::empty(), vs[0], told(t));
                assert(vs =~= seq![vs[0]]);
            } else {
                run_together_ends(seq![vs[0]], vs[1], told(t));
                run_together_ends(Seq::empty(), vs[0], told(t));
                assert(vs =~= seq![vs[0]].push(vs[1]));
            }
        }
    }
    vs
}

/// A stream that is written for Responses says what the events say: the pieces of the item at the
/// index of a part, one after another, are the pieces that the events hold for that part. That
/// holds of texts, of refusals, of reasoning and of the arguments of calls, each in events of its
/// own kind.
pub proof fn responses_streams_are_whole(
    events: Seq<EventView>,
    ids: IdsView,
    s: StateView,
    now: i64,
    kind: Seq<char>,
) -> (vs: Seq<JsonView>)
    requires
        placed(s),
        s.next_content_index + events.len() < usize::MAX,
        forall|i: int| 0 <= i < events.len() ==> !(#[trigger] events[i] is Raw),
        kind == "response.output_text.delta"@ || kind == "response.refusal.delta"@ || kind
            == "response.reasoning_summary_text.delta"@ || kind
            == "response.function_call_arguments.delta"@,
    ensures
        ({
            let (after, sent) = written(events, ids, s, responses_write_step(now));
            &&& placed(after)
            &&& sent matches Ok(out) ==> {
                &&& all_tell(out, vs)
                &&& forall|part: usize| #[trigger]
                    after.content_indices.contains_key(part) ==> run_together(
                        vs,
                        told_in_responses(kind)(after.content_indices[part]),
                    ) == run_together(events, said_in_responses(kind)(part))
                &&& forall|part: usize|
                    !after.content_indices.contains_key(part) ==> #[trigger] run_together(
                        events,
                        said_in_responses(kind)(part),
                    ) == Seq::<char>::empty()
            }
        }),
{
    let step = responses_write_step(now);
    let told = told_in_responses(kind);
    let said = said_in_responses(kind);
    assert forall|t: StateView, e: EventView, i: IdsView| !(e is Raw) implies #[trigger] can_tell(
        step,
        told,
        said,
        t,
        e,
        i,
    ) by {
        let vs = one_responses_event(kind, t, e, i, now);
        assert(step_tells(step, told, said, t, e, i, vs));
    }
    stream_tells(events, ids, s, step, told, said)
}

} // verus!
