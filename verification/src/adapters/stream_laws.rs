//! What holds of streams as a whole.

use super::annotations::openai_annotation_value;
use super::anthropic_stream::{
    anthropic_event_written, block_stop_event, block_stops, merged_usage, message_end_events,
};
use super::chat_stream::{
    call_index, chat_event_read, chat_event_written, chunk_choice, chunk_choices, chunk_head, cited,
    delta_call, delta_calls, delta_citations, delta_legacy_call, delta_reasoning, delta_refusal,
    delta_text, empty_call, empty_reasoning, empty_refusal, stream_done,
};
use super::common::{array0, object1, object2};
use super::error::ErrorView;
use super::fresh::IdsView;
use super::openai_chat::{chat_usage_of_opt, marked, only_object};
use super::openai_responses::{incomplete_text, status_text};
use super::responses_stream::{
    about, arguments_written, blank, buffered, citation_written, cited_values, collected,
    content_closed, content_id_text, delta_written, end_written, final_event, finish_written,
    item_completed, item_started, known_id, output_text, reasoning_written, remembered,
    response_object, responses_event_written, responses_write_step, start_written, Written,
};
use super::sse::{json_event, SseView};
use super::state::{ascending, first_state, get, lists, target_of, StateView};
use super::stream::{ends, written, Progress};
use crate::json::{jint, jtext, JsonView};
use crate::model::{
    no_fields, text_part, AnnotationView, ContentView, EventView, Fields, LLMFinishReason,
    LLMProtocol, UsageView,
};
use crate::text::{either, or_text};
use crate::wire::text_value;
use vstd::prelude::*;

verus! {

/// Whether the indices that have been given to parts are all below the next one, and no two parts
/// have the same.
pub open spec fn placed(s: StateView) -> bool {
    &&& forall|i: usize| #[trigger]
        s.content_indices.contains_key(i) ==> s.content_indices[i] < s.next_content_index
    &&& forall|i: usize, j: usize|
        #![trigger s.content_indices[i], s.content_indices[j]]
        s.content_indices.contains_key(i) && s.content_indices.contains_key(j) && i != j
            ==> s.content_indices[i] != s.content_indices[j]
}

/// A part keeps its index, and no two parts get the same.
pub proof fn parts_keep_their_index(s: StateView, i: usize, j: usize)
    requires
        placed(s),
        s.next_content_index < usize::MAX - 1,
        i != j,
    ensures
        placed(first_state()),
        placed(target_of(s, i).0),
        target_of(target_of(s, i).0, i) == target_of(s, i),
        target_of(target_of(s, i).0, j).1 != target_of(s, i).1,
{
    let (after, target) = target_of(s, i);
    assert(after.content_indices.contains_key(i) && after.content_indices[i] == target);
    if get(after.content_indices, j) is Some {
        assert(after.content_indices[i] != after.content_indices[j]);
    } else {
        assert(target < after.next_content_index);
    }
}

/// The part that an event is about.
spec fn part_of(event: EventView) -> usize {
    match event {
        EventView::ContentStart { index, .. } => index,
        EventView::TextDelta { index, .. } => index,
        EventView::ReasoningDelta { index, .. } => index,
        EventView::RefusalDelta { index, .. } => index,
        EventView::AnnotationAdded { index, .. } => index,
        EventView::ToolCallDelta { index, .. } => index,
        EventView::ContentEnd { index } => index,
        _ => 0,
    }
}

spec fn same_places(a: StateView, b: StateView) -> bool {
    a.content_indices == b.content_indices && a.next_content_index == b.next_content_index
}

/// Whether `after` has given out no index but, perhaps, the one of the part that `event` is about.
spec fn one_place(s: StateView, event: EventView, after: StateView) -> bool {
    same_places(after, s) || same_places(after, target_of(s, part_of(event)).0)
}

proof fn target_keeps_placed(s: StateView, i: usize)
    requires
        placed(s),
        s.next_content_index < usize::MAX,
    ensures
        placed(target_of(s, i).0),
{
}

proof fn chat_places(s: StateView, event: EventView, ids: IdsView, now: i64)
    ensures
        one_place(s, event, chat_event_written(s, event, ids, now).0),
{
}

proof fn anthropic_places(s: StateView, event: EventView, ids: IdsView)
    ensures
        one_place(s, event, anthropic_event_written(s, event, ids).0),
{
}

proof fn responses_places(s: StateView, event: EventView, ids: IdsView, now: i64)
    ensures
        one_place(s, event, responses_event_written(s, event, ids, now).0),
{
}

/// Writing an event, in any format, never gives two parts the same index.
pub proof fn writing_keeps_placed(s: StateView, event: EventView, ids: IdsView, now: i64)
    requires
        placed(s),
        s.next_content_index < usize::MAX,
    ensures
        placed(chat_event_written(s, event, ids, now).0),
        placed(responses_event_written(s, event, ids, now).0),
        placed(anthropic_event_written(s, event, ids).0),
{
    target_keeps_placed(s, part_of(event));
    chat_places(s, event, ids, now);
    responses_places(s, event, ids, now);
    anthropic_places(s, event, ids);
}

/// Whether `event` is one of the Responses format that carries the number `n`.
pub open spec fn carries_number(event: SseView, n: u64) -> bool {
    exists|kind: Seq<char>, fields: Fields|
        event == #[trigger] json_event(
            Some(kind),
            JsonView::Object(
                fields.insert("type"@, jtext(kind)).insert("sequence_number"@, jint(n)),
            ),
        )
}

/// Whether the events carry the numbers from `n` on, without a gap.
pub open spec fn numbered(out: Seq<SseView>, n: u64) -> bool {
    forall|i: int| 0 <= i < out.len() ==> carries_number(#[trigger] out[i], (n + i) as u64)
}

proof fn emitted(w: Written, kind: Seq<char>, fields: Fields, n: u64)
    requires
        numbered(w.out, n),
        w.state.sequence_number == n + w.out.len(),
        w.state.sequence_number < u64::MAX,
    ensures
        numbered(w.emit(kind, fields).out, n),
        w.emit(kind, fields).state.sequence_number == n + w.emit(kind, fields).out.len(),
{
    let next = w.emit(kind, fields);
    assert(carries_number(next.out.last(), w.state.sequence_number));
    assert forall|i: int| 0 <= i < next.out.len() implies carries_number(
        #[trigger] next.out[i],
        (n + i) as u64,
    ) by {
        if i < w.out.len() {
            assert(next.out[i] == w.out[i]);
        }
    }
}

/// Whether `w` has numbered what it has written from `n` on, where there are numbers enough.
#[verifier::opaque]
spec fn in_step(w: Written, n: u64) -> bool {
    n + w.out.len() <= u64::MAX ==> numbered(w.out, n) && w.state.sequence_number == n
        + w.out.len()
}

proof fn begun(s: StateView)
    ensures
        in_step(blank(s), s.sequence_number),
{
    reveal(in_step);
}

proof fn emits(w: Written, kind: Seq<char>, fields: Fields, n: u64)
    requires
        in_step(w, n),
    ensures
        in_step(w.emit(kind, fields), n),
        w.emit(kind, fields).out.len() == w.out.len() + 1,
{
    reveal(in_step);
    if n + w.out.len() < u64::MAX {
        emitted(w, kind, fields, n);
    }
}

/// Whether what was written, if anything, is numbered from `n` on.
spec fn result_in_step(r: (StateView, Result<Seq<SseView>, ErrorView>), n: u64) -> bool {
    r.1 matches Ok(out) ==> in_step(Written { state: r.0, out }, n) && out.len() <= 3
}

proof fn start_in_step(s: StateView, index: usize, c: ContentView, ids: IdsView)
    ensures
        result_in_step(start_written(s, index, c, ids), s.sequence_number),
{
    let n = s.sequence_number;
    let (t, target) = target_of(s, index);
    let id = content_id_text(c, ids);
    let t = remembered(t, target, c, ids);
    if let Ok((kind, item)) = item_started(c, id) {
        let t = StateView {
            content_kinds: t.content_kinds.insert(target, kind),
            open_content: t.open_content.insert(target),
            ..t
        };
        let fields = no_fields().insert("output_index"@, jint(target as u64)).insert(
            "item"@,
            item,
        );
        begun(t);
        emits(blank(t), "response.output_item.added"@, fields, n);
        let w = blank(t).emit("response.output_item.added"@, fields);
        let fields = about(id, target).insert("content_index"@, jint(0)).insert(
            "part"@,
            if kind == "text"@ {
                output_text(""@, array0())
            } else {
                object2("type"@, jtext("refusal"@), "refusal"@, jtext(""@))
            },
        );
        emits(w, "response.content_part.added"@, fields, n);
    }
}

proof fn citation_in_step(s: StateView, index: usize, a: AnnotationView, ids: IdsView)
    ensures
        result_in_step(citation_written(s, index, a, ids), s.sequence_number),
{
    let (t, target) = target_of(s, index);
    if let Ok(value) = openai_annotation_value(a, LLMProtocol::OpenAiResponses) {
        let list = match get(t.content_annotations, target) {
            Some(list) => list,
            None => Seq::empty(),
        };
        let t = StateView {
            content_annotations: t.content_annotations.insert(target, list.push(a)),
            ..t
        };
        begun(t);
        emits(
            blank(t),
            "response.output_text.annotation.added"@,
            about(known_id(t, target, "msg_"@ + ids.item), target).insert(
                "content_index"@,
                jint(0),
            ).insert("annotation_index"@, jint(list.len() as u64)).insert("annotation"@, value),
            s.sequence_number,
        );
    }
}

proof fn delta_in_step(s: StateView, index: usize, kind: Seq<char>, text: Seq<char>, ids: IdsView)
    ensures
        in_step(delta_written(s, index, kind, text, ids), s.sequence_number),
        delta_written(s, index, kind, text, ids).out.len() == 1,
{
    let (t, target) = target_of(s, index);
    let t = collected(t, target, text);
    begun(t);
    emits(
        blank(t),
        kind,
        about(known_id(t, target, "msg_"@ + ids.item), target).insert(
            "content_index"@,
            jint(0),
        ).insert("delta"@, jtext(text)),
        s.sequence_number,
    );
}

proof fn arguments_in_step(s: StateView, index: usize, delta: Seq<char>, ids: IdsView)
    ensures
        in_step(arguments_written(s, index, delta, ids), s.sequence_number),
        arguments_written(s, index, delta, ids).out.len() == 1,
{
    let (t, target) = target_of(s, index);
    let t = collected(t, target, delta);
    begun(t);
    emits(
        blank(t),
        "response.function_call_arguments.delta"@,
        about(known_id(t, target, "fc_"@ + ids.item), target).insert("delta"@, jtext(delta)),
        s.sequence_number,
    );
}

proof fn reasoning_in_step(
    s: StateView,
    index: usize,
    text: Option<Seq<char>>,
    signature: Option<Seq<char>>,
    ids: IdsView,
)
    ensures
        in_step(reasoning_written(s, index, text, signature, ids), s.sequence_number),
        reasoning_written(s, index, text, signature, ids).out.len() <= 2,
{
    let n = s.sequence_number;
    let (t, target) = target_of(s, index);
    let t = match text {
        Some(text) => collected(t, target, text),
        None => t,
    };
    let id = known_id(t, target, "rs_"@ + ids.item);
    begun(t);
    let w = match text {
        Some(text) => {
            let fields = about(id, target).insert("summary_index"@, jint(0)).insert(
                "delta"@,
                jtext(text),
            );
            emits(blank(t), "response.reasoning_summary_text.delta"@, fields, n);
            blank(t).emit("response.reasoning_summary_text.delta"@, fields)
        },
        None => blank(t),
    };
    if let Some(signature) = signature {
        emits(
            w,
            "response.reasoning_text.delta"@,
            about(id, target).insert("delta"@, jtext(signature)),
            n,
        );
    }
}

proof fn closed_in_step(t: StateView, target: usize, id: Seq<char>, kind: Seq<char>)
    ensures
        content_closed(t, target, id, kind) matches Ok(w) ==> in_step(w, t.sequence_number)
            && w.out.len() <= 2,
{
    let n = t.sequence_number;
    let content = buffered(t, target);
    begun(t);
    if kind == "text"@ {
        if let Ok(list) = cited_values(t, target) {
            let done = about(id, target).insert("content_index"@, jint(0)).insert(
                "text"@,
                jtext(content),
            );
            emits(blank(t), "response.output_text.done"@, done, n);
            emits(
                blank(t).emit("response.output_text.done"@, done),
                "response.content_part.done"@,
                about(id, target).insert("content_index"@, jint(0)).insert(
                    "part"@,
                    output_text(content, JsonView::Array(list)),
                ),
                n,
            );
        }
    } else if kind == "tool_call"@ {
        emits(
            blank(t),
            "response.function_call_arguments.done"@,
            about(id, target).insert("arguments"@, jtext(content)),
            n,
        );
    }
}

proof fn end_in_step(s: StateView, index: usize)
    ensures
        result_in_step(end_written(s, index), s.sequence_number),
{
    let n = s.sequence_number;
    let (t, target) = target_of(s, index);
    let id = or_text(get(t.content_ids, target), ""@);
    let kind = or_text(get(t.content_kinds, target), "text"@);
    closed_in_step(t, target, id, kind);
    if let Ok(w) = content_closed(t, target, id, kind) {
        if let Ok(item) = item_completed(w.state, target, id, kind) {
            emits(
                w,
                "response.output_item.done"@,
                no_fields().insert("output_index"@, jint(target as u64)).insert("item"@, item),
                n,
            );
            reveal(in_step);
        }
    }
}

proof fn finish_in_step(
    s: StateView,
    finish_reason: Option<LLMFinishReason>,
    usage: Option<UsageView>,
    metadata: Fields,
    now: i64,
)
    ensures
        in_step(finish_written(s, finish_reason, usage, metadata, now), s.sequence_number),
        finish_written(s, finish_reason, usage, metadata, now).out.len() == 1,
{
    let t = match usage {
        Some(usage) => StateView { usage: Some(usage), ..s },
        None => s,
    };
    let status = status_text(finish_reason);
    let response = response_object(t, status, t.usage, now).union_prefer_right(metadata);
    let response = if status == "incomplete"@ {
        response.insert(
            "incomplete_details"@,
            object1("reason"@, jtext(incomplete_text(finish_reason))),
        )
    } else {
        response
    };
    begun(t);
    emits(
        blank(t),
        final_event(status),
        no_fields().insert("response"@, JsonView::Object(response)),
        s.sequence_number,
    );
    reveal(in_step);
}

proof fn message_in_step(
    s: StateView,
    id: Option<Seq<char>>,
    model: Option<Seq<char>>,
    usage: Option<UsageView>,
    ids: IdsView,
    now: i64,
)
    ensures
        result_in_step(
            responses_event_written(s, EventView::MessageStart { id, model, usage }, ids, now),
            s.sequence_number,
        ),
{
    let t = StateView {
        id: Some(or_text(id, "resp_"@ + ids.item)),
        model,
        usage,
        started: true,
        ..s
    };
    begun(t);
    emits(
        blank(t),
        "response.created"@,
        no_fields().insert(
            "response"@,
            JsonView::Object(response_object(t, "in_progress"@, usage, now)),
        ),
        s.sequence_number,
    );
}

proof fn event_in_step(s: StateView, event: EventView, ids: IdsView, now: i64)
    requires
        !(event is Raw),
    ensures
        result_in_step(responses_event_written(s, event, ids, now), s.sequence_number),
{
    match event {
        EventView::MessageStart { id, model, usage } => {
            message_in_step(s, id, model, usage, ids, now);
        },
        EventView::ContentStart { index, content } => {
            start_in_step(s, index, content, ids);
        },
        EventView::TextDelta { index, text } => {
            delta_in_step(s, index, "response.output_text.delta"@, text, ids);
        },
        EventView::RefusalDelta { index, refusal } => {
            delta_in_step(s, index, "response.refusal.delta"@, refusal, ids);
        },
        EventView::AnnotationAdded { index, annotation } => {
            citation_in_step(s, index, annotation, ids);
        },
        EventView::ReasoningDelta { index, text, signature } => {
            reasoning_in_step(s, index, text, signature, ids);
        },
        EventView::ToolCallDelta { index, arguments_delta, .. } => {
            arguments_in_step(s, index, arguments_delta, ids);
        },
        EventView::ContentEnd { index } => {
            end_in_step(s, index);
        },
        EventView::Usage { usage } => {
            begun(StateView { usage: Some(usage), ..s });
        },
        EventView::MessageEnd { finish_reason, usage, metadata } => {
            finish_in_step(s, finish_reason, usage, metadata, now);
        },
        EventView::Error { message, metadata } => {
            begun(s);
            emits(
                blank(s),
                "error"@,
                no_fields().insert(
                    "error"@,
                    JsonView::Object(metadata.insert("message"@, jtext(message))),
                ),
                s.sequence_number,
            );
        },
        EventView::Raw { .. } => {},
    }
}

/// What events are written as in the Responses format is numbered without a gap from the number
/// that the state has, and the state goes on behind it, where there are numbers enough.
///
/// An event that came in the format itself is passed on as it is, with the number that it has.
pub proof fn responses_stream_numbered(
    events: Seq<EventView>,
    ids: IdsView,
    s: StateView,
    now: i64,
)
    requires
        forall|i: int| 0 <= i < events.len() ==> !(#[trigger] events[i] is Raw),
    ensures
        written(events, ids, s, responses_write_step(now)).1 matches Ok(out) ==> {
            &&& s.sequence_number + out.len() <= u64::MAX ==> {
                &&& numbered(out, s.sequence_number)
                &&& written(events, ids, s, responses_write_step(now)).0.sequence_number
                    == s.sequence_number + out.len()
            }
            &&& out.len() <= 3 * events.len()
        },
    decreases events.len(),
{
    if events.len() > 0 {
        let n = s.sequence_number;
        let step = responses_write_step(now);
        let init = events.drop_last();
        responses_stream_numbered(init, ids, s, now);
        let (before, done) = written(init, ids, s, step);
        if let Ok(done) = done {
            let last = ids.at(events.len() - 1);
            event_in_step(before, events.last(), last, now);
            reveal(in_step);
            if let Ok(more) = step(before, events.last(), last).1 {
                let out = done + more;
                if n + out.len() <= u64::MAX {
                    assert forall|i: int| 0 <= i < out.len() implies carries_number(
                        #[trigger] out[i],
                        (n + i) as u64,
                    ) by {
                        if i < done.len() {
                            assert(out[i] == done[i]);
                        } else {
                            assert(out[i] == more[i - done.len()]);
                        }
                    }
                }
            }
        }
    }
}

/// The end of a message ends every block that is open, then says why the model stopped, and leaves
/// no block open.
pub proof fn message_end_ends_blocks(
    s: StateView,
    finish_reason: Option<LLMFinishReason>,
    usage: Option<UsageView>,
    metadata: Fields,
    ids: IdsView,
    block: usize,
)
    requires
        s.open_content.finite(),
        s.open_content.contains(block),
    ensures
        ({
            let (after, out) = anthropic_event_written(
                s,
                EventView::MessageEnd { finish_reason, usage, metadata },
                ids,
            );
            &&& after.ended
            &&& after.open_content == Set::<usize>::empty()
            &&& out matches Ok(out)
            &&& out.drop_last().drop_last().contains(block_stop_event(block))
            &&& out.subrange(out.len() - 2, out.len() as int) == message_end_events(
                after.usage,
                finish_reason,
                metadata,
            )
        }),
{
    has_listing(s.open_content);
    let list = ascending(s.open_content);
    assert(lists(list, s.open_content));
    let i = choose|i: int| 0 <= i < list.len() && list[i] == block;
    let (after, out) = anthropic_event_written(
        s,
        EventView::MessageEnd { finish_reason, usage, metadata },
        ids,
    );
    let out = out->Ok_0;
    let tail = message_end_events(after.usage, finish_reason, metadata);
    assert(out =~= block_stops(list) + tail);
    assert(out.drop_last().drop_last()[i] == block_stop_event(block));
    assert(out.subrange(out.len() - 2, out.len() as int) =~= tail);
}

/// Adding the same update of the consumption again changes nothing, and what an update counts is
/// what is counted.
pub proof fn usage_settles(current: Option<UsageView>, update: UsageView)
    ensures
        merged_usage(Some(merged_usage(current, update)), update) == merged_usage(current, update),
        update.input_tokens is Some ==> merged_usage(current, update).input_tokens
            == update.input_tokens,
        update.output_tokens is Some ==> merged_usage(current, update).output_tokens
            == update.output_tokens,
        update.output_tokens is None && current is Some ==> merged_usage(
            current,
            update,
        ).output_tokens == current->0.output_tokens,
{
    let once = merged_usage(current, update);
    assert(merged_usage(Some(once), update).extra =~= once.extra);
}

/// The parts that are open after an event, where the event is in order: a part starts where none
/// is open, and grows or ends where one is.
pub open spec fn open_after(open: Set<usize>, event: EventView) -> Option<Set<usize>> {
    match event {
        EventView::ContentStart { index, .. } => if open.contains(index) {
            None
        } else {
            Some(open.insert(index))
        },
        EventView::ContentEnd { index } => if open.contains(index) {
            Some(open.remove(index))
        } else {
            None
        },
        EventView::TextDelta { index, .. } => if open.contains(index) {
            Some(open)
        } else {
            None
        },
        EventView::ReasoningDelta { index, .. } => if open.contains(index) {
            Some(open)
        } else {
            None
        },
        EventView::RefusalDelta { index, .. } => if open.contains(index) {
            Some(open)
        } else {
            None
        },
        EventView::ToolCallDelta { index, .. } => if open.contains(index) {
            Some(open)
        } else {
            None
        },
        _ => Some(open),
    }
}

/// The parts that are open after events, where all of them are in order.
pub open spec fn open_after_all(open: Set<usize>, events: Seq<EventView>) -> Option<Set<usize>>
    decreases events.len(),
{
    if events.len() == 0 {
        Some(open)
    } else {
        match open_after_all(open, events.drop_last()) {
            Some(before) => open_after(before, events.last()),
            None => None,
        }
    }
}

/// Whether the events so far are in order and leave open what the state says.
spec fn orderly(open: Set<usize>, p: Progress) -> bool {
    open_after_all(open, p.events) == Some(p.state.open_content)
}

proof fn pushed(open: Set<usize>, p: Progress, event: EventView)
    ensures
        open_after_all(open, p.push(event).events) == (match open_after_all(open, p.events) {
            Some(before) => open_after(before, event),
            None => None,
        }),
{
    assert(p.events.push(event).drop_last() =~= p.events);
}

proof fn ensured(open: Set<usize>, p: Progress, index: usize, content: ContentView)
    requires
        orderly(open, p),
    ensures
        orderly(open, p.ensure_started(index, content)),
        p.ensure_started(index, content).state.open_content.contains(index),
{
    pushed(open, p, EventView::ContentStart { index, content });
}

proof fn text_orderly(open: Set<usize>, p: Progress, delta: JsonView)
    requires
        orderly(open, p),
    ensures
        orderly(open, delta_text(p, delta)),
{
    if let Some(text) = delta.at("content"@).text() {
        let part = text_part(""@);
        ensured(open, p, 0, part);
        pushed(open, p.ensure_started(0, part), EventView::TextDelta { index: 0, text });
    }
}

proof fn reasoning_orderly(open: Set<usize>, p: Progress, delta: JsonView)
    requires
        orderly(open, p),
    ensures
        orderly(open, delta_reasoning(p, delta)),
{
    if let Some(text) = either(
        delta.at("reasoning_content"@).text(),
        delta.at("reasoning"@).text(),
    ) {
        let part = empty_reasoning();
        ensured(open, p, 1, part);
        pushed(
            open,
            p.ensure_started(1, part),
            EventView::ReasoningDelta { index: 1, text: Some(text), signature: None },
        );
    }
}

proof fn refusal_orderly(open: Set<usize>, p: Progress, delta: JsonView)
    requires
        orderly(open, p),
    ensures
        orderly(open, delta_refusal(p, delta)),
{
    if let Some(refusal) = delta.at("refusal"@).text() {
        let part = empty_refusal();
        ensured(open, p, 2, part);
        pushed(open, p.ensure_started(2, part), EventView::RefusalDelta { index: 2, refusal });
    }
}

proof fn citations_orderly(open: Set<usize>, p: Progress, list: Seq<JsonView>)
    requires
        orderly(open, p),
    ensures
        orderly(open, delta_citations(p, list)),
    decreases list.len(),
{
    if list.len() == 0 {
        assert(delta_citations(p, list).events =~= p.events);
    } else {
        let before = delta_citations(p, list.drop_last());
        citations_orderly(open, p, list.drop_last());
        pushed(open, before, cited(list.last()));
        assert(before.push(cited(list.last())).events =~= delta_citations(p, list).events);
    }
}

proof fn call_orderly(open: Set<usize>, p: Progress, tool: JsonView)
    requires
        orderly(open, p),
    ensures
        orderly(open, delta_call(p, tool)),
{
    let function = tool.at("function"@);
    let id = tool.at("id"@).text();
    let name = function.at("name"@).text();
    let part = empty_call(id, name, no_fields());
    let index = call_index(tool);
    ensured(open, p, index, part);
    pushed(
        open,
        p.ensure_started(index, part),
        EventView::ToolCallDelta {
            index,
            id,
            name,
            arguments_delta: or_text(function.at("arguments"@).text(), ""@),
        },
    );
}

proof fn calls_orderly(open: Set<usize>, p: Progress, tools: Seq<JsonView>)
    requires
        orderly(open, p),
    ensures
        orderly(open, delta_calls(p, tools)),
    decreases tools.len(),
{
    if tools.len() > 0 {
        calls_orderly(open, p, tools.drop_last());
        call_orderly(open, delta_calls(p, tools.drop_last()), tools.last());
    }
}

proof fn legacy_call_orderly(open: Set<usize>, p: Progress, delta: JsonView)
    requires
        orderly(open, p),
    ensures
        orderly(open, delta_legacy_call(p, delta)),
{
    if let Some(function) = only_object(delta.field("function_call"@)) {
        let name = function.at("name"@).text();
        let part = empty_call(
            None,
            name,
            marked("legacy_function_call"@),
        );
        ensured(open, p, 3, part);
        pushed(
            open,
            p.ensure_started(3, part),
            EventView::ToolCallDelta {
                index: 3,
                id: None,
                name,
                arguments_delta: or_text(function.at("arguments"@).text(), ""@),
            },
        );
    }
}

proof fn choice_orderly(open: Set<usize>, p: Progress, choice: JsonView, whole: JsonView)
    requires
        orderly(open, p),
    ensures
        orderly(open, chunk_choice(p, choice, whole)),
{
    let delta = choice.at("delta"@);
    text_orderly(open, p, delta);
    let p = delta_text(p, delta);
    reasoning_orderly(open, p, delta);
    let p = delta_reasoning(p, delta);
    refusal_orderly(open, p, delta);
    let p = delta_refusal(p, delta);
    citations_orderly(open, p, delta.at("annotations"@).list());
    let p = delta_citations(p, delta.at("annotations"@).list());
    calls_orderly(open, p, delta.at("tool_calls"@).list());
    let p = delta_calls(p, delta.at("tool_calls"@).list());
    legacy_call_orderly(open, p, delta);
    let p = delta_legacy_call(p, delta);
    pushed(open, p, EventView::Raw { protocol: LLMProtocol::OpenAiChat, value: whole });
}

proof fn choices_orderly(open: Set<usize>, p: Progress, choices: Seq<JsonView>, whole: JsonView)
    requires
        orderly(open, p),
    ensures
        orderly(open, chunk_choices(p, choices, whole)),
    decreases choices.len(),
{
    if choices.len() > 0 {
        choices_orderly(open, p, choices.drop_last(), whole);
        choice_orderly(
            open,
            chunk_choices(p, choices.drop_last(), whole),
            choices.last(),
            whole,
        );
    }
}

proof fn head_orderly(s: StateView, value: JsonView)
    ensures
        orderly(s.open_content, chunk_head(s, value)),
{
    let none: Seq<EventView> = Seq::empty();
    let id = value.at("id"@).text();
    let model = value.at("model"@).text();
    let start = EventView::MessageStart { id, model, usage: None };
    let p = Progress { state: s, events: none };
    assert(open_after_all(s.open_content, none) == Some(s.open_content));
    pushed(s.open_content, p, start);
    assert(none.push(start) =~= seq![start]);
    if let Some(usage) = chat_usage_of_opt(value.field("usage"@)) {
        pushed(s.open_content, p, EventView::Usage { usage });
        pushed(s.open_content, p.push(start), EventView::Usage { usage });
    }
}

/// A finite set has a listing.
pub(crate) proof fn has_listing(set: Set<usize>)
    requires
        set.finite(),
    ensures
        exists|s: Seq<usize>| lists(s, set),
    decreases set.len(),
{
    if set.is_empty() {
        assert(lists(Seq::empty(), set));
    } else {
        let x = greatest(set);
        has_listing(set.remove(x));
        let t = choose|s: Seq<usize>| lists(s, set.remove(x));
        let s = t.push(x);
        assert forall|i: int, j: int| 0 <= i < j < s.len() implies s[i] < s[j] by {
            assert(t.contains(t[i]));
            assert(set.remove(x).contains(t[i]));
        }
        assert forall|y: usize| #[trigger] set.contains(y) <==> s.contains(y) by {
            if set.contains(y) {
                if y == x {
                    assert(s[t.len() as int] == x);
                } else {
                    assert(set.remove(x).contains(y));
                    let i = choose|i: int| 0 <= i < t.len() && t[i] == y;
                    assert(s[i] == y);
                }
            }
            if s.contains(y) {
                let i = choose|i: int| 0 <= i < s.len() && s[i] == y;
                if i < t.len() {
                    assert(t.contains(t[i]));
                    assert(set.remove(x).contains(y));
                }
            }
        }
        assert(lists(s, set));
    }
}

proof fn greatest(set: Set<usize>) -> (x: usize)
    requires
        set.finite(),
        !set.is_empty(),
    ensures
        set.contains(x),
        forall|y: usize| set.contains(y) ==> y <= x,
    decreases set.len(),
{
    let a = set.choose();
    let rest = set.remove(a);
    if rest.is_empty() {
        assert forall|y: usize| set.contains(y) implies y <= a by {
            if y != a {
                assert(rest.contains(y));
            }
        }
        a
    } else {
        let b = greatest(rest);
        assert forall|y: usize| set.contains(y) implies y <= a || y <= b by {
            if y != a {
                assert(rest.contains(y));
            }
        }
        if a < b {
            b
        } else {
            a
        }
    }
}

/// What the first of a listing leave of a set holds the next one, and loses it with that.
pub(crate) proof fn listing_leaves(set: Set<usize>, list: Seq<usize>, n: int)
    requires
        lists(list, set),
        0 <= n < list.len(),
    ensures
        set.difference(list.take(n).to_set()).contains(list[n]),
        set.difference(list.take(n).to_set()).remove(list[n]) == set.difference(
            list.take(n + 1).to_set(),
        ),
{
    let before = list.take(n);
    let first = list.take(n + 1);
    let rest = set.difference(before.to_set());
    assert(list.contains(list[n]));
    assert(set.contains(list[n]));
    assert(!before.contains(list[n])) by {
        if before.contains(list[n]) {
            let i = choose|i: int| 0 <= i < before.len() && before[i] == list[n];
            assert(list[i] < list[n]);
        }
    }
    assert(rest.contains(list[n]));
    assert(rest.remove(list[n]) =~= set.difference(first.to_set())) by {
        assert forall|x: usize|
            rest.remove(list[n]).contains(x) == set.difference(first.to_set()).contains(x) by {
            if first.contains(x) {
                let i = choose|i: int| 0 <= i < first.len() && first[i] == x;
                if i < n {
                    assert(before[i] == x);
                    assert(before.contains(x));
                }
            }
            if before.contains(x) {
                let i = choose|i: int| 0 <= i < before.len() && before[i] == x;
                assert(first[i] == x);
            }
            assert(first[n] == list[n]);
        }
    }
}

/// A whole listing leaves nothing of a set.
pub(crate) proof fn listing_leaves_none(set: Set<usize>, list: Seq<usize>)
    requires
        lists(list, set),
    ensures
        set.difference(list.to_set()) == Set::<usize>::empty(),
{
    assert forall|x: usize| !set.difference(list.to_set()).contains(x) by {
        if set.contains(x) {
            assert(list.contains(x));
        }
    }
    assert(set.difference(list.to_set()) =~= Set::empty());
}

/// The ends of the parts that are open leave none open.
proof fn ends_close(open: Set<usize>, list: Seq<usize>, n: int)
    requires
        lists(list, open),
        0 <= n <= list.len(),
    ensures
        open_after_all(open, ends(list.take(n))) == Some(
            open.difference(list.take(n).to_set()),
        ),
    decreases n,
{
    let first = list.take(n);
    if n == 0 {
        assert(ends(first) =~= Seq::empty());
        assert(open.difference(first.to_set()) =~= open);
    } else {
        let before = list.take(n - 1);
        ends_close(open, list, n - 1);
        assert(ends(first).drop_last() =~= ends(before));
        assert(ends(first).last() == EventView::ContentEnd { index: list[n - 1] });
        listing_leaves(open, list, n - 1);
    }
}

proof fn done_orderly(s: StateView)
    requires
        s.open_content.finite(),
    ensures
        orderly(s.open_content, stream_done(s)),
{
    if !s.ended {
        has_listing(s.open_content);
        let list = ascending(s.open_content);
        assert(lists(list, s.open_content));
        ends_close(s.open_content, list, list.len() as int);
        assert(list.take(list.len() as int) =~= list);
        listing_leaves_none(s.open_content, list);
        let end = EventView::MessageEnd {
            finish_reason: s.finish_reason,
            usage: s.usage,
            metadata: no_fields(),
        };
        pushed(s.open_content, Progress { state: s, events: ends(list) }, end);
    }
}

/// What is read of a Chat stream is in order: a part starts once, grows only while it is open, and
/// the end of the stream ends every part that is open, once.
pub proof fn chat_stream_in_order(data: Seq<char>, s: StateView)
    requires
        s.open_content.finite(),
    ensures
        chat_event_read(data, s).1 matches Ok(events) ==> open_after_all(s.open_content, events)
            == Some(chat_event_read(data, s).0.open_content),
{
    done_orderly(s);
    if let Some(value) = text_value(data) {
        head_orderly(s, value);
        choices_orderly(
            s.open_content,
            chunk_head(s, value),
            value.at("choices"@).list(),
            value,
        );
        if let Some(error) = value.field("error"@) {
            let none: Seq<EventView> = Seq::empty();
            let event = EventView::Error {
                message: or_text(
                    error.at("message"@).text(),
                    "upstream stream error"@,
                ),
                metadata: error.fields_or_none(),
            };
            assert(open_after_all(s.open_content, none) == Some(s.open_content));
            pushed(s.open_content, Progress { state: s, events: none }, event);
            assert(none.push(event) =~= seq![event]);
        }
    }
}

} // verus!
