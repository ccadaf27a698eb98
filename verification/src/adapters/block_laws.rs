//! What holds of the blocks of a Messages stream.

use super::anthropic_stream::{
    anthropic_event_written, anthropic_write_step, block_start_event, block_start_value,
    block_stop_event, block_stops,
};
use super::fresh::IdsView;
use super::sse::SseView;
use super::state::{ascending, first_state, lists, target_of, StateView};
use super::stream::written;
use super::stream_laws::{
    has_listing, listing_leaves, listing_leaves_none, open_after, open_after_all, placed,
    writing_keeps_placed,
};
use crate::json::JsonView;
use crate::model::EventView;
use crate::text::or_text;
use vstd::prelude::*;

verus! {

/// What an event of the Messages format does to its blocks.
#[verifier::ext_equal]
pub enum BlockStep {
    /// It starts a block.
    Start { block: usize, content: JsonView },
    /// It stops a block.
    Stop { block: usize },
    /// It says why the model stopped.
    Finish { event: SseView },
    /// It neither starts nor stops one.
    Other { event: SseView },
}

/// The event of a step.
pub open spec fn step_event(step: BlockStep) -> SseView {
    match step {
        BlockStep::Start { block, content } => block_start_event(block, content),
        BlockStep::Stop { block } => block_stop_event(block),
        BlockStep::Finish { event } => event,
        BlockStep::Other { event } => event,
    }
}

/// Whether the name of an event is none of those that start and stop blocks and say why the model
/// stopped.
pub open spec fn aside(name: Option<Seq<char>>) -> bool {
    name != Some("content_block_start"@) && name != Some("content_block_stop"@) && name != Some(
        "message_delta"@,
    )
}

/// Whether an event is that of a step.
pub open spec fn told_by(event: SseView, step: BlockStep) -> bool {
    event == step_event(step) && match step {
        BlockStep::Finish { event } => event.event == Some("message_delta"@),
        BlockStep::Other { event } => aside(event.event),
        _ => true,
    }
}

/// Whether events are those of steps, one for one.
pub open spec fn tells(steps: Seq<BlockStep>, out: Seq<SseView>) -> bool {
    &&& steps.len() == out.len()
    &&& forall|i: int| 0 <= i < out.len() ==> told_by(#[trigger] out[i], #[trigger] steps[i])
}

/// The blocks that are open after a step, where the step is in turn: a block is stopped only where
/// it is open, and the model stops only where none is.
pub open spec fn blocks_after(open: Set<usize>, step: BlockStep) -> Option<Set<usize>> {
    match step {
        BlockStep::Start { block, .. } => Some(open.insert(block)),
        BlockStep::Stop { block } => if open.contains(block) {
            Some(open.remove(block))
        } else {
            None
        },
        BlockStep::Finish { .. } => if open == Set::<usize>::empty() {
            Some(open)
        } else {
            None
        },
        BlockStep::Other { .. } => Some(open),
    }
}

/// The blocks that are open after steps, where all of them are in turn.
pub open spec fn blocks_after_all(open: Set<usize>, steps: Seq<BlockStep>) -> Option<Set<usize>>
    decreases steps.len(),
{
    if steps.len() == 0 {
        Some(open)
    } else {
        match blocks_after_all(open, steps.drop_last()) {
            Some(before) => blocks_after(before, steps.last()),
            None => None,
        }
    }
}

/// Whether a step starts no block that is open.
pub open spec fn starts_closed(open: Option<Set<usize>>, step: BlockStep) -> bool {
    match (open, step) {
        (Some(open), BlockStep::Start { block, .. }) => !open.contains(block),
        _ => true,
    }
}

/// Whether no step starts a block that is open.
pub open spec fn starts_apart(open: Set<usize>, steps: Seq<BlockStep>) -> bool {
    forall|i: int|
        0 <= i < steps.len() ==> starts_closed(
            blocks_after_all(open, steps.take(i)),
            #[trigger] steps[i],
        )
}

/// How often a block is started.
pub open spec fn starts(steps: Seq<BlockStep>, block: usize) -> nat {
    steps.filter(
        |step: BlockStep| step matches BlockStep::Start { block: b, .. } && b == block,
    ).len()
}

/// How often a block is stopped.
pub open spec fn stops(steps: Seq<BlockStep>, block: usize) -> nat {
    steps.filter(|step: BlockStep| step == BlockStep::Stop { block }).len()
}

/// Whether an event that is passed on as it is has nothing to do with blocks.
pub open spec fn raw_aside(event: EventView) -> bool {
    event matches EventView::Raw { value, .. } ==> aside(
        Some(or_text(value.at("type"@).text(), "message"@)),
    )
}

/// Whether an event starts no part whose block is open.
pub open spec fn fresh_start(s: StateView, event: EventView) -> bool {
    event matches EventView::ContentStart { index, .. } ==> !s.open_content.contains(
        target_of(s, index).1,
    )
}

/// Whether no event starts a part whose block is open, as far as there is a form for the events.
pub open spec fn fresh_starts(events: Seq<EventView>, ids: IdsView, s: StateView) -> bool {
    forall|n: int|
        0 <= n < events.len() && written(events.take(n), ids, s, anthropic_write_step()).1 is Ok
            ==> fresh_start(
            written(events.take(n), ids, s, anthropic_write_step()).0,
            #[trigger] events[n],
        )
}

/// Whether steps are those of what is written, leave open what the state says, and are in turn.
pub open spec fn in_turn(
    before: Set<usize>,
    steps: Seq<BlockStep>,
    out: Seq<SseView>,
    after: Set<usize>,
) -> bool {
    tells(steps, out) && blocks_after_all(before, steps) == Some(after)
}

/// Whether steps are those of what is written of events, and are in turn. Those of the end of a
/// message end with the step that says why the model stopped, and one more.
pub open spec fn takes_turns(
    events: Seq<EventView>,
    ids: IdsView,
    s: StateView,
    steps: Seq<BlockStep>,
) -> bool {
    let (after, out) = written(events, ids, s, anthropic_write_step());
    &&& out matches Ok(out)
    &&& in_turn(s.open_content, steps, out, after.open_content)
    &&& fresh_starts(events, ids, s) ==> starts_apart(s.open_content, steps)
    &&& events.len() > 0 && events.last() is MessageEnd ==> steps.len() >= 2 && steps[steps.len()
        - 2] is Finish
}

proof fn names_apart()
    ensures
        aside(Some("message_start"@)),
        aside(Some("content_block_delta"@)),
        aside(Some("message_stop"@)),
        aside(Some("error"@)),
{
    reveal_strlit("message_start");
    reveal_strlit("content_block_delta");
    reveal_strlit("message_stop");
    reveal_strlit("error");
    reveal_strlit("content_block_start");
    reveal_strlit("content_block_stop");
    reveal_strlit("message_delta");
    assert("message_start"@[8] != "message_delta"@[8]);
    assert("content_block_delta"@[14] != "content_block_start"@[14]);
    assert("message_start"@.len() == 13 && "content_block_delta"@.len() == 19);
    assert("message_stop"@.len() == 12 && "error"@.len() == 5);
    assert("content_block_start"@.len() == 19 && "content_block_stop"@.len() == 18);
    assert("message_delta"@.len() == 13);
}

proof fn steps_joined(open: Set<usize>, a: Seq<BlockStep>, b: Seq<BlockStep>)
    ensures
        blocks_after_all(open, a + b) == (match blocks_after_all(open, a) {
            Some(mid) => blocks_after_all(mid, b),
            None => None,
        }),
    decreases b.len(),
{
    if b.len() == 0 {
        assert(a + b =~= a);
    } else {
        assert((a + b).drop_last() =~= a + b.drop_last());
        steps_joined(open, a, b.drop_last());
    }
}

proof fn apart_joined(open: Set<usize>, a: Seq<BlockStep>, b: Seq<BlockStep>, mid: Set<usize>)
    requires
        blocks_after_all(open, a) == Some(mid),
        starts_apart(open, a),
        starts_apart(mid, b),
    ensures
        starts_apart(open, a + b),
{
    let both = a + b;
    assert forall|i: int| 0 <= i < both.len() implies starts_closed(
        blocks_after_all(open, both.take(i)),
        #[trigger] both[i],
    ) by {
        if i < a.len() {
            assert(both.take(i) =~= a.take(i));
            assert(both[i] == a[i]);
        } else {
            let j = i - a.len();
            assert(both.take(i) =~= a + b.take(j));
            steps_joined(open, a, b.take(j));
            assert(both[i] == b[j]);
        }
    }
}

proof fn one_step(open: Set<usize>, step: BlockStep)
    ensures
        blocks_after_all(open, seq![step]) == blocks_after(open, step),
        starts_apart(open, seq![step]) == starts_closed(Some(open), step),
{
    let one = seq![step];
    assert(one.drop_last() =~= Seq::empty());
    assert(blocks_after_all(open, one.drop_last()) == Some(open));
    assert(one.take(0) =~= Seq::empty());
    assert(blocks_after_all(open, one.take(0)) == Some(open));
    assert(one[0] == step);
}

spec fn stop_steps(list: Seq<usize>) -> Seq<BlockStep> {
    Seq::new(list.len(), |i: int| BlockStep::Stop { block: list[i] })
}

proof fn stops_close(open: Set<usize>, list: Seq<usize>, n: int)
    requires
        lists(list, open),
        0 <= n <= list.len(),
    ensures
        blocks_after_all(open, stop_steps(list.take(n))) == Some(
            open.difference(list.take(n).to_set()),
        ),
    decreases n,
{
    let first = list.take(n);
    if n == 0 {
        assert(stop_steps(first) =~= Seq::empty());
        assert(open.difference(first.to_set()) =~= open);
    } else {
        stops_close(open, list, n - 1);
        assert(stop_steps(first).drop_last() =~= stop_steps(list.take(n - 1)));
        assert(stop_steps(first).last() == BlockStep::Stop { block: list[n - 1] });
        listing_leaves(open, list, n - 1);
    }
}

/// Steps for events that neither start nor stop a block.
proof fn others(open: Set<usize>, out: Seq<SseView>) -> (steps: Seq<BlockStep>)
    requires
        forall|i: int| 0 <= i < out.len() ==> aside((#[trigger] out[i]).event),
    ensures
        in_turn(open, steps, out, open),
        starts_apart(open, steps),
    decreases out.len(),
{
    if out.len() == 0 {
        Seq::empty()
    } else {
        let front = out.drop_last();
        assert forall|i: int| 0 <= i < front.len() implies aside((#[trigger] front[i]).event) by {
            assert(aside(out[i].event));
        }
        let before = others(open, front);
        let last = BlockStep::Other { event: out.last() };
        assert(aside(out[out.len() - 1].event));
        let steps = before.push(last);
        assert(steps.drop_last() =~= before);
        assert forall|i: int| 0 <= i < out.len() implies told_by(
            #[trigger] out[i],
            #[trigger] steps[i],
        ) by {
            if i < front.len() {
                assert(told_by(front[i], before[i]));
            }
        }
        one_step(open, last);
        assert(steps =~= before + seq![last]);
        apart_joined(open, before, seq![last], open);
        steps
    }
}

/// The steps of the end of a message.
proof fn end_steps(s: StateView, event: EventView, ids: IdsView) -> (steps: Seq<BlockStep>)
    requires
        s.open_content.finite(),
        event is MessageEnd,
    ensures
        ({
            let (after, out) = anthropic_event_written(s, event, ids);
            &&& out matches Ok(out)
            &&& in_turn(s.open_content, steps, out, after.open_content)
            &&& steps.len() >= 2 && steps[steps.len() - 2] is Finish
        }),
        starts_apart(s.open_content, steps),
{
    names_apart();
    let (after, out) = anthropic_event_written(s, event, ids);
    let out = out->Ok_0;
    has_listing(s.open_content);
    let list = ascending(s.open_content);
    assert(lists(list, s.open_content));
    let n = list.len() as int;
    let finish = BlockStep::Finish { event: out[n] };
    let rest = BlockStep::Other { event: out[n + 1] };
    let stopped = stop_steps(list);
    stops_close(s.open_content, list, n);
    assert(list.take(n) =~= list);
    listing_leaves_none(s.open_content, list);
    let none = Set::<usize>::empty();
    assert(blocks_after_all(s.open_content, stopped) == Some(none));
    let tail = seq![finish] + seq![rest];
    one_step(none, finish);
    one_step(none, rest);
    steps_joined(none, seq![finish], seq![rest]);
    apart_joined(none, seq![finish], seq![rest], none);
    steps_joined(s.open_content, stopped, tail);
    assert(starts_apart(s.open_content, stopped));
    apart_joined(s.open_content, stopped, tail, none);
    let steps = stopped + tail;
    assert(out.len() == n + 2);
    assert forall|i: int| 0 <= i < out.len() implies told_by(
        #[trigger] out[i],
        #[trigger] steps[i],
    ) by {
        if i < n {
            assert(block_stops(list)[i] == block_stop_event(list[i]));
        }
    }
    steps
}

/// The steps of one event.
proof fn event_steps(s: StateView, event: EventView, ids: IdsView) -> (steps: Seq<BlockStep>)
    requires
        s.open_content.finite(),
        raw_aside(event),
        anthropic_event_written(s, event, ids).1 is Ok,
    ensures
        in_turn(
            s.open_content,
            steps,
            anthropic_event_written(s, event, ids).1->Ok_0,
            anthropic_event_written(s, event, ids).0.open_content,
        ),
        anthropic_event_written(s, event, ids).0.open_content.finite(),
        fresh_start(s, event) ==> starts_apart(s.open_content, steps),
        event is MessageEnd ==> steps.len() >= 2 && steps[steps.len() - 2] is Finish,
{
    names_apart();
    let (after, out) = anthropic_event_written(s, event, ids);
    let out = out->Ok_0;
    match event {
        EventView::MessageEnd { .. } => end_steps(s, event, ids),
        EventView::ContentStart { index, content } => {
            let (placed, target) = target_of(s, index);
            let block = block_start_value(content, ids)->Ok_0;
            let start = BlockStep::Start { block: target, content: block };
            one_step(s.open_content, start);
            assert(out =~= seq![block_start_event(target, block)]);
            seq![start]
        },
        EventView::ContentEnd { index } => {
            let (placed, target) = target_of(s, index);
            if s.open_content.contains(target) {
                let stop = BlockStep::Stop { block: target };
                one_step(s.open_content, stop);
                assert(out =~= seq![block_stop_event(target)]);
                seq![stop]
            } else {
                others(s.open_content, out)
            }
        },
        _ => others(s.open_content, out),
    }
}

/// What is written of events, in one call or in several, starts and stops the blocks in turn: none
/// is stopped that was not started or is stopped already, and every one is stopped before it is
/// said why the model stopped. Where no event starts a part whose block is open, no block is
/// started that is open. What is passed on as it is is left out, where it claims to start or stop
/// a block.
pub proof fn blocks_in_turn(events: Seq<EventView>, ids: IdsView, s: StateView)
    requires
        s.open_content.finite(),
        forall|i: int| 0 <= i < events.len() ==> raw_aside(#[trigger] events[i]),
    ensures
        ({
            let (after, out) = written(events, ids, s, anthropic_write_step());
            out is Ok ==> after.open_content.finite() && exists|steps: Seq<BlockStep>| #[trigger]
                takes_turns(events, ids, s, steps)
        }),
    decreases events.len(),
{
    let step = anthropic_write_step();
    let (after, out) = written(events, ids, s, step);
    if events.len() == 0 {
        let none = Seq::<BlockStep>::empty();
        assert(takes_turns(events, ids, s, none));
    } else if out is Ok {
        let front = events.drop_last();
        let n = events.len() - 1;
        assert(events.take(n) =~= front);
        assert forall|i: int| 0 <= i < front.len() implies raw_aside(#[trigger] front[i]) by {
            assert(raw_aside(events[i]));
        }
        blocks_in_turn(front, ids, s);
        let (mid, done) = written(front, ids, s, step);
        let done = done->Ok_0;
        assert(raw_aside(events[n]));
        let first = choose|steps: Seq<BlockStep>| #[trigger] takes_turns(front, ids, s, steps);
        let more = event_steps(mid, events.last(), ids.at(n));
        let added = anthropic_event_written(mid, events.last(), ids.at(n)).1->Ok_0;
        let steps = first + more;
        let all = done + added;
        assert forall|i: int| 0 <= i < all.len() implies told_by(
            #[trigger] all[i],
            #[trigger] steps[i],
        ) by {
            if i < done.len() {
                assert(told_by(done[i], first[i]));
            } else {
                assert(told_by(added[i - done.len()], more[i - done.len()]));
            }
        }
        steps_joined(s.open_content, first, more);
        assert(in_turn(s.open_content, steps, all, after.open_content));
        if fresh_starts(events, ids, s) {
            assert forall|i: int|
                0 <= i < front.len() && written(front.take(i), ids, s, step).1 is Ok
                implies fresh_start(
                written(front.take(i), ids, s, step).0,
                #[trigger] front[i],
            ) by {
                assert(front.take(i) =~= events.take(i));
                assert(front[i] == events[i]);
            }
            assert(fresh_start(written(events.take(n), ids, s, step).0, events[n]));
            apart_joined(s.open_content, first, more, mid.open_content);
        }
        if events.last() is MessageEnd {
            assert(steps[steps.len() - 2] == more[more.len() - 2]);
        }
        assert(takes_turns(events, ids, s, steps));
    }
}

/// Whether each open block is that of an open part, and no two parts have the same.
pub open spec fn mirrored(open: Set<usize>, s: StateView) -> bool {
    &&& placed(s)
    &&& forall|block: usize| #[trigger]
        s.open_content.contains(block) ==> exists|index: usize| #[trigger]
            s.content_indices.contains_key(index) && open.contains(index)
                && s.content_indices[index] == block
}

proof fn event_mirrored(open: Set<usize>, s: StateView, event: EventView, ids: IdsView)
    requires
        mirrored(open, s),
        open_after(open, event) is Some,
        s.next_content_index < usize::MAX,
    ensures
        fresh_start(s, event),
        mirrored(open_after(open, event)->0, anthropic_event_written(s, event, ids).0),
        anthropic_event_written(s, event, ids).0.next_content_index <= s.next_content_index + 1,
{
    let next = open_after(open, event)->0;
    let after = anthropic_event_written(s, event, ids).0;
    writing_keeps_placed(s, event, ids, 0);
    if let EventView::ContentStart { index, .. } = event {
        let target = target_of(s, index).1;
        if s.open_content.contains(target) {
            let other = choose|other: usize| #[trigger]
                s.content_indices.contains_key(other) && open.contains(other)
                    && s.content_indices[other] == target;
            assert(s.content_indices[other] == target);
            if s.content_indices.contains_key(index) {
                assert(s.content_indices[index] == target);
            }
        }
    }
    assert forall|block: usize| #[trigger] after.open_content.contains(block) implies exists|
        index: usize,
    | #[trigger]
        after.content_indices.contains_key(index) && next.contains(index)
            && after.content_indices[index] == block by {
        if s.open_content.contains(block) {
            let index = choose|index: usize| #[trigger]
                s.content_indices.contains_key(index) && open.contains(index)
                    && s.content_indices[index] == block;
            assert(after.content_indices.contains_key(index));
            assert(after.content_indices[index] == block);
            assert(next.contains(index));
        } else if let EventView::ContentStart { index, .. } = event {
            assert(after.content_indices.contains_key(index));
            assert(after.content_indices[index] == block);
        }
    }
}

/// Where the parts of a stream are in order, no part is started whose block is open; and they
/// stay so for the events of the next call.
pub proof fn ordered_parts_start_fresh(
    events: Seq<EventView>,
    ids: IdsView,
    s: StateView,
    open: Set<usize>,
)
    requires
        mirrored(open, s),
        open_after_all(open, events) is Some,
        s.next_content_index + events.len() < usize::MAX,
    ensures
        mirrored(Set::empty(), first_state()),
        fresh_starts(events, ids, s),
        ({
            let (after, out) = written(events, ids, s, anthropic_write_step());
            out is Ok ==> mirrored(open_after_all(open, events)->0, after)
                && after.next_content_index <= s.next_content_index + events.len()
        }),
    decreases events.len(),
{
    let step = anthropic_write_step();
    if events.len() > 0 {
        let front = events.drop_last();
        let n = events.len() - 1;
        assert(events.take(n) =~= front);
        ordered_parts_start_fresh(front, ids, s, open);
        let (mid, done) = written(front, ids, s, step);
        if done is Ok {
            let before = open_after_all(open, front)->0;
            event_mirrored(before, mid, events.last(), ids.at(n));
        }
        assert forall|i: int|
            0 <= i < events.len() && written(events.take(i), ids, s, step).1 is Ok
            implies fresh_start(
            written(events.take(i), ids, s, step).0,
            #[trigger] events[i],
        ) by {
            if i < n {
                assert(front.take(i) =~= events.take(i));
                assert(front[i] == events[i]);
            }
        }
    }
}

spec fn one_if(b: bool) -> nat {
    if b {
        1
    } else {
        0
    }
}

/// Where no block is started that is open, each start but the last has its stop.
proof fn counted(open: Set<usize>, steps: Seq<BlockStep>, block: usize)
    requires
        blocks_after_all(open, steps) is Some,
        starts_apart(open, steps),
    ensures
        one_if(open.contains(block)) + starts(steps, block) == stops(steps, block) + one_if(
            blocks_after_all(open, steps)->0.contains(block),
        ),
    decreases steps.len(),
{
    let is_start = |step: BlockStep| step matches BlockStep::Start { block: b, .. } && b == block;
    let is_stop = |step: BlockStep| step == BlockStep::Stop { block };
    reveal(Seq::filter);
    if steps.len() > 0 {
        let front = steps.drop_last();
        assert forall|i: int| 0 <= i < front.len() implies starts_closed(
            blocks_after_all(open, front.take(i)),
            #[trigger] front[i],
        ) by {
            assert(front.take(i) =~= steps.take(i));
            assert(front[i] == steps[i]);
        }
        counted(open, front, block);
        let n = steps.len() - 1;
        assert(steps.take(n) =~= front);
        assert(starts_closed(blocks_after_all(open, steps.take(n)), steps[n]));
    }
}

/// A message that is written whole, from a state without an open block and with no part started
/// whose block is open, stops every block that it starts exactly once, after its start and before
/// it says why the model stopped, and stops no other.
pub proof fn blocks_are_stopped_once(events: Seq<EventView>, ids: IdsView, s: StateView)
    requires
        s.open_content == Set::<usize>::empty(),
        events.len() > 0,
        events.last() is MessageEnd,
        forall|i: int| 0 <= i < events.len() ==> raw_aside(#[trigger] events[i]),
        fresh_starts(events, ids, s),
    ensures
        written(events, ids, s, anthropic_write_step()).1 matches Ok(out) ==> exists|
            steps: Seq<BlockStep>,
        | #[trigger]
            in_turn(Set::empty(), steps, out, Set::empty()) && starts_apart(Set::empty(), steps)
                && steps.len() >= 2 && steps[steps.len() - 2] is Finish && forall|block: usize|
                starts(steps, block) == stops(steps, block),
{
    blocks_in_turn(events, ids, s);
    let (after, out) = written(events, ids, s, anthropic_write_step());
    if let Ok(out) = out {
        let none = Set::<usize>::empty();
        let steps = choose|steps: Seq<BlockStep>| #[trigger] takes_turns(events, ids, s, steps);
        assert(after.open_content == none);
        assert forall|block: usize| starts(steps, block) == stops(steps, block) by {
            counted(none, steps, block);
        }
        assert(in_turn(none, steps, out, none));
    }
}

} // verus!
