//! What the stream conversions of all wire formats share.

use super::error::ErrorView;
use super::fresh::IdsView;
use super::sse::{SseEvent, SseView};
use super::state::{ascending, ascending_list, StateView, StreamState};
use crate::model::{ContentView, EventView, LLMContent, LLMStreamEvent};
use crate::seqs::views;
use std::collections::BTreeSet;
use vstd::prelude::*;
use vstd::std_specs::btree::group_btree_axioms;

verus! {

broadcast use group_btree_axioms;

/// The state of a conversion and the events that it has given.
#[verifier::ext_equal]
pub struct Progress {
    pub state: StateView,
    pub events: Seq<EventView>,
}

/// The state of a conversion and the events that it has given.
pub open spec fn progress(events: Seq<LLMStreamEvent>, state: StateView) -> Progress {
    Progress { state, events: views(events) }
}

impl Progress {
    /// With one more event.
    pub open spec fn push(self, event: EventView) -> Progress {
        Progress { events: self.events.push(event), ..self }
    }

    /// With the start of a part at `index`, where none is open there.
    pub open spec fn ensure_started(self, index: usize, content: ContentView) -> Progress {
        if self.state.open_content.contains(index) {
            self
        } else {
            Progress {
                state: StateView {
                    open_content: self.state.open_content.insert(index),
                    ..self.state
                },
                events: self.events.push(EventView::ContentStart { index, content }),
            }
        }
    }
}

/// The ends of the parts at the given indices.
pub open spec fn ends(indices: Seq<usize>) -> Seq<EventView> {
    Seq::new(indices.len(), |i: int| EventView::ContentEnd { index: indices[i] })
}

/// Adds an event.
pub(crate) fn add_event(events: &mut Vec<LLMStreamEvent>, event: LLMStreamEvent)
    ensures
        views(final(events)@) == views(old(events)@).push(event@),
{
    let ghost before = views(events@);
    events.push(event);
    assert(views(events@) =~= before.push(event@));
}

/// Adds the start of a part, where none is open at `index`.
pub(crate) fn ensure_content_started(
    events: &mut Vec<LLMStreamEvent>,
    state: &mut StreamState,
    index: usize,
    content: LLMContent,
)
    ensures
        progress(final(events)@, final(state)@) == progress(
            old(events)@,
            old(state)@,
        ).ensure_started(index, content@),
{
    let ghost start = progress(events@, state@);
    if state.open_content.insert(index) {
        add_event(events, LLMStreamEvent::ContentStart { index, content });
        assert(progress(events@, state@) =~= start.ensure_started(index, content@));
    } else {
        assert(state.open_content@ =~= start.state.open_content);
        assert(progress(events@, state@) =~= start.ensure_started(index, content@));
    }
}

/// The ends of the open parts, in the order of their indices.
pub(crate) fn content_ends(open: &BTreeSet<usize>) -> (r: Vec<LLMStreamEvent>)
    ensures
        views(r@) == ends(ascending(open@)),
{
    let list = ascending_list(open);
    let mut out: Vec<LLMStreamEvent> = Vec::new();
    let mut i: usize = 0;
    while i < list.len()
        invariant
            list@ == ascending(open@),
            i <= list@.len(),
            out@.len() == i,
            forall|j: int|
                0 <= j < i ==> (#[trigger] out@[j])@ == (EventView::ContentEnd { index: list@[j] }),
        decreases list@.len() - i,
    {
        out.push(LLMStreamEvent::ContentEnd { index: list[i] });
        i = i + 1;
    }
    assert(views(out@) =~= ends(ascending(open@)));
    out
}

/// A step of writing events: the state and the event, to the next state and what is written.
pub type WriteStep = spec_fn(StateView, EventView, IdsView) -> (
    StateView,
    Result<Seq<SseView>, ErrorView>,
);

/// What events are written as, one after the other; an event that fails ends the writing.
pub open spec fn written(events: Seq<EventView>, ids: IdsView, s: StateView, step: WriteStep) -> (
    StateView,
    Result<Seq<SseView>, ErrorView>,
)
    decreases events.len(),
{
    if events.len() == 0 {
        (s, Ok(Seq::empty()))
    } else {
        let (before, out) = written(events.drop_last(), ids, s, step);
        match out {
            Err(e) => (before, Err(e)),
            Ok(done) => {
                let (after, more) = step(before, events.last(), ids.at(events.len() - 1));
                match more {
                    Err(e) => (after, Err(e)),
                    Ok(more) => (after, Ok(done + more)),
                }
            },
        }
    }
}

/// A failure among the first events is the failure of the whole.
pub proof fn written_fails(
    events: Seq<EventView>,
    ids: IdsView,
    s: StateView,
    step: WriteStep,
    n: int,
)
    requires
        0 <= n <= events.len(),
        written(events.take(n), ids, s, step).1 is Err,
    ensures
        written(events, ids, s, step) == written(events.take(n), ids, s, step),
    decreases events.len() - n,
{
    if n < events.len() {
        assert(events.take(n + 1).drop_last() =~= events.take(n));
        written_fails(events, ids, s, step, n + 1);
    } else {
        assert(events.take(n) =~= events);
    }
}

/// Adds an event.
pub(crate) fn add_sse(out: &mut Vec<SseEvent>, event: SseEvent)
    ensures
        views(final(out)@) == views(old(out)@).push(event@),
{
    let ghost before = views(out@);
    out.push(event);
    assert(views(out@) =~= before.push(event@));
}

/// A list with one event.
pub(crate) fn one_sse(event: SseEvent) -> (r: Vec<SseEvent>)
    ensures
        views(r@) == seq![event@],
{
    let mut out: Vec<SseEvent> = Vec::new();
    out.push(event);
    assert(views(out@) =~= seq![event@]);
    out
}

/// A list without events.
pub(crate) fn no_sse() -> (r: Vec<SseEvent>)
    ensures
        views(r@) == Seq::<SseView>::empty(),
{
    let out: Vec<SseEvent> = Vec::new();
    assert(views(out@) =~= Seq::empty());
    out
}

} // verus!
