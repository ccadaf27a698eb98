//! Streams, from the format of a provider to that of a client.

use crate::adapters::anthropic_stream::{anthropic_event_read, anthropic_write_step};
use crate::adapters::chat_stream::{chat_event_read, chat_write_step};
use crate::adapters::error::{error_message, AdapterError, ErrorView};
use crate::adapters::fresh::{
    draw_for_events, drawn_for_events, no_ids, now, opt_ids, FreshIds, IdsView,
};
use crate::adapters::responses_stream::{responses_event_read, responses_write_step};
use crate::adapters::sse::{finished, pushed, SseDecoder, SseEvent, SseView};
use crate::adapters::state::{first_state, StateView, StreamState};
use crate::adapters::stream::{written, WriteStep};
use crate::adapters::{anthropic_stream, chat_stream, responses_stream};
use crate::json::JsonMap;
use crate::model::{no_fields, EventView, LLMStreamEvent};
use crate::protocol::{InputFormat, UpstreamFormat};
use crate::seqs::{outcomes, views};
use vstd::prelude::*;

verus! {

/// The state after an event of a provider's stream, and the events that it gives.
pub open spec fn upstream_event_read(upstream: UpstreamFormat, event: SseView, s: StateView) -> (
    StateView,
    Result<Seq<EventView>, ErrorView>,
) {
    match upstream {
        UpstreamFormat::OpenAiChat => chat_event_read(event.data, s),
        UpstreamFormat::OpenAiResponses => responses_event_read(event, s),
        UpstreamFormat::AnthropicMessages => anthropic_event_read(event, s),
    }
}

/// What an event is written as for a client.
pub open spec fn client_write_step(input: InputFormat, created: i64) -> WriteStep
    recommends
        input != InputFormat::Models,
{
    match input {
        InputFormat::OpenAiChat => chat_write_step(created),
        InputFormat::OpenAiResponses => responses_write_step(created),
        _ => anthropic_write_step(),
    }
}

/// Reads an event of a provider's stream.
pub fn parse_stream_event(upstream: UpstreamFormat, event: &SseEvent, state: &mut StreamState)
    -> (r: Result<Vec<LLMStreamEvent>, AdapterError>)
    ensures
        (final(state)@, outcomes(r)) == upstream_event_read(upstream, event@, old(state)@),
{
    match upstream {
        UpstreamFormat::OpenAiChat => chat_stream::read_event(event, state),
        UpstreamFormat::OpenAiResponses => responses_stream::read_event(event, state),
        UpstreamFormat::AnthropicMessages => anthropic_stream::read_event(event, state),
    }
}

/// Writes events for a client, with the given identifiers and time of creation.
pub fn format_stream_events(
    input: InputFormat,
    events: &[LLMStreamEvent],
    state: &mut StreamState,
    ids: Option<&FreshIds>,
    created: i64,
) -> (r: Result<Vec<SseEvent>, AdapterError>)
    requires
        input != InputFormat::Models,
    ensures
        (final(state)@, outcomes(r)) == written(
            views(events@),
            opt_ids(ids),
            old(state)@,
            client_write_step(input, created),
        ),
{
    match input {
        InputFormat::OpenAiChat => chat_stream::write_events(events, state, ids, created),
        InputFormat::OpenAiResponses => responses_stream::write_events(
            events,
            state,
            ids,
            created,
        ),
        _ => anthropic_stream::write_events(events, state, ids),
    }
}

/// What a conversion draws for one event of the provider: identifiers and a time.
#[verifier::ext_equal]
pub struct Draw {
    pub ids: IdsView,
    pub created: i64,
}

/// The two states of a conversion, and what an event of the provider is written as.
pub open spec fn event_converted(
    event: SseView,
    input: InputFormat,
    upstream: UpstreamFormat,
    source: StateView,
    target: StateView,
    draw: Draw,
) -> (StateView, StateView, Result<Seq<SseView>, ErrorView>) {
    let (source, read) = upstream_event_read(upstream, event, source);
    match read {
        Err(e) => (source, target, Err(e)),
        Ok(events) => {
            let (target, out) = written(
                events,
                draw.ids,
                target,
                client_write_step(input, draw.created),
            );
            (source, target, out)
        },
    }
}

/// Whether identifiers have been drawn for what an event of the provider gives.
pub open spec fn drawn_for_sse(
    event: SseView,
    upstream: UpstreamFormat,
    source: StateView,
    draw: Draw,
) -> bool {
    upstream_event_read(upstream, event, source).1 matches Ok(events) ==> drawn_for_events(
        events,
        draw.ids,
    )
}

fn convert_one(
    event: &SseEvent,
    input: InputFormat,
    upstream: UpstreamFormat,
    source_state: &mut StreamState,
    target_state: &mut StreamState,
) -> (r: (Result<Vec<SseEvent>, AdapterError>, i64, Ghost<IdsView>))
    requires
        input != InputFormat::Models,
    ensures
        drawn_for_sse(
            event@,
            upstream,
            old(source_state)@,
            (Draw { ids: r.2@, created: r.1 }),
        ),
        (final(source_state)@, final(target_state)@, outcomes(r.0)) == event_converted(
            event@,
            input,
            upstream,
            old(source_state)@,
            old(target_state)@,
            (Draw { ids: r.2@, created: r.1 }),
        ),
{
    let created = now();
    match parse_stream_event(upstream, event, source_state) {
        Ok(events) => {
            let ids = draw_for_events(events.as_slice());
            let out = format_stream_events(
                input,
                events.as_slice(),
                target_state,
                Some(&ids),
                created,
            );
            (out, created, Ghost(ids@))
        },
        Err(e) => (Err(e), created, Ghost(no_ids())),
    }
}

/// Writes an event of a provider's stream for a client, with fresh identifiers where it names
/// none, and the present time.
pub fn convert_sse_event(
    event: &SseEvent,
    input: InputFormat,
    upstream: UpstreamFormat,
    source_state: &mut StreamState,
    target_state: &mut StreamState,
) -> (r: Result<Vec<SseEvent>, AdapterError>)
    requires
        input != InputFormat::Models,
    ensures
        exists|draw: Draw| #[trigger]
            drawn_for_sse(event@, upstream, old(source_state)@, draw) && (
                final(source_state)@,
                final(target_state)@,
                outcomes(r),
            ) == event_converted(
                event@,
                input,
                upstream,
                old(source_state)@,
                old(target_state)@,
                draw,
            ),
{
    let (r, created, Ghost(ids)) = convert_one(event, input, upstream, source_state, target_state);
    assert(drawn_for_sse(event@, upstream, old(source_state)@, (Draw { ids, created })));
    r
}

/// What a client is told of an error in its stream.
pub open spec fn error_told(input: InputFormat, target: StateView, message: Seq<char>, created: i64)
    -> (StateView, Seq<SseView>) {
    let (target, out) = written(
        seq![EventView::Error { message, metadata: no_fields() }],
        no_ids(),
        target,
        client_write_step(input, created),
    );
    (
        target,
        match out {
            Ok(events) => events,
            Err(_) => Seq::empty(),
        },
    )
}

/// Tells a client of an error in its stream, at the given time.
pub fn stream_error_events(
    input: InputFormat,
    state: &mut StreamState,
    message: String,
    created: i64,
) -> (r: Vec<SseEvent>)
    requires
        input != InputFormat::Models,
    ensures
        (final(state)@, views(r@)) == error_told(input, old(state)@, message@, created),
{
    let mut events: Vec<LLMStreamEvent> = Vec::new();
    let event = LLMStreamEvent::Error { message, metadata: JsonMap::new() };
    events.push(event);
    assert(views(events@) =~= seq![event@]);
    match format_stream_events(input, events.as_slice(), state, None, created) {
        Ok(out) => out,
        Err(_) => {
            let none: Vec<SseEvent> = Vec::new();
            assert(views(none@) =~= Seq::empty());
            none
        },
    }
}

/// What comes after the events that a stream has given.
#[derive(Debug, Clone, Copy, PartialEq, Eq, Structural)]
pub enum Next {
    /// More of the stream.
    More,
    /// Nothing: the stream is at its end, or has failed.
    Done,
    /// A field would have to be set on a value that is neither an object nor null.
    Broken,
}

/// What a stream gives a client.
#[derive(Debug, PartialEq)]
pub struct StreamOutput {
    pub events: Vec<SseEvent>,
    pub next: Next,
}

/// What the output of a stream stands for.
#[verifier::ext_equal]
pub struct OutputView {
    pub events: Seq<SseView>,
    pub next: Next,
}

impl View for StreamOutput {
    type V = OutputView;

    open spec fn view(&self) -> OutputView {
        OutputView { events: views(self.events@), next: self.next }
    }
}

/// Converts a provider's stream for a client, piece by piece.
#[derive(Debug)]
pub struct StreamConverter {
    pub input: InputFormat,
    pub upstream: UpstreamFormat,
    pub decoder: SseDecoder,
    pub source: StreamState,
    pub target: StreamState,
}

/// What a conversion stands for.
#[verifier::ext_equal]
pub struct ConverterView {
    pub input: InputFormat,
    pub upstream: UpstreamFormat,
    pub buffer: Seq<u8>,
    pub source: StateView,
    pub target: StateView,
}

impl View for StreamConverter {
    type V = ConverterView;

    open spec fn view(&self) -> ConverterView {
        ConverterView {
            input: self.input,
            upstream: self.upstream,
            buffer: self.decoder@,
            source: self.source@,
            target: self.target@,
        }
    }
}

impl ConverterView {
    /// The conversion after an event, and what that is written as.
    #[verifier::opaque]
    pub open spec fn step(self, event: SseView, draw: Draw) -> (
        ConverterView,
        Result<Seq<SseView>, ErrorView>,
    ) {
        let (source, target, out) = event_converted(
            event,
            self.input,
            self.upstream,
            self.source,
            self.target,
            draw,
        );
        (ConverterView { source, target, ..self }, out)
    }

    /// The conversion and its output with an error told at its end.
    pub open spec fn fail(self, events: Seq<SseView>, message: Seq<char>, created: i64) -> (
        ConverterView,
        OutputView,
    ) {
        let (target, told) = error_told(self.input, self.target, message, created);
        (
            ConverterView { target, ..self },
            OutputView { events: events + told, next: Next::Done },
        )
    }

    /// The conversion after one more event, and its output: an event that fails is told.
    pub open spec fn advance(self, done: Seq<SseView>, event: SseView, draw: Draw) -> (
        ConverterView,
        OutputView,
    ) {
        let (after, more) = self.step(event, draw);
        match more {
            Ok(more) => (after, OutputView { events: done + more, next: Next::More }),
            Err(ErrorView::NotAnObject) => (
                after,
                OutputView { events: done, next: Next::Broken },
            ),
            Err(e) => after.fail(done, error_message(e), draw.created),
        }
    }

    /// The conversion after events, and its output: an event that fails is told, and is the last.
    pub open spec fn run(self, events: Seq<SseView>, draws: Seq<Draw>) -> (
        ConverterView,
        OutputView,
    )
        decreases events.len(),
    {
        if events.len() == 0 {
            (self, OutputView { events: Seq::empty(), next: Next::More })
        } else {
            let (before, out) = self.run(events.drop_last(), draws.drop_last());
            if out.next != Next::More {
                (before, out)
            } else {
                before.advance(out.events, events.last(), draws.last())
            }
        }
    }

    /// Whether identifiers have been drawn for each of the events, as far as they are converted.
    pub open spec fn drawn(self, events: Seq<SseView>, draws: Seq<Draw>) -> bool
        decreases events.len(),
    {
        &&& draws.len() == events.len()
        &&& events.len() > 0 ==> {
            let (before, out) = self.run(events.drop_last(), draws.drop_last());
            &&& self.drawn(events.drop_last(), draws.drop_last())
            &&& out.next == Next::More ==> drawn_for_sse(
                events.last(),
                self.upstream,
                before.source,
                draws.last(),
            )
        }
    }

    /// The conversion after a piece of the stream, and its output.
    pub open spec fn pushed(self, chunk: Seq<u8>, draws: Seq<Draw>, created: i64) -> (
        ConverterView,
        OutputView,
    ) {
        let (buffer, read) = pushed(self.buffer + chunk);
        let c = ConverterView { buffer, ..self };
        match read {
            Err(e) => c.fail(Seq::empty(), error_message(e), created),
            Ok(events) => c.run(events, draws),
        }
    }

    /// Whether identifiers have been drawn for the events that a piece of the stream completes.
    pub open spec fn drawn_for_piece(self, chunk: Seq<u8>, draws: Seq<Draw>) -> bool {
        let (buffer, read) = pushed(self.buffer + chunk);
        read matches Ok(events) ==> (ConverterView { buffer, ..self }).drawn(events, draws)
    }

    /// The conversion after the end of the stream, and its output: a stream that has not come to
    /// an end by itself has failed.
    pub open spec fn finished(self, draws: Seq<Draw>, created: i64) -> (
        ConverterView,
        OutputView,
    ) {
        let c = ConverterView { buffer: Seq::empty(), ..self };
        match finished(self.buffer) {
            Err(e) => c.fail(Seq::empty(), error_message(e), created),
            Ok(events) => {
                let (c, out) = c.run(events, draws);
                if out.next != Next::More {
                    (c, out)
                } else if c.source.ended {
                    (c, OutputView { events: out.events, next: Next::Done })
                } else {
                    c.fail(
                        out.events,
                        "upstream stream ended before a terminal event"@,
                        created,
                    )
                }
            },
        }
    }

    /// Whether identifiers have been drawn for the event that the end of the stream completes.
    pub open spec fn drawn_for_rest(self, draws: Seq<Draw>) -> bool {
        finished(self.buffer) matches Ok(events) ==> (ConverterView {
            buffer: Seq::empty(),
            ..self
        }).drawn(events, draws)
    }
}

/// What has stopped stays so, whatever would come after it.
proof fn stopped(c: ConverterView, events: Seq<SseView>, draws: Seq<Draw>, n: int)
    requires
        0 <= n <= events.len(),
        draws.len() == events.len(),
        c.run(events.take(n), draws.take(n)).1.next != Next::More,
        c.drawn(events.take(n), draws.take(n)),
    ensures
        c.run(events, draws) == c.run(events.take(n), draws.take(n)),
        c.drawn(events, draws),
    decreases events.len() - n,
{
    if n < events.len() {
        assert(events.take(n + 1).drop_last() =~= events.take(n));
        assert(draws.take(n + 1).drop_last() =~= draws.take(n));
        stopped(c, events, draws, n + 1);
    } else {
        assert(events.take(n) =~= events);
        assert(draws.take(n) =~= draws);
    }
}

spec fn filled(draws: Seq<Draw>, n: nat) -> Seq<Draw> {
    Seq::new(
        n,
        |i: int|
            if i < draws.len() {
                draws[i]
            } else {
                Draw { ids: no_ids(), created: 0 }
            },
    )
}

fn no_output() -> (r: Vec<SseEvent>)
    ensures
        views(r@) == Seq::<SseView>::empty(),
{
    let none: Vec<SseEvent> = Vec::new();
    assert(views(none@) =~= Seq::empty());
    none
}

impl StreamConverter {
    /// The conversion before the stream.
    pub fn new(input: InputFormat, upstream: UpstreamFormat) -> (r: StreamConverter)
        ensures
            r@ == (ConverterView {
                input,
                upstream,
                buffer: Seq::empty(),
                source: first_state(),
                target: first_state(),
            }),
    {
        StreamConverter {
            input,
            upstream,
            decoder: SseDecoder::default(),
            source: StreamState::default(),
            target: StreamState::default(),
        }
    }

    fn tell(&mut self, events: Vec<SseEvent>, message: String, created: i64) -> (r: StreamOutput)
        requires
            old(self).input != InputFormat::Models,
        ensures
            (final(self)@, r@) == old(self)@.fail(views(events@), message@, created),
            final(self).input == old(self).input,
    {
        let ghost before = views(events@);
        let mut events = events;
        let mut told = stream_error_events(self.input, &mut self.target, message, created);
        let ghost more = views(told@);
        events.append(&mut told);
        assert(views(events@) =~= before + more);
        StreamOutput { events, next: Next::Done }
    }

    fn advance(&mut self, done: Vec<SseEvent>, event: &SseEvent) -> (r: (StreamOutput, Ghost<Draw>))
        requires
            old(self).input != InputFormat::Models,
        ensures
            drawn_for_sse(event@, old(self).upstream, old(self)@.source, r.1@),
            (final(self)@, r.0@) == old(self)@.advance(views(done@), event@, r.1@),
            final(self).input == old(self).input,
            final(self).upstream == old(self).upstream,
    {
        let ghost before = views(done@);
        let mut done = done;
        let (converted, created, Ghost(ids)) = convert_one(
            event,
            self.input,
            self.upstream,
            &mut self.source,
            &mut self.target,
        );
        let ghost draw = Draw { ids, created };
        proof {
            reveal(ConverterView::step);
        }
        match converted {
            Ok(mut events) => {
                let ghost added = views(events@);
                done.append(&mut events);
                assert(views(done@) =~= before + added);
                (StreamOutput { events: done, next: Next::More }, Ghost(draw))
            },
            Err(AdapterError::NotAnObject) => (
                StreamOutput { events: done, next: Next::Broken },
                Ghost(draw),
            ),
            Err(e) => {
                let r = self.tell(done, e.message(), created);
                (r, Ghost(draw))
            },
        }
    }

    fn run(&mut self, events: &Vec<SseEvent>) -> (r: (StreamOutput, Ghost<Seq<Draw>>))
        requires
            old(self).input != InputFormat::Models,
        ensures
            old(self)@.drawn(views(events@), r.1@),
            (final(self)@, r.0@) == old(self)@.run(views(events@), r.1@),
            final(self).input == old(self).input,
    {
        let ghost start = self@;
        let ghost all = views(events@);
        let ghost mut draws: Seq<Draw> = Seq::empty();
        let mut out = StreamOutput { events: no_output(), next: Next::More };
        let mut i: usize = 0;
        assert(all.take(0) =~= Seq::empty());
        while i < events.len()
            invariant
                self.input != InputFormat::Models,
                start == old(self)@,
                self.input == start.input,
                self.upstream == start.upstream,
                all == views(events@),
                i <= events@.len(),
                draws.len() == i,
                out.next == Next::More,
                start.drawn(all.take(i as int), draws),
                start.run(all.take(i as int), draws) == (self@, out@),
            decreases events@.len() - i,
        {
            let ghost before = self@;
            let (next, Ghost(draw)) = self.advance(out.events, &events[i]);
            proof {
                let more = draws.push(draw);
                assert(more.drop_last() =~= draws);
                assert(more.last() == draw);
                assert(all.take(i + 1).drop_last() =~= all.take(i as int));
                assert(all.take(i + 1).last() == events@[i as int]@);
                draws = more;
            }
            if next.next != Next::More {
                let ghost full = filled(draws, events@.len());
                proof {
                    assert(full.take(i + 1) =~= draws);
                    stopped(start, all, full, i + 1);
                }
                return (next, Ghost(full));
            }
            out = next;
            i = i + 1;
        }
        assert(all.take(i as int) =~= all);
        (out, Ghost(draws))
    }

    /// Takes a piece of the stream, and gives what the client is sent for it.
    pub fn push(&mut self, chunk: &[u8]) -> (r: StreamOutput)
        requires
            old(self).input != InputFormat::Models,
        ensures
            exists|draws: Seq<Draw>, created: i64|
                old(self)@.drawn_for_piece(chunk@, draws) && (final(self)@, r@)
                    == #[trigger] old(self)@.pushed(chunk@, draws, created),
            final(self).input == old(self).input,
    {
        match self.decoder.push(chunk) {
            Ok(events) => {
                let (r, Ghost(draws)) = self.run(&events);
                assert((self@, r@) == old(self)@.pushed(chunk@, draws, 0));
                r
            },
            Err(e) => {
                let created = now();
                let r = self.tell(no_output(), e.message(), created);
                assert((self@, r@) == old(self)@.pushed(chunk@, Seq::empty(), created));
                r
            },
        }
    }

    /// Tells the client that the stream could not be read.
    pub fn fail(&mut self, message: String) -> (r: StreamOutput)
        requires
            old(self).input != InputFormat::Models,
        ensures
            exists|created: i64|
                (final(self)@, r@) == #[trigger] old(self)@.fail(
                    Seq::empty(),
                    message@,
                    created,
                ),
            final(self).input == old(self).input,
    {
        let created = now();
        let r = self.tell(no_output(), message, created);
        assert((self@, r@) == old(self)@.fail(Seq::empty(), message@, created));
        r
    }

    /// Takes the end of the stream, and gives what the client is sent for it.
    pub fn finish(&mut self) -> (r: StreamOutput)
        requires
            old(self).input != InputFormat::Models,
        ensures
            exists|draws: Seq<Draw>, created: i64|
                old(self)@.drawn_for_rest(draws) && (final(self)@, r@)
                    == #[trigger] old(self)@.finished(draws, created),
            final(self).input == old(self).input,
    {
        let created = now();
        match self.decoder.finish() {
            Ok(events) => {
                let (r, Ghost(draws)) = self.run(&events);
                if r.next != Next::More {
                    assert((self@, r@) == old(self)@.finished(draws, created));
                    return r;
                }
                if self.source.ended {
                    let r = StreamOutput { events: r.events, next: Next::Done };
                    assert((self@, r@) == old(self)@.finished(draws, created));
                    return r;
                }
                let r = self.tell(
                    r.events,
                    "upstream stream ended before a terminal event".to_owned(),
                    created,
                );
                assert((self@, r@) == old(self)@.finished(draws, created));
                r
            },
            Err(e) => {
                let r = self.tell(no_output(), e.message(), created);
                assert((self@, r@) == old(self)@.finished(Seq::empty(), created));
                r
            },
        }
    }
}

proof fn advance_after(
    c: ConverterView,
    before: Seq<SseView>,
    done: Seq<SseView>,
    event: SseView,
    draw: Draw,
)
    ensures
        c.advance(before + done, event, draw).0 == c.advance(done, event, draw).0,
        c.advance(before + done, event, draw).1.next == c.advance(done, event, draw).1.next,
        c.advance(before + done, event, draw).1.events == before + c.advance(
            done,
            event,
            draw,
        ).1.events,
{
    let a = c.advance(before + done, event, draw).1.events;
    let b = c.advance(done, event, draw).1.events;
    assert(a =~= before + b);
}

/// It does not matter for what the client is sent in how many pieces the events of a stream come.
pub proof fn pieces_do_not_matter(
    c: ConverterView,
    first: Seq<SseView>,
    second: Seq<SseView>,
    draws: Seq<Draw>,
    more: Seq<Draw>,
)
    requires
        draws.len() == first.len(),
        more.len() == second.len(),
        c.run(first, draws).1.next == Next::More,
    ensures
        ({
            let (middle, head) = c.run(first, draws);
            let (end, tail) = middle.run(second, more);
            c.run(first + second, draws + more) == (
                end,
                OutputView { events: head.events + tail.events, next: tail.next },
            )
        }),
    decreases second.len(),
{
    let (middle, head) = c.run(first, draws);
    if second.len() == 0 {
        assert(first + second =~= first);
        assert(draws + more =~= draws);
        assert(head.events + Seq::<SseView>::empty() =~= head.events);
    } else {
        pieces_do_not_matter(c, first, second.drop_last(), draws, more.drop_last());
        assert((first + second).drop_last() =~= first + second.drop_last());
        assert((draws + more).drop_last() =~= draws + more.drop_last());
        let (before, out) = middle.run(second.drop_last(), more.drop_last());
        advance_after(before, head.events, out.events, second.last(), more.last());
    }
}

} // verus!
