//! What the events of a stream change of what is known of it, and what they leave alone.

use super::anthropic_stream::{anthropic_event_written, anthropic_parsed_read};
use super::chat_stream::{chat_event_written, chat_parsed_read, chunk_choices};
use super::event_laws::numbered_as;
use super::fresh::IdsView;
use super::names::names_differ;
use super::part_laws::says;
use super::responses_stream::{responses_event_written, responses_parsed_read};
use super::state::{get, target_of, StateView};
use crate::json::JsonView;
use crate::model::EventView;
use vstd::prelude::*;

verus! {

/// Whether two states know the same of the message as a whole.
pub open spec fn same_message(a: StateView, b: StateView) -> bool {
    &&& a.id == b.id
    &&& a.model == b.model
    &&& a.started == b.started
}

/// Whether a state knows of a message that has started under this name and of this model.
pub open spec fn message_of(s: StateView, id: Option<Seq<char>>, model: Option<Seq<char>>) -> bool {
    s.started && s.id == id && s.model == model
}

/// The first chunk of a Chat stream starts the message, and no later one does: the identifier and
/// the model stay those of the first. A chunk without an answer opens and ends nothing.
pub proof fn chat_messages_start_once(v: JsonView, s: StateView)
    requires
        v.field("error"@) is None,
        v.at("choices"@).list().len() == 0,
    ensures
        ({
            let (after, read) = chat_parsed_read(Some(v), s);
            &&& !s.started ==> message_of(after, v.at("id"@).text(), v.at("model"@).text())
            &&& s.started ==> same_message(after, s) && (read matches Ok(events) && forall|i: int|
                0 <= i < events.len() ==> (#[trigger] events[i]) is Usage)
            &&& !(v.at("usage"@) is Object) ==> after.usage == s.usage
            &&& after.open_content == s.open_content
            &&& after.finish_reason == s.finish_reason
            &&& after.ended == s.ended
        }),
{
    names_differ();
    reveal_with_fuel(chunk_choices, 1);
}

/// The start of a Messages stream is kept, and so is that of a stream that begins with a block; a
/// later event changes neither the identifier nor the model.
pub proof fn messages_start_once(v: JsonView, name: Option<Seq<char>>, s: StateView)
    ensures
        ({
            let (after, read) = anthropic_parsed_read(Some(v), name, s);
            let message = v.at("message"@);
            &&& says(v, "type"@, "message_start"@) ==> message_of(
                after,
                message.at("id"@).text(),
                message.at("model"@).text(),
            ) && after.open_content == s.open_content
            &&& says(v, "type"@, "content_block_start"@) ==> message_of(after, s.id, s.model) && (
            !s.started ==> (read matches Ok(events) && events.len() == 2 && events[0]
                == (EventView::MessageStart { id: None, model: None, usage: None })))
            &&& says(v, "type"@, "content_block_stop"@) || says(v, "type"@, "message_delta"@)
                || says(v, "type"@, "message_stop"@) || says(v, "type"@, "error"@)
                ==> same_message(after, s)
            &&& says(v, "type"@, "message_stop"@) ==> after.open_content == Set::<usize>::empty()
                && after.usage == s.usage
            &&& says(v, "type"@, "error"@) ==> after == s
            &&& says(v, "type"@, "message_delta"@) ==> after.open_content == s.open_content
                && after.ended == s.ended && (!(v.at("usage"@) is Object) ==> after.usage
                == s.usage && (read matches Ok(events) && events.len() == 0))
        }),
{
    names_differ();
}

/// The start of a Responses stream is kept, and so is that of a stream that begins with an item.
pub proof fn responses_start_once(v: JsonView, name: Option<Seq<char>>, s: StateView, n: usize)
    ensures
        ({
            let (after, read) = responses_parsed_read(Some(v), name, s);
            let response = v.at("response"@);
            &&& says(v, "type"@, "response.created"@) && !s.started ==> message_of(
                after,
                response.at("id"@).text(),
                response.at("model"@).text(),
            ) && after.open_content == s.open_content
            &&& says(v, "type"@, "response.created"@) && s.started ==> after == s && (
            read matches Ok(events) && events.len() == 0)
            &&& says(v, "type"@, "response.output_item.added"@) && numbered_as(
                v,
                "output_index"@,
                n,
            ) && says(v.at("item"@), "type"@, "message"@) ==> message_of(after, s.id, s.model)
                && after.open_content == s.open_content.insert(n) && (s.started ==> (
            read matches Ok(events) && events.len() == 1)) && (!s.started ==> (
            read matches Ok(events) && events.len() == 2 && (
            events[0] matches EventView::MessageStart { id, .. } && id == v.at(
                "response_id"@,
            ).text())))
            &&& says(v, "type"@, "response.output_item.done"@) ==> same_message(after, s)
                && after.usage == s.usage
            &&& says(v, "type"@, "error"@) ==> after == s
        }),
{
    names_differ();
}

/// Whether an event that is written changes of the message what it says, and nothing else.
pub open spec fn changes_as_said(s: StateView, event: EventView, after: StateView) -> bool {
    &&& !(event is MessageStart) ==> same_message(after, s)
    &&& event matches EventView::MessageStart { model, .. } ==> after.started && after.model == model
    &&& after.ended == (s.ended || event is MessageEnd)
    &&& !(event is MessageStart) && !(event is MessageEnd) && !(event is Usage) ==> after.usage
        == s.usage
    &&& !(event is ContentStart) && !(event is ContentEnd) && !(event is MessageEnd)
        ==> after.open_content == s.open_content
}

/// Whether an event that begins or ends a part opens or closes it, and no other.
pub open spec fn parts_as_said(s: StateView, event: EventView, after: StateView) -> bool {
    &&& event matches EventView::ContentStart { index, .. } ==> get(after.content_indices, index)
        is Some && after.open_content == s.open_content.insert(after.content_indices[index])
    &&& event matches EventView::ContentEnd { index } ==> (get(s.content_indices, index) matches Some(
        t,
    ) ==> after.open_content == s.open_content.remove(t)) && (get(s.content_indices, index) is None
        && !s.open_content.contains(s.next_content_index) ==> after.open_content == s.open_content)
}

/// What is written for Chat starts, ends and counts the message as the events say, and opens and
/// closes the parts that they name.
pub proof fn chat_writing_follows_events(s: StateView, event: EventView, ids: IdsView, now: i64)
    ensures
        changes_as_said(s, event, chat_event_written(s, event, ids, now).0),
        parts_as_said(s, event, chat_event_written(s, event, ids, now).0),
{
}

/// What is written for Messages starts, ends and counts the message as the events say, and opens
/// and closes the parts that they name.
pub proof fn messages_writing_follows_events(s: StateView, event: EventView, ids: IdsView)
    ensures
        changes_as_said(s, event, anthropic_event_written(s, event, ids).0),
        parts_as_said(s, event, anthropic_event_written(s, event, ids).0),
{
    if let EventView::ContentEnd { index } = event {
        let t = target_of(s, index).1;
        assert(!s.open_content.contains(t) ==> s.open_content.remove(t) =~= s.open_content);
    }
}

/// What is written for Responses starts, ends and counts the message as the events say, and opens
/// and closes the items of the parts that they name.
pub proof fn responses_writing_follows_events(
    s: StateView,
    event: EventView,
    ids: IdsView,
    now: i64,
)
    ensures
        responses_event_written(s, event, ids, now).1 is Ok ==> changes_as_said(
            s,
            event,
            responses_event_written(s, event, ids, now).0,
        ),
        responses_event_written(s, event, ids, now).1 is Ok ==> parts_as_said(
            s,
            event,
            responses_event_written(s, event, ids, now).0,
        ),
{
    if let EventView::ContentEnd { index } = event {
        let t = target_of(s, index).1;
        assert(!s.open_content.contains(t) ==> s.open_content.remove(t) =~= s.open_content);
    }
}

} // verus!
