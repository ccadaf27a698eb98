//! Nothing of a conversation is lost, doubled or reordered where a request is written.

use super::anthropic::{
    anthropic_blocks_value, anthropic_extra_fields, anthropic_request_value, conversation_of,
    turn_writer, with_message, TurnView,
};
use super::fresh::IdsView;
use super::names::names_differ;
use crate::json::JsonView;
use crate::model::{LLMRole, MessageView, RequestView};
use vstd::prelude::*;

verus! {

/// The blocks of the messages on one side, in order: of those that instruct, or of the others.
pub open spec fn blocks_said(messages: Seq<MessageView>, ids: IdsView, instructs: bool) -> Seq<
    JsonView,
>
    decreases messages.len(),
{
    if messages.len() == 0 {
        Seq::empty()
    } else {
        let m = messages.last();
        let before = blocks_said(messages.drop_last(), ids, instructs);
        if (m.role == LLMRole::System || m.role == LLMRole::Developer) == instructs {
            match anthropic_blocks_value(m.content, ids.at(messages.len() - 1)) {
                Ok(blocks) => before + blocks,
                Err(_) => before,
            }
        } else {
            before
        }
    }
}

/// The contents of written messages one after another.
pub open spec fn contents_in_order(messages: Seq<JsonView>) -> Seq<JsonView>
    decreases messages.len(),
{
    if messages.len() == 0 {
        Seq::empty()
    } else {
        contents_in_order(messages.drop_last()) + messages.last().at("content"@).list()
    }
}

spec fn turns_in_order(turns: Seq<TurnView>) -> Seq<JsonView>
    decreases turns.len(),
{
    if turns.len() == 0 {
        Seq::empty()
    } else {
        turns_in_order(turns.drop_last()) + turns.last().blocks
    }
}

/// Whether a block is one of those that messages of one side say.
pub open spec fn said_by(
    messages: Seq<MessageView>,
    ids: IdsView,
    assistant: bool,
    block: JsonView,
) -> bool {
    exists|i: int| #[trigger] says(messages, ids, i, assistant, block)
}

/// Whether a message is on the given side and says the block.
pub open spec fn says(
    messages: Seq<MessageView>,
    ids: IdsView,
    i: int,
    assistant: bool,
    block: JsonView,
) -> bool {
    &&& 0 <= i < messages.len()
    &&& (messages[i].role == LLMRole::Assistant) == assistant
    &&& match anthropic_blocks_value(messages[i].content, ids.at(i)) {
        Ok(blocks) => blocks.contains(block),
        Err(_) => false,
    }
}

spec fn sides_alternate(turns: Seq<TurnView>) -> bool {
    forall|i: int, j: int|
        0 <= i && j == i + 1 && j < turns.len() ==> (#[trigger] turns[i]).assistant != (
        #[trigger] turns[j]).assistant
}

spec fn sides_keep(turns: Seq<TurnView>, messages: Seq<MessageView>, ids: IdsView) -> bool {
    forall|i: int, k: int|
        0 <= i < turns.len() && 0 <= k < turns[i].blocks.len() ==> said_by(
            messages,
            ids,
            turns[i].assistant,
            #[trigger] turns[i].blocks[k],
        )
}

proof fn conversation_is_complete(messages: Seq<MessageView>, ids: IdsView)
    requires
        conversation_of(messages, ids) is Ok,
    ensures
        conversation_of(messages, ids) matches Ok(c) ==> {
            &&& turns_in_order(c.turns) == blocks_said(messages, ids, false)
            &&& c.system == blocks_said(messages, ids, true)
            &&& sides_alternate(c.turns)
            &&& sides_keep(c.turns, messages, ids)
        },
    decreases messages.len(),
{
    if messages.len() > 0 {
        let before = messages.drop_last();
        conversation_is_complete(before, ids);
        let done = conversation_of(before, ids)->Ok_0;
        let m = messages.last();
        let blocks = anthropic_blocks_value(m.content, ids.at(messages.len() - 1))->Ok_0;
        let c = with_message(done, m.role, blocks);
        let n = done.turns.len() as int;
        if m.role == LLMRole::System || m.role == LLMRole::Developer {
        } else if n > 0 && done.turns.last().assistant == (m.role == LLMRole::Assistant) {
            assert(c.turns.drop_last() =~= done.turns.drop_last());
            assert(c.turns.last().blocks == done.turns.last().blocks + blocks);
            assert(turns_in_order(c.turns) =~= turns_in_order(done.turns) + blocks);
        } else {
            assert(c.turns.drop_last() =~= done.turns);
        }
        assert forall|i: int, k: int|
            0 <= i < c.turns.len() && 0 <= k < c.turns[i].blocks.len() implies said_by(
            messages,
            ids,
            c.turns[i].assistant,
            #[trigger] c.turns[i].blocks[k],
        ) by {
            let block = c.turns[i].blocks[k];
            let side = c.turns[i].assistant;
            if i < n && k < done.turns[i].blocks.len() {
                assert(done.turns[i].blocks[k] == block);
                let j = choose|j: int| says(before, ids, j, side, block);
                assert(says(messages, ids, j, side, block));
            } else {
                assert(blocks.contains(block)) by {
                    let at = if i < n {
                        k - done.turns[i].blocks.len()
                    } else {
                        k
                    };
                    assert(blocks[at] == block);
                }
                assert(says(messages, ids, messages.len() - 1, side, block));
            }
        }
    } else {
        assert(blocks_said(messages, ids, false) =~= Seq::<JsonView>::empty());
    }
}

proof fn turns_are_written(turns: Seq<TurnView>)
    ensures
        contents_in_order(turns.map_values(turn_writer())) == turns_in_order(turns),
    decreases turns.len(),
{
    names_differ();
    let written = turns.map_values(turn_writer());
    if turns.len() > 0 {
        turns_are_written(turns.drop_last());
        assert(written.drop_last() =~= turns.drop_last().map_values(turn_writer()));
        assert(written.last() == turn_writer()(turns.last()));
    }
}

proof fn messages_are_there(r: RequestView, ids: IdsView)
    requires
        anthropic_request_value(r, ids) is Ok,
    ensures
        conversation_of(r.messages, ids) is Ok,
        ({
            let c = conversation_of(r.messages, ids)->Ok_0;
            let v = anthropic_request_value(r, ids)->Ok_0;
            &&& v.at("messages"@) == JsonView::Array(c.turns.map_values(turn_writer()))
            &&& c.system.len() > 0 ==> v.at("system"@) == JsonView::Array(c.system)
            &&& c.system.len() == 0 ==> v.field("system"@) is None
        }),
{
    names_differ();
    assert(!anthropic_extra_fields().contains("system"@));
}

/// A Messages request says what the conversation says: its messages hold the blocks of all
/// messages that do not instruct, in order, and `system` those of the others. Each message holds
/// what one side says, and the sides take turns.
pub proof fn conversations_are_kept(r: RequestView, ids: IdsView, i: int, k: int)
    requires
        anthropic_request_value(r, ids) is Ok,
    ensures
        anthropic_request_value(r, ids) matches Ok(v) ==> {
            let written = v.at("messages"@).list();
            &&& v.at("messages"@) is Array
            &&& contents_in_order(written) == blocks_said(r.messages, ids, false)
            &&& blocks_said(r.messages, ids, true).len() > 0 ==> v.at("system"@)
                == JsonView::Array(blocks_said(r.messages, ids, true))
            &&& blocks_said(r.messages, ids, true).len() == 0 ==> v.field("system"@) is None
            &&& 0 <= i < written.len() ==> written[i].at("role"@) == JsonView::Text("user"@)
                || written[i].at("role"@) == JsonView::Text("assistant"@)
            &&& 0 <= i < written.len() - 1 ==> written[i].at("role"@) != written[i + 1].at("role"@)
            &&& 0 <= i < written.len() && 0 <= k < written[i].at("content"@).list().len()
                ==> said_by(
                r.messages,
                ids,
                written[i].at("role"@) == JsonView::Text("assistant"@),
                written[i].at("content"@).list()[k],
            )
        },
{
    names_differ();
    messages_are_there(r, ids);
    let c = conversation_of(r.messages, ids)->Ok_0;
    conversation_is_complete(r.messages, ids);
    turns_are_written(c.turns);
    let written = c.turns.map_values(turn_writer());
    if 0 <= i < written.len() {
        assert(written[i] == turn_writer()(c.turns[i]));
        if 0 <= k < c.turns[i].blocks.len() {
            assert(said_by(r.messages, ids, c.turns[i].assistant, c.turns[i].blocks[k]));
        }
    }
    if 0 <= i < written.len() - 1 {
        assert(written[i + 1] == turn_writer()(c.turns[i + 1]));
        assert(c.turns[i].assistant != c.turns[i + 1].assistant);
    }
}

} // verus!
