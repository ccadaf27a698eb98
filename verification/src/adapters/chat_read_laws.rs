//! What a Chat stream says is what is read from it.

use super::annotations::openai_annotation;
use super::chat_stream::{
    call_index, chat_parsed_read, chunk_choice, chunk_choices, chunk_head, cited, delta_call,
    delta_calls, delta_citations, delta_keys, delta_legacy_call, delta_reasoning, delta_refusal,
    delta_text, empty_call, empty_reasoning, empty_refusal, has_unknown,
};
use super::names::names_differ;
use super::openai_chat::{chat, chat_reason_of, chat_usage_of};
use super::part_laws::says;
use super::state::StateView;
use super::stream::Progress;
use super::whole_laws::{
    arguments_said, refusal_said, run_together, run_together_ends, text_said, thought_said,
    words_at,
};
use crate::json::{without, JsonView, NumView};
use crate::model::{no_fields, text_part, ContentView, EventView, LLMProtocol};
use crate::text::either;
use vstd::prelude::*;

verus! {

/// Whether `f` is silent about events that hold no piece.
spec fn only_pieces(f: spec_fn(EventView) -> Seq<char>) -> bool {
    forall|e: EventView|
        !(e is TextDelta) && !(e is ReasoningDelta) && !(e is RefusalDelta) && !(e is ToolCallDelta)
            ==> #[trigger] f(e) == Seq::<char>::empty()
}

proof fn pushes(p: Progress, e: EventView, f: spec_fn(EventView) -> Seq<char>)
    ensures
        run_together(p.push(e).events, f) == run_together(p.events, f) + f(e),
{
    run_together_ends(p.events, e, f);
}

proof fn starts(p: Progress, index: usize, content: ContentView, f: spec_fn(EventView) -> Seq<char>)
    requires
        only_pieces(f),
    ensures
        run_together(p.ensure_started(index, content).events, f) == run_together(p.events, f),
{
    run_together_ends(p.events, EventView::ContentStart { index, content }, f);
    assert(run_together(p.events, f) + Seq::<char>::empty() =~= run_together(p.events, f));
}

/// What the pieces of a choice say to `f`: its text, its reasoning, its refusal.
spec fn pieces(delta: JsonView, f: spec_fn(EventView) -> Seq<char>) -> Seq<char> {
    (match delta.at("content"@).text() {
        Some(text) => f(EventView::TextDelta { index: 0, text }),
        None => Seq::empty(),
    }) + (match either(delta.at("reasoning_content"@).text(), delta.at("reasoning"@).text()) {
        Some(text) => f(
            EventView::ReasoningDelta { index: 1, text: Some(text), signature: None },
        ),
        None => Seq::empty(),
    }) + (match delta.at("refusal"@).text() {
        Some(refusal) => f(EventView::RefusalDelta { index: 2, refusal }),
        None => Seq::empty(),
    })
}

proof fn shown_pieces(p: Progress, delta: JsonView, f: spec_fn(EventView) -> Seq<char>)
    requires
        only_pieces(f),
    ensures
        run_together(delta_refusal(delta_reasoning(delta_text(p, delta), delta), delta).events, f)
            == run_together(p.events, f) + pieces(delta, f),
{
    let q = delta_text(p, delta);
    if let Some(text) = delta.at("content"@).text() {
        let r = p.ensure_started(0, text_part(""@));
        starts(p, 0, text_part(""@), f);
        pushes(r, EventView::TextDelta { index: 0, text }, f);
    }
    let r = delta_reasoning(q, delta);
    if let Some(text) = either(delta.at("reasoning_content"@).text(), delta.at("reasoning"@).text()) {
        let t = q.ensure_started(1, empty_reasoning());
        starts(q, 1, empty_reasoning(), f);
        pushes(
            t,
            EventView::ReasoningDelta { index: 1, text: Some(text), signature: None },
            f,
        );
    }
    if let Some(refusal) = delta.at("refusal"@).text() {
        let t = r.ensure_started(2, empty_refusal());
        starts(r, 2, empty_refusal(), f);
        pushes(t, EventView::RefusalDelta { index: 2, refusal }, f);
    }
    assert(run_together(delta_refusal(r, delta).events, f) =~= run_together(p.events, f) + pieces(
        delta,
        f,
    ));
}

proof fn citations_are_silent(p: Progress, list: Seq<JsonView>, f: spec_fn(EventView) -> Seq<char>)
    requires
        only_pieces(f),
    ensures
        run_together(delta_citations(p, list).events, f) == run_together(p.events, f),
    decreases list.len(),
{
    let all = Seq::new(list.len(), |i: int| cited(list[i]));
    if list.len() == 0 {
        assert(delta_citations(p, list).events =~= p.events);
    } else {
        let first = list.drop_last();
        citations_are_silent(p, first, f);
        let before = delta_citations(p, first).events;
        assert(delta_citations(p, list).events =~= before.push(cited(list.last())));
        run_together_ends(before, cited(list.last()), f);
        assert(run_together(before, f) + Seq::<char>::empty() =~= run_together(before, f));
    }
}

/// The event that a call of a chunk is read as.
pub open spec fn call_read(tool: JsonView) -> EventView {
    EventView::ToolCallDelta {
        index: call_index(tool),
        id: tool.at("id"@).text(),
        name: tool.at("function"@).at("name"@).text(),
        arguments_delta: words_at(tool.at("function"@), "arguments"@),
    }
}

/// What the calls of a chunk say to `f`, one after another.
pub open spec fn call_said(f: spec_fn(EventView) -> Seq<char>) -> spec_fn(JsonView) -> Seq<char> {
    |tool: JsonView| f(call_read(tool))
}

proof fn calls_told(p: Progress, tools: Seq<JsonView>, f: spec_fn(EventView) -> Seq<char>)
    requires
        only_pieces(f),
    ensures
        run_together(delta_calls(p, tools).events, f) == run_together(p.events, f) + run_together(
            tools,
            call_said(f),
        ),
    decreases tools.len(),
{
    reveal_strlit("");
    assert(""@ =~= Seq::<char>::empty());
    if tools.len() == 0 {
        assert(run_together(p.events, f) + Seq::<char>::empty() =~= run_together(p.events, f));
    } else {
        let first = tools.drop_last();
        calls_told(p, first, f);
        let q = delta_calls(p, first);
        let tool = tools.last();
        let content = empty_call(
            tool.at("id"@).text(),
            tool.at("function"@).at("name"@).text(),
            no_fields(),
        );
        starts(q, call_index(tool), content, f);
        pushes(q.ensure_started(call_index(tool), content), call_read(tool), f);
        assert(delta_call(q, tool) == q.ensure_started(call_index(tool), content).push(
            call_read(tool),
        ));
        assert(run_together(delta_calls(p, tools).events, f) =~= run_together(p.events, f)
            + run_together(tools, call_said(f)));
    }
}

/// What a choice of a chunk says to `f`.
spec fn choice_said(f: spec_fn(EventView) -> Seq<char>) -> spec_fn(JsonView) -> Seq<char> {
    |choice: JsonView|
        pieces(choice.at("delta"@), f) + run_together(
            choice.at("delta"@).at("tool_calls"@).list(),
            call_said(f),
        )
}

proof fn choice_told(
    p: Progress,
    choice: JsonView,
    whole: JsonView,
    f: spec_fn(EventView) -> Seq<char>,
)
    requires
        only_pieces(f),
        choice.at("delta"@).field("function_call"@) is None,
    ensures
        run_together(chunk_choice(p, choice, whole).events, f) == run_together(p.events, f)
            + choice_said(f)(choice),
{
    let delta = choice.at("delta"@);
    let tools = delta.at("tool_calls"@).list();
    shown_pieces(p, delta, f);
    let q = delta_refusal(delta_reasoning(delta_text(p, delta), delta), delta);
    citations_are_silent(q, delta.at("annotations"@).list(), f);
    let q = delta_citations(q, delta.at("annotations"@).list());
    calls_told(q, tools, f);
    let q = delta_calls(q, tools);
    let raw = EventView::Raw { protocol: chat(), value: whole };
    if has_unknown(delta) {
        pushes(q, raw, f);
        assert(run_together(q.events, f) + Seq::<char>::empty() =~= run_together(q.events, f));
    }
    assert(run_together(chunk_choice(p, choice, whole).events, f) =~= run_together(p.events, f)
        + choice_said(f)(choice));
}

proof fn choices_told(
    p: Progress,
    choices: Seq<JsonView>,
    whole: JsonView,
    f: spec_fn(EventView) -> Seq<char>,
)
    requires
        only_pieces(f),
        forall|i: int|
            0 <= i < choices.len() ==> (#[trigger] choices[i]).at("delta"@).field(
                "function_call"@,
            ) is None,
    ensures
        run_together(chunk_choices(p, choices, whole).events, f) == run_together(p.events, f)
            + run_together(choices, choice_said(f)),
    decreases choices.len(),
{
    if choices.len() == 0 {
        assert(run_together(p.events, f) + Seq::<char>::empty() =~= run_together(p.events, f));
    } else {
        let first = choices.drop_last();
        assert(forall|i: int| 0 <= i < first.len() ==> first[i] == choices[i]);
        assert(choices.last() == choices[choices.len() - 1]);
        choices_told(p, first, whole, f);
        choice_told(chunk_choices(p, first, whole), choices.last(), whole, f);
        assert(run_together(chunk_choices(p, choices, whole).events, f) =~= run_together(
            p.events,
            f,
        ) + run_together(choices, choice_said(f)));
    }
}

proof fn head_is_silent(s: StateView, v: JsonView, f: spec_fn(EventView) -> Seq<char>)
    requires
        only_pieces(f),
    ensures
        run_together(chunk_head(s, v).events, f) == Seq::<char>::empty(),
{
    let p = chunk_head(s, v);
    reveal_with_fuel(run_together, 3);
    assert(p.events.len() <= 2);
    if p.events.len() == 1 {
        assert(p.events.drop_last().len() == 0);
    }
    if p.events.len() == 2 {
        assert(p.events.drop_last().drop_last().len() == 0);
        assert(p.events.drop_last().last() == p.events[0]);
    }
    assert(run_together(p.events, f) =~= Seq::<char>::empty());
}

/// What the choices of a chunk say in a field.
pub open spec fn choice_words(name: Seq<char>) -> spec_fn(JsonView) -> Seq<char> {
    |choice: JsonView| words_at(choice.at("delta"@), name)
}

/// What the choices of a chunk say of the arguments of the call at a part.
pub open spec fn choice_arguments(part: usize) -> spec_fn(JsonView) -> Seq<char> {
    |choice: JsonView|
        run_together(choice.at("delta"@).at("tool_calls"@).list(), call_arguments(part))
}

/// The piece of the arguments of the call at a part that a call of a chunk adds.
pub open spec fn call_arguments(part: usize) -> spec_fn(JsonView) -> Seq<char> {
    |tool: JsonView|
        if call_index(tool) == part {
            words_at(tool.at("function"@), "arguments"@)
        } else {
            Seq::empty()
        }
}

proof fn same_words<A>(s: Seq<A>, f: spec_fn(A) -> Seq<char>, g: spec_fn(A) -> Seq<char>)
    requires
        forall|i: int| 0 <= i < s.len() ==> f(#[trigger] s[i]) == g(s[i]),
    ensures
        run_together(s, f) == run_together(s, g),
    decreases s.len(),
{
    if s.len() > 0 {
        assert(forall|i: int| 0 <= i < s.drop_last().len() ==> s.drop_last()[i] == s[i]);
        assert(s.last() == s[s.len() - 1]);
        same_words(s.drop_last(), f, g);
    }
}

proof fn no_words<A>(s: Seq<A>, f: spec_fn(A) -> Seq<char>)
    requires
        forall|i: int| 0 <= i < s.len() ==> f(#[trigger] s[i]) == Seq::<char>::empty(),
    ensures
        run_together(s, f) == Seq::<char>::empty(),
    decreases s.len(),
{
    if s.len() > 0 {
        assert(forall|i: int| 0 <= i < s.drop_last().len() ==> s.drop_last()[i] == s[i]);
        assert(s.last() == s[s.len() - 1]);
        no_words(s.drop_last(), f);
        assert(run_together(s, f) =~= Seq::<char>::empty());
    }
}

/// A call of a chunk is read at its index after the three that text, reasoning and refusal have,
/// with its identifier, its name and the piece of its arguments.
pub proof fn calls_have_their_places(tool: JsonView, n: u64, arguments: Seq<char>)
    requires
        n + 3 <= usize::MAX,
        tool.at("index"@) == JsonView::Number(NumView::PosInt(n)),
        says(tool.at("function"@), "arguments"@, arguments),
    ensures
        call_read(tool) == (EventView::ToolCallDelta {
            index: (n + 3) as usize,
            id: tool.at("id"@).text(),
            name: tool.at("function"@).at("name"@).text(),
            arguments_delta: arguments,
        }),
{
}

/// A chunk that is read from Chat says what its choices say: the texts of the events, one after
/// another, are the contents of the choices, and likewise the refusals; and the arguments of the
/// call at each part are those that the choices hold for it.
pub proof fn chat_chunks_are_read(v: JsonView, s: StateView, part: usize)
    requires
        v.field("error"@) is None,
        forall|i: int|
            0 <= i < v.at("choices"@).list().len() ==> (#[trigger] v.at(
                "choices"@,
            ).list()[i]).at("delta"@).field("function_call"@) is None,
    ensures
        chat_parsed_read(Some(v), s).1 matches Ok(events) && {
            let choices = v.at("choices"@).list();
            &&& run_together(events, text_said()) == run_together(choices, choice_words("content"@))
            &&& run_together(events, refusal_said()) == run_together(
                choices,
                choice_words("refusal"@),
            )
            &&& run_together(events, arguments_said(part)) == run_together(
                choices,
                choice_arguments(part),
            )
            &&& (forall|i: int|
                0 <= i < choices.len() ==> (#[trigger] choices[i]).at("delta"@).field(
                    "reasoning"@,
                ) is None) ==> run_together(events, thought_said()) == run_together(
                choices,
                choice_words("reasoning_content"@),
            )
        },
{
    let choices = v.at("choices"@).list();
    let head = chunk_head(s, v);
    let f = text_said();
    head_is_silent(s, v, f);
    choices_told(head, choices, v, f);
    assert forall|i: int| 0 <= i < choices.len() implies choice_said(f)(#[trigger] choices[i])
        == choice_words("content"@)(choices[i]) by {
        no_words(choices[i].at("delta"@).at("tool_calls"@).list(), call_said(f));
        assert(choice_said(f)(choices[i]) =~= choice_words("content"@)(choices[i]));
    }
    same_words(choices, choice_said(f), choice_words("content"@));
    let f = refusal_said();
    head_is_silent(s, v, f);
    choices_told(head, choices, v, f);
    assert forall|i: int| 0 <= i < choices.len() implies choice_said(f)(#[trigger] choices[i])
        == choice_words("refusal"@)(choices[i]) by {
        no_words(choices[i].at("delta"@).at("tool_calls"@).list(), call_said(f));
        assert(choice_said(f)(choices[i]) =~= choice_words("refusal"@)(choices[i]));
    }
    same_words(choices, choice_said(f), choice_words("refusal"@));
    let f = thought_said();
    head_is_silent(s, v, f);
    choices_told(head, choices, v, f);
    if forall|i: int|
        0 <= i < choices.len() ==> (#[trigger] choices[i]).at("delta"@).field("reasoning"@) is None {
        assert forall|i: int| 0 <= i < choices.len() implies choice_said(f)(#[trigger] choices[i])
            == choice_words("reasoning_content"@)(choices[i]) by {
            no_words(choices[i].at("delta"@).at("tool_calls"@).list(), call_said(f));
            assert(choice_said(f)(choices[i]) =~= choice_words("reasoning_content"@)(choices[i]));
        }
        same_words(choices, choice_said(f), choice_words("reasoning_content"@));
    }
    let f = arguments_said(part);
    head_is_silent(s, v, f);
    choices_told(head, choices, v, f);
    assert forall|i: int| 0 <= i < choices.len() implies choice_said(f)(#[trigger] choices[i])
        == choice_arguments(part)(choices[i]) by {
        let tools = choices[i].at("delta"@).at("tool_calls"@).list();
        same_words(tools, call_said(f), call_arguments(part));
        assert(choice_said(f)(choices[i]) =~= choice_arguments(part)(choices[i]));
    }
    same_words(choices, choice_said(f), choice_arguments(part));
    assert(Seq::<char>::empty() + run_together(choices, choice_words("content"@)) =~= run_together(
        choices,
        choice_words("content"@),
    ));
    assert(Seq::<char>::empty() + run_together(choices, choice_words("refusal"@)) =~= run_together(
        choices,
        choice_words("refusal"@),
    ));
    assert(Seq::<char>::empty() + run_together(choices, choice_words("reasoning_content"@))
        =~= run_together(choices, choice_words("reasoning_content"@)));
    assert(Seq::<char>::empty() + run_together(choices, choice_arguments(part)) =~= run_together(
        choices,
        choice_arguments(part),
    ));
}

/// What a chunk of one choice with one call holds is read as the start of that call, where it is
/// new, and the piece of it.
pub proof fn chat_call_is_read(v: JsonView, s: StateView)
    requires
        s.started,
        v.field("error"@) is None,
        v.field("usage"@) is None,
        v.at("choices"@).list().len() == 1,
        v.at("choices"@).list()[0].at("delta"@).at("tool_calls"@).list().len() == 1,
        forall|k: Seq<char>| #[trigger]
            v.at("choices"@).list()[0].at("delta"@).field(k) is Some ==> k == "tool_calls"@,
    ensures
        ({
            let tool = v.at("choices"@).list()[0].at("delta"@).at("tool_calls"@).list()[0];
            chat_parsed_read(Some(v), s).1 matches Ok(events) && events.last() == call_read(tool)
                && events.len() == if s.open_content.contains(call_index(tool)) {
                1int
            } else {
                2int
            } && chat_parsed_read(Some(v), s).0.open_content == s.open_content.insert(
                call_index(tool),
            )
        }),
{
    names_differ();
    reveal_strlit("");
    assert(""@ =~= Seq::<char>::empty());
    let choices = v.at("choices"@).list();
    let choice = choices[0];
    let delta = choice.at("delta"@);
    let tools = delta.at("tool_calls"@).list();
    let p = chunk_head(s, v);
    assert(p.events =~= Seq::<EventView>::empty());
    assert(delta.field("content"@) is None && delta.field("reasoning_content"@) is None
        && delta.field("reasoning"@) is None && delta.field("refusal"@) is None && delta.field(
        "annotations"@,
    ) is None && delta.field("function_call"@) is None);
    assert(delta_text(p, delta) == p);
    assert(delta_reasoning(p, delta) == p);
    assert(delta_refusal(p, delta) == p);
    assert(delta_citations(p, delta.at("annotations"@).list()).events =~= p.events);
    assert(delta_citations(p, delta.at("annotations"@).list()) == p);
    reveal_with_fuel(delta_calls, 2);
    reveal_with_fuel(chunk_choices, 2);
    assert(tools.drop_last() =~= Seq::<JsonView>::empty());
    assert(choices.drop_last() =~= Seq::<JsonView>::empty());
    assert(delta_calls(p, tools) == delta_call(p, tools[0]));
    let q = delta_call(p, tools[0]);
    assert(delta_legacy_call(q, delta) == q);
    assert(!has_unknown(delta)) by {
        let keys = delta_keys();
        assert(keys[6] == "tool_calls"@);
        let rest = without(delta.fields_or_none(), keys);
        assert forall|k: Seq<char>| !rest.contains_key(k) by {
            if delta.fields_or_none().contains_key(k) {
                assert(delta.field(k) is Some);
            }
        }
        assert(rest =~= no_fields());
    }
    assert(chunk_choice(p, choice, v).events == q.events);
    assert(s.open_content.contains(call_index(tools[0])) ==> s.open_content.insert(
        call_index(tools[0]),
    ) =~= s.open_content);
}

/// A chunk tells why the answer ended and what it cost, and an error what went wrong.
pub proof fn chat_ends_are_read(v: JsonView, s: StateView, reason: Seq<char>, message: Seq<char>)
    ensures
        v.field("error"@) is None && v.at("choices"@).list().len() == 1 && says(
            v.at("choices"@).list()[0],
            "finish_reason"@,
            reason,
        ) ==> chat_parsed_read(Some(v), s).0.finish_reason == Some(chat_reason_of(reason)),
        v.field("error"@) is None && v.at("choices"@).list().len() == 0 && v.at("usage"@) is Object
            ==> chat_parsed_read(Some(v), s).0.usage == chat_usage_of(v.at("usage"@)) && (
        chat_parsed_read(Some(v), s).1 matches Ok(events) && events.len() > 0 && (
        events.last() matches EventView::Usage { usage } && Some(usage) == chat_usage_of(
            v.at("usage"@),
        ))),
        v.field("error"@) is None && v.at("choices"@).list().len() == 0 && !s.started ==> (
        chat_parsed_read(Some(v), s).1 matches Ok(events) && events.len() > 0 && (
        events[0] matches EventView::MessageStart { id, model, .. } && id == v.at("id"@).text()
            && model == v.at("model"@).text())),
        says(v.at("error"@), "message"@, message) ==> (chat_parsed_read(
            Some(v),
            s,
        ).1 matches Ok(events) && events.len() == 1 && (events[0] matches EventView::Error {
            message: read,
            ..
        } && read == message)),
        chat_parsed_read(None, s).1 is Err,
{
    names_differ();
    reveal_with_fuel(chunk_choices, 2);
    let choices = v.at("choices"@).list();
    if choices.len() == 1 {
        assert(choices.drop_last() =~= Seq::<JsonView>::empty());
    }
}

proof fn no_calls(p: Progress, choices: Seq<JsonView>, v: JsonView)
    requires
        choices.len() == 1,
        choices[0].at("delta"@).at("tool_calls"@).list().len() == 0,
        choices[0].at("delta"@).field("function_call"@) is None,
        !has_unknown(choices[0].at("delta"@)),
    ensures
        ({
            let delta = choices[0].at("delta"@);
            let q = delta_refusal(delta_reasoning(delta_text(p, delta), delta), delta);
            let r = delta_citations(q, delta.at("annotations"@).list());
            chunk_choices(p, choices, v).events == r.events && chunk_choices(
                p,
                choices,
                v,
            ).state.open_content == r.state.open_content
        }),
{
    let delta = choices[0].at("delta"@);
    reveal_with_fuel(chunk_choices, 2);
    assert(choices.drop_last() =~= Seq::<JsonView>::empty());
    let q = delta_refusal(delta_reasoning(delta_text(p, delta), delta), delta);
    let r = delta_citations(q, delta.at("annotations"@).list());
    assert(delta_calls(r, delta.at("tool_calls"@).list()) == r);
    assert(delta_legacy_call(r, delta) == r);
}

proof fn known_field(delta: JsonView, name: Seq<char>)
    requires
        name == "content"@ || name == "reasoning_content"@ || name == "refusal"@ || name
            == "annotations"@,
        forall|k: Seq<char>| #[trigger] delta.field(k) is Some ==> k == name,
    ensures
        !has_unknown(delta),
{
    let keys = delta_keys();
    assert(keys[1] == "content"@ && keys[2] == "reasoning_content"@ && keys[4] == "refusal"@
        && keys[5] == "annotations"@);
    let rest = without(delta.fields_or_none(), keys);
    assert forall|k: Seq<char>| !rest.contains_key(k) by {
        if delta.fields_or_none().contains_key(k) {
            assert(delta.field(k) is Some);
        }
    }
    assert(rest =~= no_fields());
}

/// What a chunk of one choice with one piece holds is read as the start of the part, where it is
/// new, and the piece: text is the first part, reasoning the second and a refusal the third.
pub proof fn chat_piece_is_read(v: JsonView, s: StateView, name: Seq<char>, text: Seq<char>)
    requires
        s.started,
        v.field("error"@) is None,
        v.field("usage"@) is None,
        v.at("choices"@).list().len() == 1,
        name == "content"@ || name == "reasoning_content"@ || name == "refusal"@,
        says(v.at("choices"@).list()[0].at("delta"@), name, text),
        forall|k: Seq<char>| #[trigger]
            v.at("choices"@).list()[0].at("delta"@).field(k) is Some ==> k == name,
    ensures
        ({
            let index: usize = if name == "content"@ {
                0
            } else if name == "reasoning_content"@ {
                1
            } else {
                2
            };
            let (after, read) = chat_parsed_read(Some(v), s);
            &&& read matches Ok(events) && events.len() == if s.open_content.contains(index) {
                1int
            } else {
                2int
            } && events.last() == if name == "content"@ {
                EventView::TextDelta { index, text }
            } else if name == "reasoning_content"@ {
                EventView::ReasoningDelta { index, text: Some(text), signature: None }
            } else {
                EventView::RefusalDelta { index, refusal: text }
            }
            &&& !s.open_content.contains(index) ==> (read matches Ok(events) && (
            events[0] matches EventView::ContentStart { index: begun, .. } && begun == index))
            &&& after.open_content.contains(index)
        }),
{
    names_differ();
    let choices = v.at("choices"@).list();
    let delta = choices[0].at("delta"@);
    let p = chunk_head(s, v);
    assert(p.events =~= Seq::<EventView>::empty());
    known_field(delta, name);
    assert(delta.field("tool_calls"@) is None && delta.field("function_call"@) is None
        && delta.field("annotations"@) is None && delta.field("reasoning"@) is None);
    assert(name != "content"@ ==> delta.field("content"@) is None);
    assert(name != "reasoning_content"@ ==> delta.field("reasoning_content"@) is None);
    assert(name != "refusal"@ ==> delta.field("refusal"@) is None);
    no_calls(p, choices, v);
    let q = delta_refusal(delta_reasoning(delta_text(p, delta), delta), delta);
    assert(delta_citations(q, delta.at("annotations"@).list()).events =~= q.events);
}

/// The citations of a chunk are read as citations of the text, in order.
pub proof fn chat_citations_are_read(v: JsonView, s: StateView, i: int)
    requires
        s.started,
        v.field("error"@) is None,
        v.field("usage"@) is None,
        v.at("choices"@).list().len() == 1,
        forall|k: Seq<char>| #[trigger]
            v.at("choices"@).list()[0].at("delta"@).field(k) is Some ==> k == "annotations"@,
        0 <= i < v.at("choices"@).list()[0].at("delta"@).at("annotations"@).list().len(),
    ensures
        ({
            let list = v.at("choices"@).list()[0].at("delta"@).at("annotations"@).list();
            chat_parsed_read(Some(v), s).1 matches Ok(events) && events.len() == list.len()
                && events[i] == (EventView::AnnotationAdded {
                index: 0,
                annotation: openai_annotation(list[i], LLMProtocol::OpenAiChat),
            })
        }),
{
    names_differ();
    let choices = v.at("choices"@).list();
    let delta = choices[0].at("delta"@);
    let p = chunk_head(s, v);
    assert(p.events =~= Seq::<EventView>::empty());
    known_field(delta, "annotations"@);
    assert(delta.field("tool_calls"@) is None && delta.field("function_call"@) is None
        && delta.field("content"@) is None && delta.field("reasoning"@) is None && delta.field(
        "reasoning_content"@,
    ) is None && delta.field("refusal"@) is None);
    no_calls(p, choices, v);
}

/// A chunk with something that is not known is also handed on as it is.
pub proof fn unknown_chunks_are_handed_on(v: JsonView, s: StateView, k: Seq<char>)
    requires
        v.field("error"@) is None,
        v.at("choices"@).list().len() == 1,
        v.at("choices"@).list()[0].at("delta"@).field(k) is Some,
        !delta_keys().contains(k),
    ensures
        chat_parsed_read(Some(v), s).1 matches Ok(events) && events.len() > 0 && events.last() == (
        EventView::Raw { protocol: LLMProtocol::OpenAiChat, value: v }),
{
    let choices = v.at("choices"@).list();
    reveal_with_fuel(chunk_choices, 2);
    assert(choices.drop_last() =~= Seq::<JsonView>::empty());
    let delta = choices[0].at("delta"@);
    assert(without(delta.fields_or_none(), delta_keys()).contains_key(k));
}

} // verus!
