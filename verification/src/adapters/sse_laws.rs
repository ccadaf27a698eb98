//! How events stand on the wire.

use super::error::ErrorView;
use super::sse::{
    data_lines, delimiter, drained, event_of_lines, event_text, finished, line_name, line_value,
    parsed, pushed, read_line, read_lines, FieldsRead, SseView,
};
use crate::text::{decimal_text, first_of_is, joined};
use vstd::prelude::*;

verus! {

/// Whether a text has no end of a line in it.
pub open spec fn one_line(s: Seq<char>) -> bool {
    forall|i: int| 0 <= i < s.len() ==> #[trigger] s[i] != '\n'
}

/// Data stands on the wire line by line.
pub proof fn data_stands_in_lines(line: Seq<char>, rest: Seq<char>)
    requires
        one_line(line),
    ensures
        data_lines(line) == "data: "@ + line + seq!['\n'],
        data_lines(line + seq!['\n'] + rest) == "data: "@ + line + seq!['\n'] + data_lines(rest),
{
    reveal_strlit("data");
    reveal_strlit(": ");
    reveal_strlit("data: ");
    assert("data"@ + ": "@ =~= "data: "@);
    first_of_is(line, '\n', line.len() as int);
    let all = line + seq!['\n'] + rest;
    first_of_is(all, '\n', line.len() as int);
    assert(all.take(line.len() as int) =~= line);
    assert(all.skip(line.len() as int + 1) =~= rest);
}

/// An event stands on the wire with its name, identifier and delay, each on a line, then its data,
/// and an empty line at its end.
pub proof fn events_stand_in_lines(
    name: Seq<char>,
    id: Seq<char>,
    retry: u64,
    data: Seq<char>,
)
    requires
        one_line(data),
    ensures
        event_text(SseView { event: None, data, id: None, retry: None }) == "data: "@ + data
            + seq!['\n'] + seq!['\n'],
        event_text(SseView { event: Some(name), data, id: None, retry: None }) == "event: "@ + name
            + seq!['\n'] + "data: "@ + data + seq!['\n'] + seq!['\n'],
        event_text(SseView { event: Some(name), data, id: Some(id), retry: Some(retry) })
            == "event: "@ + name + seq!['\n'] + "id: "@ + id + seq!['\n'] + "retry: "@ + decimal_text(
            retry as nat,
        ) + seq!['\n'] + "data: "@ + data + seq!['\n'] + seq!['\n'],
{
    data_stands_in_lines(data, Seq::empty());
    reveal_strlit("event");
    reveal_strlit("id");
    reveal_strlit("retry");
    reveal_strlit(": ");
    reveal_strlit("event: ");
    reveal_strlit("id: ");
    reveal_strlit("retry: ");
    assert("event"@ + ": "@ =~= "event: "@);
    assert("id"@ + ": "@ =~= "id: "@);
    assert("retry"@ + ": "@ =~= "retry: "@);
    let none = Seq::<char>::empty();
    let e = "event: "@ + name + seq!['\n'];
    let i = "id: "@ + id + seq!['\n'];
    let r = "retry: "@ + decimal_text(retry as nat) + seq!['\n'];
    let d = "data: "@ + data + seq!['\n'];
    assert(none + none + none + d + seq!['\n'] =~= "data: "@ + data + seq!['\n'] + seq!['\n']);
    assert(e + none + none + d + seq!['\n'] =~= "event: "@ + name + seq!['\n'] + "data: "@ + data
        + seq!['\n'] + seq!['\n']);
    assert(e + i + r + d + seq!['\n'] =~= "event: "@ + name + seq!['\n'] + "id: "@ + id + seq!['\n']
        + "retry: "@ + decimal_text(retry as nat) + seq!['\n'] + "data: "@ + data + seq!['\n']
        + seq!['\n']);
}

proof fn line_parts(name: Seq<char>, value: Seq<char>)
    requires
        forall|i: int| 0 <= i < name.len() ==> name[i] != ':',
    ensures
        line_name(name + seq![':', ' '] + value) == name,
        line_value(name + seq![':', ' '] + value) == value,
        line_name(name + seq![':'] + value) == name,
        value.len() == 0 || value[0] != ' ' ==> line_value(name + seq![':'] + value) == value,
{
    let a = name + seq![':', ' '] + value;
    first_of_is(a, ':', name.len() as int);
    assert(a.take(name.len() as int) =~= name);
    assert(a.skip(name.len() as int + 1) =~= seq![' '] + value);
    assert((seq![' '] + value).skip(1) =~= value);
    let b = name + seq![':'] + value;
    first_of_is(b, ':', name.len() as int);
    assert(b.take(name.len() as int) =~= name);
    assert(b.skip(name.len() as int + 1) =~= value);
}

proof fn named_line(f: FieldsRead, name: Seq<char>, value: Seq<char>)
    requires
        name.len() > 0,
        forall|i: int| 0 <= i < name.len() ==> name[i] != ':',
    ensures
        ({
            let line = name + seq![':', ' '] + value;
            &&& line.len() > 0
            &&& line[0] != ':'
            &&& line_name(line) == name
            &&& line_value(line) == value
        }),
{
    line_parts(name, value);
    assert((name + seq![':', ' '] + value)[0] == name[0]);
}

/// What a line of an event is read as: a piece of its data, its name or its identifier. A line
/// that starts with a colon says nothing.
pub proof fn lines_are_read(f: FieldsRead, value: Seq<char>)
    ensures
        read_line(f, "data: "@ + value) == (FieldsRead { data: f.data.push(value), ..f }),
        read_line(f, "event: "@ + value) == (FieldsRead { event: Some(value), ..f }),
        read_line(f, "id: "@ + value) == (FieldsRead { id: Some(value), ..f }),
        read_line(f, seq![':'] + value) == f,
        read_line(f, Seq::empty()) == f,
{
    reveal_strlit("data");
    reveal_strlit("event");
    reveal_strlit("id");
    reveal_strlit("data: ");
    reveal_strlit("event: ");
    reveal_strlit("id: ");
    assert("data: "@ + value =~= "data"@ + seq![':', ' '] + value);
    assert("event: "@ + value =~= "event"@ + seq![':', ' '] + value);
    assert("id: "@ + value =~= "id"@ + seq![':', ' '] + value);
    named_line(f, "data"@, value);
    named_line(f, "event"@, value);
    named_line(f, "id"@, value);
    assert("data"@.len() == 4 && "event"@.len() == 5 && "id"@.len() == 2);
}

/// The lines of an event are read in order, and the pieces of its data are put together with ends
/// of lines between them. Lines that say nothing are no event.
pub proof fn lines_make_an_event(lines: Seq<Seq<char>>, line: Seq<char>)
    ensures
        read_lines(lines.push(line)) == read_line(read_lines(lines), line),
        event_of_lines(Seq::empty()) is None,
        event_of_lines(lines) matches Some(e) ==> {
            let f = read_lines(lines);
            &&& e.event == f.event
            &&& e.id == f.id
            &&& e.retry == f.retry
            &&& e.data == joined(f.data, seq!['\n'])
        },
        read_lines(lines).data.len() > 0 ==> event_of_lines(lines) is Some,
{
    assert(lines.push(line).drop_last() =~= lines);
}

/// What is left of a stream at its end is read as an event, where it is one.
pub proof fn rests_are_read(b: Seq<u8>)
    ensures
        finished(Seq::empty()) == Ok::<Seq<SseView>, ErrorView>(Seq::empty()),
        b.len() > 0 ==> (parsed(b) matches Ok(Some(e)) ==> finished(b) == Ok::<
            Seq<SseView>,
            ErrorView,
        >(seq![e])),
        b.len() > 0 ==> (parsed(b) is Err ==> finished(b) is Err),
        delimiter(b) is None ==> drained(b) == (b, Ok::<Seq<SseView>, ErrorView>(Seq::empty())),
{
}

/// An event that is not complete within the room that there is for one is refused.
pub proof fn endless_events_are_refused(b: Seq<u8>)
    requires
        delimiter(b) is None,
    ensures
        b.len() > 8_388_608 ==> pushed(b).1 == Err::<Seq<SseView>, ErrorView>(
            ErrorView::StreamEventTooLarge,
        ),
        b.len() <= 8_388_608 ==> pushed(b) == (b, Ok::<Seq<SseView>, ErrorView>(Seq::empty())),
{
}

} // verus!
