//! Server-sent events: their text, and a decoder that takes a stream in chunks.

use super::error::{AdapterError, ErrorView, MAX_SSE_EVENT_BYTES};
use crate::json::{Json, JsonView};
use crate::seqs::views;
use crate::text::{
    utf8_text, chars, decimal, decimal_text, find, first_of, first_of_holds, join, joined, opt_str,
    opt_text, own, parse_u64, same, slice, strings, u64_value,
};
use crate::wire::{render, value_text};
use vstd::prelude::*;
use vstd::utf8::{decode_utf8, valid_utf8};

verus! {

/// A server-sent event.
#[derive(Debug, PartialEq)]
pub struct SseEvent {
    pub event: Option<String>,
    pub data: String,
    pub id: Option<String>,
    pub retry: Option<u64>,
}

/// What an event stands for.
#[verifier::ext_equal]
pub struct SseView {
    pub event: Option<Seq<char>>,
    pub data: Seq<char>,
    pub id: Option<Seq<char>>,
    pub retry: Option<u64>,
}

impl View for SseEvent {
    type V = SseView;

    open spec fn view(&self) -> SseView {
        SseView {
            event: opt_text(self.event),
            data: self.data@,
            id: opt_text(self.id),
            retry: self.retry,
        }
    }
}

/// A line of an event: a field's name, a colon, a space, its value, and the line's end.
pub open spec fn field_line(name: Seq<char>, value: Seq<char>) -> Seq<char> {
    name + ": "@ + value + seq!['\n']
}

/// The `data` lines of a text: one for each of its lines.
pub open spec fn data_lines(data: Seq<char>) -> Seq<char>
    decreases data.len(),
    via data_lines_decreases
{
    let n = first_of(data, '\n');
    if n < data.len() {
        field_line("data"@, data.take(n)) + data_lines(data.skip(n + 1))
    } else {
        field_line("data"@, data)
    }
}

#[via_fn]
proof fn data_lines_decreases(data: Seq<char>) {
    first_of_holds(data, '\n');
}

/// The text of an event.
pub open spec fn event_text(e: SseView) -> Seq<char> {
    let event = match e.event {
        Some(event) => field_line("event"@, event),
        None => Seq::empty(),
    };
    let id = match e.id {
        Some(id) => field_line("id"@, id),
        None => Seq::empty(),
    };
    let retry = match e.retry {
        Some(retry) => field_line("retry"@, decimal_text(retry as nat)),
        None => Seq::empty(),
    };
    event + id + retry + data_lines(e.data) + seq!['\n']
}

/// `s` without a carriage return at its end.
pub open spec fn strip_return(s: Seq<char>) -> Seq<char> {
    if s.len() > 0 && s.last() == '\r' {
        s.drop_last()
    } else {
        s
    }
}

/// The lines of a text. A line's end is a line feed; up to two carriage returns before it, or one
/// at the end of a last line without a line feed, belong to no line.
pub open spec fn lines_of(s: Seq<char>) -> Seq<Seq<char>>
    decreases s.len(),
    via lines_of_decreases
{
    if s.len() == 0 {
        Seq::empty()
    } else {
        let n = first_of(s, '\n');
        if n < s.len() {
            seq![strip_return(strip_return(s.take(n)))] + lines_of(s.skip(n + 1))
        } else {
            seq![strip_return(s)]
        }
    }
}

#[via_fn]
proof fn lines_of_decreases(s: Seq<char>) {
    first_of_holds(s, '\n');
}

/// What the lines of an event have set so far.
#[verifier::ext_equal]
pub struct FieldsRead {
    pub event: Option<Seq<char>>,
    pub data: Seq<Seq<char>>,
    pub id: Option<Seq<char>>,
    pub retry: Option<u64>,
}

/// The name of the field that a line sets: what stands before its first colon.
pub open spec fn line_name(line: Seq<char>) -> Seq<char> {
    line.take(first_of(line, ':'))
}

/// The value that a line sets: what follows its first colon, without one leading space.
pub open spec fn line_value(line: Seq<char>) -> Seq<char> {
    let n = first_of(line, ':');
    if n < line.len() {
        let value = line.skip(n + 1);
        if value.len() > 0 && value[0] == ' ' {
            value.skip(1)
        } else {
            value
        }
    } else {
        Seq::empty()
    }
}

/// What one more line sets. An empty line, one that starts with a colon and one with an unknown
/// name set nothing; `data` adds a line of data.
pub open spec fn read_line(f: FieldsRead, line: Seq<char>) -> FieldsRead {
    let name = line_name(line);
    let value = line_value(line);
    if line.len() == 0 || line[0] == ':' {
        f
    } else if name == "event"@ {
        FieldsRead { event: Some(value), ..f }
    } else if name == "data"@ {
        FieldsRead { data: f.data.push(value), ..f }
    } else if name == "id"@ {
        FieldsRead { id: Some(value), ..f }
    } else if name == "retry"@ {
        FieldsRead { retry: u64_value(value), ..f }
    } else {
        f
    }
}

/// What lines set.
pub open spec fn read_lines(lines: Seq<Seq<char>>) -> FieldsRead
    decreases lines.len(),
{
    if lines.len() == 0 {
        FieldsRead { event: None, data: Seq::empty(), id: None, retry: None }
    } else {
        read_line(read_lines(lines.drop_last()), lines.last())
    }
}

/// The event that lines give; none where they set nothing.
pub open spec fn event_of_lines(lines: Seq<Seq<char>>) -> Option<SseView> {
    let f = read_lines(lines);
    if f.data.len() == 0 && f.event is None && f.id is None && f.retry is None {
        None
    } else {
        Some(
            SseView {
                event: f.event,
                data: joined(f.data, seq!['\n']),
                id: f.id,
                retry: f.retry,
            },
        )
    }
}

/// What the bytes of one event give.
pub open spec fn parsed(bytes: Seq<u8>) -> Result<Option<SseView>, ErrorView> {
    if valid_utf8(bytes) {
        Ok(event_of_lines(lines_of(decode_utf8(bytes))))
    } else {
        Err(ErrorView::InvalidStreamUtf8)
    }
}

/// Whether two line feeds stand at `i`.
pub open spec fn lf_at(b: Seq<u8>, i: int) -> bool {
    0 <= i && i + 2 <= b.len() && b[i] == 10 && b[i + 1] == 10
}

/// Whether two pairs of a carriage return and a line feed stand at `i`.
pub open spec fn crlf_at(b: Seq<u8>, i: int) -> bool {
    0 <= i && i + 4 <= b.len() && b[i] == 13 && b[i + 1] == 10 && b[i + 2] == 13 && b[i + 3] == 10
}

/// The position and length of the first end of an event at `i` or later.
pub open spec fn delimiter_from(b: Seq<u8>, i: int) -> Option<(int, int)>
    decreases b.len() - i,
{
    if i >= b.len() {
        None
    } else if lf_at(b, i) {
        Some((i, 2))
    } else if crlf_at(b, i) {
        Some((i, 4))
    } else {
        delimiter_from(b, i + 1)
    }
}

/// The position and length of the first end of an event.
pub open spec fn delimiter(b: Seq<u8>) -> Option<(int, int)> {
    delimiter_from(b, 0)
}

/// What stands at the end of an event that `delimiter_from` gives.
pub proof fn delimiter_from_holds(b: Seq<u8>, i: int)
    requires
        0 <= i,
    ensures
        delimiter_from(b, i) matches Some((end, len)) ==> i <= end && (len == 2 || len == 4) && end
            + len <= b.len() && (len == 2 ==> lf_at(b, end)) && (len == 4 ==> crlf_at(b, end))
            && forall|j: int| i <= j < end ==> !lf_at(b, j) && !crlf_at(b, j),
        delimiter_from(b, i) is None ==> forall|j: int| i <= j ==> !lf_at(b, j) && !crlf_at(b, j),
    decreases b.len() - i,
{
    if i < b.len() && !lf_at(b, i) && !crlf_at(b, i) {
        delimiter_from_holds(b, i + 1);
    }
}

/// What is left of a buffer once every finished event is taken off, and the events; where one of
/// them is no UTF-8, what follows that one, and the error.
pub open spec fn drained(b: Seq<u8>) -> (Seq<u8>, Result<Seq<SseView>, ErrorView>)
    decreases b.len(),
    via drained_decreases
{
    match delimiter(b) {
        None => (b, Ok(Seq::empty())),
        Some((end, len)) => {
            let rest = b.skip(end + len);
            match parsed(b.take(end)) {
                Err(e) => (rest, Err(e)),
                Ok(first) => {
                    let (left, more) = drained(rest);
                    match more {
                        Err(e) => (left, Err(e)),
                        Ok(events) => (left, Ok(opt_seq(first) + events)),
                    }
                },
            }
        },
    }
}

#[via_fn]
proof fn drained_decreases(b: Seq<u8>) {
    delimiter_from_holds(b, 0);
}

/// The one element, or none.
pub open spec fn opt_seq(o: Option<SseView>) -> Seq<SseView> {
    match o {
        Some(e) => seq![e],
        None => Seq::empty(),
    }
}

/// What the decoder's buffer is after a chunk, and what it gives.
pub open spec fn pushed(b: Seq<u8>) -> (Seq<u8>, Result<Seq<SseView>, ErrorView>) {
    let (left, out) = drained(b);
    match out {
        Ok(events) if left.len() > MAX_SSE_EVENT_BYTES => (
            left,
            Err(ErrorView::StreamEventTooLarge),
        ),
        _ => (left, out),
    }
}

/// What a list of events, or an error, stands for.
pub open spec fn sse_outcome(r: Result<Vec<SseEvent>, AdapterError>) -> Result<
    Seq<SseView>,
    ErrorView,
> {
    match r {
        Ok(events) => Ok(views(events@)),
        Err(e) => Err(e@),
    }
}

/// Appends a line of an event.
fn put_line(out: &mut String, name: &str, value: &str)
    ensures
        final(out)@ == old(out)@ + field_line(name@, value@),
{
    let ghost start = out@;
    out.push_str(name);
    out.push_str(": ");
    out.push_str(value);
    out.push('\n');
    assert(out@ =~= start + field_line(name@, value@));
}

impl Default for SseEvent {
    fn default() -> (r: SseEvent)
        ensures
            r@ == (SseView { event: None, data: Seq::empty(), id: None, retry: None }),
    {
        let r = SseEvent { event: None, data: String::new(), id: None, retry: None };
        assert(r.data@ =~= Seq::empty());
        r
    }
}

impl SseEvent {
    /// An event whose data is the text of a JSON value.
    pub fn json(event: Option<&str>, value: &Json) -> (r: SseEvent)
        ensures
            r@ == json_event(opt_str(event), value@),
    {
        SseEvent { event: own(event), data: render(value), id: None, retry: None }
    }

    /// The text of the event.
    pub fn encode(&self) -> (r: String)
        ensures
            r@ == event_text(self@),
    {
        let mut output = String::new();
        let ghost event_part = match self@.event {
            Some(event) => field_line("event"@, event),
            None => Seq::<char>::empty(),
        };
        let ghost id_part = match self@.id {
            Some(id) => field_line("id"@, id),
            None => Seq::<char>::empty(),
        };
        let ghost retry_part = match self@.retry {
            Some(retry) => field_line("retry"@, decimal_text(retry as nat)),
            None => Seq::<char>::empty(),
        };
        if let Some(event) = &self.event {
            put_line(&mut output, "event", event.as_str());
        }
        assert(output@ =~= event_part);
        if let Some(id) = &self.id {
            put_line(&mut output, "id", id.as_str());
        }
        assert(output@ =~= event_part + id_part);
        if let Some(retry) = self.retry {
            let number = decimal(retry);
            put_line(&mut output, "retry", number.as_str());
        }
        assert(output@ =~= event_part + id_part + retry_part);
        let ghost head = output@;
        let list = chars(self.data.as_str());
        let ghost data = self.data@;
        let mut start: usize = 0;
        let mut more = true;
        assert(data.skip(0) =~= data);
        while more
            invariant
                list@ == data,
                start <= data.len(),
                more ==> head + data_lines(data) =~= output@ + data_lines(data.skip(start as int)),
                !more ==> head + data_lines(data) =~= output@,
            decreases (if more {
                data.len() - start + 1
            } else {
                0
            }),
        {
            let end = find(list.as_slice(), start, '\n');
            let ghost rest = data.skip(start as int);
            assert(rest =~= data.subrange(start as int, data.len() as int));
            let line = slice(list.as_slice(), start, end);
            let ghost before = output@;
            put_line(&mut output, "data", line.as_str());
            if end < list.len() {
                assert(rest.take(end - start) =~= line@);
                assert(rest.skip(end - start + 1) =~= data.skip(end + 1));
                assert(before + (field_line("data"@, line@) + data_lines(data.skip(end + 1)))
                    =~= output@ + data_lines(data.skip(end + 1)));
                start = end + 1;
            } else {
                assert(rest =~= line@);
                more = false;
            }
        }
        output.push('\n');
        assert(output@ =~= event_text(self@));
        output
    }

    /// The event that the bytes of one hold.
    fn parse(bytes: Vec<u8>) -> (r: Result<Option<SseEvent>, AdapterError>)
        ensures
            match r {
                Ok(Some(e)) => parsed(bytes@) == Ok::<Option<SseView>, ErrorView>(Some(e@)),
                Ok(None) => parsed(bytes@) == Ok::<Option<SseView>, ErrorView>(None),
                Err(e) => parsed(bytes@) == Err::<Option<SseView>, ErrorView>(e@),
            },
    {
        let ghost b = bytes@;
        let text = match utf8_text(bytes) {
            Some(text) => text,
            None => {
                return Err(AdapterError::InvalidStreamUtf8);
            },
        };
        let ghost t = text@;
        proof {
            vstd::utf8::encode_utf8_decode_utf8(t);
        }
        assert(decode_utf8(b) == t);
        let list = chars(text.as_str());
        let mut event: Option<String> = None;
        let mut id: Option<String> = None;
        let mut retry: Option<u64> = None;
        let mut data: Vec<String> = Vec::new();
        let ghost mut done: Seq<Seq<char>> = Seq::empty();
        let mut start: usize = 0;
        assert(t.skip(0) =~= t);
        assert(done + lines_of(t) =~= lines_of(t));
        assert(strings(data@) =~= Seq::empty());
        while start < list.len()
            invariant
                list@ == t,
                start <= t.len(),
                lines_of(t) == done + lines_of(t.skip(start as int)),
                read_lines(done) == (FieldsRead {
                    event: opt_text(event),
                    data: strings(data@),
                    id: opt_text(id),
                    retry,
                }),
            decreases t.len() - start,
        {
            let (end, next) = line_end(list.as_slice(), start);
            let ghost line = t.subrange(start as int, end as int);
            proof {
                assert(done + (seq![line] + lines_of(t.skip(next as int))) =~= done.push(line)
                    + lines_of(t.skip(next as int)));
                assert(done.push(line).drop_last() =~= done);
            }
            if end > start && list[start] != ':' {
                let (name, value) = line_field(list.as_slice(), start, end);
                if same(name.as_str(), "event") {
                    event = Some(value);
                } else if same(name.as_str(), "data") {
                    let ghost old_data = strings(data@);
                    data.push(value);
                    assert(strings(data@) =~= old_data.push(line_value(line)));
                } else if same(name.as_str(), "id") {
                    id = Some(value);
                } else if same(name.as_str(), "retry") {
                    retry = parse_u64(value.as_str());
                }
            }
            proof {
                done = done.push(line);
            }
            start = next;
        }
        assert(t.skip(start as int) =~= Seq::empty());
        assert(lines_of(t) =~= done);
        if data.len() == 0 && event.is_none() && id.is_none() && retry.is_none() {
            return Ok(None);
        }
        let joined_data = join(&data, "\n");
        proof {
            reveal_strlit("\n");
            assert("\n"@ =~= seq!['\n']);
        }
        Ok(Some(SseEvent { event, data: joined_data, id, retry }))
    }
}

/// The position of the first `c` between `from` and `to`; `to` where there is none.
fn find_before(list: &[char], from: usize, to: usize, c: char) -> (r: usize)
    requires
        from <= to <= list@.len(),
    ensures
        from <= r <= to,
        r - from == first_of(list@.subrange(from as int, to as int), c),
        r < to ==> list@[r as int] == c,
{
    let mut i: usize = from;
    while i < to && list[i] != c
        invariant
            from <= i <= to <= list@.len(),
            forall|j: int| from <= j < i ==> list@[j] != c,
        decreases to - i,
    {
        i = i + 1;
    }
    proof {
        let s = list@.subrange(from as int, to as int);
        assert forall|j: int| 0 <= j < i - from implies s[j] != c by {
            assert(list@[from + j] != c);
        }
        crate::text::first_of_is(s, c, i - from);
    }
    i
}

/// Where the line that starts at `start` ends, and where the next one starts.
fn line_end(list: &[char], start: usize) -> (r: (usize, usize))
    requires
        start < list@.len(),
    ensures
        start <= r.0 <= list@.len(),
        start < r.1 <= list@.len(),
        lines_of(list@.skip(start as int)) == seq![list@.subrange(start as int, r.0 as int)]
            + lines_of(list@.skip(r.1 as int)),
{
    let ghost t = list@;
    let ghost rest = t.skip(start as int);
    assert(rest =~= t.subrange(start as int, t.len() as int));
    let feed = find(list, start, '\n');
    let mut end = feed;
    let mut next = feed;
    if feed < list.len() {
        next = feed + 1;
        if end > start && list[end - 1] == '\r' {
            end = end - 1;
        }
        assert(rest.take(feed - start) =~= t.subrange(start as int, feed as int));
        assert(strip_return(rest.take(feed - start)) =~= t.subrange(start as int, end as int));
        assert(rest.skip(feed - start + 1) =~= t.skip(next as int));
    } else {
        assert(t.skip(next as int) =~= Seq::empty());
        assert(rest =~= t.subrange(start as int, end as int));
    }
    let ghost once = t.subrange(start as int, end as int);
    if end > start && list[end - 1] == '\r' {
        end = end - 1;
    }
    assert(strip_return(once) =~= t.subrange(start as int, end as int));
    assert(lines_of(rest) =~= seq![strip_return(once)] + lines_of(t.skip(next as int)));
    (end, next)
}

/// The field that the line between `from` and `to` sets, and its value.
fn line_field(list: &[char], from: usize, to: usize) -> (r: (String, String))
    requires
        from < to <= list@.len(),
    ensures
        r.0@ == line_name(list@.subrange(from as int, to as int)),
        r.1@ == line_value(list@.subrange(from as int, to as int)),
{
    let ghost line = list@.subrange(from as int, to as int);
    let colon = find_before(list, from, to, ':');
    let name = slice(list, from, colon);
    assert(name@ =~= line_name(line));
    if colon < to {
        let ghost after = line.skip(colon - from + 1);
        let start = if colon + 1 < to && list[colon + 1] == ' ' {
            colon + 2
        } else {
            colon + 1
        };
        let value = slice(list, start, to);
        assert(after.len() > 0 ==> after[0] == list@[colon + 1]);
        assert(value@ =~= line_value(line));
        (name, value)
    } else {
        let value = String::new();
        assert(value@ =~= line_value(line));
        (name, value)
    }
}

/// The event that carries a JSON value.
pub open spec fn json_event(event: Option<Seq<char>>, value: JsonView) -> SseView {
    SseView { event, data: value_text(value), id: None, retry: None }
}

/// Collects the bytes of a stream until events are complete.
#[derive(Debug)]
pub struct SseDecoder {
    buffer: Vec<u8>,
}

impl View for SseDecoder {
    type V = Seq<u8>;

    closed spec fn view(&self) -> Seq<u8> {
        self.buffer@
    }
}

impl Default for SseDecoder {
    fn default() -> (r: SseDecoder)
        ensures
            r@ == Seq::<u8>::empty(),
    {
        SseDecoder { buffer: Vec::new() }
    }
}

impl SseDecoder {
    /// Takes a chunk and gives the events that it completes.
    pub fn push(&mut self, chunk: &[u8]) -> (r: Result<Vec<SseEvent>, AdapterError>)
        ensures
            (final(self)@, sse_outcome(r)) == pushed(old(self)@ + chunk@),
    {
        self.buffer.extend_from_slice(chunk);
        let ghost start = old(self)@ + chunk@;
        assert(self.buffer@ =~= start);
        let mut events: Vec<SseEvent> = Vec::new();
        assert(views(events@) =~= Seq::empty());
        proof {
            prefixed_empty(drained(start));
        }
        loop
            invariant
                start == old(self)@ + chunk@,
                drained(start) == prefixed(views(events@), drained(self.buffer@)),
            ensures
                delimiter(self.buffer@) is None,
            decreases self.buffer@.len(),
        {
            let ghost b = self.buffer@;
            let (end, len) = match find_sse_delimiter(self.buffer.as_slice()) {
                Some(found) => found,
                None => {
                    break;
                },
            };
            let rest = self.buffer.split_off(end + len);
            self.buffer.truncate(end);
            let mut event: Vec<u8> = Vec::new();
            std::mem::swap(&mut event, &mut self.buffer);
            self.buffer = rest;
            assert(event@ =~= b.take(end as int));
            assert(self.buffer@ =~= b.skip(end + len));
            let ghost seen = views(events@);
            match SseEvent::parse(event) {
                Err(e) => {
                    return Err(e);
                },
                Ok(Some(event)) => {
                    let ghost e = event@;
                    events.push(event);
                    assert(views(events@) =~= seen + opt_seq(Some(e)));
                    proof {
                        prefixed_twice(seen, opt_seq(Some(e)), drained(self.buffer@));
                    }
                },
                Ok(None) => {
                    assert(views(events@) =~= seen + opt_seq(None));
                    proof {
                        prefixed_twice(seen, opt_seq(None), drained(self.buffer@));
                    }
                },
            }
        }
        assert(views(events@) + Seq::<SseView>::empty() =~= views(events@));
        if self.buffer.len() > MAX_SSE_EVENT_BYTES {
            return Err(AdapterError::StreamEventTooLarge);
        }
        Ok(events)
    }

    /// Takes what is left at the end of the stream as one event.
    pub fn finish(&mut self) -> (r: Result<Vec<SseEvent>, AdapterError>)
        ensures
            final(self)@ == Seq::<u8>::empty(),
            sse_outcome(r) == finished(old(self)@),
    {
        if self.buffer.len() == 0 {
            let none: Vec<SseEvent> = Vec::new();
            assert(self@ =~= Seq::empty());
            assert(views(none@) =~= Seq::empty());
            return Ok(none);
        }
        let mut bytes: Vec<u8> = Vec::new();
        std::mem::swap(&mut bytes, &mut self.buffer);
        match SseEvent::parse(bytes) {
            Err(e) => Err(e),
            Ok(found) => {
                let mut events: Vec<SseEvent> = Vec::new();
                if let Some(event) = found {
                    events.push(event);
                }
                assert(views(events@) =~= opt_seq(
                    match found {
                        Some(e) => Some(e@),
                        None => None,
                    },
                ));
                Ok(events)
            },
        }
    }
}

/// What the end of a stream gives for what is left in the buffer.
pub open spec fn finished(b: Seq<u8>) -> Result<Seq<SseView>, ErrorView> {
    if b.len() == 0 {
        Ok(Seq::empty())
    } else {
        match parsed(b) {
            Ok(found) => Ok(opt_seq(found)),
            Err(e) => Err(e),
        }
    }
}

/// `out` with `events` put before its events.
pub open spec fn prefixed(
    events: Seq<SseView>,
    out: (Seq<u8>, Result<Seq<SseView>, ErrorView>),
) -> (Seq<u8>, Result<Seq<SseView>, ErrorView>) {
    match out.1 {
        Ok(more) => (out.0, Ok(events + more)),
        Err(e) => out,
    }
}

proof fn prefixed_empty(out: (Seq<u8>, Result<Seq<SseView>, ErrorView>))
    ensures
        prefixed(Seq::empty(), out) == out,
{
    if let Ok(more) = out.1 {
        assert(Seq::<SseView>::empty() + more =~= more);
    }
}

proof fn prefixed_twice(
    a: Seq<SseView>,
    b: Seq<SseView>,
    out: (Seq<u8>, Result<Seq<SseView>, ErrorView>),
)
    ensures
        prefixed(a, prefixed(b, out)) == prefixed(a + b, out),
{
    if let Ok(more) = out.1 {
        assert(a + (b + more) =~= (a + b) + more);
    }
}

/// The position and length of the first end of an event.
fn find_sse_delimiter(buffer: &[u8]) -> (r: Option<(usize, usize)>)
    ensures
        match r {
            Some((end, len)) => delimiter(buffer@) == Some((end as int, len as int)) && end + len
                <= buffer@.len() <= usize::MAX && len >= 2,
            None => delimiter(buffer@) is None,
        },
{
    let mut i: usize = 0;
    while i < buffer.len()
        invariant
            i <= buffer@.len(),
            delimiter(buffer@) == delimiter_from(buffer@, i as int),
        decreases buffer@.len() - i,
    {
        if buffer.len() - i >= 2 && buffer[i] == 10 && buffer[i + 1] == 10 {
            return Some((i, 2));
        }
        if buffer.len() - i >= 4 && buffer[i] == 13 && buffer[i + 1] == 10 && buffer[i + 2] == 13
            && buffer[i + 3] == 10 {
            return Some((i, 4));
        }
        i = i + 1;
    }
    None
}

/// A finished event stays the first one whatever follows.
proof fn delimiter_stays(b: Seq<u8>, c: Seq<u8>, i: int)
    requires
        0 <= i,
        delimiter_from(b, i) is Some,
    ensures
        delimiter_from(b + c, i) == delimiter_from(b, i),
    decreases b.len() - i,
{
    let w = b + c;
    delimiter_from_holds(b, i);
    if lf_at(b, i) {
        assert(lf_at(w, i));
    } else if crlf_at(b, i) {
        assert(crlf_at(w, i));
        assert(!lf_at(w, i));
    } else {
        let (end, len) = delimiter_from(b, i)->Some_0;
        delimiter_from_holds(b, i + 1);
        assert(!lf_at(w, i));
        if crlf_at(w, i) {
            assert(i + 4 > b.len());
            assert(i + 1 == end);
            assert(w[i + 2] == b[end + 1]);
        }
        delimiter_stays(b, c, i + 1);
    }
}

/// Taking finished events off before more bytes come gives what taking them off afterwards gives.
pub proof fn drained_in_parts(b: Seq<u8>, c: Seq<u8>)
    requires
        drained(b).1 is Ok,
    ensures
        drained(b + c) == prefixed(drained(b).1->Ok_0, drained(drained(b).0 + c)),
    decreases b.len(),
{
    match delimiter(b) {
        None => {
            prefixed_empty(drained(b + c));
        },
        Some((end, len)) => {
            delimiter_from_holds(b, 0);
            delimiter_stays(b, c, 0);
            let rest = b.skip(end + len);
            assert((b + c).skip(end + len) =~= rest + c);
            assert((b + c).take(end) =~= b.take(end));
            drained_in_parts(rest, c);
            let first = opt_seq(parsed(b.take(end))->Ok_0);
            prefixed_twice(first, drained(rest).1->Ok_0, drained(drained(rest).0 + c));
        },
    }
}

/// How a stream is cut into chunks does not matter: two chunks that are both taken give the
/// events that the two as one chunk give, and leave the same bytes for later.
pub proof fn chunks_do_not_matter(held: Seq<u8>, first: Seq<u8>, second: Seq<u8>)
    requires
        pushed(held + first).1 is Ok,
        pushed(pushed(held + first).0 + second).1 is Ok,
    ensures
        pushed(held + (first + second)) == (
            pushed(pushed(held + first).0 + second).0,
            Ok::<Seq<SseView>, ErrorView>(
                pushed(held + first).1->Ok_0 + pushed(pushed(held + first).0 + second).1->Ok_0,
            ),
        ),
{
    drained_in_parts(held + first, second);
    assert(held + (first + second) =~= (held + first) + second);
}

/// An event that is no UTF-8 fails the chunk that completes it, whatever follows in that chunk.
pub proof fn bad_event_fails(b: Seq<u8>, c: Seq<u8>)
    requires
        drained(b).1 is Err,
    ensures
        pushed(b + c).1 == Err::<Seq<SseView>, ErrorView>(ErrorView::InvalidStreamUtf8),
    decreases b.len(),
{
    match delimiter(b) {
        None => {},
        Some((end, len)) => {
            delimiter_from_holds(b, 0);
            delimiter_stays(b, c, 0);
            let rest = b.skip(end + len);
            assert((b + c).skip(end + len) =~= rest + c);
            assert((b + c).take(end) =~= b.take(end));
            if parsed(b.take(end)) is Ok {
                bad_event_fails(rest, c);
            }
        },
    }
}

} // verus!
