//! What is written as server-sent events is read as these events.

use super::error::ErrorView;
use super::sse::{
    crlf_at, data_lines, delimiter, delimiter_from, delimiter_from_holds, drained, drained_in_parts,
    event_of_lines, event_text, field_line, lf_at, line_name, line_value, lines_of, opt_seq, parsed,
    pushed, read_line, read_lines, strip_return, FieldsRead, SseView,
};
use crate::text::{
    decimal_text, digit, digit_value, digits_value, first_of, first_of_holds, first_of_is, joined,
    u64_value,
};
use vstd::prelude::*;
use vstd::utf8::{
    char_is_scalar, char_u32_cast, encode_scalar, encode_utf8, encode_utf8_decode_utf8,
    encode_utf8_valid_utf8, has_width_1_encoding, last_continuation_byte, leading_byte_width_1,
    leading_byte_width_2, leading_byte_width_3, leading_byte_width_4, second_last_continuation_byte,
    third_last_continuation_byte,
};

verus! {

/// Whether a text has no line feed and no carriage return.
pub open spec fn one_line(s: Seq<char>) -> bool {
    forall|i: int| 0 <= i < s.len() ==> #[trigger] s[i] != '\n' && s[i] != '\r'
}

/// Whether a text has no carriage return.
pub open spec fn no_return(s: Seq<char>) -> bool {
    forall|i: int| 0 <= i < s.len() ==> #[trigger] s[i] != '\r'
}

/// Whether an event can be written and read again: its name and its identifier have one line, and
/// its data have no carriage return.
pub open spec fn writable(e: SseView) -> bool {
    &&& e.event matches Some(event) ==> one_line(event)
    &&& e.id matches Some(id) ==> one_line(id)
    &&& no_return(e.data)
}

proof fn encode_concat(a: Seq<char>, b: Seq<char>)
    ensures
        encode_utf8(a + b) == encode_utf8(a) + encode_utf8(b),
    decreases a.len(),
{
    if a.len() == 0 {
        assert(a + b =~= b);
        assert(encode_utf8(a) + encode_utf8(b) =~= encode_utf8(b));
    } else {
        encode_concat(a.drop_first(), b);
        assert((a + b).drop_first() =~= a.drop_first() + b);
        assert((a + b)[0] == a[0]);
        assert(encode_utf8(a + b) =~= encode_utf8(a) + encode_utf8(b));
    }
}

proof fn high_bytes(c: u32)
    ensures
        leading_byte_width_2(c) >= 0x80,
        leading_byte_width_3(c) >= 0x80,
        leading_byte_width_4(c) >= 0x80,
        last_continuation_byte(c) >= 0x80,
        second_last_continuation_byte(c) >= 0x80,
        third_last_continuation_byte(c) >= 0x80,
{
    assert(leading_byte_width_2(c) >= 0x80) by (bit_vector);
    assert(leading_byte_width_3(c) >= 0x80) by (bit_vector);
    assert(leading_byte_width_4(c) >= 0x80) by (bit_vector);
    assert(last_continuation_byte(c) >= 0x80) by (bit_vector);
    assert(second_last_continuation_byte(c) >= 0x80) by (bit_vector);
    assert(third_last_continuation_byte(c) >= 0x80) by (bit_vector);
}

proof fn low_byte(c: u32)
    requires
        has_width_1_encoding(c),
    ensures
        leading_byte_width_1(c) == c,
{
    assert(has_width_1_encoding(c) ==> leading_byte_width_1(c) == c) by (bit_vector);
}

/// The bytes of a text have a byte of ASCII only where the text has the character.
proof fn encoded_without(s: Seq<char>, b: u8)
    requires
        b < 0x80,
        forall|i: int| 0 <= i < s.len() ==> #[trigger] s[i] as u32 != b as u32,
    ensures
        forall|i: int| 0 <= i < encode_utf8(s).len() ==> #[trigger] encode_utf8(s)[i] != b,
    decreases s.len(),
{
    if s.len() > 0 {
        let c = s[0] as u32;
        assert(s[0] as u32 != b as u32);
        char_is_scalar(s[0]);
        high_bytes(c);
        if has_width_1_encoding(c) {
            low_byte(c);
        }
        let rest = s.drop_first();
        assert forall|i: int| 0 <= i < rest.len() implies #[trigger] rest[i] as u32 != b as u32 by {
            assert(rest[i] == s[i + 1]);
        }
        encoded_without(rest, b);
        let head = encode_scalar(c);
        let all = encode_utf8(s);
        assert(all =~= head + encode_utf8(rest));
        assert forall|i: int| 0 <= i < head.len() implies #[trigger] head[i] != b by {
            assert(i == 0 || i == 1 || i == 2 || i == 3);
        }
        assert forall|i: int| 0 <= i < all.len() implies #[trigger] all[i] != b by {
            if i >= head.len() {
                assert(all[i] == encode_utf8(rest)[i - head.len()]);
            }
        }
    }
}

proof fn encoded_line_feed()
    ensures
        encode_utf8(seq!['\n']) == seq![10u8],
{
    let s = seq!['\n'];
    low_byte(10);
    assert(s.drop_first() =~= Seq::empty());
    assert(encode_utf8(s.drop_first()) =~= Seq::empty());
    assert(has_width_1_encoding(10));
    assert(encode_scalar(10) == seq![leading_byte_width_1(10)]);
    assert(encode_utf8(s) =~= seq![10u8]);
}

proof fn encoded_not_empty(s: Seq<char>)
    requires
        s.len() > 0,
    ensures
        encode_utf8(s).len() > 0,
{
}

/// Bytes in which no event ends.
spec fn calm(b: Seq<u8>) -> bool {
    &&& b.len() > 0
    &&& b[0] != 10
    &&& b[b.len() - 1] != 10
    &&& forall|i: int| 0 <= i < b.len() ==> #[trigger] b[i] != 13
    &&& forall|i: int| 0 <= i < b.len() - 1 ==> !(#[trigger] b[i] == 10 && b[i + 1] == 10)
}

spec fn full_lines(lines: Seq<Seq<char>>) -> bool {
    forall|i: int| 0 <= i < lines.len() ==> (#[trigger] lines[i]).len() > 0 && one_line(lines[i])
}

proof fn line_is_calm(line: Seq<char>)
    requires
        line.len() > 0,
        one_line(line),
    ensures
        calm(encode_utf8(line)),
{
    assert forall|i: int| 0 <= i < line.len() implies #[trigger] line[i] as u32 != 10u32 by {
        assert(line[i] != '\n');
        if line[i] as u32 == 10u32 {
            char_u32_cast(line[i], 10u32);
        }
    }
    encoded_without(line, 10);
    assert forall|i: int| 0 <= i < line.len() implies #[trigger] line[i] as u32 != 13u32 by {
        assert(line[i] != '\r');
        if line[i] as u32 == 13u32 {
            char_u32_cast(line[i], 13u32);
        }
    }
    encoded_without(line, 13);
    encoded_not_empty(line);
}

proof fn joined_is_calm(lines: Seq<Seq<char>>)
    requires
        full_lines(lines),
        lines.len() > 0,
    ensures
        calm(encode_utf8(joined(lines, seq!['\n']))),
    decreases lines.len(),
{
    let between = seq!['\n'];
    if lines.len() == 1 {
        line_is_calm(lines[0]);
    } else {
        let front = lines.drop_last();
        let last = lines.last();
        assert forall|i: int| 0 <= i < front.len() implies (#[trigger] front[i]).len() > 0
            && one_line(front[i]) by {
            assert(front[i] == lines[i]);
        }
        joined_is_calm(front);
        assert(lines[lines.len() - 1] == last);
        line_is_calm(last);
        let a = encode_utf8(joined(front, between));
        let b = encode_utf8(last);
        encode_concat(joined(front, between) + between, last);
        encode_concat(joined(front, between), between);
        encoded_line_feed();
        let all = a + seq![10u8] + b;
        assert(encode_utf8(joined(lines, between)) =~= all);
        assert forall|i: int| 0 <= i < all.len() implies #[trigger] all[i] != 13 by {
            if i < a.len() {
                assert(all[i] == a[i]);
            } else if i > a.len() {
                assert(all[i] == b[i - a.len() - 1]);
            }
        }
        assert forall|i: int| 0 <= i < all.len() - 1 implies !(#[trigger] all[i] == 10 && all[i + 1]
            == 10) by {
            if i + 1 < a.len() {
                assert(all[i] == a[i] && all[i + 1] == a[i + 1]);
            } else if i + 1 == a.len() {
                assert(all[i] == a[a.len() - 1]);
            } else if i == a.len() {
                assert(all[i + 1] == b[0]);
            } else {
                let j = i - a.len() - 1;
                assert(all[i] == b[j] && all[i + 1] == b[j + 1]);
            }
        }
    }
}

proof fn ends_once(b: Seq<u8>)
    requires
        calm(b),
    ensures
        delimiter(b + seq![10u8, 10u8]) == Some((b.len() as int, 2int)),
{
    let w = b + seq![10u8, 10u8];
    delimiter_from_holds(w, 0);
    assert(lf_at(w, b.len() as int));
    assert forall|i: int| 0 <= i < b.len() implies !lf_at(w, i) by {
        if i + 1 < b.len() {
            assert(w[i] == b[i] && w[i + 1] == b[i + 1]);
        } else {
            assert(w[i] == b[b.len() - 1]);
        }
    }
    assert forall|i: int| 0 <= i <= b.len() implies !crlf_at(w, i) by {
        if i < b.len() {
            assert(w[i] == b[i]);
        }
    }
    assert(delimiter_from(w, 0) is Some);
    let (end, len) = delimiter_from(w, 0)->Some_0;
    if end > b.len() {
        assert(!lf_at(w, b.len() as int));
    }
}

proof fn joined_front(lines: Seq<Seq<char>>, between: Seq<char>)
    requires
        lines.len() > 1,
    ensures
        joined(lines, between) == lines[0] + between + joined(
            lines.subrange(1, lines.len() as int),
            between,
        ),
    decreases lines.len(),
{
    let tail = lines.subrange(1, lines.len() as int);
    if lines.len() == 2 {
        assert(lines.drop_last() =~= seq![lines[0]]);
        assert(joined(lines.drop_last(), between) == lines[0]);
        assert(joined(tail, between) == lines[1]);
    } else {
        joined_front(lines.drop_last(), between);
        assert(lines.drop_last().subrange(1, lines.len() - 1) =~= tail.drop_last());
        assert(joined(lines, between) =~= lines[0] + between + joined(tail, between));
    }
}

proof fn lines_of_joined(lines: Seq<Seq<char>>)
    requires
        full_lines(lines),
        lines.len() > 0,
    ensures
        lines_of(joined(lines, seq!['\n'])) == lines,
    decreases lines.len(),
{
    let between = seq!['\n'];
    let whole = joined(lines, between);
    let first = lines[0];
    assert(one_line(first) && first.len() > 0);
    assert(strip_return(first) == first) by {
        assert(first[first.len() - 1] != '\r');
    }
    if lines.len() == 1 {
        assert(whole == first);
        first_of_is(first, '\n', first.len() as int);
        assert(lines =~= seq![first]);
    } else {
        let tail = lines.subrange(1, lines.len() as int);
        assert forall|i: int| 0 <= i < tail.len() implies (#[trigger] tail[i]).len() > 0
            && one_line(tail[i]) by {
            assert(tail[i] == lines[i + 1]);
        }
        joined_front(lines, between);
        lines_of_joined(tail);
        let n = first.len() as int;
        assert forall|i: int| 0 <= i < n implies whole[i] != '\n' by {
            assert(whole[i] == first[i]);
        }
        assert(whole[n] == '\n');
        first_of_is(whole, '\n', n);
        assert(whole.take(n) =~= first);
        assert(whole.skip(n + 1) =~= joined(tail, between));
        assert(lines =~= seq![first] + tail);
    }
}

/// A line without its end.
spec fn plain_line(name: Seq<char>, value: Seq<char>) -> Seq<char> {
    name + ": "@ + value
}

spec fn data_plain_lines(data: Seq<char>) -> Seq<Seq<char>>
    decreases data.len(),
    via data_plain_lines_decreases
{
    let n = first_of(data, '\n');
    if n < data.len() {
        seq![data.take(n)] + data_plain_lines(data.skip(n + 1))
    } else {
        seq![data]
    }
}

#[via_fn]
proof fn data_plain_lines_decreases(data: Seq<char>) {
    first_of_holds(data, '\n');
}

spec fn all_ended(lines: Seq<Seq<char>>) -> Seq<char>
    decreases lines.len(),
{
    if lines.len() == 0 {
        Seq::empty()
    } else {
        all_ended(lines.drop_last()) + lines.last() + seq!['\n']
    }
}

proof fn all_ended_concat(a: Seq<Seq<char>>, b: Seq<Seq<char>>)
    ensures
        all_ended(a + b) == all_ended(a) + all_ended(b),
    decreases b.len(),
{
    if b.len() == 0 {
        assert(a + b =~= a);
        assert(all_ended(a) + all_ended(b) =~= all_ended(a));
    } else {
        all_ended_concat(a, b.drop_last());
        assert((a + b).drop_last() =~= a + b.drop_last());
        assert((a + b).last() == b.last());
        assert(all_ended(a + b) =~= all_ended(a) + all_ended(b));
    }
}

proof fn all_ended_one(line: Seq<char>)
    ensures
        all_ended(seq![line]) == line + seq!['\n'],
{
    assert(seq![line].drop_last() =~= Seq::empty());
    assert(all_ended(seq![line].drop_last()) =~= Seq::empty());
    assert(all_ended(seq![line]) =~= line + seq!['\n']);
}

proof fn all_ended_joined(lines: Seq<Seq<char>>)
    requires
        lines.len() > 0,
    ensures
        all_ended(lines) == joined(lines, seq!['\n']) + seq!['\n'],
    decreases lines.len(),
{
    if lines.len() == 1 {
        all_ended_one(lines[0]);
        assert(lines =~= seq![lines[0]]);
    } else {
        all_ended_joined(lines.drop_last());
        assert(all_ended(lines) =~= joined(lines, seq!['\n']) + seq!['\n']);
    }
}

spec fn with_name(lines: Seq<Seq<char>>, name: Seq<char>) -> Seq<Seq<char>> {
    Seq::new(lines.len(), |i: int| plain_line(name, lines[i]))
}

proof fn data_lines_are(data: Seq<char>)
    ensures
        data_lines(data) == all_ended(with_name(data_plain_lines(data), "data"@)),
    decreases data.len(),
{
    first_of_holds(data, '\n');
    let n = first_of(data, '\n');
    let name = "data"@;
    if n < data.len() {
        data_lines_are(data.skip(n + 1));
        let more = data_plain_lines(data.skip(n + 1));
        let line = plain_line(name, data.take(n));
        assert(with_name(data_plain_lines(data), name) =~= seq![line] + with_name(more, name));
        all_ended_concat(seq![line], with_name(more, name));
        all_ended_one(line);
        assert(field_line(name, data.take(n)) =~= line + seq!['\n']);
    } else {
        let line = plain_line(name, data);
        assert(with_name(data_plain_lines(data), name) =~= seq![line]);
        all_ended_one(line);
        assert(field_line(name, data) =~= line + seq!['\n']);
    }
}

proof fn data_lines_joined(data: Seq<char>)
    requires
        no_return(data),
    ensures
        joined(data_plain_lines(data), seq!['\n']) == data,
        data_plain_lines(data).len() > 0,
        forall|i: int|
            0 <= i < data_plain_lines(data).len() ==> one_line(
                #[trigger] data_plain_lines(data)[i],
            ),
    decreases data.len(),
{
    first_of_holds(data, '\n');
    let n = first_of(data, '\n');
    let lines = data_plain_lines(data);
    if n < data.len() {
        let rest = data.skip(n + 1);
        assert forall|i: int| 0 <= i < rest.len() implies #[trigger] rest[i] != '\r' by {
            assert(rest[i] == data[i + n + 1]);
        }
        data_lines_joined(rest);
        let more = data_plain_lines(rest);
        joined_front(lines, seq!['\n']);
        assert(lines.subrange(1, lines.len() as int) =~= more);
        assert(data =~= data.take(n) + seq!['\n'] + rest);
        assert forall|i: int| 0 <= i < lines.len() implies one_line(#[trigger] lines[i]) by {
            if i == 0 {
                assert forall|j: int| 0 <= j < n implies #[trigger] data.take(n)[j] != '\n'
                    && data.take(n)[j] != '\r' by {
                    assert(data.take(n)[j] == data[j]);
                }
            } else {
                assert(lines[i] == more[i - 1]);
            }
        }
    } else {
        assert(lines =~= seq![data]);
        assert(one_line(data));
    }
}

/// The lines of an event, without their ends.
spec fn event_lines(e: SseView) -> Seq<Seq<char>> {
    let event = match e.event {
        Some(event) => seq![plain_line("event"@, event)],
        None => Seq::empty(),
    };
    let id = match e.id {
        Some(id) => seq![plain_line("id"@, id)],
        None => Seq::empty(),
    };
    let retry = match e.retry {
        Some(retry) => seq![plain_line("retry"@, decimal_text(retry as nat))],
        None => Seq::empty(),
    };
    event + id + retry + with_name(data_plain_lines(e.data), "data"@)
}

proof fn opt_line(o: Option<Seq<char>>, name: Seq<char>)
    ensures
        all_ended(
            match o {
                Some(v) => seq![plain_line(name, v)],
                None => Seq::empty(),
            },
        ) == (match o {
            Some(v) => field_line(name, v),
            None => Seq::empty(),
        }),
{
    if let Some(v) = o {
        all_ended_one(plain_line(name, v));
        assert(field_line(name, v) =~= plain_line(name, v) + seq!['\n']);
    }
}

proof fn event_text_is(e: SseView)
    ensures
        event_text(e) == all_ended(event_lines(e)) + seq!['\n'],
        event_lines(e).len() > 0,
{
    let retry_text = match e.retry {
        Some(retry) => Some(decimal_text(retry as nat)),
        None => None,
    };
    let event = match e.event {
        Some(event) => seq![plain_line("event"@, event)],
        None => Seq::<Seq<char>>::empty(),
    };
    let id = match e.id {
        Some(id) => seq![plain_line("id"@, id)],
        None => Seq::<Seq<char>>::empty(),
    };
    let retry = match e.retry {
        Some(retry) => seq![plain_line("retry"@, decimal_text(retry as nat))],
        None => Seq::<Seq<char>>::empty(),
    };
    let data = with_name(data_plain_lines(e.data), "data"@);
    opt_line(e.event, "event"@);
    opt_line(e.id, "id"@);
    opt_line(retry_text, "retry"@);
    data_lines_are(e.data);
    all_ended_concat(event + id + retry, data);
    all_ended_concat(event + id, retry);
    all_ended_concat(event, id);
    first_of_holds(e.data, '\n');
    assert(data_plain_lines(e.data).len() > 0);
}

proof fn digits_are_plain(n: nat)
    ensures
        decimal_text(n).len() > 0,
        forall|i: int|
            0 <= i < decimal_text(n).len() ==> '0' <= #[trigger] decimal_text(n)[i]
                && decimal_text(n)[i] <= '9',
        digits_value(decimal_text(n)) == Some(n),
    decreases n,
{
    let s = decimal_text(n);
    if n < 10 {
        assert(s.drop_last() =~= Seq::empty());
        assert(digit_value(digit(n as int)) == Some(n));
        assert(digits_value(s.drop_last()) == Some(0nat));
        assert(s.last() == digit(n as int));
    } else {
        digits_are_plain(n / 10);
        let front = decimal_text(n / 10);
        assert(s.drop_last() =~= front);
        let d = (n % 10) as int;
        assert(digit_value(digit(d)) == Some(n % 10));
        assert(s.last() == digit(d));
        assert forall|i: int| 0 <= i < s.len() implies '0' <= #[trigger] s[i] && s[i] <= '9' by {
            if i < front.len() {
                assert(s[i] == front[i]);
            }
        }
        assert(n / 10 * 10 + n % 10 == n);
    }
}

proof fn retry_round_trip(n: u64)
    ensures
        u64_value(decimal_text(n as nat)) == Some(n),
        one_line(decimal_text(n as nat)),
{
    digits_are_plain(n as nat);
    let s = decimal_text(n as nat);
    assert('0' <= s[0] && s[0] <= '9');
    assert forall|i: int| 0 <= i < s.len() implies #[trigger] s[i] != '\n' && s[i] != '\r' by {
        assert('0' <= s[i] && s[i] <= '9');
    }
}

/// What one line of an event sets.
proof fn plain_line_read(name: Seq<char>, value: Seq<char>)
    requires
        forall|i: int| 0 <= i < name.len() ==> name[i] != ':',
        name.len() > 0,
    ensures
        line_name(plain_line(name, value)) == name,
        line_value(plain_line(name, value)) == value,
        plain_line(name, value).len() > 0,
        plain_line(name, value)[0] != ':',
{
    reveal_strlit(": ");
    let line = plain_line(name, value);
    let n = name.len() as int;
    assert forall|i: int| 0 <= i < n implies line[i] != ':' by {
        assert(line[i] == name[i]);
    }
    assert(line[n] == ':');
    first_of_is(line, ':', n);
    assert(line.take(n) =~= name);
    let rest = line.skip(n + 1);
    assert(rest[0] == ' ');
    assert(rest.skip(1) =~= value);
    assert(line[0] == name[0]);
}

proof fn names_are_plain()
    ensures
        forall|i: int| 0 <= i < "event"@.len() ==> "event"@[i] != ':' && "event"@[i] != '\n'
            && "event"@[i] != '\r',
        forall|i: int| 0 <= i < "id"@.len() ==> "id"@[i] != ':' && "id"@[i] != '\n' && "id"@[i]
            != '\r',
        forall|i: int| 0 <= i < "retry"@.len() ==> "retry"@[i] != ':' && "retry"@[i] != '\n'
            && "retry"@[i] != '\r',
        forall|i: int| 0 <= i < "data"@.len() ==> "data"@[i] != ':' && "data"@[i] != '\n'
            && "data"@[i] != '\r',
        "event"@.len() == 5,
        "id"@.len() == 2,
        "retry"@.len() == 5,
        "data"@.len() == 4,
        "event"@ != "retry"@,
{
    reveal_strlit("event");
    reveal_strlit("id");
    reveal_strlit("retry");
    reveal_strlit("data");
    assert forall|i: int| 0 <= i < "event"@.len() implies "event"@[i] != ':' && "event"@[i] != '\n'
        && "event"@[i] != '\r' by {
        assert(i == 0 || i == 1 || i == 2 || i == 3 || i == 4);
    }
    assert forall|i: int| 0 <= i < "id"@.len() implies "id"@[i] != ':' && "id"@[i] != '\n'
        && "id"@[i] != '\r' by {
        assert(i == 0 || i == 1);
    }
    assert forall|i: int| 0 <= i < "retry"@.len() implies "retry"@[i] != ':' && "retry"@[i] != '\n'
        && "retry"@[i] != '\r' by {
        assert(i == 0 || i == 1 || i == 2 || i == 3 || i == 4);
    }
    assert forall|i: int| 0 <= i < "data"@.len() implies "data"@[i] != ':' && "data"@[i] != '\n'
        && "data"@[i] != '\r' by {
        assert(i == 0 || i == 1 || i == 2 || i == 3);
    }
    assert("event"@[0] != "retry"@[0]);
}

proof fn plain_line_is_one(name: Seq<char>, value: Seq<char>)
    requires
        one_line(name),
        one_line(value),
    ensures
        one_line(plain_line(name, value)),
{
    reveal_strlit(": ");
    let line = plain_line(name, value);
    assert forall|i: int| 0 <= i < line.len() implies #[trigger] line[i] != '\n' && line[i]
        != '\r' by {
        if i < name.len() {
            assert(line[i] == name[i]);
        } else if i >= name.len() + 2 {
            assert(line[i] == value[i - name.len() - 2]);
        } else {
            assert(i == name.len() || i == name.len() + 1);
        }
    }
}

proof fn event_lines_full(e: SseView)
    requires
        writable(e),
    ensures
        full_lines(event_lines(e)),
{
    names_are_plain();
    data_lines_joined(e.data);
    let lines = event_lines(e);
    let data = with_name(data_plain_lines(e.data), "data"@);
    if let Some(event) = e.event {
        plain_line_is_one("event"@, event);
    }
    if let Some(id) = e.id {
        plain_line_is_one("id"@, id);
    }
    if let Some(retry) = e.retry {
        retry_round_trip(retry);
        plain_line_is_one("retry"@, decimal_text(retry as nat));
    }
    assert forall|i: int| 0 <= i < data.len() implies (#[trigger] data[i]).len() > 0 && one_line(
        data[i],
    ) by {
        plain_line_is_one("data"@, data_plain_lines(e.data)[i]);
    }
    let before = lines.len() - data.len();
    assert forall|i: int| 0 <= i < lines.len() implies (#[trigger] lines[i]).len() > 0 && one_line(
        lines[i],
    ) by {
        if i >= before {
            assert(lines[i] == data[i - before]);
        }
    }
}

proof fn read_more(lines: Seq<Seq<char>>, line: Seq<char>)
    ensures
        read_lines(lines.push(line)) == read_line(read_lines(lines), line),
{
    assert(lines.push(line).drop_last() =~= lines);
}

proof fn read_data(before: Seq<Seq<char>>, data: Seq<Seq<char>>)
    ensures
        read_lines(before + with_name(data, "data"@)) == (FieldsRead {
            data: read_lines(before).data + data,
            ..read_lines(before)
        }),
    decreases data.len(),
{
    let named = with_name(data, "data"@);
    if data.len() == 0 {
        assert(before + named =~= before);
        assert(read_lines(before).data + data =~= read_lines(before).data);
    } else {
        read_data(before, data.drop_last());
        assert(named.drop_last() =~= with_name(data.drop_last(), "data"@));
        assert(before + named =~= (before + named.drop_last()).push(named.last()));
        read_more(before + named.drop_last(), named.last());
        names_are_plain();
        plain_line_read("data"@, data.last());
        assert(read_lines(before).data + data =~= (read_lines(before).data
            + data.drop_last()).push(data.last()));
    }
}

proof fn event_lines_read(e: SseView)
    requires
        writable(e),
    ensures
        event_of_lines(event_lines(e)) == Some(e),
{
    names_are_plain();
    let none = Seq::<Seq<char>>::empty();
    let event = match e.event {
        Some(event) => seq![plain_line("event"@, event)],
        None => none,
    };
    let id = match e.id {
        Some(id) => seq![plain_line("id"@, id)],
        None => none,
    };
    let retry = match e.retry {
        Some(retry) => seq![plain_line("retry"@, decimal_text(retry as nat))],
        None => none,
    };
    assert(read_lines(none) == (FieldsRead {
        event: None,
        data: Seq::empty(),
        id: None,
        retry: None,
    }));
    if let Some(v) = e.event {
        plain_line_read("event"@, v);
        read_more(none, plain_line("event"@, v));
        assert(event =~= none.push(plain_line("event"@, v)));
    }
    let f1 = read_lines(event);
    assert(f1.event == e.event && f1.data.len() == 0 && f1.id is None && f1.retry is None);
    if let Some(v) = e.id {
        plain_line_read("id"@, v);
        read_more(event, plain_line("id"@, v));
        assert(event + id =~= event.push(plain_line("id"@, v)));
    } else {
        assert(event + id =~= event);
    }
    let f2 = read_lines(event + id);
    assert(f2.event == e.event && f2.data.len() == 0 && f2.id == e.id && f2.retry is None);
    if let Some(n) = e.retry {
        retry_round_trip(n);
        plain_line_read("retry"@, decimal_text(n as nat));
        read_more(event + id, plain_line("retry"@, decimal_text(n as nat)));
        assert(event + id + retry =~= (event + id).push(
            plain_line("retry"@, decimal_text(n as nat)),
        ));
    } else {
        assert(event + id + retry =~= event + id);
    }
    let f3 = read_lines(event + id + retry);
    assert(f3.event == e.event && f3.data.len() == 0 && f3.id == e.id && f3.retry == e.retry);
    let data = data_plain_lines(e.data);
    data_lines_joined(e.data);
    read_data(event + id + retry, data);
    assert(f3.data + data =~= data);
}

/// An event that can be written is read as it was from its bytes, and nothing is left of them.
proof fn event_round_trip(e: SseView)
    requires
        writable(e),
    ensures
        drained(encode_utf8(event_text(e))) == (
            Seq::<u8>::empty(),
            Ok::<Seq<SseView>, ErrorView>(seq![e]),
        ),
{
    let lines = event_lines(e);
    let body = joined(lines, seq!['\n']);
    event_text_is(e);
    event_lines_full(e);
    all_ended_joined(lines);
    let b = encode_utf8(body);
    let whole = encode_utf8(event_text(e));
    assert(event_text(e) =~= body + seq!['\n'] + seq!['\n']);
    encode_concat(body + seq!['\n'], seq!['\n']);
    encode_concat(body, seq!['\n']);
    encoded_line_feed();
    assert(whole =~= b + seq![10u8, 10u8]);
    joined_is_calm(lines);
    ends_once(b);
    assert(whole.take(b.len() as int) =~= b);
    assert(whole.skip(b.len() as int + 2) =~= Seq::empty());
    encode_utf8_valid_utf8(body);
    encode_utf8_decode_utf8(body);
    lines_of_joined(lines);
    event_lines_read(e);
    assert(parsed(b) == Ok::<Option<SseView>, ErrorView>(Some(e)));
    assert(delimiter(Seq::<u8>::empty()) is None);
    assert(drained(Seq::<u8>::empty()) == (
        Seq::<u8>::empty(),
        Ok::<Seq<SseView>, ErrorView>(Seq::empty()),
    ));
    assert(opt_seq(Some(e)) + Seq::<SseView>::empty() =~= seq![e]);
}

/// The text of events, one after the other.
pub open spec fn events_text(events: Seq<SseView>) -> Seq<char>
    decreases events.len(),
{
    if events.len() == 0 {
        Seq::empty()
    } else {
        events_text(events.drop_last()) + event_text(events.last())
    }
}

proof fn events_round_trip(events: Seq<SseView>)
    requires
        forall|i: int| 0 <= i < events.len() ==> writable(#[trigger] events[i]),
    ensures
        drained(encode_utf8(events_text(events))) == (
            Seq::<u8>::empty(),
            Ok::<Seq<SseView>, ErrorView>(events),
        ),
    decreases events.len(),
{
    if events.len() == 0 {
        let none = Seq::<u8>::empty();
        assert(encode_utf8(events_text(events)) =~= none);
        assert(delimiter(none) is None);
        assert(events =~= Seq::empty());
    } else {
        let front = events.drop_last();
        let last = events.last();
        assert forall|i: int| 0 <= i < front.len() implies writable(#[trigger] front[i]) by {
            assert(front[i] == events[i]);
        }
        events_round_trip(front);
        assert(writable(events[events.len() - 1]));
        event_round_trip(last);
        let a = encode_utf8(events_text(front));
        let b = encode_utf8(event_text(last));
        encode_concat(events_text(front), event_text(last));
        drained_in_parts(a, b);
        assert(Seq::<u8>::empty() + b =~= b);
        assert(front + seq![last] =~= events);
    }
}

/// What is written as events is read as these events by a decoder, and nothing is left of it.
pub proof fn encoded_events_are_decoded(events: Seq<SseView>)
    requires
        forall|i: int| 0 <= i < events.len() ==> writable(#[trigger] events[i]),
    ensures
        pushed(encode_utf8(events_text(events))) == (
            Seq::<u8>::empty(),
            Ok::<Seq<SseView>, ErrorView>(events),
        ),
{
    events_round_trip(events);
}

} // verus!
