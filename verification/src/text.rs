//! Text primitives: comparison, order and assembly of strings.

use vstd::prelude::*;
use vstd::utf8::{encode_utf8, valid_utf8};

verus! {

/// `str::eq` of std: two strings are equal when they hold the same characters.
pub assume_specification[ <str as PartialEq<str>>::eq ](a: &str, b: &str) -> (r: bool)
    ensures
        r == (a@ == b@),
;

/// `String::push_str` of std appends the characters of its argument.
pub assume_specification[ String::push_str ](s: &mut String, t: &str)
    ensures
        final(s)@ == old(s)@ + t@,
;

/// `String::push` of std appends one character.
pub assume_specification[ String::push ](s: &mut String, c: char)
    ensures
        final(s)@ == old(s)@.push(c),
;

/// `String::from_utf8` of std: the text of bytes that are UTF-8.
#[verifier::external_body]
pub(crate) fn utf8_text(bytes: Vec<u8>) -> (r: Option<String>)
    ensures
        match r {
            Some(s) => valid_utf8(bytes@) && encode_utf8(s@) == bytes@,
            None => !valid_utf8(bytes@),
        },
{
    String::from_utf8(bytes).ok()
}

/// The characters of each string of a list.
pub open spec fn texts(list: Seq<&str>) -> Seq<Seq<char>> {
    Seq::new(list.len(), |i: int| list[i]@)
}

/// The characters of an optional string.
pub open spec fn opt_text(o: Option<String>) -> Option<Seq<char>> {
    match o {
        Some(s) => Some(s@),
        None => None,
    }
}

/// The characters of an optional string slice.
pub open spec fn opt_str(o: Option<&str>) -> Option<Seq<char>> {
    match o {
        Some(s) => Some(s@),
        None => None,
    }
}

/// The characters of each string of a sequence.
pub open spec fn strings(list: Seq<String>) -> Seq<Seq<char>> {
    Seq::new(list.len(), |i: int| list[i]@)
}

/// The bytewise lexicographic order.
pub open spec fn bytes_before(a: Seq<u8>, b: Seq<u8>) -> bool
    decreases a.len(),
{
    if b.len() == 0 {
        false
    } else if a.len() == 0 {
        true
    } else if a[0] != b[0] {
        a[0] < b[0]
    } else {
        bytes_before(a.subrange(1, a.len() as int), b.subrange(1, b.len() as int))
    }
}

/// The order of strings: that of their UTF-8 bytes.
pub open spec fn text_before(a: Seq<char>, b: Seq<char>) -> bool {
    bytes_before(encode_utf8(a), encode_utf8(b))
}

proof fn bytes_before_irreflexive(a: Seq<u8>)
    ensures
        !bytes_before(a, a),
    decreases a.len(),
{
    if a.len() > 0 {
        bytes_before_irreflexive(a.subrange(1, a.len() as int));
    }
}

proof fn bytes_before_transitive(a: Seq<u8>, b: Seq<u8>, c: Seq<u8>)
    requires
        bytes_before(a, b),
        bytes_before(b, c),
    ensures
        bytes_before(a, c),
    decreases a.len(),
{
    if a.len() > 0 && a[0] == b[0] && b[0] == c[0] {
        bytes_before_transitive(
            a.subrange(1, a.len() as int),
            b.subrange(1, b.len() as int),
            c.subrange(1, c.len() as int),
        );
    }
}

proof fn bytes_before_total(a: Seq<u8>, b: Seq<u8>)
    ensures
        bytes_before(a, b) || bytes_before(b, a) || a == b,
    decreases a.len(),
{
    if a.len() > 0 && b.len() > 0 && a[0] == b[0] {
        let s = a.subrange(1, a.len() as int);
        let t = b.subrange(1, b.len() as int);
        bytes_before_total(s, t);
        if s == t {
            assert(a =~= seq![a[0]] + s);
            assert(b =~= seq![b[0]] + t);
        }
    } else if a.len() == 0 && b.len() == 0 {
        assert(a =~= b);
    }
}

/// The order of strings is a strict total order.
pub proof fn text_before_total_order(a: Seq<char>, b: Seq<char>, c: Seq<char>)
    ensures
        !text_before(a, a),
        text_before(a, b) && text_before(b, c) ==> text_before(a, c),
        text_before(a, b) || text_before(b, a) || a == b,
{
    bytes_before_irreflexive(encode_utf8(a));
    if text_before(a, b) && text_before(b, c) {
        bytes_before_transitive(encode_utf8(a), encode_utf8(b), encode_utf8(c));
    }
    bytes_before_total(encode_utf8(a), encode_utf8(b));
    if encode_utf8(a) == encode_utf8(b) {
        vstd::utf8::encode_utf8_decode_utf8(a);
        vstd::utf8::encode_utf8_decode_utf8(b);
    }
}

/// Whether two strings hold the same characters.
pub fn same(a: &str, b: &str) -> (r: bool)
    ensures
        r == (a@ == b@),
{
    *a == *b
}

/// Whether `a` comes before `b` in the order of their bytes.
pub fn comes_before(a: &str, b: &str) -> (r: bool)
    ensures
        r == text_before(a@, b@),
{
    let x = a.as_bytes();
    let y = b.as_bytes();
    let ghost (s, t) = (x@, y@);
    let mut i: usize = 0;
    assert(s.subrange(0, s.len() as int) =~= s);
    assert(t.subrange(0, t.len() as int) =~= t);
    while i < x.len() && i < y.len()
        invariant
            x@ == s,
            y@ == t,
            s == encode_utf8(a@),
            t == encode_utf8(b@),
            i <= s.len(),
            i <= t.len(),
            bytes_before(s, t) == bytes_before(
                s.subrange(i as int, s.len() as int),
                t.subrange(i as int, t.len() as int),
            ),
        decreases s.len() - i,
    {
        let ghost u = s.subrange(i as int, s.len() as int);
        let ghost v = t.subrange(i as int, t.len() as int);
        assert(u[0] == s[i as int] && v[0] == t[i as int]);
        assert(u.subrange(1, u.len() as int) =~= s.subrange(i + 1, s.len() as int));
        assert(v.subrange(1, v.len() as int) =~= t.subrange(i + 1, t.len() as int));
        if x[i] != y[i] {
            return x[i] < y[i];
        }
        i = i + 1;
    }
    i < y.len()
}

/// Whether `text` is one of the strings of `list`.
pub fn one_of(text: &str, list: &[&str]) -> (r: bool)
    ensures
        r == texts(list@).contains(text@),
{
    let mut i: usize = 0;
    while i < list.len()
        invariant
            i <= list.len(),
            forall|j: int| 0 <= j < i ==> #[trigger] list@[j]@ != text@,
        decreases list.len() - i,
    {
        if same(list[i], text) {
            assert(texts(list@)[i as int] == text@);
            return true;
        }
        i = i + 1;
    }
    assert(!texts(list@).contains(text@)) by {
        if texts(list@).contains(text@) {
            let j = choose|j: int| 0 <= j < texts(list@).len() && texts(list@)[j] == text@;
            assert(list@[j]@ == text@);
        }
    }
    false
}

/// The two strings, one after the other.
pub fn cat(a: &str, b: &str) -> (r: String)
    ensures
        r@ == a@ + b@,
{
    let mut s = String::new();
    s.push_str(a);
    s.push_str(b);
    assert(s@ =~= a@ + b@);
    s
}

/// The three strings, one after the other.
pub fn cat3(a: &str, b: &str, c: &str) -> (r: String)
    ensures
        r@ == a@ + b@ + c@,
{
    let mut s = cat(a, b);
    s.push_str(c);
    s
}

/// An owned copy of an optional string slice.
pub fn own(o: Option<&str>) -> (r: Option<String>)
    ensures
        opt_text(r) == opt_str(o),
{
    match o {
        Some(s) => Some(s.to_owned()),
        None => None,
    }
}

/// The borrowed form of an optional string.
pub fn borrow(o: &Option<String>) -> (r: Option<&str>)
    ensures
        opt_str(r) == opt_text(*o),
{
    match o {
        Some(s) => Some(s.as_str()),
        None => None,
    }
}

/// A copy of a list of strings.
pub fn copy_strings(list: &Vec<String>) -> (r: Vec<String>)
    ensures
        strings(r@) == strings(list@),
{
    let mut out: Vec<String> = Vec::new();
    let mut i: usize = 0;
    while i < list.len()
        invariant
            i <= list.len(),
            out.len() == i,
            forall|j: int| 0 <= j < i ==> #[trigger] out@[j]@ == list@[j]@,
        decreases list.len() - i,
    {
        out.push(list[i].clone());
        i = i + 1;
    }
    assert(strings(out@) =~= strings(list@));
    out
}

/// The strings of `parts`, one after the other, with `between` between two neighbours.
pub open spec fn joined(parts: Seq<Seq<char>>, between: Seq<char>) -> Seq<char>
    decreases parts.len(),
{
    if parts.len() == 0 {
        Seq::empty()
    } else if parts.len() == 1 {
        parts[0]
    } else {
        joined(parts.drop_last(), between) + between + parts.last()
    }
}

/// Joins `parts` with `between`.
pub fn join(parts: &Vec<String>, between: &str) -> (r: String)
    ensures
        r@ == joined(strings(parts@), between@),
{
    let mut out = String::new();
    let mut i: usize = 0;
    let ghost all = strings(parts@);
    assert(all.take(0) =~= Seq::empty());
    while i < parts.len()
        invariant
            i <= parts.len(),
            all == strings(parts@),
            out@ == joined(all.take(i as int), between@),
        decreases parts.len() - i,
    {
        assert(all.take(i + 1).drop_last() =~= all.take(i as int));
        assert(all.take(i + 1).last() == parts@[i as int]@);
        if i > 0 {
            out.push_str(between);
        }
        out.push_str(parts[i].as_str());
        if i == 0 {
            assert(out@ =~= parts@[0]@);
        }
        i = i + 1;
    }
    assert(all.take(i as int) =~= all);
    out
}

/// The position of the first `c` in `s`; the length where there is none.
pub open spec fn first_of(s: Seq<char>, c: char) -> int
    decreases s.len(),
{
    if s.len() == 0 {
        0
    } else if s[0] == c {
        0
    } else {
        1 + first_of(s.subrange(1, s.len() as int), c)
    }
}

/// `first_of` is the one position that its words say.
pub proof fn first_of_is(s: Seq<char>, c: char, n: int)
    requires
        0 <= n <= s.len(),
        forall|i: int| 0 <= i < n ==> s[i] != c,
        n < s.len() ==> s[n] == c,
    ensures
        first_of(s, c) == n,
    decreases n,
{
    if n > 0 {
        let t = s.subrange(1, s.len() as int);
        assert forall|i: int| 0 <= i < n - 1 implies t[i] != c by {
            assert(t[i] == s[i + 1]);
        }
        first_of_is(t, c, n - 1);
    }
}

/// What `first_of` gives.
pub proof fn first_of_holds(s: Seq<char>, c: char)
    ensures
        0 <= first_of(s, c) <= s.len(),
        forall|i: int| 0 <= i < first_of(s, c) ==> s[i] != c,
        first_of(s, c) < s.len() ==> s[first_of(s, c)] == c,
    decreases s.len(),
{
    if s.len() > 0 && s[0] != c {
        let t = s.subrange(1, s.len() as int);
        first_of_holds(t, c);
        assert forall|i: int| 0 <= i < first_of(s, c) implies s[i] != c by {
            if i > 0 {
                assert(t[i - 1] == s[i]);
            }
        }
    }
}

/// The characters of a string, as a list.
pub fn chars(s: &str) -> (r: Vec<char>)
    ensures
        r@ == s@,
{
    let mut out: Vec<char> = Vec::new();
    for c in it: s.chars()
        invariant
            it.seq() == s@,
            out@ == s@.take(it.index() as int),
    {
        out.push(c);
    }
    assert(s@.take(s@.len() as int) =~= s@);
    out
}

/// The string of the characters at `from` up to `to`.
pub fn slice(list: &[char], from: usize, to: usize) -> (r: String)
    requires
        from <= to <= list@.len(),
    ensures
        r@ == list@.subrange(from as int, to as int),
{
    let mut out = String::new();
    let mut i: usize = from;
    while i < to
        invariant
            from <= i <= to <= list@.len(),
            out@ == list@.subrange(from as int, i as int),
        decreases to - i,
    {
        out.push(list[i]);
        assert(list@.subrange(from as int, i + 1) =~= list@.subrange(from as int, i as int).push(
            list@[i as int],
        ));
        i = i + 1;
    }
    out
}

/// The position of the first `c` at `from` or later; the length where there is none.
pub fn find(list: &[char], from: usize, c: char) -> (r: usize)
    requires
        from <= list@.len(),
    ensures
        from <= r <= list@.len(),
        r - from == first_of(list@.subrange(from as int, list@.len() as int), c),
        forall|i: int| from <= i < r ==> list@[i] != c,
        r < list@.len() ==> list@[r as int] == c,
{
    let mut i: usize = from;
    while i < list.len() && list[i] != c
        invariant
            from <= i <= list@.len(),
            forall|j: int| from <= j < i ==> list@[j] != c,
        decreases list@.len() - i,
    {
        i = i + 1;
    }
    proof {
        let s = list@.subrange(from as int, list@.len() as int);
        assert forall|j: int| 0 <= j < i - from implies s[j] != c by {
            assert(list@[from + j] != c);
        }
        first_of_is(s, c, i - from);
    }
    i
}

/// The digit of a number below ten.
pub open spec fn digit(n: int) -> char {
    ((48 + n) as u8) as char
}

/// The decimal text of a number.
pub open spec fn decimal_text(n: nat) -> Seq<char>
    decreases n,
{
    if n < 10 {
        seq![digit(n as int)]
    } else {
        decimal_text(n / 10).push(digit((n % 10) as int))
    }
}

/// The decimal text of a number.
pub fn decimal(n: u64) -> (r: String)
    ensures
        r@ == decimal_text(n as nat),
    decreases n,
{
    let last = (48u8 + (n % 10) as u8) as char;
    if n < 10 {
        let mut s = String::new();
        s.push(last);
        assert(s@ =~= decimal_text(n as nat));
        s
    } else {
        let mut s = decimal(n / 10);
        s.push(last);
        s
    }
}

/// The value of a digit.
pub open spec fn digit_value(c: char) -> Option<nat> {
    if '0' <= c && c <= '9' {
        Some((c as u32 - 48) as nat)
    } else {
        None
    }
}

/// The number that digits stand for; nothing where one of them is no digit.
pub open spec fn digits_value(s: Seq<char>) -> Option<nat>
    decreases s.len(),
{
    if s.len() == 0 {
        Some(0)
    } else {
        match (digits_value(s.drop_last()), digit_value(s.last())) {
            (Some(n), Some(d)) => Some(n * 10 + d),
            _ => None,
        }
    }
}

/// The number that a text stands for: digits, at least one, after an optional plus sign, and no
/// number above the largest of 64 bits.
pub open spec fn u64_value(s: Seq<char>) -> Option<u64> {
    let digits = if s.len() > 0 && s[0] == '+' {
        s.subrange(1, s.len() as int)
    } else {
        s
    };
    if digits.len() == 0 {
        None
    } else {
        match digits_value(digits) {
            Some(n) => if n <= u64::MAX {
                Some(n as u64)
            } else {
                None
            },
            None => None,
        }
    }
}

proof fn digits_value_grows(s: Seq<char>, i: int)
    requires
        0 <= i <= s.len(),
    ensures
        digits_value(s.take(i)) is None ==> digits_value(s) is None,
        digits_value(s) is Some ==> digits_value(s.take(i)) is Some && digits_value(
            s.take(i),
        )->Some_0 <= digits_value(s)->Some_0,
    decreases s.len() - i,
{
    if i < s.len() {
        assert(s.take(i + 1).drop_last() =~= s.take(i));
        digits_value_grows(s, i + 1);
    } else {
        assert(s.take(i) =~= s);
    }
}

/// The number that a text stands for.
pub fn parse_u64(text: &str) -> (r: Option<u64>)
    ensures
        r == u64_value(text@),
{
    let list = chars(text);
    let start: usize = if list.len() > 0 && list[0] == '+' {
        1
    } else {
        0
    };
    let ghost digits = if start == 1 {
        text@.subrange(1, text@.len() as int)
    } else {
        text@
    };
    assert(digits =~= list@.subrange(start as int, list@.len() as int));
    if start == list.len() {
        return None;
    }
    let mut value: u64 = 0;
    let mut i: usize = start;
    assert(digits.take(0) =~= Seq::empty());
    while i < list.len()
        invariant
            start <= i <= list@.len(),
            list@ == text@,
            digits == list@.subrange(start as int, list@.len() as int),
            digits_value(digits.take(i - start)) == Some(value as nat),
            start < list@.len(),
            u64_value(text@) == (match digits_value(digits) {
                Some(n) => if n <= u64::MAX {
                    Some(n as u64)
                } else {
                    None
                },
                None => None,
            }),
        decreases list@.len() - i,
    {
        let c = list[i];
        proof {
            assert(digits.take(i + 1 - start).drop_last() =~= digits.take(i - start));
            assert(digits.take(i + 1 - start).last() == c);
            digits_value_grows(digits, i + 1 - start);
        }
        if c < '0' || c > '9' {
            return None;
        }
        let d = (c as u32 - 48) as u64;
        if value > (u64::MAX - d) / 10 {
            return None;
        }
        value = value * 10 + d;
        i = i + 1;
    }
    assert(digits.take(i - start) =~= digits);
    Some(value)
}

/// Whether `text` starts with `prefix`.
pub fn starts_with(text: &str, prefix: &str) -> (r: bool)
    ensures
        r == prefix@.is_prefix_of(text@),
{
    let a = chars(text);
    let b = chars(prefix);
    if b.len() > a.len() {
        return false;
    }
    let mut i: usize = 0;
    while i < b.len()
        invariant
            i <= b@.len() <= a@.len(),
            a@ == text@,
            b@ == prefix@,
            forall|j: int| 0 <= j < i ==> a@[j] == b@[j],
        decreases b@.len() - i,
    {
        if a[i] != b[i] {
            assert(text@.subrange(0, prefix@.len() as int)[i as int] != prefix@[i as int]);
            return false;
        }
        i = i + 1;
    }
    assert(prefix@ =~= text@.subrange(0, prefix@.len() as int));
    true
}

/// The text, or `other` where there is none.
pub open spec fn or_text(o: Option<Seq<char>>, other: Seq<char>) -> Seq<char> {
    match o {
        Some(s) => s,
        None => other,
    }
}

/// The first of two texts that is there.
pub open spec fn either(a: Option<Seq<char>>, b: Option<Seq<char>>) -> Option<Seq<char>> {
    match a {
        Some(s) => Some(s),
        None => b,
    }
}

/// Whether a character is white space, by its `White_Space` property in Unicode.
pub open spec fn is_space(c: char) -> bool {
    let n = c as u32;
    (9 <= n <= 13) || n == 0x20 || n == 0x85 || n == 0xa0 || n == 0x1680 || (0x2000 <= n <= 0x200a)
        || n == 0x2028 || n == 0x2029 || n == 0x202f || n == 0x205f || n == 0x3000
}

/// Whether a character is white space.
pub fn space(c: char) -> (r: bool)
    ensures
        r == is_space(c),
{
    let n = c as u32;
    (9 <= n && n <= 13) || n == 0x20 || n == 0x85 || n == 0xa0 || n == 0x1680 || (0x2000 <= n && n
        <= 0x200a) || n == 0x2028 || n == 0x2029 || n == 0x202f || n == 0x205f || n == 0x3000
}

/// The text without the white space at its start.
pub open spec fn trimmed_start(s: Seq<char>) -> Seq<char>
    decreases s.len(),
{
    if s.len() > 0 && is_space(s[0]) {
        trimmed_start(s.subrange(1, s.len() as int))
    } else {
        s
    }
}

/// The text without the white space at its end.
pub open spec fn trimmed_end(s: Seq<char>) -> Seq<char>
    decreases s.len(),
{
    if s.len() > 0 && is_space(s.last()) {
        trimmed_end(s.drop_last())
    } else {
        s
    }
}

/// The text without the white space at its start and its end.
pub open spec fn trimmed(s: Seq<char>) -> Seq<char> {
    trimmed_end(trimmed_start(s))
}

/// The text without the white space at its start and its end.
pub fn trim(text: &str) -> (r: String)
    ensures
        r@ == trimmed(text@),
{
    let list = chars(text);
    let ghost s = text@;
    let mut from: usize = 0;
    assert(s.subrange(0, s.len() as int) =~= s);
    while from < list.len() && space(list[from])
        invariant
            list@ == s,
            from <= s.len(),
            trimmed_start(s) == trimmed_start(s.subrange(from as int, s.len() as int)),
        decreases s.len() - from,
    {
        let ghost t = s.subrange(from as int, s.len() as int);
        assert(t.subrange(1, t.len() as int) =~= s.subrange(from + 1, s.len() as int));
        from = from + 1;
    }
    let ghost t = s.subrange(from as int, s.len() as int);
    assert(trimmed_start(s) == t);
    let mut to: usize = list.len();
    assert(t =~= s.subrange(from as int, to as int));
    while to > from && space(list[to - 1])
        invariant
            list@ == s,
            from <= to <= s.len(),
            trimmed_end(t) == trimmed_end(s.subrange(from as int, to as int)),
        decreases to,
    {
        let ghost u = s.subrange(from as int, to as int);
        assert(u.drop_last() =~= s.subrange(from as int, to - 1));
        to = to - 1;
    }
    slice(list.as_slice(), from, to)
}

/// The position of the first `pat` in `s`.
pub open spec fn first_match(s: Seq<char>, pat: Seq<char>) -> Option<int>
    decreases s.len(),
{
    if pat.is_prefix_of(s) {
        Some(0)
    } else if s.len() == 0 {
        None
    } else {
        match first_match(s.subrange(1, s.len() as int), pat) {
            Some(n) => Some(n + 1),
            None => None,
        }
    }
}

/// What stands before and after the first `pat`.
pub open spec fn split_once(s: Seq<char>, pat: Seq<char>) -> Option<(Seq<char>, Seq<char>)> {
    match first_match(s, pat) {
        Some(n) => Some((s.take(n), s.skip(n + pat.len()))),
        None => None,
    }
}

/// A match lies within the text.
pub proof fn first_match_within(s: Seq<char>, pat: Seq<char>)
    ensures
        first_match(s, pat) matches Some(n) ==> 0 <= n && n + pat.len() <= s.len(),
    decreases s.len(),
{
    if !pat.is_prefix_of(s) && s.len() > 0 {
        first_match_within(s.subrange(1, s.len() as int), pat);
    }
}

/// Whether `pat` stands at `at`.
fn stands_at(list: &Vec<char>, at: usize, pat: &Vec<char>) -> (r: bool)
    requires
        at <= list@.len(),
    ensures
        r == pat@.is_prefix_of(list@.subrange(at as int, list@.len() as int)),
        r ==> at + pat@.len() <= list@.len() <= usize::MAX,
{
    let ghost rest = list@.subrange(at as int, list@.len() as int);
    if list.len() - at < pat.len() {
        return false;
    }
    let mut i: usize = 0;
    while i < pat.len()
        invariant
            rest == list@.subrange(at as int, list@.len() as int),
            i <= pat@.len(),
            at + pat.len() <= list.len(),
            forall|j: int| 0 <= j < i ==> rest[j] == pat@[j],
        decreases pat@.len() - i,
    {
        if list[at + i] != pat[i] {
            assert(rest.subrange(0, pat@.len() as int)[i as int] != pat@[i as int]);
            return false;
        }
        i = i + 1;
    }
    assert(pat@ =~= rest.subrange(0, pat@.len() as int));
    true
}

/// What stands before and after the first `pat`.
pub fn split_text(text: &str, pat: &str) -> (r: Option<(String, String)>)
    ensures
        match r {
            Some((a, b)) => split_once(text@, pat@) == Some((a@, b@)),
            None => split_once(text@, pat@) is None,
        },
{
    let list = chars(text);
    let wanted = chars(pat);
    let ghost s = text@;
    let mut i: usize = 0;
    assert(s.subrange(0, s.len() as int) =~= s);
    loop
        invariant
            list@ == s,
            s == text@,
            wanted@ == pat@,
            i <= s.len(),
            first_match(s, pat@) == (match first_match(
                s.subrange(i as int, s.len() as int),
                pat@,
            ) {
                Some(n) => Some(n + i),
                None => None,
            }),
        decreases s.len() - i,
    {
        let ghost rest = s.subrange(i as int, s.len() as int);
        if stands_at(&list, i, &wanted) {
            let end = i + wanted.len();
            let before = slice(list.as_slice(), 0, i);
            let after = slice(list.as_slice(), end, list.len());
            assert(before@ =~= s.take(i as int));
            assert(after@ =~= s.skip(end as int));
            return Some((before, after));
        }
        if i == list.len() {
            return None;
        }
        assert(rest.subrange(1, rest.len() as int) =~= s.subrange(i + 1, s.len() as int));
        i = i + 1;
    }
}

/// `s` without `prefix` at its start.
pub open spec fn strip_prefix(s: Seq<char>, prefix: Seq<char>) -> Option<Seq<char>> {
    if prefix.is_prefix_of(s) {
        Some(s.skip(prefix.len() as int))
    } else {
        None
    }
}

/// The text without `prefix` at its start.
pub fn without_prefix(text: &str, prefix: &str) -> (r: Option<String>)
    ensures
        opt_text(r) == strip_prefix(text@, prefix@),
{
    let list = chars(text);
    let head = chars(prefix);
    assert(list@.subrange(0, list@.len() as int) =~= list@);
    if stands_at(&list, 0, &head) {
        let rest = slice(list.as_slice(), head.len(), list.len());
        assert(rest@ =~= text@.skip(prefix@.len() as int));
        Some(rest)
    } else {
        None
    }
}

/// Whether `pat` stands somewhere in `s`.
pub open spec fn contains_text(s: Seq<char>, pat: Seq<char>) -> bool {
    first_match(s, pat) is Some
}

/// Whether `pat` stands somewhere in the text.
pub fn contains(text: &str, pat: &str) -> (r: bool)
    ensures
        r == contains_text(text@, pat@),
{
    match split_text(text, pat) {
        Some(_) => true,
        None => false,
    }
}

/// Whether `text` ends with `suffix`.
pub fn ends_with(text: &str, suffix: &str) -> (r: bool)
    ensures
        r == suffix@.is_suffix_of(text@),
{
    let a = chars(text);
    let b = chars(suffix);
    if b.len() > a.len() {
        return false;
    }
    let at = a.len() - b.len();
    let ghost tail = text@.subrange(at as int, text@.len() as int);
    if stands_at(&a, at, &b) {
        assert(tail =~= suffix@);
        true
    } else {
        assert(!suffix@.is_suffix_of(text@)) by {
            if suffix@.is_suffix_of(text@) {
                assert(suffix@ =~= tail);
                assert(suffix@ =~= tail.subrange(0, suffix@.len() as int));
            }
        }
        false
    }
}

/// The text without every `c` at its end.
pub open spec fn without_end(s: Seq<char>, c: char) -> Seq<char>
    decreases s.len(),
{
    if s.len() > 0 && s.last() == c {
        without_end(s.drop_last(), c)
    } else {
        s
    }
}

/// The text without every `c` at its end.
pub fn trim_end(text: &str, c: char) -> (r: String)
    ensures
        r@ == without_end(text@, c),
{
    let list = chars(text);
    let ghost s = text@;
    let mut to: usize = list.len();
    assert(s.take(to as int) =~= s);
    while to > 0 && list[to - 1] == c
        invariant
            list@ == s,
            to <= s.len(),
            without_end(s, c) == without_end(s.take(to as int), c),
        decreases to,
    {
        assert(s.take(to as int).drop_last() =~= s.take(to - 1));
        to = to - 1;
    }
    assert(s.subrange(0, to as int) =~= s.take(to as int));
    slice(list.as_slice(), 0, to)
}

/// The lower-case form of an ASCII letter; any other character as it is.
pub open spec fn lower_char(c: char) -> char {
    if 'A' <= c && c <= 'Z' {
        ((c as u8) + 32u8) as u8 as char
    } else {
        c
    }
}

/// The text with each ASCII letter in its lower-case form.
pub open spec fn lower_text(s: Seq<char>) -> Seq<char> {
    s.map_values(|c: char| lower_char(c))
}

/// The text with each ASCII letter in its lower-case form.
pub fn lower(text: &str) -> (r: String)
    ensures
        r@ == lower_text(text@),
{
    let list = chars(text);
    let mut out = String::new();
    let mut i: usize = 0;
    assert(out@ =~= lower_text(text@.take(0)));
    while i < list.len()
        invariant
            list@ == text@,
            i <= list@.len(),
            out@ == lower_text(text@.take(i as int)),
        decreases list@.len() - i,
    {
        let c = list[i];
        if 'A' <= c && c <= 'Z' {
            out.push((c as u8 + 32) as char);
        } else {
            out.push(c);
        }
        assert(out@ =~= lower_text(text@.take(i + 1)));
        i = i + 1;
    }
    assert(text@.take(i as int) =~= text@);
    out
}

/// The first `n` characters of a text, or all where there are fewer.
pub open spec fn head(s: Seq<char>, n: int) -> Seq<char> {
    if s.len() <= n {
        s
    } else {
        s.take(n)
    }
}

/// The first `n` characters of a text, or all where there are fewer.
pub fn first_chars(text: &str, n: usize) -> (r: String)
    ensures
        r@ == head(text@, n as int),
{
    let list = chars(text);
    let to = if list.len() <= n {
        list.len()
    } else {
        n
    };
    let r = slice(list.as_slice(), 0, to);
    assert(r@ =~= head(text@, n as int));
    r
}

} // verus!
