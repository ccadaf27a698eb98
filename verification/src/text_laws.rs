//! What holds of the operations on texts.

use crate::text::{
    contains_text, first_match, head, is_space, joined, lower_char, lower_text, split_once,
    strip_prefix, trimmed, trimmed_end, trimmed_start, without_end,
};
use vstd::prelude::*;

verus! {

/// Whether each character of a text is white space.
pub open spec fn all_space(s: Seq<char>) -> bool {
    forall|i: int| 0 <= i < s.len() ==> is_space(#[trigger] s[i])
}

/// Whether each character of a text is `c`.
pub open spec fn all_are(s: Seq<char>, c: char) -> bool {
    forall|i: int| 0 <= i < s.len() ==> #[trigger] s[i] == c
}

proof fn start_trimmed(s: Seq<char>) -> (cut: Seq<char>)
    ensures
        s == cut + trimmed_start(s),
        all_space(cut),
        trimmed_start(s).len() > 0 ==> !is_space(trimmed_start(s)[0]),
    decreases s.len(),
{
    if s.len() > 0 && is_space(s[0]) {
        let rest = s.subrange(1, s.len() as int);
        let cut = start_trimmed(rest);
        let all = seq![s[0]] + cut;
        assert(s =~= seq![s[0]] + rest);
        assert(seq![s[0]] + (cut + trimmed_start(rest)) =~= all + trimmed_start(rest));
        all
    } else {
        assert(s =~= Seq::<char>::empty() + s);
        Seq::empty()
    }
}

proof fn end_trimmed(s: Seq<char>) -> (cut: Seq<char>)
    ensures
        s == trimmed_end(s) + cut,
        all_space(cut),
        trimmed_end(s).len() > 0 ==> !is_space(trimmed_end(s).last()),
    decreases s.len(),
{
    if s.len() > 0 && is_space(s.last()) {
        let cut = end_trimmed(s.drop_last());
        let all = cut.push(s.last());
        let front = s.drop_last();
        assert(s =~= front.push(s.last()));
        assert((trimmed_end(front) + cut).push(s.last()) =~= trimmed_end(front) + all);
        all
    } else {
        assert(s =~= s + Seq::<char>::empty());
        Seq::empty()
    }
}

/// What is cut off a text at its ends is white space, all of it and nothing else.
pub proof fn trimming_cuts_space(s: Seq<char>)
    ensures
        exists|before: Seq<char>, after: Seq<char>|
            s == #[trigger] (before + trimmed(s) + after) && all_space(before) && all_space(after),
        trimmed(s).len() > 0 ==> !is_space(trimmed(s)[0]) && !is_space(trimmed(s).last()),
        trimmed(trimmed(s)) == trimmed(s),
{
    let before = start_trimmed(s);
    let t = trimmed_start(s);
    let after = end_trimmed(t);
    assert(s =~= before + trimmed(s) + after);
    if trimmed(s).len() > 0 {
        assert(t[0] == trimmed(s)[0]);
    }
    let r = trimmed(s);
    assert(trimmed_start(r) == r);
    assert(trimmed_end(r) == r);
}

/// What is cut off the end of a text is the given character alone, and all of it.
pub proof fn ends_are_cut(s: Seq<char>, c: char)
    ensures
        without_end(s, c).is_prefix_of(s),
        all_are(s.skip(without_end(s, c).len() as int), c),
        without_end(s, c).len() > 0 ==> without_end(s, c).last() != c,
    decreases s.len(),
{
    if s.len() > 0 && s.last() == c {
        ends_are_cut(s.drop_last(), c);
        let r = without_end(s, c);
        let front = s.drop_last().skip(r.len() as int);
        assert(s.skip(r.len() as int) =~= front.push(c));
        assert forall|i: int| 0 <= i < s.skip(r.len() as int).len() implies #[trigger] s.skip(
            r.len() as int,
        )[i] == c by {
            if i < front.len() {
                assert(front[i] == c);
            }
        }
    }
}

proof fn matches_first(s: Seq<char>, mark: Seq<char>)
    ensures
        first_match(s, mark) matches Some(n) ==> 0 <= n <= s.len() && mark.is_prefix_of(s.skip(n))
            && forall|i: int| 0 <= i < n ==> !mark.is_prefix_of(#[trigger] s.skip(i)),
        first_match(s, mark) is None ==> forall|i: int|
            0 <= i <= s.len() ==> !mark.is_prefix_of(#[trigger] s.skip(i)),
    decreases s.len(),
{
    assert(s.skip(0) =~= s);
    if !mark.is_prefix_of(s) && s.len() > 0 {
        let t = s.subrange(1, s.len() as int);
        matches_first(t, mark);
        assert forall|i: int| 1 <= i <= s.len() implies #[trigger] s.skip(i) == t.skip(i - 1) by {
            assert(s.skip(i) =~= t.skip(i - 1));
        }
    }
}

/// A text is split at the first place where the mark stands, and nothing of it is lost.
pub proof fn splits_at_the_first(s: Seq<char>, mark: Seq<char>)
    ensures
        split_once(s, mark) matches Some((before, after)) ==> s == before + mark + after,
        split_once(s, mark) matches Some((before, _)) ==> forall|i: int|
            0 <= i < before.len() ==> !mark.is_prefix_of(#[trigger] s.skip(i)),
        split_once(s, mark) is None ==> forall|i: int|
            0 <= i <= s.len() ==> !mark.is_prefix_of(#[trigger] s.skip(i)),
        contains_text(s, mark) == (split_once(s, mark) is Some),
{
    matches_first(s, mark);
    if let Some(n) = first_match(s, mark) {
        let rest = s.skip(n);
        assert(rest.subrange(0, mark.len() as int) == mark);
        assert(s =~= s.take(n) + rest);
        assert(rest =~= mark + rest.skip(mark.len() as int));
        assert(rest.skip(mark.len() as int) =~= s.skip(n + mark.len()));
        assert(s.take(n) + (mark + s.skip(n + mark.len())) =~= s.take(n) + mark + s.skip(
            n + mark.len(),
        ));
    }
}

/// Blanks, tabs and ends of lines are white space; what can be seen in ASCII is not.
pub proof fn what_is_white(c: char)
    ensures
        is_space(' '),
        is_space('\t'),
        is_space('\n'),
        is_space('\r'),
        '!' <= c && c <= '~' ==> !is_space(c),
{
}

/// A text with a prefix is the prefix and the rest.
pub proof fn prefix_and_rest(s: Seq<char>, prefix: Seq<char>)
    ensures
        strip_prefix(s, prefix) matches Some(rest) ==> s == prefix + rest,
        strip_prefix(prefix + s, prefix) == Some(s),
{
    if prefix.is_prefix_of(s) {
        assert(s =~= prefix + s.skip(prefix.len() as int));
    }
    assert(prefix.is_prefix_of(prefix + s));
    assert((prefix + s).skip(prefix.len() as int) =~= s);
}

/// Capital letters become small ones, and nothing else changes.
pub proof fn only_capitals_change(s: Seq<char>, i: int)
    requires
        0 <= i < s.len(),
    ensures
        lower_text(s).len() == s.len(),
        'A' <= s[i] && s[i] <= 'Z' ==> lower_text(s)[i] as int == s[i] as int + 32,
        !('A' <= s[i] && s[i] <= 'Z') ==> lower_text(s)[i] == s[i],
{
    assert(lower_text(s)[i] == lower_char(s[i]));
}

/// The first characters of a text are a prefix of it, as long as asked for or the whole.
pub proof fn first_characters(s: Seq<char>, n: int)
    requires
        n >= 0,
    ensures
        head(s, n).is_prefix_of(s),
        head(s, n).len() == if s.len() <= n {
            s.len() as int
        } else {
            n
        },
{
}

/// Texts that are joined stand there in their order, with the mark between each two.
pub proof fn joined_in_order(parts: Seq<Seq<char>>, between: Seq<char>, last: Seq<char>)
    ensures
        joined(Seq::empty(), between) == Seq::<char>::empty(),
        joined(seq![last], between) == last,
        parts.len() > 0 ==> joined(parts.push(last), between) == joined(parts, between) + between
            + last,
{
    assert(parts.push(last).drop_last() =~= parts);
}

} // verus!
