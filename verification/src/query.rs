//! The boundary to `url::form_urlencoded`: the pairs of a query.

use crate::text::{one_of, opt_str, opt_text, same, texts};
use vstd::prelude::*;

verus! {

/// The pairs that `url::form_urlencoded::parse` reads from a text.
pub uninterp spec fn form_pairs(query: Seq<char>) -> Seq<(Seq<char>, Seq<char>)>;

/// The text that `url::form_urlencoded::Serializer` writes pairs as.
pub uninterp spec fn form_text(pairs: Seq<(Seq<char>, Seq<char>)>) -> Seq<char>;

/// The characters of each pair.
pub open spec fn pair_texts(s: Seq<(String, String)>) -> Seq<(Seq<char>, Seq<char>)> {
    Seq::new(s.len(), |i: int| (s[i].0@, s[i].1@))
}

/// `url::form_urlencoded::parse` of the bytes of a text: its pairs, decoded, in their order.
#[verifier::external_body]
pub(crate) fn parse_pairs(query: &str) -> (r: Vec<(String, String)>)
    ensures
        pair_texts(r@) == form_pairs(query@),
{
    url::form_urlencoded::parse(query.as_bytes()).into_owned().collect()
}

/// `url::form_urlencoded::Serializer`, with `extend_pairs` and `finish` on an empty string. Each
/// name and each value is percent-encoded, so that `parse` reads the same pairs from it.
#[verifier::external_body]
pub(crate) fn write_pairs(pairs: &Vec<(String, String)>) -> (r: String)
    ensures
        r@ == form_text(pair_texts(pairs@)),
        form_pairs(r@) == pair_texts(pairs@),
{
    let mut serializer = url::form_urlencoded::Serializer::new(String::new());
    serializer.extend_pairs(pairs);
    serializer.finish()
}

/// The value of the first pair of a name.
pub open spec fn first_value(pairs: Seq<(Seq<char>, Seq<char>)>, name: Seq<char>) -> Option<
    Seq<char>,
>
    decreases pairs.len(),
{
    if pairs.len() == 0 {
        None
    } else {
        match first_value(pairs.drop_last(), name) {
            Some(value) => Some(value),
            None => if pairs.last().0 == name {
                Some(pairs.last().1)
            } else {
                None
            },
        }
    }
}

proof fn first_value_stays(pairs: Seq<(Seq<char>, Seq<char>)>, name: Seq<char>, n: int)
    requires
        0 <= n <= pairs.len(),
        first_value(pairs.take(n), name) is Some,
    ensures
        first_value(pairs, name) == first_value(pairs.take(n), name),
    decreases pairs.len() - n,
{
    if n < pairs.len() {
        assert(pairs.take(n + 1).drop_last() =~= pairs.take(n));
        first_value_stays(pairs, name, n + 1);
    } else {
        assert(pairs.take(n) =~= pairs);
    }
}

/// The value of the first pair of a name.
pub fn pair_value(pairs: &Vec<(String, String)>, name: &str) -> (r: Option<String>)
    ensures
        opt_text(r) == first_value(pair_texts(pairs@), name@),
{
    let ghost all = pair_texts(pairs@);
    let mut i: usize = 0;
    assert(all.take(0) =~= Seq::empty());
    while i < pairs.len()
        invariant
            all == pair_texts(pairs@),
            i <= pairs@.len(),
            first_value(all.take(i as int), name@) is None,
        decreases pairs@.len() - i,
    {
        assert(all.take(i + 1).drop_last() =~= all.take(i as int));
        assert(all.take(i + 1).last() == all[i as int]);
        if same(pairs[i].0.as_str(), name) {
            proof {
                first_value_stays(all, name@, i + 1);
            }
            return Some(pairs[i].1.clone());
        }
        i = i + 1;
    }
    assert(all.take(i as int) =~= all);
    None
}

/// The value of the first pair of a name in a query.
pub(crate) fn query_value(query: &str, name: &str) -> (r: Option<String>)
    ensures
        opt_text(r) == first_value(form_pairs(query@), name@),
{
    pair_value(&parse_pairs(query), name)
}

/// Whether a value is the wanted one: `value` or, where none is given, any but the empty one.
pub open spec fn is_wanted(given: Seq<char>, value: Option<Seq<char>>) -> bool {
    match value {
        Some(value) => given == value,
        None => given.len() > 0,
    }
}

/// Whether a pair of a name has the wanted value.
pub open spec fn has_pair(
    pairs: Seq<(Seq<char>, Seq<char>)>,
    name: Seq<char>,
    value: Option<Seq<char>>,
) -> bool {
    exists|i: int|
        0 <= i < pairs.len() && (#[trigger] pairs[i]).0 == name && is_wanted(pairs[i].1, value)
}

/// Whether a pair of a name has the value `value` or, where none is given, any but the empty one.
pub fn any_pair(pairs: &Vec<(String, String)>, name: &str, value: Option<&str>) -> (r: bool)
    ensures
        r == has_pair(pair_texts(pairs@), name@, opt_str(value)),
{
    let ghost all = pair_texts(pairs@);
    let mut i: usize = 0;
    while i < pairs.len()
        invariant
            all == pair_texts(pairs@),
            i <= pairs@.len(),
            forall|j: int|
                0 <= j < i ==> !((#[trigger] all[j]).0 == name@ && is_wanted(
                    all[j].1,
                    opt_str(value),
                )),
        decreases pairs@.len() - i,
    {
        assert(all[i as int] == (pairs@[i as int].0@, pairs@[i as int].1@));
        let given = pairs[i].1.as_str();
        let wanted = match value {
            Some(value) => same(given, value),
            None => {
                proof {
                    reveal_strlit("");
                    assert(given@.len() == 0 ==> given@ =~= ""@);
                }
                !same(given, "")
            },
        };
        if wanted && same(pairs[i].0.as_str(), name) {
            return true;
        }
        i = i + 1;
    }
    false
}

/// The pairs whose names are none of `names`.
pub open spec fn pairs_without(
    pairs: Seq<(Seq<char>, Seq<char>)>,
    names: Seq<Seq<char>>,
) -> Seq<(Seq<char>, Seq<char>)>
    decreases pairs.len(),
{
    if pairs.len() == 0 {
        Seq::empty()
    } else {
        let front = pairs_without(pairs.drop_last(), names);
        if names.contains(pairs.last().0) {
            front
        } else {
            front.push(pairs.last())
        }
    }
}

/// The pairs whose names are none of `names`.
pub fn drop_names(pairs: &Vec<(String, String)>, names: &[&str]) -> (r: Vec<(String, String)>)
    ensures
        pair_texts(r@) == pairs_without(pair_texts(pairs@), texts(names@)),
{
    let ghost all = pair_texts(pairs@);
    let ghost left = texts(names@);
    let mut out: Vec<(String, String)> = Vec::new();
    let mut i: usize = 0;
    assert(all.take(0) =~= Seq::empty());
    assert(pair_texts(out@) =~= Seq::empty());
    while i < pairs.len()
        invariant
            all == pair_texts(pairs@),
            left == texts(names@),
            i <= pairs@.len(),
            pair_texts(out@) == pairs_without(all.take(i as int), left),
        decreases pairs@.len() - i,
    {
        assert(all.take(i + 1).drop_last() =~= all.take(i as int));
        assert(all.take(i + 1).last() == all[i as int]);
        let ghost before = pair_texts(out@);
        if !one_of(pairs[i].0.as_str(), names) {
            out.push((pairs[i].0.clone(), pairs[i].1.clone()));
            assert(pair_texts(out@) =~= before.push(all[i as int]));
        }
        i = i + 1;
    }
    assert(all.take(i as int) =~= all);
    out
}

/// The pairs of a query whose names are none of `names`.
pub(crate) fn query_without(query: &str, names: &[&str]) -> (r: Vec<(String, String)>)
    ensures
        pair_texts(r@) == pairs_without(form_pairs(query@), texts(names@)),
{
    drop_names(&parse_pairs(query), names)
}

/// None of the names is left.
pub proof fn pairs_without_names(
    pairs: Seq<(Seq<char>, Seq<char>)>,
    names: Seq<Seq<char>>,
)
    ensures
        forall|i: int|
            0 <= i < pairs_without(pairs, names).len() ==> !names.contains(
                (#[trigger] pairs_without(pairs, names)[i]).0,
            ),
    decreases pairs.len(),
{
    if pairs.len() > 0 {
        pairs_without_names(pairs.drop_last(), names);
        let front = pairs_without(pairs.drop_last(), names);
        let r = pairs_without(pairs, names);
        assert forall|i: int| 0 <= i < r.len() implies !names.contains((#[trigger] r[i]).0) by {
            if i < front.len() {
                assert(r[i] == front[i]);
            }
        }
    }
}

} // verus!
