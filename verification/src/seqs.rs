//! Lists: what they stand for, and conversions of each of their elements.

use crate::adapters::error::{AdapterError, ErrorView};
use crate::adapters::fresh::{ids_at, opt_ids, FreshIds, IdsView};
use vstd::prelude::*;

verus! {

/// What the elements of a list stand for.
pub open spec fn views<T: View>(s: Seq<T>) -> Seq<T::V> {
    Seq::new(s.len(), |i: int| s[i]@)
}

/// What a result stands for.
pub open spec fn outcome<T: View>(r: Result<T, AdapterError>) -> Result<T::V, ErrorView> {
    match r {
        Ok(t) => Ok(t@),
        Err(e) => Err(e@),
    }
}

/// What a result that is a list stands for.
pub open spec fn outcomes<T: View>(r: Result<Vec<T>, AdapterError>) -> Result<
    Seq<T::V>,
    ErrorView,
> {
    match r {
        Ok(list) => Ok(views(list@)),
        Err(e) => Err(e@),
    }
}

/// `f` of each element; where it fails for some, the error of the first of them.
pub open spec fn try_map<A, B>(s: Seq<A>, f: spec_fn(A) -> Result<B, ErrorView>) -> Result<
    Seq<B>,
    ErrorView,
>
    decreases s.len(),
{
    if s.len() == 0 {
        Ok(Seq::empty())
    } else {
        match try_map(s.drop_last(), f) {
            Err(e) => Err(e),
            Ok(done) => match f(s.last()) {
                Err(e) => Err(e),
                Ok(b) => Ok(done.push(b)),
            },
        }
    }
}

/// A failure among the first elements is the failure of the whole.
pub proof fn try_map_fails<A, B>(s: Seq<A>, f: spec_fn(A) -> Result<B, ErrorView>, n: int)
    requires
        0 <= n <= s.len(),
        try_map(s.take(n), f) is Err,
    ensures
        try_map(s, f) == try_map(s.take(n), f),
    decreases s.len() - n,
{
    if n < s.len() {
        assert(s.take(n + 1).drop_last() =~= s.take(n));
        try_map_fails(s, f, n + 1);
    } else {
        assert(s.take(n) =~= s);
    }
}

/// Where `try_map` succeeds, it gives `f` of each element.
pub proof fn try_map_each<A, B>(s: Seq<A>, f: spec_fn(A) -> Result<B, ErrorView>)
    ensures
        try_map(s, f) matches Ok(out) ==> out.len() == s.len() && forall|i: int|
            0 <= i < s.len() ==> f(s[i]) == Ok::<B, ErrorView>(#[trigger] out[i]),
        (forall|i: int| 0 <= i < s.len() ==> #[trigger] f(s[i]) is Ok) ==> try_map(s, f) is Ok,
    decreases s.len(),
{
    if s.len() > 0 {
        try_map_each(s.drop_last(), f);
        assert forall|i: int| 0 <= i < s.len() - 1 implies s.drop_last()[i] == s[i] by {}
        if forall|i: int| 0 <= i < s.len() ==> #[trigger] f(s[i]) is Ok {
            assert forall|i: int| 0 <= i < s.drop_last().len() implies #[trigger] f(
                s.drop_last()[i],
            ) is Ok by {
                assert(f(s[i]) is Ok);
            }
        }
    }
}

/// Converts each element of a list; stops at the first that fails.
pub(crate) fn try_each<T: View, U: View, F: Fn(&T) -> Result<U, AdapterError>>(
    items: &[T],
    f: F,
    Ghost(g): Ghost<spec_fn(T::V) -> Result<U::V, ErrorView>>,
) -> (r: Result<Vec<U>, AdapterError>)
    requires
        forall|x: &T| call_requires(f, (x,)),
        forall|x: &T, r: Result<U, AdapterError>|
            #[trigger] call_ensures(f, (x,), r) ==> outcome(r) == g(x@),
    ensures
        outcomes(r) == try_map(views(items@), g),
{
    let ghost all = views(items@);
    let mut out: Vec<U> = Vec::new();
    let mut i: usize = 0;
    assert(all.take(0) =~= Seq::empty());
    assert(views(out@) =~= Seq::empty());
    while i < items.len()
        invariant
            forall|x: &T| call_requires(f, (x,)),
            forall|x: &T, r: Result<U, AdapterError>|
                #[trigger] call_ensures(f, (x,), r) ==> outcome(r) == g(x@),
            all == views(items@),
            i <= items@.len(),
            try_map(all.take(i as int), g) == Ok::<Seq<U::V>, ErrorView>(views(out@)),
        decreases items@.len() - i,
    {
        let ghost done = views(out@);
        assert(all.take(i + 1).drop_last() =~= all.take(i as int));
        assert(all.take(i + 1).last() == items@[i as int]@);
        match f(&items[i]) {
            Ok(u) => {
                out.push(u);
                assert(views(out@) =~= done.push(u@));
            },
            Err(e) => {
                proof {
                    try_map_fails(all, g, i + 1);
                }
                return Err(e);
            },
        }
        i = i + 1;
    }
    assert(all.take(i as int) =~= all);
    Ok(out)
}

/// Converts each element of a list.
pub(crate) fn map_each<T: View, U: View, F: Fn(&T) -> U>(
    items: &[T],
    f: F,
    Ghost(g): Ghost<spec_fn(T::V) -> U::V>,
) -> (r: Vec<U>)
    requires
        forall|x: &T| call_requires(f, (x,)),
        forall|x: &T, r: U| #[trigger] call_ensures(f, (x,), r) ==> r@ == g(x@),
    ensures
        views(r@) == views(items@).map_values(g),
{
    let mut out: Vec<U> = Vec::new();
    let mut i: usize = 0;
    while i < items.len()
        invariant
            forall|x: &T| call_requires(f, (x,)),
            forall|x: &T, r: U| #[trigger] call_ensures(f, (x,), r) ==> r@ == g(x@),
            i <= items@.len(),
            out@.len() == i,
            forall|j: int| 0 <= j < i ==> (#[trigger] out@[j])@ == g(items@[j]@),
        decreases items@.len() - i,
    {
        out.push(f(&items[i]));
        i = i + 1;
    }
    assert(views(out@) =~= views(items@).map_values(g));
    out
}

/// `f` of each element and the identifiers at its position; where it fails for some, the error of
/// the first of them.
pub open spec fn try_map_ids<A, B>(
    s: Seq<A>,
    ids: IdsView,
    f: spec_fn(A, IdsView) -> Result<B, ErrorView>,
) -> Result<Seq<B>, ErrorView>
    decreases s.len(),
{
    if s.len() == 0 {
        Ok(Seq::empty())
    } else {
        match try_map_ids(s.drop_last(), ids, f) {
            Err(e) => Err(e),
            Ok(done) => match f(s.last(), ids.at(s.len() - 1)) {
                Err(e) => Err(e),
                Ok(b) => Ok(done.push(b)),
            },
        }
    }
}

/// A failure among the first elements is the failure of the whole.
pub proof fn try_map_ids_fails<A, B>(
    s: Seq<A>,
    ids: IdsView,
    f: spec_fn(A, IdsView) -> Result<B, ErrorView>,
    n: int,
)
    requires
        0 <= n <= s.len(),
        try_map_ids(s.take(n), ids, f) is Err,
    ensures
        try_map_ids(s, ids, f) == try_map_ids(s.take(n), ids, f),
    decreases s.len() - n,
{
    if n < s.len() {
        assert(s.take(n + 1).drop_last() =~= s.take(n));
        try_map_ids_fails(s, ids, f, n + 1);
    } else {
        assert(s.take(n) =~= s);
    }
}

/// Converts each element of a list, with the identifiers at its position; stops at the first that
/// fails.
pub(crate) fn try_each_ids<
    T: View,
    U: View,
    F: Fn(&T, Option<&FreshIds>) -> Result<U, AdapterError>,
>(
    items: &[T],
    ids: Option<&FreshIds>,
    f: F,
    Ghost(g): Ghost<spec_fn(T::V, IdsView) -> Result<U::V, ErrorView>>,
) -> (r: Result<Vec<U>, AdapterError>)
    requires
        forall|x: &T, i: Option<&FreshIds>| call_requires(f, (x, i)),
        forall|x: &T, i: Option<&FreshIds>, r: Result<U, AdapterError>| #[trigger]
            call_ensures(f, (x, i), r) ==> outcome(r) == g(x@, opt_ids(i)),
    ensures
        outcomes(r) == try_map_ids(views(items@), opt_ids(ids), g),
{
    let ghost all = views(items@);
    let ghost named = opt_ids(ids);
    let mut out: Vec<U> = Vec::new();
    let mut i: usize = 0;
    assert(all.take(0) =~= Seq::empty());
    assert(views(out@) =~= Seq::empty());
    while i < items.len()
        invariant
            forall|x: &T, i: Option<&FreshIds>| call_requires(f, (x, i)),
            forall|x: &T, i: Option<&FreshIds>, r: Result<U, AdapterError>| #[trigger]
                call_ensures(f, (x, i), r) ==> outcome(r) == g(x@, opt_ids(i)),
            all == views(items@),
            named == opt_ids(ids),
            i <= items@.len(),
            try_map_ids(all.take(i as int), named, g) == Ok::<Seq<U::V>, ErrorView>(views(out@)),
        decreases items@.len() - i,
    {
        let ghost done = views(out@);
        assert(all.take(i + 1).drop_last() =~= all.take(i as int));
        assert(all.take(i + 1).last() == items@[i as int]@);
        match f(&items[i], ids_at(ids, i)) {
            Ok(u) => {
                out.push(u);
                assert(views(out@) =~= done.push(u@));
            },
            Err(e) => {
                proof {
                    try_map_ids_fails(all, named, g, i + 1);
                }
                return Err(e);
            },
        }
        i = i + 1;
    }
    assert(all.take(i as int) =~= all);
    Ok(out)
}

} // verus!
