//! A map from names, kept in the order of the names.

use crate::text::{comes_before, same, text_before, text_before_total_order};
use vstd::prelude::*;

verus! {

/// A map from names, kept in the order of the names.
#[derive(Debug, PartialEq)]
pub struct Named<T> {
    entries: Vec<(String, T)>,
}

spec fn ordered<T>(s: Seq<(String, T)>) -> bool {
    forall|i: int, j: int| 0 <= i < j < s.len() ==> #[trigger] text_before(s[i].0@, s[j].0@)
}

spec fn stands_at<T>(s: Seq<(String, T)>, k: Seq<char>, i: int) -> bool {
    0 <= i < s.len() && s[i].0@ == k
}

spec fn listed<T>(s: Seq<(String, T)>, k: Seq<char>) -> bool {
    exists|i: int| stands_at(s, k, i)
}

spec fn place<T>(s: Seq<(String, T)>, k: Seq<char>) -> int {
    choose|i: int| stands_at(s, k, i)
}

spec fn contents<T: View>(s: Seq<(String, T)>) -> Map<Seq<char>, T::V> {
    Map::new(|k: Seq<char>| listed(s, k), |k: Seq<char>| s[place(s, k)].1@)
}

impl<T: View> View for Named<T> {
    type V = Map<Seq<char>, T::V>;

    closed spec fn view(&self) -> Map<Seq<char>, T::V> {
        contents(self.entries@)
    }
}

proof fn place_is<T>(s: Seq<(String, T)>, i: int)
    requires
        ordered(s),
        0 <= i < s.len(),
    ensures
        listed(s, s[i].0@),
        place(s, s[i].0@) == i,
{
    let k = s[i].0@;
    assert(stands_at(s, k, i));
    let j = place(s, k);
    if j < i {
        assert(text_before(s[j].0@, s[i].0@));
        text_before_total_order(k, k, k);
    } else if i < j {
        assert(text_before(s[i].0@, s[j].0@));
        text_before_total_order(k, k, k);
    }
}

proof fn contents_put<T: View>(s: Seq<(String, T)>, p: int, e: (String, T))
    requires
        ordered(s),
        0 <= p <= s.len(),
        forall|i: int| 0 <= i < p ==> text_before(#[trigger] s[i].0@, e.0@),
    ensures
        p < s.len() && s[p].0@ == e.0@ ==> ordered(s.update(p, e)) && contents(s.update(p, e))
            == contents(s).insert(e.0@, e.1@),
        p == s.len() || text_before(e.0@, s[p].0@) ==> ordered(s.insert(p, e)) && contents(
            s.insert(p, e),
        ) == contents(s).insert(e.0@, e.1@),
{
    if p < s.len() && s[p].0@ == e.0@ {
        let t = s.update(p, e);
        assert forall|a: int, b: int| 0 <= a < b < t.len() implies #[trigger] text_before(
            t[a].0@,
            t[b].0@,
        ) by {
            assert(text_before(s[a].0@, s[b].0@));
        }
        place_is(t, p);
        assert forall|k: Seq<char>| #[trigger] listed(t, k) == (listed(s, k) || k == e.0@) by {
            if listed(t, k) {
                assert(stands_at(s, k, place(t, k)));
            }
            if listed(s, k) {
                assert(stands_at(t, k, place(s, k)));
            }
        }
        assert forall|k: Seq<char>| #[trigger] listed(t, k) && k != e.0@ implies t[place(t, k)].1@
            == s[place(s, k)].1@ by {
            let i = place(t, k);
            place_is(t, i);
            assert(s[i].0@ == k);
            place_is(s, i);
        }
        assert(contents(t) =~= contents(s).insert(e.0@, e.1@));
    }
    if p == s.len() || text_before(e.0@, s[p].0@) {
        let t = s.insert(p, e);
        assert forall|i: int| p <= i < s.len() implies text_before(e.0@, #[trigger] s[i].0@) by {
            if p < i {
                assert(text_before(s[p].0@, s[i].0@));
                text_before_total_order(e.0@, s[p].0@, s[i].0@);
            }
        }
        assert forall|a: int, b: int| 0 <= a < b < t.len() implies #[trigger] text_before(
            t[a].0@,
            t[b].0@,
        ) by {
            let sa = if a < p {
                a
            } else {
                a - 1
            };
            let sb = if b < p {
                b
            } else {
                b - 1
            };
            if a != p && b != p {
                assert(text_before(s[sa].0@, s[sb].0@));
            }
        }
        place_is(t, p);
        text_before_total_order(e.0@, e.0@, e.0@);
        assert(!listed(s, e.0@)) by {
            if listed(s, e.0@) {
                let i = place(s, e.0@);
                if i < p {
                    assert(text_before(s[i].0@, e.0@));
                } else {
                    assert(text_before(e.0@, s[i].0@));
                }
            }
        }
        assert forall|k: Seq<char>| #[trigger] listed(t, k) == (listed(s, k) || k == e.0@) by {
            if listed(t, k) && k != e.0@ {
                let i = place(t, k);
                let si = if i < p {
                    i
                } else {
                    i - 1
                };
                assert(stands_at(s, k, si));
            }
            if listed(s, k) {
                let i = place(s, k);
                let ti = if i < p {
                    i
                } else {
                    i + 1
                };
                assert(stands_at(t, k, ti));
            }
        }
        assert forall|k: Seq<char>| #[trigger] listed(t, k) && k != e.0@ implies t[place(t, k)].1@
            == s[place(s, k)].1@ by {
            let i = place(t, k);
            place_is(t, i);
            let si = if i < p {
                i
            } else {
                i - 1
            };
            assert(s[si].0@ == k);
            place_is(s, si);
        }
        assert(contents(t) =~= contents(s).insert(e.0@, e.1@));
    }
}

proof fn contents_remove<T: View>(s: Seq<(String, T)>, p: int)
    requires
        ordered(s),
        0 <= p < s.len(),
    ensures
        ordered(s.remove(p)),
        contents(s.remove(p)) == contents(s).remove(s[p].0@),
{
    let t = s.remove(p);
    let key = s[p].0@;
    assert forall|a: int, b: int| 0 <= a < b < t.len() implies #[trigger] text_before(
        t[a].0@,
        t[b].0@,
    ) by {
        let sa = if a < p {
            a
        } else {
            a + 1
        };
        let sb = if b < p {
            b
        } else {
            b + 1
        };
        assert(text_before(s[sa].0@, s[sb].0@));
    }
    place_is(s, p);
    assert forall|k: Seq<char>| #[trigger] listed(t, k) == (listed(s, k) && k != key) by {
        if listed(t, k) {
            let i = place(t, k);
            let si = if i < p {
                i
            } else {
                i + 1
            };
            assert(stands_at(s, k, si));
            place_is(s, si);
        }
        if listed(s, k) && k != key {
            let i = place(s, k);
            let ti = if i < p {
                i
            } else {
                i - 1
            };
            assert(stands_at(t, k, ti));
        }
    }
    assert forall|k: Seq<char>| #[trigger] listed(t, k) implies t[place(t, k)].1@ == s[place(
        s,
        k,
    )].1@ by {
        let i = place(t, k);
        place_is(t, i);
        let si = if i < p {
            i
        } else {
            i + 1
        };
        assert(s[si].0@ == k);
        place_is(s, si);
    }
    assert(contents(t) =~= contents(s).remove(key));
}

/// Whether `names` lists the names of `m`, each once, in their order.
pub open spec fn lists_names<V>(names: Seq<Seq<char>>, m: Map<Seq<char>, V>) -> bool {
    &&& forall|k: Seq<char>| #[trigger] m.contains_key(k) <==> names.contains(k)
    &&& forall|i: int, j: int| 0 <= i < j < names.len() ==> #[trigger] text_before(names[i], names[j])
}

/// The names of `m`, in their order.
pub open spec fn names_of<V>(m: Map<Seq<char>, V>) -> Seq<Seq<char>> {
    choose|names: Seq<Seq<char>>| lists_names(names, m)
}

/// The names of a map are listed in one way only.
pub proof fn names_listed_once<V>(a: Seq<Seq<char>>, b: Seq<Seq<char>>, m: Map<Seq<char>, V>)
    requires
        lists_names(a, m),
        lists_names(b, m),
    ensures
        a == b,
    decreases a.len(),
{
    if a.len() == 0 {
        if b.len() > 0 {
            assert(b.contains(b[0]));
            assert(m.contains_key(b[0]));
            assert(a.contains(b[0]));
        }
        assert(a =~= b);
    } else {
        let x = a[0];
        assert(a.contains(x) && m.contains_key(x) && b.contains(x));
        assert(b.len() > 0);
        assert(b.contains(b[0]) && m.contains_key(b[0]) && a.contains(b[0]));
        assert(b[0] == x) by {
            let i = choose|i: int| 0 <= i < b.len() && b[i] == x;
            let j = choose|j: int| 0 <= j < a.len() && a[j] == b[0];
            if i > 0 && j > 0 {
                assert(text_before(b[0], b[i]));
                assert(text_before(a[0], a[j]));
                text_before_total_order(x, b[0], x);
                text_before_total_order(x, x, x);
            }
        }
        let a1 = a.subrange(1, a.len() as int);
        let b1 = b.subrange(1, b.len() as int);
        names_tail(a, m);
        names_tail(b, m);
        names_listed_once(a1, b1, m.remove(x));
        assert(a =~= seq![x] + a1);
        assert(b =~= seq![x] + b1);
    }
}

proof fn names_tail<V>(a: Seq<Seq<char>>, m: Map<Seq<char>, V>)
    requires
        lists_names(a, m),
        a.len() > 0,
    ensures
        lists_names(a.subrange(1, a.len() as int), m.remove(a[0])),
{
    let t = a.subrange(1, a.len() as int);
    let rest = m.remove(a[0]);
    assert forall|k: Seq<char>| #[trigger] rest.contains_key(k) <==> t.contains(k) by {
        if rest.contains_key(k) {
            assert(m.contains_key(k));
            let i = choose|i: int| 0 <= i < a.len() && a[i] == k;
            assert(t[i - 1] == k);
        }
        if t.contains(k) {
            let i = choose|i: int| 0 <= i < t.len() && t[i] == k;
            assert(a[i + 1] == k);
            assert(a.contains(k));
            assert(text_before(a[0], a[i + 1]));
            text_before_total_order(a[0], a[0], a[0]);
        }
    }
    assert forall|i: int, j: int| 0 <= i < j < t.len() implies #[trigger] text_before(
        t[i],
        t[j],
    ) by {
        assert(text_before(a[i + 1], a[j + 1]));
    }
}

impl<T> Named<T> {
    #[verifier::type_invariant]
    spec fn in_order(self) -> bool {
        ordered(self.entries@)
    }
}

impl<T: View> Named<T> {
    proof fn lists_all(self)
        requires
            ordered(self.entries@),
        ensures
            names_of(self@) == Seq::new(self.entries@.len(), |i: int| self.entries@[i].0@),
            lists_names(names_of(self@), self@),
    {
        let s = self.entries@;
        let names = Seq::new(s.len(), |i: int| s[i].0@);
        assert forall|k: Seq<char>| #[trigger] self@.contains_key(k) <==> names.contains(k) by {
            if self@.contains_key(k) {
                assert(names[place(s, k)] == k);
            }
            if names.contains(k) {
                let i = choose|i: int| 0 <= i < names.len() && names[i] == k;
                assert(stands_at(s, k, i));
            }
        }
        assert(lists_names(names, self@));
        names_listed_once(names, names_of(self@), self@);
    }

    /// A map without names.
    pub fn new() -> (r: Named<T>)
        ensures
            r@ == Map::<Seq<char>, T::V>::empty(),
    {
        let r = Named { entries: Vec::new() };
        assert(r@ =~= Map::empty());
        r
    }

    fn position(&self, name: &str) -> (r: Option<usize>)
        ensures
            match r {
                Some(i) => i < self.entries@.len() && self.entries@[i as int].0@ == name@
                    && self@.contains_key(name@) && self@[name@] == self.entries@[i as int].1@,
                None => !self@.contains_key(name@),
            },
    {
        proof {
            use_type_invariant(self);
        }
        let mut i: usize = 0;
        while i < self.entries.len()
            invariant
                i <= self.entries@.len(),
                ordered(self.entries@),
                forall|j: int| 0 <= j < i ==> #[trigger] self.entries@[j].0@ != name@,
            decreases self.entries@.len() - i,
        {
            if same(self.entries[i].0.as_str(), name) {
                proof {
                    place_is(self.entries@, i as int);
                }
                return Some(i);
            }
            i = i + 1;
        }
        None
    }

    /// What stands under a name.
    pub fn get(&self, name: &str) -> (r: Option<&T>)
        ensures
            match r {
                Some(v) => self@.contains_key(name@) && self@[name@] == v@,
                None => !self@.contains_key(name@),
            },
    {
        match self.position(name) {
            Some(i) => Some(&self.entries[i].1),
            None => None,
        }
    }

    /// Whether something stands under a name.
    pub fn contains_key(&self, name: &str) -> (r: bool)
        ensures
            r == self@.contains_key(name@),
    {
        match self.position(name) {
            Some(_) => true,
            None => false,
        }
    }

    /// Puts something under a name.
    pub fn insert(&mut self, name: String, value: T)
        ensures
            final(self)@ == old(self)@.insert(name@, value@),
    {
        proof {
            use_type_invariant(&*self);
        }
        let mut entries: Vec<(String, T)> = Vec::new();
        std::mem::swap(&mut entries, &mut self.entries);
        let ghost s = entries@;
        let mut p: usize = 0;
        while p < entries.len() && comes_before(entries[p].0.as_str(), name.as_str())
            invariant
                s == entries@,
                p <= s.len(),
                forall|i: int| 0 <= i < p ==> text_before(#[trigger] s[i].0@, name@),
            decreases s.len() - p,
        {
            p = p + 1;
        }
        let ghost e = (name, value);
        proof {
            contents_put(s, p as int, e);
            if p < s.len() {
                text_before_total_order(s[p as int].0@, e.0@, e.0@);
            }
        }
        if p < entries.len() && same(entries[p].0.as_str(), name.as_str()) {
            entries[p] = (name, value);
        } else {
            entries.insert(p, (name, value));
        }
        self.entries = entries;
    }

    /// Removes what stands under a name; whether there was something.
    pub fn remove(&mut self, name: &str) -> (r: bool)
        ensures
            r == old(self)@.contains_key(name@),
            final(self)@ == old(self)@.remove(name@),
    {
        proof {
            use_type_invariant(&*self);
        }
        match self.position(name) {
            Some(p) => {
                let mut entries: Vec<(String, T)> = Vec::new();
                std::mem::swap(&mut entries, &mut self.entries);
                let ghost s = entries@;
                entries.remove(p);
                proof {
                    contents_remove(s, p as int);
                }
                self.entries = entries;
                true
            },
            None => {
                assert(self@.remove(name@) =~= self@);
                false
            },
        }
    }

    /// The number of names.
    pub fn len(&self) -> (r: usize)
        ensures
            r == names_of(self@).len(),
            lists_names(names_of(self@), self@),
    {
        proof {
            use_type_invariant(self);
            self.lists_all();
        }
        self.entries.len()
    }

    /// The name at position `i` of the order.
    pub fn name_at(&self, i: usize) -> (r: &str)
        requires
            i < names_of(self@).len(),
        ensures
            r@ == names_of(self@)[i as int],
            self@.contains_key(r@),
    {
        proof {
            use_type_invariant(self);
            self.lists_all();
            place_is(self.entries@, i as int);
        }
        self.entries[i].0.as_str()
    }

    /// What stands under the name at position `i` of the order.
    pub fn value_at(&self, i: usize) -> (r: &T)
        requires
            i < names_of(self@).len(),
        ensures
            self@.contains_key(names_of(self@)[i as int]),
            r@ == self@[names_of(self@)[i as int]],
    {
        proof {
            use_type_invariant(self);
            self.lists_all();
            place_is(self.entries@, i as int);
        }
        &self.entries[i].1
    }
}

impl<T: View> Named<T> {
    /// The map with `f` of what stands under each name; `g` is what `f` does.
    pub(crate) fn map_values<U: View, F: Fn(&T) -> U>(
        &self,
        f: F,
        Ghost(g): Ghost<spec_fn(T::V) -> U::V>,
    ) -> (r: Named<U>)
        requires
            forall|t: &T| #[trigger] call_requires(f, (t,)),
            forall|t: &T, u: U| #[trigger] call_ensures(f, (t,), u) ==> u@ == g(t@),
        ensures
            r@ == self@.map_values(g),
    {
        proof {
            use_type_invariant(self);
        }
        let ghost s = self.entries@;
        let mut entries: Vec<(String, U)> = Vec::new();
        let mut i: usize = 0;
        while i < self.entries.len()
            invariant
                s == self.entries@,
                i <= s.len(),
                entries@.len() == i,
                forall|t: &T| #[trigger] call_requires(f, (t,)),
                forall|t: &T, u: U| #[trigger] call_ensures(f, (t,), u) ==> u@ == g(t@),
                forall|j: int| 0 <= j < i ==> #[trigger] entries@[j].0@ == s[j].0@,
                forall|j: int| 0 <= j < i ==> (#[trigger] entries@[j]).1@ == g(s[j].1@),
            decreases s.len() - i,
        {
            let value = f(&self.entries[i].1);
            entries.push((self.entries[i].0.clone(), value));
            i = i + 1;
        }
        let ghost t = entries@;
        proof {
            assert forall|a: int, b: int| 0 <= a < b < t.len() implies #[trigger] text_before(
                t[a].0@,
                t[b].0@,
            ) by {
                assert(text_before(s[a].0@, s[b].0@));
            }
            assert forall|k: Seq<char>| #[trigger] listed(t, k) == listed(s, k) by {
                if listed(t, k) {
                    assert(t[place(t, k)].0@ == s[place(t, k)].0@);
                    assert(stands_at(s, k, place(t, k)));
                }
                if listed(s, k) {
                    assert(t[place(s, k)].0@ == s[place(s, k)].0@);
                    assert(stands_at(t, k, place(s, k)));
                }
            }
            assert forall|k: Seq<char>| #[trigger] listed(t, k) implies t[place(t, k)].1@ == g(
                s[place(s, k)].1@,
            ) by {
                let i = place(t, k);
                assert(t[i].0@ == s[i].0@);
                place_is(s, i);
                place_is(t, i);
            }
        }
        let r = Named { entries };
        assert(r@ =~= self@.map_values(g));
        r
    }
}

/// A map without names lists none.
pub proof fn no_names<V>(m: Map<Seq<char>, V>)
    requires
        names_of(m).len() == 0,
        lists_names(names_of(m), m),
    ensures
        m == Map::<Seq<char>, V>::empty(),
{
    assert forall|k: Seq<char>| !m.contains_key(k) by {
        if m.contains_key(k) {
            assert(names_of(m).contains(k));
        }
    }
    assert(m =~= Map::empty());
}

/// Whether the names of a map can be listed.
pub open spec fn listable<V>(m: Map<Seq<char>, V>) -> bool {
    lists_names(names_of(m), m)
}

spec fn with_name(names: Seq<Seq<char>>, k: Seq<char>) -> Seq<Seq<char>>
    decreases names.len(),
{
    if names.len() == 0 {
        seq![k]
    } else if names.last() == k {
        names
    } else if text_before(names.last(), k) {
        names.push(k)
    } else {
        with_name(names.drop_last(), k).push(names.last())
    }
}

proof fn with_name_lists(names: Seq<Seq<char>>, k: Seq<char>)
    requires
        forall|i: int, j: int|
            0 <= i < j < names.len() ==> #[trigger] text_before(names[i], names[j]),
    ensures
        forall|i: int, j: int|
            0 <= i < j < with_name(names, k).len() ==> #[trigger] text_before(
                with_name(names, k)[i],
                with_name(names, k)[j],
            ),
        forall|x: Seq<char>| #[trigger]
            with_name(names, k).contains(x) <==> (names.contains(x) || x == k),
    decreases names.len(),
{
    let r = with_name(names, k);
    if names.len() == 0 {
        assert forall|x: Seq<char>| #[trigger] r.contains(x) <==> (names.contains(x) || x == k) by {
            assert(r[0] == k);
        }
    } else if names.last() == k {
        assert(names[names.len() - 1] == k);
    } else if text_before(names.last(), k) {
        assert forall|i: int, j: int| 0 <= i < j < r.len() implies #[trigger] text_before(
            r[i],
            r[j],
        ) by {
            if j < names.len() {
                assert(text_before(names[i], names[j]));
            } else if i < names.len() - 1 {
                assert(text_before(names[i], names[names.len() - 1]));
                text_before_total_order(names[i], names.last(), k);
            }
        }
        assert forall|x: Seq<char>| #[trigger] r.contains(x) <==> (names.contains(x) || x == k) by {
            assert(r[names.len() as int] == k);
            if names.contains(x) {
                let i = choose|i: int| 0 <= i < names.len() && names[i] == x;
                assert(r[i] == x);
            }
        }
    } else {
        let front = names.drop_last();
        let last = names.last();
        assert forall|i: int, j: int| 0 <= i < j < front.len() implies #[trigger] text_before(
            front[i],
            front[j],
        ) by {
            assert(text_before(names[i], names[j]));
        }
        with_name_lists(front, k);
        let w = with_name(front, k);
        text_before_total_order(last, k, k);
        assert forall|i: int| 0 <= i < w.len() implies text_before(#[trigger] w[i], last) by {
            assert(w.contains(w[i]));
            if w[i] != k {
                let j = choose|j: int| 0 <= j < front.len() && front[j] == w[i];
                assert(text_before(names[j], names[names.len() - 1]));
            }
        }
        assert forall|i: int, j: int| 0 <= i < j < r.len() implies #[trigger] text_before(
            r[i],
            r[j],
        ) by {
            if j < w.len() {
                assert(text_before(w[i], w[j]));
            } else {
                assert(text_before(w[i], last));
            }
        }
        assert forall|x: Seq<char>| #[trigger] r.contains(x) <==> (names.contains(x) || x == k) by {
            if r.contains(x) {
                let i = choose|i: int| 0 <= i < r.len() && r[i] == x;
                if i < w.len() {
                    assert(w.contains(x));
                    if front.contains(x) {
                        let j = choose|j: int| 0 <= j < front.len() && front[j] == x;
                        assert(names[j] == x);
                    }
                } else {
                    assert(names[names.len() - 1] == x);
                }
            }
            if names.contains(x) || x == k {
                if x == last {
                    assert(r[w.len() as int] == x);
                } else {
                    if names.contains(x) {
                        let j = choose|j: int| 0 <= j < names.len() && names[j] == x;
                        assert(front[j] == x);
                        assert(front.contains(x));
                    }
                    assert(w.contains(x));
                    let i = choose|i: int| 0 <= i < w.len() && w[i] == x;
                    assert(r[i] == x);
                }
            }
        }
    }
}

/// The names of a map without names can be listed.
pub proof fn empty_listable<V>()
    ensures
        listable(Map::<Seq<char>, V>::empty()),
        names_of(Map::<Seq<char>, V>::empty()).len() == 0,
{
    let none = Seq::<Seq<char>>::empty();
    assert(lists_names(none, Map::<Seq<char>, V>::empty()));
    names_listed_once(
        none,
        names_of(Map::<Seq<char>, V>::empty()),
        Map::<Seq<char>, V>::empty(),
    );
}

/// With one more name, the names can still be listed.
pub proof fn insert_listable<V>(m: Map<Seq<char>, V>, k: Seq<char>, v: V)
    requires
        listable(m),
    ensures
        listable(m.insert(k, v)),
{
    let names = with_name(names_of(m), k);
    with_name_lists(names_of(m), k);
    assert(lists_names(names, m.insert(k, v)));
}

/// With one name less, the names can still be listed.
pub proof fn remove_listable<V>(m: Map<Seq<char>, V>, k: Seq<char>)
    requires
        listable(m),
    ensures
        listable(m.remove(k)),
{
    let names = names_of(m);
    if m.contains_key(k) {
        assert(names.contains(k));
        let p = choose|p: int| 0 <= p < names.len() && names[p] == k;
        let t = names.remove(p);
        assert forall|i: int, j: int| 0 <= i < j < t.len() implies #[trigger] text_before(
            t[i],
            t[j],
        ) by {
            let a = if i < p {
                i
            } else {
                i + 1
            };
            let b = if j < p {
                j
            } else {
                j + 1
            };
            assert(text_before(names[a], names[b]));
        }
        assert forall|x: Seq<char>| #[trigger] m.remove(k).contains_key(x) <==> t.contains(x) by {
            if m.remove(k).contains_key(x) {
                assert(m.contains_key(x));
                let i = choose|i: int| 0 <= i < names.len() && names[i] == x;
                if i < p {
                    assert(t[i] == x);
                } else {
                    assert(t[i - 1] == x);
                }
            }
            if t.contains(x) {
                let i = choose|i: int| 0 <= i < t.len() && t[i] == x;
                let a = if i < p {
                    i
                } else {
                    i + 1
                };
                assert(names[a] == x);
                assert(names.contains(x));
                if a < p {
                    assert(text_before(names[a], names[p]));
                } else {
                    assert(text_before(names[p], names[a]));
                }
                text_before_total_order(k, k, k);
            }
        }
        assert(lists_names(t, m.remove(k)));
    } else {
        assert(m.remove(k) =~= m);
    }
}

} // verus!
