//! A stable sort for types that say which of two values stands first.

use vstd::prelude::*;

verus! {

/// A strict weak order: which of two values must stand before the other.
pub trait Order: Sized {
    spec fn before(self, other: Self) -> bool;

    /// No two values each stand before the other.
    proof fn before_is_asymmetric(a: Self, b: Self)
        ensures
            !(a.before(b) && b.before(a)),
    ;

    /// What stands before `c` stands before `b`, or `b` stands before `c`.
    proof fn before_is_weak(a: Self, b: Self, c: Self)
        ensures
            a.before(c) ==> a.before(b) || b.before(c),
    ;
}

/// An order that can be computed.
pub trait Ranked: Order {
    fn is_before(&self, other: &Self) -> (yes: bool)
        ensures
            yes == self.before(*other),
    ;
}

/// Neither value must stand before the other.
pub open spec fn tied<T: Order>(a: T, b: T) -> bool {
    !a.before(b) && !b.before(a)
}

/// No later element must stand before an earlier one.
pub open spec fn in_order<T: Order>(s: Seq<T>) -> bool {
    forall|i: int, j: int| #![trigger s[i], s[j]] 0 <= i < j < s.len() ==> !s[j].before(s[i])
}

/// The elements of `s` that are tied with `x`, in their order.
pub open spec fn ties<T: Order>(s: Seq<T>, x: T) -> Seq<T> {
    s.filter(|e: T| tied(e, x))
}

/// `sorted` holds the elements of `input` in order, and tied elements keep their places
/// relative to each other.
pub open spec fn is_stable_sort<T: Order>(input: Seq<T>, sorted: Seq<T>) -> bool {
    &&& in_order(sorted)
    &&& sorted.to_multiset() == input.to_multiset()
    &&& forall|x: T| #[trigger] ties(sorted, x) == ties(input, x)
}

/// `s` with `y` placed behind every element that must not follow it.
pub open spec fn place<T: Order>(s: Seq<T>, y: T) -> Seq<T>
    decreases s.len(),
{
    if s.len() > 0 && y.before(s.last()) {
        place(s.drop_last(), y).push(s.last())
    } else {
        s.push(y)
    }
}

/// The elements of `s` in order, tied elements in the order of `s`.
pub open spec fn ranked<T: Order>(s: Seq<T>) -> Seq<T>
    decreases s.len(),
{
    if s.len() == 0 {
        s
    } else {
        place(ranked(s.drop_last()), s.last())
    }
}

proof fn lemma_place_is_insert<T: Order>(s: Seq<T>, p: int, y: T)
    requires
        0 <= p <= s.len(),
        forall|j: int| p <= j < s.len() ==> y.before(#[trigger] s[j]),
        p > 0 ==> !y.before(s[p - 1]),
    ensures
        place(s, y) == s.insert(p, y),
    decreases s.len() - p,
{
    if p < s.len() {
        lemma_place_is_insert(s.drop_last(), p, y);
        assert(s.insert(p, y) =~= s.drop_last().insert(p, y).push(s.last()));
    } else {
        assert(s.insert(p, y) =~= s.push(y));
    }
}

proof fn lemma_insert_keeps_ties<T: Order>(s: Seq<T>, p: int, y: T, x: T)
    requires
        0 <= p <= s.len(),
        in_order(s),
        forall|j: int| p <= j < s.len() ==> y.before(#[trigger] s[j]),
    ensures
        ties(s.insert(p, y), x) == (if tied(y, x) {
            ties(s, x).push(y)
        } else {
            ties(s, x)
        }),
{
    let f = |e: T| tied(e, x);
    let low = s.take(p);
    let high = s.skip(p);
    assert(s =~= low + high);
    assert(s.insert(p, y) =~= (low + seq![y]) + high);
    Seq::filter_distributes_over_add(low, high, f);
    Seq::filter_distributes_over_add(low + seq![y], high, f);
    Seq::filter_distributes_over_add(low, seq![y], f);
    reveal(Seq::filter);
    assert(seq![y].drop_last() =~= Seq::<T>::empty());
    assert(seq![y].filter(f) =~= (if f(y) { seq![y] } else { Seq::<T>::empty() })) by {
        reveal_with_fuel(Seq::filter, 2);
    }
    if tied(y, x) {
        assert(high.filter(f) =~= Seq::<T>::empty()) by {
            assert forall|j: int| 0 <= j < high.len() implies !tied(high[j], x) by {
                assert(y.before(s[p + j]));
                T::before_is_weak(y, x, s[p + j]);
            }
            lemma_filter_none(high, f);
        }
        assert(ties(s.insert(p, y), x) =~= ties(s, x).push(y));
    } else {
        assert(ties(s.insert(p, y), x) =~= ties(s, x));
    }
}

proof fn lemma_filter_none<T>(s: Seq<T>, f: spec_fn(T) -> bool)
    requires
        forall|j: int| 0 <= j < s.len() ==> !f(#[trigger] s[j]),
    ensures
        s.filter(f) == Seq::<T>::empty(),
    decreases s.len(),
{
    reveal(Seq::filter);
    if s.len() > 0 {
        assert forall|j: int| 0 <= j < s.drop_last().len() implies !f(#[trigger] s.drop_last()[j]) by {
            assert(s.drop_last()[j] == s[j]);
        }
        lemma_filter_none(s.drop_last(), f);
    }
}

proof fn lemma_ties_push<T: Order>(s: Seq<T>, y: T, x: T)
    ensures
        ties(s.push(y), x) == (if tied(y, x) {
            ties(s, x).push(y)
        } else {
            ties(s, x)
        }),
{
    reveal(Seq::filter);
    assert(s.push(y).drop_last() =~= s);
}

/// Ranking holds every element once more, in order, with tied elements where they stood.
pub proof fn ranked_is_stable_sort<T: Order>(s: Seq<T>)
    ensures
        is_stable_sort(s, ranked(s)),
    decreases s.len(),
{
    if s.len() > 0 {
        ranked_is_stable_sort(s.drop_last());
        lemma_place_is_stable(s.drop_last(), ranked(s.drop_last()), s.last());
        assert(s =~= s.drop_last().push(s.last()));
    }
}

/// Ranking neither adds nor drops an element.
pub proof fn ranked_holds_the_same<T: Order>(s: Seq<T>, e: T)
    ensures
        s.contains(e) <==> ranked(s).contains(e),
{
    ranked_is_stable_sort(s);
    s.to_multiset_ensures();
    ranked(s).to_multiset_ensures();
    assert(s.contains(e) <==> s.to_multiset().count(e) > 0);
    assert(ranked(s).contains(e) <==> ranked(s).to_multiset().count(e) > 0);
}

proof fn lemma_place_is_stable<T: Order>(input: Seq<T>, s: Seq<T>, y: T)
    requires
        is_stable_sort(input, s),
    ensures
        is_stable_sort(input.push(y), place(s, y)),
{
    let p = place_index(s, y);
    lemma_place_index(s, y);
    lemma_place_is_insert(s, p, y);
    let t = s.insert(p, y);
    assert forall|i: int, j: int| #![trigger t[i], t[j]] 0 <= i < j < t.len() implies !t[j].before(t[i]) by {
        if i < p && j == p {
            T::before_is_weak(y, s[p - 1], s[i]);
            assert(i < p - 1 ==> !s[p - 1].before(s[i]));
        } else if i == p && j > p {
            assert(t[j] == s[j - 1]);
            T::before_is_asymmetric(y, s[j - 1]);
        } else {
            let bi = if i < p { i } else { i - 1 };
            let bj = if j < p { j } else { j - 1 };
            assert(t[i] == s[bi]);
            assert(t[j] == s[bj]);
        }
    }
    assert forall|x: T| #[trigger] ties(t, x) == ties(input.push(y), x) by {
        lemma_insert_keeps_ties(s, p, y, x);
        lemma_ties_push(input, y, x);
        assert(ties(s, x) == ties(input, x));
    }
    vstd::seq_lib::to_multiset_insert(s, p, y);
    input.to_multiset_ensures();
    s.to_multiset_ensures();
    assert(input.push(y).to_multiset() =~= input.to_multiset().insert(y));
}

spec fn place_index<T: Order>(s: Seq<T>, y: T) -> int
    decreases s.len(),
{
    if s.len() > 0 && y.before(s.last()) {
        place_index(s.drop_last(), y)
    } else {
        s.len() as int
    }
}

proof fn lemma_place_index<T: Order>(s: Seq<T>, y: T)
    ensures
        0 <= place_index(s, y) <= s.len(),
        forall|j: int| place_index(s, y) <= j < s.len() ==> y.before(#[trigger] s[j]),
        place_index(s, y) > 0 ==> !y.before(s[place_index(s, y) - 1]),
    decreases s.len(),
{
    if s.len() > 0 && y.before(s.last()) {
        lemma_place_index(s.drop_last(), y);
        assert forall|j: int| place_index(s, y) <= j < s.len() implies y.before(#[trigger] s[j]) by {
            if j < s.len() - 1 {
                assert(s[j] == s.drop_last()[j]);
            }
        }
    }
}

/// Sorts a vector, keeping tied elements in their order.
pub fn stable_sort<T: Ranked>(input: Vec<T>) -> (sorted: Vec<T>)
    ensures
        sorted@ == ranked(input@),
        is_stable_sort(input@, sorted@),
{
    let mut rest = input;
    let ghost all = rest@;
    let mut sorted: Vec<T> = Vec::new();
    let mut reversed: Vec<T> = Vec::new();
    proof {
        assert(all.take(all.len() as int) =~= all);
        assert(all.skip(all.len() as int).reverse() =~= Seq::<T>::empty());
    }
    while rest.len() > 0
        invariant
            rest@.len() <= all.len(),
            rest@ == all.take(rest@.len() as int),
            reversed@ == all.skip(rest@.len() as int).reverse(),
        decreases rest@.len(),
    {
        let ghost n = rest@.len() as int;
        let x = rest.pop().unwrap();
        proof {
            assert(x == all[n - 1]);
            assert(rest@ =~= all.take(n - 1));
        }
        reversed.push(x);
        proof {
            assert(reversed@ =~= all.skip(n - 1).reverse());
        }
    }
    proof {
        assert(all.skip(0) =~= all);
        assert(all.take(0) =~= Seq::<T>::empty());
    }
    let ghost mut done: int = 0;
    while reversed.len() > 0
        invariant
            0 <= done <= all.len(),
            reversed@ == all.skip(done).reverse(),
            sorted@ == ranked(all.take(done)),
        decreases reversed@.len(),
    {
        let ghost n = reversed@.len() as int;
        let y = reversed.pop().unwrap();
        proof {
            assert(n == all.len() - done);
            assert(y == all[done]);
            assert(reversed@ =~= all.skip(done + 1).reverse());
            assert(all.take(done + 1) =~= all.take(done).push(y));
        }
        let mut p: usize = sorted.len();
        while p > 0 && y.is_before(&sorted[p - 1])
            invariant
                p <= sorted@.len(),
                forall|j: int| p <= j < sorted@.len() ==> y.before(#[trigger] sorted@[j]),
            decreases p,
        {
            p -= 1;
        }
        proof {
            lemma_place_is_insert(sorted@, p as int, y);
            assert(all.take(done + 1).drop_last() =~= all.take(done));
        }
        sorted.insert(p, y);
        proof {
            done = done + 1;
        }
    }
    proof {
        assert(all.take(all.len() as int) =~= all);
        ranked_is_stable_sort(all);
    }
    sorted
}

/// Ranking and a renaming that keeps the order can be exchanged.
pub proof fn ranked_commutes_with_map<A: Order, B: Order>(s: Seq<A>, f: spec_fn(A) -> B)
    requires
        forall|a: A, b: A| #![trigger a.before(b)] #![trigger f(a), f(b)] a.before(b) == f(a).before(f(b)),
    ensures
        ranked(s).map_values(f) == ranked(s.map_values(f)),
    decreases s.len(),
{
    if s.len() > 0 {
        ranked_commutes_with_map(s.drop_last(), f);
        lemma_place_commutes_with_map(ranked(s.drop_last()), s.last(), f);
        assert(s.map_values(f).drop_last() =~= s.drop_last().map_values(f));
    } else {
        assert(ranked(s).map_values(f) =~= ranked(s.map_values(f)));
    }
}

proof fn lemma_place_commutes_with_map<A: Order, B: Order>(s: Seq<A>, y: A, f: spec_fn(A) -> B)
    requires
        forall|a: A, b: A| #![trigger a.before(b)] #![trigger f(a), f(b)] a.before(b) == f(a).before(f(b)),
    ensures
        place(s, y).map_values(f) == place(s.map_values(f), f(y)),
    decreases s.len(),
{
    if s.len() > 0 && y.before(s.last()) {
        lemma_place_commutes_with_map(s.drop_last(), y, f);
        assert(s.map_values(f).drop_last() =~= s.drop_last().map_values(f));
        assert(place(s, y).map_values(f) =~= place(s.drop_last(), y).map_values(f).push(f(s.last())));
        assert(f(y).before(s.map_values(f).last()));
    } else {
        if s.len() > 0 {
            assert(s.map_values(f).last() == f(s.last()));
            assert(!y.before(s.last()));
            assert(!f(y).before(f(s.last())));
        }
        assert(s.push(y).map_values(f) =~= s.map_values(f).push(f(y)));
    }
}

impl Order for u32 {
    open spec fn before(self, other: Self) -> bool {
        self < other
    }

    proof fn before_is_asymmetric(a: Self, b: Self) {
    }

    proof fn before_is_weak(a: Self, b: Self, c: Self) {
    }
}

impl Ranked for u32 {
    fn is_before(&self, other: &Self) -> (yes: bool) {
        *self < *other
    }
}

} // verus!
