//! Stable sorting of what has a rank.
use vstd::prelude::*;

use crate::model::views;

verus! {

/// Values in a strict weak order: `precedes` is irreflexive and transitive, and
/// being tied, where neither precedes the other, is transitive.
pub trait Ranked: View + Sized {
    spec fn precedes(a: Self::V, b: Self::V) -> bool;

    proof fn precedes_irreflexive(a: Self::V)
        ensures
            !Self::precedes(a, a),
    ;

    proof fn precedes_transitive(a: Self::V, b: Self::V, c: Self::V)
        requires
            Self::precedes(a, b),
            Self::precedes(b, c),
        ensures
            Self::precedes(a, c),
    ;

    proof fn ties_transitive(a: Self::V, b: Self::V, c: Self::V)
        requires
            !Self::precedes(a, b),
            !Self::precedes(b, a),
            !Self::precedes(b, c),
            !Self::precedes(c, b),
        ensures
            !Self::precedes(a, c),
            !Self::precedes(c, a),
    ;

    fn comes_before(&self, other: &Self) -> (before: bool)
        ensures
            before == Self::precedes(self@, other@),
    ;
}

/// The predicate of being tied with `a`.
pub open spec fn tied_with<T: Ranked>(a: T::V) -> spec_fn(T::V) -> bool {
    |b: T::V| !T::precedes(a, b) && !T::precedes(b, a)
}

/// No element precedes one that stands before it.
pub open spec fn is_ordered<T: Ranked>(s: Seq<T::V>) -> bool {
    forall|i: int, j: int| 0 <= i < j < s.len() ==> !T::precedes(#[trigger] s[j], #[trigger] s[i])
}

/// `output` holds the elements of `input` in order, and tied elements in the
/// order in which they stand in `input`.
pub open spec fn is_stable_sort<T: Ranked>(input: Seq<T::V>, output: Seq<T::V>) -> bool {
    &&& is_ordered::<T>(output)
    &&& output.to_multiset() == input.to_multiset()
    &&& forall|a: T::V| #[trigger]
        output.filter(tied_with::<T>(a)) == input.filter(tied_with::<T>(a))
}

/// How many elements at the start of `s` precede `x` without a break.
pub open spec fn rank_in<T: Ranked>(x: T::V, s: Seq<T::V>) -> nat
    decreases s.len(),
{
    if s.len() > 0 && T::precedes(s[0], x) {
        1 + rank_in::<T>(x, s.drop_first())
    } else {
        0
    }
}

/// The elements of `s` in order, tied ones as they stand in `s`.
pub open spec fn in_order<T: Ranked>(s: Seq<T::V>) -> Seq<T::V>
    decreases s.len(),
{
    if s.len() == 0 {
        s
    } else {
        let rest = in_order::<T>(s.drop_first());
        rest.insert(rank_in::<T>(s[0], rest) as int, s[0])
    }
}

proof fn lemma_rank_in<T: Ranked>(x: T::V, s: Seq<T::V>)
    ensures
        rank_in::<T>(x, s) <= s.len(),
        forall|i: int| 0 <= i < rank_in::<T>(x, s) ==> T::precedes(#[trigger] s[i], x),
        rank_in::<T>(x, s) < s.len() ==> !T::precedes(s[rank_in::<T>(x, s) as int], x),
    decreases s.len(),
{
    if s.len() > 0 && T::precedes(s[0], x) {
        let rest = s.drop_first();
        lemma_rank_in::<T>(x, rest);
        assert forall|i: int| 0 <= i < rank_in::<T>(x, s) implies T::precedes(
            #[trigger] s[i],
            x,
        ) by {
            if i > 0 {
                assert(s[i] == rest[i - 1]);
            }
        }
    }
}

proof fn lemma_rank_is<T: Ranked>(x: T::V, s: Seq<T::V>, k: int)
    requires
        0 <= k <= s.len(),
        forall|i: int| 0 <= i < k ==> T::precedes(#[trigger] s[i], x),
        k < s.len() ==> !T::precedes(s[k], x),
    ensures
        rank_in::<T>(x, s) == k,
{
    lemma_rank_in::<T>(x, s);
    let r = rank_in::<T>(x, s) as int;
    if r < k {
        assert(T::precedes(s[r], x));
    }
    if k < r {
        assert(T::precedes(s[k], x));
    }
}

/// `a` does not precede `b`, and `b` does not precede `c`: nor does `a` precede `c`.
proof fn lemma_not_precedes_transitive<T: Ranked>(a: T::V, b: T::V, c: T::V)
    requires
        !T::precedes(a, b),
        !T::precedes(b, c),
    ensures
        !T::precedes(a, c),
{
    if T::precedes(a, c) {
        if T::precedes(c, b) {
            T::precedes_transitive(a, c, b);
        } else if T::precedes(b, a) {
            T::precedes_transitive(b, a, c);
        } else {
            T::ties_transitive(a, b, c);
        }
    }
}

proof fn lemma_filter_front<A>(x: A, s: Seq<A>, keep: spec_fn(A) -> bool)
    ensures
        (seq![x] + s).filter(keep) == if keep(x) {
            seq![x] + s.filter(keep)
        } else {
            s.filter(keep)
        },
{
    let single = seq![x];
    Seq::filter_distributes_over_add(single, s, keep);
    reveal(Seq::filter);
    lemma_filter_none(single.drop_last(), keep);
    assert(single.filter(keep) == if keep(x) {
        seq![x]
    } else {
        Seq::<A>::empty()
    });
    assert(Seq::<A>::empty() + s.filter(keep) == s.filter(keep));
}

/// Where `keep` is never true, nothing is kept.
pub proof fn lemma_filter_none<A>(s: Seq<A>, keep: spec_fn(A) -> bool)
    requires
        forall|i: int| 0 <= i < s.len() ==> !keep(#[trigger] s[i]),
    ensures
        s.filter(keep) == Seq::<A>::empty(),
    decreases s.len(),
{
    reveal(Seq::filter);
    if s.len() > 0 {
        lemma_filter_none(s.drop_last(), keep);
    }
}

/// Inserting `x` behind what precedes it keeps an ordered sequence ordered, and
/// puts `x` before what it is tied with.
proof fn lemma_insert<T: Ranked>(x: T::V, s: Seq<T::V>)
    requires
        is_ordered::<T>(s),
    ensures
        is_ordered::<T>(s.insert(rank_in::<T>(x, s) as int, x)),
        forall|a: T::V| #[trigger]
            s.insert(rank_in::<T>(x, s) as int, x).filter(tied_with::<T>(a)) == (seq![x]
                + s).filter(tied_with::<T>(a)),
{
    lemma_rank_in::<T>(x, s);
    let k = rank_in::<T>(x, s) as int;
    let out = s.insert(k, x);
    assert forall|i: int, j: int| 0 <= i < j < out.len() implies !T::precedes(
        #[trigger] out[j],
        #[trigger] out[i],
    ) by {
        if i == k {
            if j - 1 > k {
                assert(!T::precedes(s[j - 1], s[k]));
                assert(!T::precedes(s[k], x));
                if T::precedes(s[j - 1], x) {
                    lemma_not_precedes_transitive::<T>(s[j - 1], s[k], x);
                }
            }
        } else if j == k {
            assert(T::precedes(s[i], x));
            if T::precedes(x, s[i]) {
                T::precedes_transitive(x, s[i], x);
                T::precedes_irreflexive(x);
            }
        }
    }
    let front = s.take(k);
    let back = s.skip(k);
    assert(s == front + back);
    assert(out == front + (seq![x] + back));
    assert forall|a: T::V| #[trigger]
        out.filter(tied_with::<T>(a)) == (seq![x] + s).filter(tied_with::<T>(a)) by {
        let keep = tied_with::<T>(a);
        Seq::filter_distributes_over_add(front, seq![x] + back, keep);
        Seq::filter_distributes_over_add(front, back, keep);
        lemma_filter_front(x, back, keep);
        lemma_filter_front(x, s, keep);
        if keep(x) {
            assert forall|i: int| 0 <= i < front.len() implies !keep(#[trigger] front[i]) by {
                assert(T::precedes(s[i], x));
                if keep(s[i]) {
                    T::ties_transitive(s[i], a, x);
                }
            }
            lemma_filter_none(front, keep);
            assert(Seq::<T::V>::empty() + (seq![x] + back.filter(keep)) == seq![x] + (
            Seq::<T::V>::empty() + back.filter(keep)));
        }
    }
}

/// `in_order` is a stable sort.
pub proof fn in_order_is_stable_sort<T: Ranked>(s: Seq<T::V>)
    ensures
        is_stable_sort::<T>(s, in_order::<T>(s)),
        in_order::<T>(s).len() == s.len(),
    decreases s.len(),
{
    broadcast use vstd::seq_lib::group_to_multiset_ensures;

    if s.len() > 0 {
        let tail = s.drop_first();
        let rest = in_order::<T>(tail);
        in_order_is_stable_sort::<T>(tail);
        lemma_rank_in::<T>(s[0], rest);
        lemma_insert::<T>(s[0], rest);
        let k = rank_in::<T>(s[0], rest) as int;
        assert(s == seq![s[0]] + tail);
        assert(rest.insert(k, s[0]).to_multiset() == rest.to_multiset().insert(s[0]));
        assert(s =~= tail.insert(0, s[0]));
        assert forall|a: T::V| #[trigger]
            in_order::<T>(s).filter(tied_with::<T>(a)) == s.filter(tied_with::<T>(a)) by {
            let keep = tied_with::<T>(a);
            assert(rest.insert(k, s[0]).filter(keep) == (seq![s[0]] + rest).filter(keep));
            assert(rest.filter(keep) == tail.filter(keep));
            lemma_filter_front(s[0], rest, keep);
            lemma_filter_front(s[0], tail, keep);
        }
    }
}

proof fn lemma_filter_contains<A>(s: Seq<A>, keep: spec_fn(A) -> bool)
    requires
        s.filter(keep).len() > 0,
    ensures
        exists|i: int| 0 <= i < s.len() && keep(#[trigger] s[i]),
{
    if forall|i: int| 0 <= i < s.len() ==> !keep(#[trigger] s[i]) {
        lemma_filter_none(s, keep);
    }
}

/// A list has only one stable sort.
pub proof fn stable_sort_is_unique<T: Ranked>(input: Seq<T::V>, a: Seq<T::V>, b: Seq<T::V>)
    requires
        is_stable_sort::<T>(input, a),
        is_stable_sort::<T>(input, b),
    ensures
        a == b,
{
    assert forall|v: T::V| #[trigger] a.filter(tied_with::<T>(v)) == b.filter(
        tied_with::<T>(v),
    ) by {
        assert(b.filter(tied_with::<T>(v)) == input.filter(tied_with::<T>(v)));
    }
    lemma_same_order::<T>(a, b);
}

proof fn lemma_first_is_least<T: Ranked>(a: Seq<T::V>, b: Seq<T::V>)
    requires
        is_ordered::<T>(a),
        a.len() > 0,
        b.len() > 0,
        a.filter(tied_with::<T>(b[0])) == b.filter(tied_with::<T>(b[0])),
    ensures
        !T::precedes(b[0], a[0]),
{
    let keep = tied_with::<T>(b[0]);
    T::precedes_irreflexive(b[0]);
    assert(b == seq![b[0]] + b.drop_first());
    lemma_filter_front(b[0], b.drop_first(), keep);
    lemma_filter_contains(a, keep);
    let i = choose|i: int| 0 <= i < a.len() && keep(#[trigger] a[i]);
    T::precedes_irreflexive(a[0]);
    assert(!T::precedes(a[i], a[0]));
    lemma_not_precedes_transitive::<T>(b[0], a[i], a[0]);
}

proof fn lemma_same_order<T: Ranked>(a: Seq<T::V>, b: Seq<T::V>)
    requires
        is_ordered::<T>(a),
        is_ordered::<T>(b),
        forall|v: T::V| #[trigger] a.filter(tied_with::<T>(v)) == b.filter(tied_with::<T>(v)),
    ensures
        a == b,
    decreases a.len(),
{
    if a.len() == 0 {
        if b.len() > 0 {
            T::precedes_irreflexive(b[0]);
            let keep = tied_with::<T>(b[0]);
            assert(a.filter(keep) == b.filter(keep));
            assert(b == seq![b[0]] + b.drop_first());
            lemma_filter_front(b[0], b.drop_first(), keep);
            lemma_filter_none(a, keep);
        }
        assert(a =~= b);
    } else if b.len() == 0 {
        T::precedes_irreflexive(a[0]);
        let keep = tied_with::<T>(a[0]);
        assert(a.filter(keep) == b.filter(keep));
        assert(a == seq![a[0]] + a.drop_first());
        lemma_filter_front(a[0], a.drop_first(), keep);
        lemma_filter_none(b, keep);
    } else {
        let x = a[0];
        let y = b[0];
        let ra = a.drop_first();
        let rb = b.drop_first();
        assert(a == seq![x] + ra);
        assert(b == seq![y] + rb);
        assert(a.filter(tied_with::<T>(x)) == b.filter(tied_with::<T>(x)));
        assert(a.filter(tied_with::<T>(y)) == b.filter(tied_with::<T>(y)));
        lemma_first_is_least::<T>(a, b);
        lemma_first_is_least::<T>(b, a);
        T::precedes_irreflexive(x);
        let keep = tied_with::<T>(x);
        lemma_filter_front(x, ra, keep);
        lemma_filter_front(y, rb, keep);
        assert(a.filter(keep)[0] == x);
        assert(b.filter(keep)[0] == y);
        assert(x == y);
        assert forall|v: T::V| #[trigger] ra.filter(tied_with::<T>(v)) == rb.filter(
            tied_with::<T>(v),
        ) by {
            let keep = tied_with::<T>(v);
            assert(a.filter(keep) == b.filter(keep));
            lemma_filter_front(x, ra, keep);
            lemma_filter_front(y, rb, keep);
            if keep(x) {
                assert((seq![x] + ra.filter(keep)).drop_first() == ra.filter(keep));
                assert((seq![y] + rb.filter(keep)).drop_first() == rb.filter(keep));
            }
        }
        assert forall|i: int, j: int| 0 <= i < j < ra.len() implies !T::precedes(
            #[trigger] ra[j],
            #[trigger] ra[i],
        ) by {
            assert(!T::precedes(a[j + 1], a[i + 1]));
        }
        assert forall|i: int, j: int| 0 <= i < j < rb.len() implies !T::precedes(
            #[trigger] rb[j],
            #[trigger] rb[i],
        ) by {
            assert(!T::precedes(b[j + 1], b[i + 1]));
        }
        lemma_same_order::<T>(ra, rb);
    }
}

/// Sorts `items` by rank. Items that are tied keep their order.
pub fn sort<T: Ranked>(items: Vec<T>) -> (sorted: Vec<T>)
    ensures
        is_stable_sort::<T>(views(items@), views(sorted@)),
        views(sorted@) == in_order::<T>(views(items@)),
{
    let mut pending = items;
    let ghost all = views(items@);
    let mut sorted: Vec<T> = Vec::new();
    assert(all.skip(all.len() as int) == Seq::<T::V>::empty());
    assert(views(sorted@) == Seq::<T::V>::empty());
    while pending.len() > 0
        invariant
            pending@.len() <= all.len(),
            views(pending@) == all.take(pending@.len() as int),
            views(sorted@) == in_order::<T>(all.skip(pending@.len() as int)),
        decreases pending.len(),
    {
        let ghost n = pending@.len() as int;
        let ghost before = views(sorted@);
        match pending.pop() {
            None => {},
            Some(item) => {
                let mut place: usize = 0;
                while place < sorted.len() && sorted[place].comes_before(&item)
                    invariant
                        place <= sorted.len(),
                        before == views(sorted@),
                        forall|i: int| 0 <= i < place ==> T::precedes(#[trigger] before[i], item@),
                    ensures
                        place <= sorted.len(),
                        forall|i: int| 0 <= i < place ==> T::precedes(#[trigger] before[i], item@),
                        place < sorted.len() ==> !T::precedes(before[place as int], item@),
                    decreases sorted.len() - place,
                {
                    place = place + 1;
                }
                proof {
                    lemma_rank_is::<T>(item@, before, place as int);
                    assert(all.skip(n - 1).drop_first() == all.skip(n));
                    assert(views(pending@.push(item)) == all.take(n));
                    assert(all.take(n)[n - 1] == item@);
                    assert(all.skip(n - 1)[0] == item@);
                }
                sorted.insert(place, item);
                assert(views(sorted@) == before.insert(place as int, item@));
                assert(views(pending@) == all.take(n - 1));
            },
        }
    }
    proof {
        assert(all.skip(0) == all);
        in_order_is_stable_sort::<T>(all);
    }
    sorted
}

} // verus!
