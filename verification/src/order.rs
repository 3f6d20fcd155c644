//! Stable sorting.

use vstd::prelude::*;

verus! {

/// Values with a strict order in which some may rank alike.
pub trait Ranked: Sized {
    /// `self` ranks before `other`.
    spec fn ranks_before(self, other: Self) -> bool;

    /// Whether `self` ranks before `other`.
    fn is_ranked_before(&self, other: &Self) -> (r: bool)
        ensures
            r == self.ranks_before(*other),
    ;

    /// No two values rank before each other.
    proof fn ranking_is_asymmetric(a: Self, b: Self)
        ensures
            !(a.ranks_before(b) && b.ranks_before(a)),
    ;

    /// A value that ranks before another ranks before what that one does not
    /// rank after.
    proof fn ranking_is_transitive(a: Self, b: Self, c: Self)
        requires
            a.ranks_before(b),
            !c.ranks_before(b),
        ensures
            a.ranks_before(c),
    ;
}

impl Ranked for i64 {
    open spec fn ranks_before(self, other: Self) -> bool {
        self < other
    }

    fn is_ranked_before(&self, other: &Self) -> (r: bool) {
        *self < *other
    }

    proof fn ranking_is_asymmetric(a: Self, b: Self) {
    }

    proof fn ranking_is_transitive(a: Self, b: Self, c: Self) {
    }
}

/// `s` with `x` put in behind everything that `x` does not rank before.
pub open spec fn placed<T: Ranked>(s: Seq<T>, x: T) -> Seq<T>
    decreases s.len(),
{
    if s.len() == 0 || !x.ranks_before(s.last()) {
        s.push(x)
    } else {
        placed(s.drop_last(), x).push(s.last())
    }
}

/// The values of `s` by rank; those that rank alike keep their order.
pub open spec fn in_order<T: Ranked>(s: Seq<T>) -> Seq<T>
    decreases s.len(),
{
    if s.len() == 0 {
        s
    } else {
        placed(in_order(s.drop_last()), s.last())
    }
}

/// No value ranks before one that stands ahead of it.
pub open spec fn ranked<T: Ranked>(s: Seq<T>) -> bool {
    forall|i: int, j: int| 0 <= i < j < s.len() ==> !(#[trigger] s[j]).ranks_before(#[trigger] s[i])
}

/// `x` goes in at position `i` when it ranks before all from there on and not
/// before what stands ahead.
proof fn lemma_placed_at<T: Ranked>(s: Seq<T>, x: T, i: int)
    requires
        0 <= i <= s.len(),
        forall|j: int| i <= j < s.len() ==> x.ranks_before(#[trigger] s[j]),
        i == 0 || !x.ranks_before(s[i - 1]),
    ensures
        placed(s, x) == s.insert(i, x),
    decreases s.len(),
{
    if s.len() == 0 {
        assert(s.push(x) =~= s.insert(i, x));
    } else if i == s.len() {
        assert(s.push(x) =~= s.insert(i, x));
    } else {
        lemma_placed_at(s.drop_last(), x, i);
        assert(s.drop_last().insert(i, x).push(s.last()) =~= s.insert(i, x));
    }
}

/// `v` in order.
pub fn sort<T: Ranked>(v: Vec<T>) -> (r: Vec<T>)
    ensures
        r@ == in_order(v@),
{
    let mut r: Vec<T> = Vec::new();
    for x in it: v
        invariant
            it.seq() == v@,
            r@ == in_order(v@.take(it.index() as int)),
    {
        let ghost done = it.index() as int;
        let mut i: usize = r.len();
        while i > 0 && x.is_ranked_before(&r[i - 1])
            invariant
                i <= r@.len(),
                forall|j: int| i <= j < r@.len() ==> x.ranks_before(#[trigger] r@[j]),
            ensures
                i <= r@.len(),
                forall|j: int| i <= j < r@.len() ==> x.ranks_before(#[trigger] r@[j]),
                i == 0 || !x.ranks_before(r@[i - 1]),
            decreases i,
        {
            i -= 1;
        }
        proof {
            lemma_placed_at(r@, x, i as int);
            assert(v@.take(done + 1).drop_last() == v@.take(done));
        }
        r.insert(i, x);
    }
    assert(v@.take(v@.len() as int) == v@);
    r
}

proof fn lemma_placed_len<T: Ranked>(s: Seq<T>, x: T)
    ensures
        placed(s, x).len() == s.len() + 1,
        placed(s, x).to_multiset() == s.to_multiset().insert(x),
    decreases s.len(),
{
    broadcast use vstd::seq_lib::group_to_multiset_ensures;

    if s.len() == 0 || !x.ranks_before(s.last()) {
    } else {
        lemma_placed_len(s.drop_last(), x);
        assert(s == s.drop_last().push(s.last()));
        assert(s.to_multiset() == s.drop_last().to_multiset().insert(s.last()));
        assert(placed(s, x).to_multiset() == placed(s.drop_last(), x).to_multiset().insert(
            s.last(),
        ));
        assert(s.drop_last().to_multiset().insert(x).insert(s.last())
            =~= s.drop_last().to_multiset().insert(s.last()).insert(x));
    }
}

/// Sorting keeps every value, with all its copies.
pub proof fn law_sorting_keeps_the_values<T: Ranked>(s: Seq<T>)
    ensures
        in_order(s).len() == s.len(),
        in_order(s).to_multiset() == s.to_multiset(),
    decreases s.len(),
{
    broadcast use vstd::seq_lib::group_to_multiset_ensures;

    if s.len() > 0 {
        law_sorting_keeps_the_values(s.drop_last());
        lemma_placed_len(in_order(s.drop_last()), s.last());
        assert(s == s.drop_last().push(s.last()));
    }
}

/// Sorting neither adds nor loses a value.
pub proof fn lemma_same_members<T: Ranked>(s: Seq<T>, x: T)
    ensures
        in_order(s).contains(x) <==> s.contains(x),
{
    broadcast use vstd::seq_lib::group_to_multiset_ensures;

    law_sorting_keeps_the_values(s);
    assert(in_order(s).to_multiset().count(x) == s.to_multiset().count(x));
}

proof fn lemma_placed_ranked<T: Ranked>(s: Seq<T>, x: T)
    requires
        ranked(s),
    ensures
        ranked(placed(s, x)),
        forall|i: int| 0 <= i < placed(s, x).len() ==> (#[trigger] placed(s, x)[i]) == x || s.contains(
            placed(s, x)[i],
        ),
    decreases s.len(),
{
    let r = placed(s, x);
    if s.len() == 0 || !x.ranks_before(s.last()) {
        assert forall|i: int, j: int| 0 <= i < j < r.len() implies !(#[trigger] r[j]).ranks_before(
            #[trigger] r[i],
        ) by {
            if j == s.len() && i < s.len() - 1 {
                assert(!s.last().ranks_before(s[i]));
                if x.ranks_before(s[i]) {
                    T::ranking_is_transitive(x, s[i], s.last());
                }
            }
        }
        assert forall|i: int| 0 <= i < r.len() implies (#[trigger] r[i]) == x || s.contains(r[i]) by {
            if i < s.len() {
                assert(r[i] == s[i]);
            }
        }
    } else {
        let head = s.drop_last();
        let rest = placed(head, x);
        assert(ranked(head));
        lemma_placed_ranked(head, x);
        lemma_placed_len(head, x);
        assert forall|i: int, j: int| 0 <= i < j < r.len() implies !(#[trigger] r[j]).ranks_before(
            #[trigger] r[i],
        ) by {
            if j == rest.len() {
                assert(r[j] == s.last());
                assert(rest[i] == r[i]);
                if r[i] == x {
                    T::ranking_is_asymmetric(x, s.last());
                } else {
                    let k = choose|k: int| 0 <= k < head.len() && head[k] == rest[i];
                    assert(s[k] == r[i]);
                    assert(!s[s.len() - 1].ranks_before(s[k]));
                }
            } else {
                assert(rest[i] == r[i] && rest[j] == r[j]);
            }
        }
        assert forall|i: int| 0 <= i < r.len() implies (#[trigger] r[i]) == x || s.contains(r[i]) by {
            if i < rest.len() {
                assert(r[i] == rest[i]);
                if rest[i] != x {
                    let k = choose|k: int| 0 <= k < head.len() && head[k] == rest[i];
                    assert(s[k] == r[i]);
                }
            } else {
                assert(s[s.len() - 1] == r[i]);
            }
        }
    }
}

/// Sorting puts the values by rank.
pub proof fn law_sorting_ranks<T: Ranked>(s: Seq<T>)
    ensures
        ranked(in_order(s)),
    decreases s.len(),
{
    if s.len() > 0 {
        law_sorting_ranks(s.drop_last());
        lemma_placed_ranked(in_order(s.drop_last()), s.last());
    }
}

/// A list that is by rank already is left as it is.
pub proof fn law_sorting_is_idempotent<T: Ranked>(s: Seq<T>)
    requires
        ranked(s),
    ensures
        in_order(s) == s,
    decreases s.len(),
{
    if s.len() > 0 {
        assert(ranked(s.drop_last()));
        law_sorting_is_idempotent(s.drop_last());
        if s.len() > 1 {
            assert(!s[s.len() - 1].ranks_before(s[s.len() - 2]));
        }
        assert(s.drop_last().push(s.last()) == s);
    }
}

/// Neither value ranks before the other.
pub open spec fn alike<T: Ranked>(a: T, b: T) -> bool {
    !a.ranks_before(b) && !b.ranks_before(a)
}

/// The values of `s` that rank like `k`, in the order in which they stand.
pub open spec fn peers<T: Ranked>(s: Seq<T>, k: T) -> Seq<T>
    decreases s.len(),
{
    if s.len() == 0 {
        Seq::empty()
    } else if alike(s.last(), k) {
        peers(s.drop_last(), k).push(s.last())
    } else {
        peers(s.drop_last(), k)
    }
}

proof fn lemma_placed_behind_its_peers<T: Ranked>(s: Seq<T>, x: T, k: T)
    ensures
        peers(placed(s, x), k) == if alike(x, k) {
            peers(s, k).push(x)
        } else {
            peers(s, k)
        },
    decreases s.len(),
{
    if s.len() == 0 || !x.ranks_before(s.last()) {
        assert(s.push(x).drop_last() == s);
    } else {
        let head = s.drop_last();
        let y = s.last();
        lemma_placed_behind_its_peers(head, x, k);
        assert(placed(head, x).push(y).drop_last() == placed(head, x));
        if alike(x, k) && alike(y, k) {
            T::ranking_is_transitive(x, y, k);
        }
    }
}

/// Sorting is stable: values that rank alike keep their order.
pub proof fn law_sorting_is_stable<T: Ranked>(s: Seq<T>, k: T)
    ensures
        peers(in_order(s), k) == peers(s, k),
    decreases s.len(),
{
    if s.len() > 0 {
        law_sorting_is_stable(s.drop_last(), k);
        lemma_placed_behind_its_peers(in_order(s.drop_last()), s.last(), k);
    }
}

} // verus!
