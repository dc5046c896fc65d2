//! Sorting that keeps equals in the order in which they came.

use vstd::prelude::*;
use crate::keyed::{increasing, listed, listed_at, one_listing, ranked_at, Key};
use crate::text::{text_before, text_before_irreflexive, text_before_total, text_before_transitive};

verus! {

impl Key for (String, u64) {
    type Rank = (Seq<char>, u64);

    open spec fn rank(&self) -> (Seq<char>, u64) {
        (self.0@, self.1)
    }

    open spec fn before(a: (Seq<char>, u64), b: (Seq<char>, u64)) -> bool {
        text_before(a.0, b.0) || (a.0 == b.0 && a.1 < b.1)
    }

    proof fn order_irreflexive(a: (Seq<char>, u64)) {
        text_before_irreflexive(a.0);
    }

    proof fn order_transitive(a: (Seq<char>, u64), b: (Seq<char>, u64), c: (Seq<char>, u64)) {
        if text_before(a.0, b.0) && text_before(b.0, c.0) {
            text_before_transitive(a.0, b.0, c.0);
        }
    }

    proof fn order_total(a: (Seq<char>, u64), b: (Seq<char>, u64)) {
        text_before_total(a.0, b.0);
    }

    fn is_before(&self, other: &(String, u64)) -> (r: bool) {
        proof {
            text_before_total(self.0@, other.0@);
            text_before_irreflexive(self.0@);
            if text_before(self.0@, other.0@) && text_before(other.0@, self.0@) {
                text_before_transitive(self.0@, other.0@, self.0@);
            }
        }
        if self.0.is_before(&other.0) {
            true
        } else if other.0.is_before(&self.0) {
            false
        } else {
            self.1 < other.1
        }
    }
}

/// `s` with `e` filed behind everything that does not come after it.
pub open spec fn filed<K: Key, T>(s: Seq<(K::Rank, T)>, e: (K::Rank, T)) -> Seq<(K::Rank, T)>
    decreases s.len(),
{
    if s.len() == 0 || !K::before(e.0, s.last().0) {
        s.push(e)
    } else {
        filed::<K, T>(s.drop_last(), e).push(s.last())
    }
}

/// The entries of `s` in the order of their ranks, equals in the order in which they stand.
pub open spec fn sorted<K: Key, T>(s: Seq<(K::Rank, T)>) -> Seq<(K::Rank, T)>
    decreases s.len(),
{
    if s.len() == 0 {
        s
    } else {
        filed::<K, T>(sorted::<K, T>(s.drop_last()), s.last())
    }
}

/// True if nothing stands behind something that it comes before.
pub open spec fn ordered<K: Key, T>(s: Seq<(K::Rank, T)>) -> bool {
    forall|i: int, j: int| 0 <= i < j < s.len() ==> !K::before(#[trigger] s[j].0, #[trigger] s[i].0)
}

/// What is filed behind the entries before `p`, and before the others.
proof fn filed_at<K: Key, T>(s: Seq<(K::Rank, T)>, e: (K::Rank, T), p: int)
    requires
        0 <= p <= s.len(),
        p == 0 || !K::before(e.0, s[p - 1].0),
        forall|i: int| p <= i < s.len() ==> K::before(e.0, #[trigger] s[i].0),
    ensures
        filed::<K, T>(s, e) == s.insert(p, e),
    decreases s.len(),
{
    if p == s.len() {
        assert(s.insert(p, e) =~= s.push(e));
    } else {
        let t = s.drop_last();
        assert forall|i: int| p <= i < t.len() implies K::before(e.0, #[trigger] t[i].0) by {
            assert(t[i] == s[i]);
        }
        assert(K::before(e.0, s[s.len() - 1].0));
        filed_at::<K, T>(t, e, p);
        assert(s.insert(p, e) =~= t.insert(p, e).push(s.last()));
    }
}

/// Filing keeps entries ordered, adds the entry, and changes nothing else.
proof fn filing_keeps_order<K: Key, T>(s: Seq<(K::Rank, T)>, e: (K::Rank, T))
    requires
        ordered::<K, T>(s),
    ensures
        ordered::<K, T>(filed::<K, T>(s, e)),
        filed::<K, T>(s, e).len() == s.len() + 1,
        filed::<K, T>(s, e).to_multiset() == s.to_multiset().insert(e),
    decreases s.len(),
{
    broadcast use vstd::seq_lib::group_to_multiset_ensures;

    let f = filed::<K, T>(s, e);
    if s.len() == 0 || !K::before(e.0, s.last().0) {
        assert forall|i: int, j: int| 0 <= i < j < f.len() implies !K::before(
            #[trigger] f[j].0,
            #[trigger] f[i].0,
        ) by {
            if j == s.len() && i < s.len() - 1 {
                assert(!K::before(s[s.len() - 1].0, s[i].0));
                if K::before(e.0, s[i].0) {
                    K::order_total(s[i].0, s.last().0);
                    if K::before(s[i].0, s.last().0) {
                        K::order_transitive(e.0, s[i].0, s.last().0);
                    }
                }
            }
        }
    } else {
        let t = s.drop_last();
        let g = filed::<K, T>(t, e);
        assert(ordered::<K, T>(t)) by {
            assert forall|i: int, j: int| 0 <= i < j < t.len() implies !K::before(
                #[trigger] t[j].0,
                #[trigger] t[i].0,
            ) by {
                assert(!K::before(s[j].0, s[i].0));
            }
        }
        filing_keeps_order::<K, T>(t, e);
        assert forall|i: int| 0 <= i < g.len() implies !K::before(s.last().0, #[trigger] g[i].0) by {
            assert(g.to_multiset().count(g[i]) > 0);
            if g[i] == e {
                if K::before(s.last().0, e.0) {
                    K::order_transitive(e.0, s.last().0, e.0);
                    K::order_irreflexive(e.0);
                }
            } else {
                assert(t.to_multiset().count(g[i]) > 0);
                assert(t.contains(g[i]));
                let k = choose|k: int| 0 <= k < t.len() && t[k] == g[i];
                assert(!K::before(s[s.len() - 1].0, s[k].0));
            }
        }
        assert forall|i: int, j: int| 0 <= i < j < f.len() implies !K::before(
            #[trigger] f[j].0,
            #[trigger] f[i].0,
        ) by {
            if j < g.len() {
                assert(!K::before(g[j].0, g[i].0));
            } else {
                assert(f[i] == g[i]);
            }
        }
        assert(s =~= t.push(s.last()));
        assert(f.to_multiset() =~= s.to_multiset().insert(e));
    }
}

/// Sorting orders the entries, and neither loses nor adds one.
pub proof fn sorting_orders<K: Key, T>(s: Seq<(K::Rank, T)>)
    ensures
        ordered::<K, T>(sorted::<K, T>(s)),
        sorted::<K, T>(s).len() == s.len(),
        sorted::<K, T>(s).to_multiset() == s.to_multiset(),
    decreases s.len(),
{
    broadcast use vstd::seq_lib::group_to_multiset_ensures;

    if s.len() > 0 {
        sorting_orders::<K, T>(s.drop_last());
        filing_keeps_order::<K, T>(sorted::<K, T>(s.drop_last()), s.last());
        assert(s =~= s.drop_last().push(s.last()));
    }
}

/// True if no two entries have the same rank.
pub open spec fn distinct<R, T>(s: Seq<(R, T)>) -> bool {
    forall|i: int, j: int| 0 <= i < j < s.len() ==> (#[trigger] s[i]).0 != (#[trigger] s[j]).0
}

/// Entries of distinct ranks have one sorted order, in whatever order they come.
pub proof fn sorting_forgets_the_order<K: Key, T>(s: Seq<(K::Rank, T)>, t: Seq<(K::Rank, T)>)
    requires
        distinct(s),
        s.to_multiset() == t.to_multiset(),
    ensures
        sorted::<K, T>(s) == sorted::<K, T>(t),
{
    broadcast use vstd::seq_lib::group_to_multiset_ensures;

    sorting_orders::<K, T>(s);
    sorting_orders::<K, T>(t);
    let a = sorted::<K, T>(s);
    let b = sorted::<K, T>(t);
    sorted_distinct_increases::<K, T>(s, a);
    sorted_distinct_increases::<K, T>(s, b);
    assert forall|r: K::Rank| listed(a).contains_key(r) == #[trigger] listed(b).contains_key(r) by {
        if listed(a).contains_key(r) {
            let i = choose|i: int| ranked_at(a, r, i);
            assert(b.to_multiset().count(a[i]) > 0);
            let j = choose|j: int| 0 <= j < b.len() && b[j] == a[i];
            assert(ranked_at(b, r, j));
        }
        if listed(b).contains_key(r) {
            let i = choose|i: int| ranked_at(b, r, i);
            assert(a.to_multiset().count(b[i]) > 0);
            let j = choose|j: int| 0 <= j < a.len() && a[j] == b[i];
            assert(ranked_at(a, r, j));
        }
    }
    assert forall|r: K::Rank| listed(a).contains_key(r) implies #[trigger] listed(a)[r]
        == listed(b)[r] by {
        let i = choose|i: int| ranked_at(a, r, i);
        listed_at::<K, T>(a, i);
        assert(b.to_multiset().count(a[i]) > 0);
        let j = choose|j: int| 0 <= j < b.len() && b[j] == a[i];
        listed_at::<K, T>(b, j);
    }
    assert(listed(a) =~= listed(b));
    one_listing::<K, T>(a, b);
}

/// Ordered entries of distinct ranks increase strictly.
proof fn sorted_distinct_increases<K: Key, T>(s: Seq<(K::Rank, T)>, a: Seq<(K::Rank, T)>)
    requires
        distinct(s),
        ordered::<K, T>(a),
        a.to_multiset() == s.to_multiset(),
    ensures
        increasing::<K, T>(a),
{
    broadcast use vstd::seq_lib::group_to_multiset_ensures;

    assert(s.len() == a.len()) by {
        assert(s.to_multiset().len() == s.len());
        assert(a.to_multiset().len() == a.len());
    }
    assert forall|i: int, j: int| 0 <= i < j < s.len() implies s[i] != s[j] by {
        assert(s[i].0 != s[j].0);
    }
    s.lemma_multiset_has_no_duplicates();
    a.lemma_multiset_has_no_duplicates_conv();
    assert forall|i: int, j: int| 0 <= i < j < a.len() implies K::before(
        #[trigger] a[i].0,
        #[trigger] a[j].0,
    ) by {
        assert(!K::before(a[j].0, a[i].0));
        assert(s.to_multiset().count(a[i]) > 0);
        assert(s.to_multiset().count(a[j]) > 0);
        let p = choose|p: int| 0 <= p < s.len() && s[p] == a[i];
        let q = choose|q: int| 0 <= q < s.len() && s[q] == a[j];
        assert(a[i] != a[j]);
        if a[i].0 == a[j].0 {
            if p < q {
                assert(s[p].0 != s[q].0);
            } else {
                assert(s[q].0 != s[p].0);
            }
        }
        K::order_total(a[i].0, a[j].0);
    }
}

/// The ranks and the views of some entries.
pub open spec fn ranked<K: Key, T: View>(s: Seq<(K, T)>) -> Seq<(K::Rank, T::V)> {
    Seq::new(s.len(), |i: int| (s[i].0.rank(), s[i].1@))
}

/// Sorts entries by their keys, equals in the order in which they come.
pub(crate) fn sort<K: Key, T: View>(items: Vec<(K, T)>) -> (r: Vec<(K, T)>)
    ensures
        ranked(r@) == sorted::<K, T::V>(ranked(items@)),
{
    let ghost s = ranked(items@);
    let mut out: Vec<(K, T)> = Vec::new();
    assert(ranked(out@) =~= sorted::<K, T::V>(s.subrange(0, 0)));
    for e in it: items
        invariant
            s == ranked(it.seq()),
            ranked(out@) == sorted::<K, T::V>(s.subrange(0, it.index() as int)),
    {
        let ghost i = it.index() as int;
        let ghost now = ranked(out@);
        proof {
            let next = s.subrange(0, i + 1);
            assert(next.drop_last() =~= s.subrange(0, i));
            assert(next.last() == s[i]);
            assert(s[i] == (e.0.rank(), e.1@));
            sorting_orders::<K, T::V>(s.subrange(0, i));
        }
        let mut lo: usize = 0;
        let mut hi: usize = out.len();
        while lo < hi
            invariant
                lo <= hi <= out@.len(),
                now == ranked(out@),
                ordered::<K, T::V>(now),
                forall|k: int| 0 <= k < lo ==> !K::before(e.0.rank(), #[trigger] now[k].0),
                forall|k: int| hi <= k < now.len() ==> K::before(e.0.rank(), #[trigger] now[k].0),
            decreases hi - lo,
        {
            let mid: usize = lo + (hi - lo) / 2;
            let below = e.0.is_before(&out[mid].0);
            assert(now[mid as int].0 == out@[mid as int].0.rank());
            if below {
                proof {
                    assert forall|k: int| mid <= k < now.len() implies K::before(
                        e.0.rank(),
                        #[trigger] now[k].0,
                    ) by {
                        if k > mid {
                            assert(!K::before(now[k].0, now[mid as int].0));
                            K::order_total(now[k].0, now[mid as int].0);
                            if K::before(now[mid as int].0, now[k].0) {
                                K::order_transitive(e.0.rank(), now[mid as int].0, now[k].0);
                            }
                        }
                    }
                }
                hi = mid;
            } else {
                proof {
                    assert forall|k: int| 0 <= k < mid + 1 implies !K::before(
                        e.0.rank(),
                        #[trigger] now[k].0,
                    ) by {
                        if k < mid && K::before(e.0.rank(), now[k].0) {
                            assert(!K::before(now[mid as int].0, now[k].0));
                            K::order_total(now[k].0, now[mid as int].0);
                            if K::before(now[k].0, now[mid as int].0) {
                                K::order_transitive(e.0.rank(), now[k].0, now[mid as int].0);
                            }
                        }
                    }
                }
                lo = mid + 1;
            }
        }
        let ghost entry = (e.0.rank(), e.1@);
        out.insert(lo, e);
        proof {
            filed_at::<K, T::V>(now, entry, lo as int);
            assert(ranked(out@) =~= now.insert(lo as int, entry));
        }
    }
    assert(s.subrange(0, s.len() as int) =~= s);
    out
}

} // verus!
