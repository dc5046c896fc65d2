//! Exact totals per key, and over all keys.

use vstd::prelude::*;
use crate::keyed::{in_order, in_order_is, increasing, listed, listed_at, orderly, placed, rank_removed, ranked_at, Key, SortedMap};

verus! {

/// The sum of the values of a listing.
pub open spec fn sum_of<R>(s: Seq<(R, u64)>) -> int
    decreases s.len(),
{
    if s.len() == 0 {
        0
    } else {
        sum_of(s.drop_last()) + s.last().1
    }
}

/// What `m` holds for `r`, counting a missing key as zero.
pub open spec fn amount<R>(m: Map<R, u64>, r: R) -> u64 {
    if m.contains_key(r) {
        m[r]
    } else {
        0
    }
}

/// The sum of the amounts of all keys.
pub open spec fn total_of<K: Key>(m: Map<K::Rank, u64>) -> int {
    sum_of(in_order::<K, u64>(m))
}

/// A sum is not negative, and no less than any of its terms.
pub proof fn sum_bounds<R>(s: Seq<(R, u64)>)
    ensures
        0 <= sum_of(s),
        forall|i: int| 0 <= i < s.len() ==> (#[trigger] s[i]).1 <= sum_of(s),
    decreases s.len(),
{
    if s.len() > 0 {
        sum_bounds(s.drop_last());
        assert forall|i: int| 0 <= i < s.len() implies (#[trigger] s[i]).1 <= sum_of(s) by {
            if i < s.len() - 1 {
                assert(s.drop_last()[i] == s[i]);
            }
        }
    }
}

/// Replacing one term changes the sum by the difference.
pub proof fn sum_after_update<R>(s: Seq<(R, u64)>, p: int, e: (R, u64))
    requires
        0 <= p < s.len(),
    ensures
        sum_of(s.update(p, e)) == sum_of(s) - s[p].1 + e.1,
    decreases s.len(),
{
    let t = s.update(p, e);
    if p == s.len() - 1 {
        assert(t.drop_last() =~= s.drop_last());
    } else {
        assert(t.drop_last() =~= s.drop_last().update(p, e));
        sum_after_update(s.drop_last(), p, e);
    }
}

/// A new term adds itself to the sum.
pub proof fn sum_after_insert<R>(s: Seq<(R, u64)>, p: int, e: (R, u64))
    requires
        0 <= p <= s.len(),
    ensures
        sum_of(s.insert(p, e)) == sum_of(s) + e.1,
    decreases s.len(),
{
    let t = s.insert(p, e);
    if p == s.len() {
        assert(t.drop_last() =~= s);
    } else {
        assert(t.drop_last() =~= s.drop_last().insert(p, e));
        assert(t.last() == s.last());
        sum_after_insert(s.drop_last(), p, e);
    }
}

proof fn sum_after_placing<K: Key>(
    before: Seq<(K::Rank, u64)>,
    after: Seq<(K::Rank, u64)>,
    r: K::Rank,
    v: u64,
)
    requires
        increasing::<K, u64>(before),
        placed(before, after, r, v),
    ensures
        sum_of(after) == sum_of(before) - amount(listed(before), r) + v,
{
    if exists|p: int| ranked_at(before, r, p) && after == #[trigger] before.update(p, (r, v)) {
        let p = choose|p: int|
            ranked_at(before, r, p) && after == #[trigger] before.update(p, (r, v));
        listed_at::<K, u64>(before, p);
        sum_after_update(before, p, (r, v));
    } else {
        let p = choose|p: int|
            0 <= p <= before.len() && after == #[trigger] before.insert(p, (r, v)) && !listed(
                before,
            ).contains_key(r);
        sum_after_insert(before, p, (r, v));
    }
}

/// Amounts per key, with their total.
pub struct Tally<K: Key> {
    counts: SortedMap<K, u64>,
    total: u64,
}

impl<K: Key> View for Tally<K> {
    type V = Map<K::Rank, u64>;

    closed spec fn view(&self) -> Map<K::Rank, u64> {
        self.counts@
    }
}

impl<K: Key> Tally<K> {
    /// The amounts in key order.
    pub closed spec fn listing(&self) -> Seq<(K::Rank, u64)> {
        self.counts.listing()
    }

    /// The total over all keys.
    pub open spec fn sum(&self) -> int {
        sum_of(self.listing())
    }

    #[verifier::type_invariant]
    spec fn summed(self) -> bool {
        self.total == sum_of(self.counts.listing())
    }

    /// Nothing tallied.
    pub fn new() -> (r: Self)
        ensures
            r@ == Map::<K::Rank, u64>::empty(),
            r.listing() == Seq::<(K::Rank, u64)>::empty(),
            r.sum() == 0,
    {
        Tally { counts: SortedMap::new(), total: 0 }
    }

    /// The total over all keys, which no single amount exceeds.
    pub fn total(&self) -> (r: u64)
        ensures
            r == self.sum(),
            r == total_of::<K>(self@),
            forall|i: int| 0 <= i < self.listing().len() ==> (#[trigger] self.listing()[i]).1 <= r,
    {
        proof {
            use_type_invariant(self);
            sum_bounds(self.listing());
        }
        let n: usize = self.counts.len();
        self.total
    }

    /// The number of keys; the listing is in key order and is exactly the tally.
    pub fn len(&self) -> (n: usize)
        ensures
            n == self.listing().len(),
            increasing::<K, u64>(self.listing()),
            self.listing() == in_order::<K, u64>(self@),
            self@ == listed(self.listing()),
            forall|i: int| 0 <= i < self.listing().len() ==> {
                &&& self@.contains_key(#[trigger] self.listing()[i].0)
                &&& self@[self.listing()[i].0] == self.listing()[i].1
            },
    {
        self.counts.len()
    }

    /// The key at position `i` in key order.
    pub fn key_at(&self, i: usize) -> (k: &K)
        requires
            i < self.listing().len(),
        ensures
            k.rank() == self.listing()[i as int].0,
    {
        self.counts.key_at(i)
    }

    /// The amount at position `i` in key order.
    pub fn amount_at(&self, i: usize) -> (v: u64)
        requires
            i < self.listing().len(),
        ensures
            v == self.listing()[i as int].1,
    {
        *self.counts.value_at(i)
    }

    /// The amount of `k`, zero where nothing was tallied for it.
    pub fn get(&self, k: &K) -> (r: u64)
        ensures
            r == amount(self@, k.rank()),
            r <= self.sum(),
    {
        proof {
            use_type_invariant(self);
            sum_bounds(self.listing());
        }
        let n: usize = self.counts.len();
        match self.counts.get(k) {
            Some(v) => {
                proof {
                    let i = choose|i: int| ranked_at(self.listing(), k.rank(), i);
                    assert(self.listing()[i].1 <= self.sum());
                }
                *v
            },
            None => 0,
        }
    }

    /// True if something was tallied for `k`.
    pub fn contains_key(&self, k: &K) -> (r: bool)
        ensures
            r == self@.contains_key(k.rank()),
    {
        self.counts.contains_key(k)
    }

    /// Adds `n` to the amount of `k`.
    pub fn increase(&mut self, k: K, n: u64)
        requires
            old(self).sum() + n <= u64::MAX,
        ensures
            final(self)@ == old(self)@.insert(
                k.rank(),
                (amount(old(self)@, k.rank()) + n) as u64,
            ),
            final(self).sum() == old(self).sum() + n,
    {
        proof {
            use_type_invariant(&*self);
        }
        let held: u64 = self.get(&k);
        let mut taken: Tally<K> = Tally::new();
        core::mem::swap(self, &mut taken);
        let Tally { mut counts, total } = taken;
        let ghost before = counts.listing();
        let ghost rank = k.rank();
        let _ = counts.insert(k, held + n);
        proof {
            sum_after_placing::<K>(before, counts.listing(), rank, (held + n) as u64);
        }
        *self = Tally { counts, total: total + n };
    }

    /// Empties the tally, and hands back what it held.
    pub fn drain(&mut self) -> (r: Self)
        ensures
            r@ == old(self)@,
            r.listing() == old(self).listing(),
            final(self)@ == Map::<K::Rank, u64>::empty(),
            final(self).listing() == Seq::<(K::Rank, u64)>::empty(),
            final(self).sum() == 0,
    {
        let mut taken: Tally<K> = Tally::new();
        core::mem::swap(self, &mut taken);
        taken
    }
}

/// Amounts per key, each in a counter of its own.
pub struct Amounts<K: Key> {
    counts: SortedMap<K, u64>,
}

impl<K: Key> View for Amounts<K> {
    type V = Map<K::Rank, u64>;

    closed spec fn view(&self) -> Map<K::Rank, u64> {
        self.counts@
    }
}

impl<K: Key> Amounts<K> {
    /// The amounts in key order.
    pub closed spec fn listing(&self) -> Seq<(K::Rank, u64)> {
        self.counts.listing()
    }

    /// The total over all keys.
    pub open spec fn sum(&self) -> int {
        sum_of(self.listing())
    }

    /// No amounts.
    pub fn new() -> (r: Self)
        ensures
            r@ == Map::<K::Rank, u64>::empty(),
            r.listing() == Seq::<(K::Rank, u64)>::empty(),
            r.sum() == 0,
    {
        Amounts { counts: SortedMap::new() }
    }

    /// The number of keys; the listing is in key order and is exactly the amounts.
    pub fn len(&self) -> (n: usize)
        ensures
            n == self.listing().len(),
            increasing::<K, u64>(self.listing()),
            self.listing() == in_order::<K, u64>(self@),
            self@ == listed(self.listing()),
            forall|i: int| 0 <= i < self.listing().len() ==> {
                &&& self@.contains_key(#[trigger] self.listing()[i].0)
                &&& self@[self.listing()[i].0] == self.listing()[i].1
            },
    {
        self.counts.len()
    }

    /// The key at position `i` in key order.
    pub fn key_at(&self, i: usize) -> (k: &K)
        requires
            i < self.listing().len(),
        ensures
            k.rank() == self.listing()[i as int].0,
    {
        self.counts.key_at(i)
    }

    /// The amount at position `i` in key order.
    pub fn amount_at(&self, i: usize) -> (v: u64)
        requires
            i < self.listing().len(),
        ensures
            v == self.listing()[i as int].1,
    {
        *self.counts.value_at(i)
    }

    /// The amount of `k`, zero where there is none.
    pub fn get(&self, k: &K) -> (r: u64)
        ensures
            r == amount(self@, k.rank()),
    {
        match self.counts.get(k) {
            Some(v) => *v,
            None => 0,
        }
    }

    /// True if `k` has an amount.
    pub fn contains_key(&self, k: &K) -> (r: bool)
        ensures
            r == self@.contains_key(k.rank()),
    {
        self.counts.contains_key(k)
    }

    /// Adds `n` to the amount of `k`.
    pub fn increase(&mut self, k: K, n: u64)
        requires
            amount(old(self)@, k.rank()) + n <= u64::MAX,
        ensures
            final(self)@ == old(self)@.insert(
                k.rank(),
                (amount(old(self)@, k.rank()) + n) as u64,
            ),
            final(self).sum() == old(self).sum() + n,
    {
        let held: u64 = self.get(&k);
        let _ = self.counts.len();
        let ghost before = self.counts.listing();
        let ghost rank = k.rank();
        let _ = self.counts.insert(k, held + n);
        proof {
            sum_after_placing::<K>(before, self.counts.listing(), rank, (held + n) as u64);
        }
    }

    /// Takes all amounts away.
    pub fn drain(&mut self) -> (r: Self)
        ensures
            r@ == old(self)@,
            r.listing() == old(self).listing(),
            final(self)@ == Map::<K::Rank, u64>::empty(),
            final(self).listing() == Seq::<(K::Rank, u64)>::empty(),
    {
        Amounts { counts: self.counts.drain() }
    }
}

/// Taking one term out takes it off the sum.
pub proof fn sum_after_remove<R>(s: Seq<(R, u64)>, p: int)
    requires
        0 <= p < s.len(),
    ensures
        sum_of(s.remove(p)) == sum_of(s) - s[p].1,
    decreases s.len(),
{
    let t = s.remove(p);
    if p == s.len() - 1 {
        assert(t =~= s.drop_last());
    } else {
        assert(t.drop_last() =~= s.drop_last().remove(p));
        assert(t.last() == s.last());
        sum_after_remove(s.drop_last(), p);
    }
}

/// The total is the amount of any one key and the total of the others.
pub proof fn total_splits<K: Key>(m: Map<K::Rank, u64>, k: K::Rank)
    requires
        orderly::<K, u64>(m),
    ensures
        total_of::<K>(m) == amount(m, k) + total_of::<K>(m.remove(k)),
        orderly::<K, u64>(m.remove(k)),
{
    let s = in_order::<K, u64>(m);
    if m.contains_key(k) {
        let p = choose|p: int| ranked_at(s, k, p);
        listed_at::<K, u64>(s, p);
        sum_after_remove(s, p);
        rank_removed::<K, u64>(s, p);
        in_order_is::<K, u64>(s.remove(p));
    } else {
        assert(m.remove(k) =~= m);
    }
}

/// Nothing sums to nothing.
pub proof fn total_of_nothing<K: Key>()
    ensures
        total_of::<K>(Map::<K::Rank, u64>::empty()) == 0,
{
    let s = Seq::<(K::Rank, u64)>::empty();
    assert(listed(s) =~= Map::<K::Rank, u64>::empty()) by {
        assert(forall|r: K::Rank| !listed(s).contains_key(r));
    }
    in_order_is::<K, u64>(s);
}

/// Two increases may come in either order.
pub proof fn increases_commute<R>(m: Map<R, u64>, a: R, x: u64, b: R, y: u64)
    requires
        amount(m, a) + x + y <= u64::MAX,
        amount(m, b) + x + y <= u64::MAX,
    ensures
        ({
            let ab = m.insert(a, (amount(m, a) + x) as u64);
            let ba = m.insert(b, (amount(m, b) + y) as u64);
            ab.insert(b, (amount(ab, b) + y) as u64) == ba.insert(a, (amount(ba, a) + x) as u64)
        }),
{
    let ab = m.insert(a, (amount(m, a) + x) as u64);
    let ba = m.insert(b, (amount(m, b) + y) as u64);
    assert(ab.insert(b, (amount(ab, b) + y) as u64) =~= ba.insert(a, (amount(ba, a) + x) as u64));
}

/// No prefix of a listing sums to more than all of it.
pub proof fn prefix_sums<R>(s: Seq<(R, u64)>, i: int)
    requires
        0 <= i <= s.len(),
    ensures
        0 <= sum_of(s.subrange(0, i)) <= sum_of(s),
    decreases s.len() - i,
{
    sum_bounds(s.subrange(0, i));
    if i < s.len() {
        prefix_sums(s, i + 1);
        let next = s.subrange(0, i + 1);
        assert(next.drop_last() =~= s.subrange(0, i));
    } else {
        assert(s.subrange(0, i) =~= s);
    }
}

} // verus!
