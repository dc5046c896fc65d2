//! A map kept in the order of its keys.
//!
//! The tables of the library are written in key order. [`SortedMap`] keeps its entries
//! sorted, so walking it is walking them in the one order that every run agrees on.

use vstd::prelude::*;
use crate::text::{is_text_before, text_before, text_before_irreflexive, text_before_total, text_before_transitive};

verus! {

/// A type whose values have a strict total order.
pub trait Key: Sized {
    /// What a key is, apart from how it is stored.
    type Rank;

    /// The rank of this key.
    spec fn rank(&self) -> Self::Rank;

    /// True if `a` comes before `b`.
    spec fn before(a: Self::Rank, b: Self::Rank) -> bool;

    /// Nothing comes before itself.
    proof fn order_irreflexive(a: Self::Rank)
        ensures
            !Self::before(a, a),
    ;

    /// The order is transitive.
    proof fn order_transitive(a: Self::Rank, b: Self::Rank, c: Self::Rank)
        requires
            Self::before(a, b),
            Self::before(b, c),
        ensures
            Self::before(a, c),
    ;

    /// Of two different ranks, one comes before the other.
    proof fn order_total(a: Self::Rank, b: Self::Rank)
        ensures
            a == b || Self::before(a, b) || Self::before(b, a),
    ;

    /// Compares two keys.
    fn is_before(&self, other: &Self) -> (r: bool)
        ensures
            r == Self::before(self.rank(), other.rank()),
    ;
}

impl Key for u64 {
    type Rank = u64;

    open spec fn rank(&self) -> u64 {
        *self
    }

    open spec fn before(a: u64, b: u64) -> bool {
        a < b
    }

    proof fn order_irreflexive(a: u64) {
    }

    proof fn order_transitive(a: u64, b: u64, c: u64) {
    }

    proof fn order_total(a: u64, b: u64) {
    }

    fn is_before(&self, other: &u64) -> (r: bool) {
        *self < *other
    }
}

impl Key for u32 {
    type Rank = u32;

    open spec fn rank(&self) -> u32 {
        *self
    }

    open spec fn before(a: u32, b: u32) -> bool {
        a < b
    }

    proof fn order_irreflexive(a: u32) {
    }

    proof fn order_transitive(a: u32, b: u32, c: u32) {
    }

    proof fn order_total(a: u32, b: u32) {
    }

    fn is_before(&self, other: &u32) -> (r: bool) {
        *self < *other
    }
}

impl Key for usize {
    type Rank = usize;

    open spec fn rank(&self) -> usize {
        *self
    }

    open spec fn before(a: usize, b: usize) -> bool {
        a < b
    }

    proof fn order_irreflexive(a: usize) {
    }

    proof fn order_transitive(a: usize, b: usize, c: usize) {
    }

    proof fn order_total(a: usize, b: usize) {
    }

    fn is_before(&self, other: &usize) -> (r: bool) {
        *self < *other
    }
}

impl Key for (u32, u32) {
    type Rank = (u32, u32);

    open spec fn rank(&self) -> (u32, u32) {
        *self
    }

    open spec fn before(a: (u32, u32), b: (u32, u32)) -> bool {
        a.0 < b.0 || (a.0 == b.0 && a.1 < b.1)
    }

    proof fn order_irreflexive(a: (u32, u32)) {
    }

    proof fn order_transitive(a: (u32, u32), b: (u32, u32), c: (u32, u32)) {
    }

    proof fn order_total(a: (u32, u32), b: (u32, u32)) {
    }

    fn is_before(&self, other: &(u32, u32)) -> (r: bool) {
        self.0 < other.0 || (self.0 == other.0 && self.1 < other.1)
    }
}

impl Key for (u64, u32) {
    type Rank = (u64, u32);

    open spec fn rank(&self) -> (u64, u32) {
        *self
    }

    open spec fn before(a: (u64, u32), b: (u64, u32)) -> bool {
        a.0 < b.0 || (a.0 == b.0 && a.1 < b.1)
    }

    proof fn order_irreflexive(a: (u64, u32)) {
    }

    proof fn order_transitive(a: (u64, u32), b: (u64, u32), c: (u64, u32)) {
    }

    proof fn order_total(a: (u64, u32), b: (u64, u32)) {
    }

    fn is_before(&self, other: &(u64, u32)) -> (r: bool) {
        self.0 < other.0 || (self.0 == other.0 && self.1 < other.1)
    }
}

impl Key for (i64, i64) {
    type Rank = (i64, i64);

    open spec fn rank(&self) -> (i64, i64) {
        *self
    }

    open spec fn before(a: (i64, i64), b: (i64, i64)) -> bool {
        a.0 < b.0 || (a.0 == b.0 && a.1 < b.1)
    }

    proof fn order_irreflexive(a: (i64, i64)) {
    }

    proof fn order_transitive(a: (i64, i64), b: (i64, i64), c: (i64, i64)) {
    }

    proof fn order_total(a: (i64, i64), b: (i64, i64)) {
    }

    fn is_before(&self, other: &(i64, i64)) -> (r: bool) {
        self.0 < other.0 || (self.0 == other.0 && self.1 < other.1)
    }
}

impl Key for Option<u16> {
    type Rank = Option<u16>;

    open spec fn rank(&self) -> Option<u16> {
        *self
    }

    open spec fn before(a: Option<u16>, b: Option<u16>) -> bool {
        match (a, b) {
            (_, None) => false,
            (None, Some(_)) => true,
            (Some(x), Some(y)) => x < y,
        }
    }

    proof fn order_irreflexive(a: Option<u16>) {
    }

    proof fn order_transitive(a: Option<u16>, b: Option<u16>, c: Option<u16>) {
    }

    proof fn order_total(a: Option<u16>, b: Option<u16>) {
    }

    fn is_before(&self, other: &Option<u16>) -> (r: bool) {
        match (*self, *other) {
            (_, None) => false,
            (None, Some(_)) => true,
            (Some(x), Some(y)) => x < y,
        }
    }
}

impl Key for String {
    type Rank = Seq<char>;

    open spec fn rank(&self) -> Seq<char> {
        self@
    }

    open spec fn before(a: Seq<char>, b: Seq<char>) -> bool {
        text_before(a, b)
    }

    proof fn order_irreflexive(a: Seq<char>) {
        text_before_irreflexive(a);
    }

    proof fn order_transitive(a: Seq<char>, b: Seq<char>, c: Seq<char>) {
        text_before_transitive(a, b, c);
    }

    proof fn order_total(a: Seq<char>, b: Seq<char>) {
        text_before_total(a, b);
    }

    fn is_before(&self, other: &String) -> (r: bool) {
        is_text_before(self.as_str(), other.as_str())
    }
}

/// The text of an optional string.
pub open spec fn optional_text(s: Option<String>) -> Option<Seq<char>> {
    match s {
        Some(t) => Some(t@),
        None => None,
    }
}

impl Key for Option<String> {
    type Rank = Option<Seq<char>>;

    open spec fn rank(&self) -> Option<Seq<char>> {
        optional_text(*self)
    }

    open spec fn before(a: Option<Seq<char>>, b: Option<Seq<char>>) -> bool {
        match (a, b) {
            (_, None) => false,
            (None, Some(_)) => true,
            (Some(x), Some(y)) => text_before(x, y),
        }
    }

    proof fn order_irreflexive(a: Option<Seq<char>>) {
        if let Some(x) = a {
            text_before_irreflexive(x);
        }
    }

    proof fn order_transitive(a: Option<Seq<char>>, b: Option<Seq<char>>, c: Option<Seq<char>>) {
        if let (Some(x), Some(y), Some(z)) = (a, b, c) {
            text_before_transitive(x, y, z);
        }
    }

    proof fn order_total(a: Option<Seq<char>>, b: Option<Seq<char>>) {
        if let (Some(x), Some(y)) = (a, b) {
            text_before_total(x, y);
        }
    }

    fn is_before(&self, other: &Option<String>) -> (r: bool) {
        match (self, other) {
            (_, None) => false,
            (None, Some(_)) => true,
            (Some(x), Some(y)) => is_text_before(x.as_str(), y.as_str()),
        }
    }
}

/// True if the ranks of `s` strictly increase.
pub open spec fn increasing<K: Key, T>(s: Seq<(K::Rank, T)>) -> bool {
    forall|i: int, j: int| 0 <= i < j < s.len() ==> K::before(#[trigger] s[i].0, #[trigger] s[j].0)
}

/// True if `r` is the rank of the entry of `s` at `i`.
pub open spec fn ranked_at<R, T>(s: Seq<(R, T)>, r: R, i: int) -> bool {
    0 <= i < s.len() && s[i].0 == r
}

/// The map that a listing of entries stands for.
pub open spec fn listed<R, T>(s: Seq<(R, T)>) -> Map<R, T> {
    Map::new(
        |r: R| exists|i: int| ranked_at(s, r, i),
        |r: R| s[choose|i: int| ranked_at(s, r, i)].1,
    )
}

/// True if `after` is `before` with the entry of `r` set to `v`: in its place where there
/// was one, at a new place otherwise.
pub open spec fn placed<R, T>(before: Seq<(R, T)>, after: Seq<(R, T)>, r: R, v: T) -> bool {
    ||| exists|p: int| ranked_at(before, r, p) && after == #[trigger] before.update(p, (r, v))
    ||| exists|p: int|
        0 <= p <= before.len() && after == #[trigger] before.insert(p, (r, v)) && !listed(
            before,
        ).contains_key(r)
}

/// In an increasing listing, the entry at `i` is what the map holds for its rank.
pub proof fn listed_at<K: Key, T>(s: Seq<(K::Rank, T)>, i: int)
    requires
        increasing::<K, T>(s),
        0 <= i < s.len(),
    ensures
        listed(s).contains_key(s[i].0),
        listed(s)[s[i].0] == s[i].1,
{
    let r = s[i].0;
    assert(ranked_at(s, r, i));
    let j = choose|j: int| ranked_at(s, r, j);
    K::order_irreflexive(r);
    if i < j {
        assert(K::before(s[i].0, s[j].0));
    }
    if j < i {
        assert(K::before(s[j].0, s[i].0));
    }
}

/// Two increasing listings of one map are the same listing: a map has one order.
pub proof fn one_listing<K: Key, T>(s: Seq<(K::Rank, T)>, t: Seq<(K::Rank, T)>)
    requires
        increasing::<K, T>(s),
        increasing::<K, T>(t),
        listed(s) == listed(t),
    ensures
        s == t,
    decreases s.len() + t.len(),
{
    assert forall|i: int| 0 <= i < s.len() && 0 <= i < t.len() && (forall|j: int|
        0 <= j < i ==> s[j] == t[j]) implies s[i] == t[i] by {
        listed_at::<K, T>(s, i);
        listed_at::<K, T>(t, i);
        let a = choose|a: int| ranked_at(t, s[i].0, a);
        let b = choose|b: int| ranked_at(s, t[i].0, b);
        assert(listed(t).contains_key(s[i].0));
        assert(listed(s).contains_key(t[i].0));
        K::order_irreflexive(s[i].0);
        K::order_irreflexive(t[i].0);
        if a < i {
            assert(s[a] == t[a]);
            assert(K::before(s[a].0, s[i].0));
        }
        if b < i {
            assert(s[b] == t[b]);
            assert(K::before(t[b].0, t[i].0));
        }
        if a > i && b > i {
            assert(K::before(t[i].0, t[a].0));
            assert(K::before(s[i].0, s[b].0));
            K::order_transitive(s[i].0, t[i].0, s[i].0);
        }
        assert(s[i].0 == t[i].0);
    }
    agree_from::<K, T>(s, t, 0);
    if s.len() < t.len() {
        let n = s.len() as int;
        listed_at::<K, T>(t, n);
        let b = choose|b: int| ranked_at(s, t[n].0, b);
        assert(listed(s).contains_key(t[n].0));
        K::order_irreflexive(t[n].0);
        assert(s[b] == t[b]);
        assert(K::before(t[b].0, t[n].0));
    }
    if t.len() < s.len() {
        let n = t.len() as int;
        listed_at::<K, T>(s, n);
        let b = choose|b: int| ranked_at(t, s[n].0, b);
        assert(listed(t).contains_key(s[n].0));
        K::order_irreflexive(s[n].0);
        assert(s[b] == t[b]);
        assert(K::before(s[b].0, s[n].0));
    }
    assert(s =~= t);
}

proof fn agree_from<K: Key, T>(s: Seq<(K::Rank, T)>, t: Seq<(K::Rank, T)>, k: int)
    requires
        0 <= k,
        forall|j: int| 0 <= j < k && j < s.len() && j < t.len() ==> s[j] == t[j],
        forall|i: int|
            0 <= i < s.len() && 0 <= i < t.len() && (forall|j: int| 0 <= j < i ==> s[j] == t[j])
                ==> s[i] == t[i],
    ensures
        forall|j: int| 0 <= j < s.len() && j < t.len() ==> s[j] == t[j],
    decreases s.len() - k,
{
    if k < s.len() && k < t.len() {
        assert(s[k] == t[k]);
        agree_from::<K, T>(s, t, k + 1);
    }
}

/// The entries of a map in key order, for a map that has finitely many.
pub open spec fn in_order<K: Key, T>(m: Map<K::Rank, T>) -> Seq<(K::Rank, T)> {
    choose|s: Seq<(K::Rank, T)>| increasing::<K, T>(s) && #[trigger] listed(s) == m
}

/// An increasing listing is the order of its map.
pub proof fn in_order_is<K: Key, T>(s: Seq<(K::Rank, T)>)
    requires
        increasing::<K, T>(s),
    ensures
        in_order::<K, T>(listed(s)) == s,
{
    let t = in_order::<K, T>(listed(s));
    assert(increasing::<K, T>(t) && listed(t) == listed(s));
    one_listing::<K, T>(t, s);
}

/// True if a map has finitely many entries, so that they can be put in order.
pub open spec fn orderly<K: Key, T>(m: Map<K::Rank, T>) -> bool {
    let s = in_order::<K, T>(m);
    increasing::<K, T>(s) && listed(s) == m
}

/// A map whose entries stand in the order of their keys.
pub struct SortedMap<K: Key, V: View> {
    entries: Vec<(K, V)>,
}

impl<K: Key, V: View> View for SortedMap<K, V> {
    type V = Map<K::Rank, V::V>;

    open spec fn view(&self) -> Map<K::Rank, V::V> {
        listed(self.listing())
    }
}

/// The ranks and values of a vector of entries.
pub closed spec fn entry_views<K: Key, V: View>(s: Seq<(K, V)>) -> Seq<(K::Rank, V::V)> {
    s.map_values(|e: (K, V)| (e.0.rank(), e.1@))
}

impl<K: Key, V: View> SortedMap<K, V> {
    /// The entries in key order.
    pub closed spec fn listing(&self) -> Seq<(K::Rank, V::V)> {
        entry_views(self.entries@)
    }

    /// The keys strictly increase.
    #[verifier::type_invariant]
    spec fn sorted(self) -> bool {
        increasing::<K, V::V>(entry_views(self.entries@))
    }

    /// An empty map.
    pub fn new() -> (r: Self)
        ensures
            r.listing() == Seq::<(K::Rank, V::V)>::empty(),
            r@ == Map::<K::Rank, V::V>::empty(),
    {
        let entries: Vec<(K, V)> = Vec::new();
        assert(entry_views(entries@) =~= Seq::<(K::Rank, V::V)>::empty());
        let r = SortedMap { entries };
        assert(r@ =~= Map::<K::Rank, V::V>::empty()) by {
            assert(forall|k: K::Rank| !r@.contains_key(k));
        }
        r
    }

    /// The number of entries; the listing strictly increases and is exactly the map.
    pub fn len(&self) -> (n: usize)
        ensures
            n == self.listing().len(),
            increasing::<K, V::V>(self.listing()),
            self.listing() == in_order::<K, V::V>(self@),
            orderly::<K, V::V>(self@),
            forall|i: int| 0 <= i < self.listing().len() ==> {
                &&& self@.contains_key(#[trigger] self.listing()[i].0)
                &&& self@[self.listing()[i].0] == self.listing()[i].1
            },
    {
        proof {
            use_type_invariant(self);
            in_order_is::<K, V::V>(self.listing());
            assert forall|i: int| 0 <= i < self.listing().len() implies {
                &&& self@.contains_key(#[trigger] self.listing()[i].0)
                &&& self@[self.listing()[i].0] == self.listing()[i].1
            } by {
                listed_at::<K, V::V>(self.listing(), i);
            }
        }
        self.entries.len()
    }

    /// True if there is no entry.
    pub fn is_empty(&self) -> (r: bool)
        ensures
            r == (self.listing().len() == 0),
    {
        self.entries.len() == 0
    }

    /// The key at position `i` in key order.
    pub fn key_at(&self, i: usize) -> (k: &K)
        requires
            i < self.listing().len(),
        ensures
            k.rank() == self.listing()[i as int].0,
    {
        &self.entries[i].0
    }

    /// The value at position `i` in key order.
    pub fn value_at(&self, i: usize) -> (v: &V)
        requires
            i < self.listing().len(),
        ensures
            v@ == self.listing()[i as int].1,
    {
        &self.entries[i].1
    }

    /// How many keys come before `k`.
    pub fn position(&self, k: &K) -> (p: usize)
        ensures
            p <= self.listing().len(),
            forall|i: int| 0 <= i < p ==> K::before(#[trigger] self.listing()[i].0, k.rank()),
            forall|i: int|
                p <= i < self.listing().len() ==> !K::before(
                    #[trigger] self.listing()[i].0,
                    k.rank(),
                ),
    {
        proof {
            use_type_invariant(self);
        }
        let mut lo: usize = 0;
        let mut hi: usize = self.entries.len();
        while lo < hi
            invariant
                lo <= hi <= self.listing().len(),
                self.entries@.len() == self.listing().len(),
                increasing::<K, V::V>(self.listing()),
                forall|i: int| 0 <= i < lo ==> K::before(#[trigger] self.listing()[i].0, k.rank()),
                forall|i: int|
                    hi <= i < self.listing().len() ==> !K::before(
                        #[trigger] self.listing()[i].0,
                        k.rank(),
                    ),
            decreases hi - lo,
        {
            let mid: usize = lo + (hi - lo) / 2;
            let here = self.entries[mid].0.is_before(k);
            assert(self.listing()[mid as int].0 == self.entries@[mid as int].0.rank());
            if here {
                proof {
                    assert forall|i: int| 0 <= i < mid + 1 implies K::before(
                        #[trigger] self.listing()[i].0,
                        k.rank(),
                    ) by {
                        if i < mid {
                            K::order_transitive(
                                self.listing()[i].0,
                                self.listing()[mid as int].0,
                                k.rank(),
                            );
                        }
                    }
                }
                lo = mid + 1;
            } else {
                proof {
                    assert forall|i: int| mid <= i < self.listing().len() implies !K::before(
                        #[trigger] self.listing()[i].0,
                        k.rank(),
                    ) by {
                        if mid < i && K::before(self.listing()[i].0, k.rank()) {
                            K::order_transitive(
                                self.listing()[mid as int].0,
                                self.listing()[i].0,
                                k.rank(),
                            );
                        }
                    }
                }
                hi = mid;
            }
        }
        lo
    }

    /// Where `k` stands, if it is a key: its position in key order.
    fn find(&self, k: &K) -> (r: Result<usize, usize>)
        ensures
            match r {
                Ok(p) => {
                    &&& p < self.listing().len()
                    &&& self.listing()[p as int].0 == k.rank()
                    &&& self@.contains_key(k.rank())
                    &&& self@[k.rank()] == self.listing()[p as int].1
                },
                Err(p) => {
                    &&& p <= self.listing().len()
                    &&& !self@.contains_key(k.rank())
                    &&& forall|i: int|
                        0 <= i < p ==> K::before(#[trigger] self.listing()[i].0, k.rank())
                    &&& forall|i: int|
                        p <= i < self.listing().len() ==> K::before(
                            k.rank(),
                            #[trigger] self.listing()[i].0,
                        )
                },
            },
    {
        proof {
            use_type_invariant(self);
        }
        let p: usize = self.position(k);
        let n: usize = self.entries.len();
        assert(n == self.listing().len());
        if p < n && !k.is_before(&self.entries[p].0) {
            proof {
                assert(self.listing()[p as int].0 == self.entries@[p as int].0.rank());
                K::order_total(self.listing()[p as int].0, k.rank());
                listed_at::<K, V::V>(self.listing(), p as int);
            }
            Ok(p)
        } else {
            proof {
                assert forall|i: int| p <= i < self.listing().len() implies K::before(
                    k.rank(),
                    #[trigger] self.listing()[i].0,
                ) by {
                    assert(self.listing()[p as int].0 == self.entries@[p as int].0.rank());
                    if p < i {
                        K::order_transitive(
                            k.rank(),
                            self.listing()[p as int].0,
                            self.listing()[i].0,
                        );
                    }
                }
                if self@.contains_key(k.rank()) {
                    let i = choose|i: int| ranked_at(self.listing(), k.rank(), i);
                    K::order_irreflexive(k.rank());
                    assert(self.listing()[i].0 == k.rank());
                }
            }
            Err(p)
        }
    }

    /// The value of `k`, if there is one.
    pub fn get(&self, k: &K) -> (r: Option<&V>)
        ensures
            match r {
                Some(v) => self@.contains_key(k.rank()) && self@[k.rank()] == v@,
                None => !self@.contains_key(k.rank()),
            },
    {
        match self.find(k) {
            Ok(p) => {
                assert(self.listing()[p as int].1 == self.entries@[p as int].1@);
                Some(&self.entries[p].1)
            },
            Err(_) => None,
        }
    }

    /// True if `k` is a key.
    pub fn contains_key(&self, k: &K) -> (r: bool)
        ensures
            r == self@.contains_key(k.rank()),
    {
        match self.find(k) {
            Ok(_) => true,
            Err(_) => false,
        }
    }

    /// Sets the value of `k`, and hands back the value it had.
    pub fn insert(&mut self, k: K, v: V) -> (r: Option<V>)
        ensures
            final(self)@ == old(self)@.insert(k.rank(), v@),
            increasing::<K, V::V>(old(self).listing()),
            increasing::<K, V::V>(final(self).listing()),
            placed(old(self).listing(), final(self).listing(), k.rank(), v@),
            match r {
                Some(w) => old(self)@.contains_key(k.rank()) && old(self)@[k.rank()] == w@,
                None => !old(self)@.contains_key(k.rank()),
            },
    {
        let ghost before = self.listing();
        let ghost rank = k.rank();
        let ghost value = v@;
        proof {
            use_type_invariant(&*self);
        }
        let found = self.find(&k);
        let mut taken = SortedMap::new();
        core::mem::swap(self, &mut taken);
        let SortedMap { mut entries } = taken;
        assert(entry_views(entries@) == before);
        match found {
            Ok(p) => {
                let ghost listing0 = entries@;
                let old_entry = entries.remove(p);
                entries.insert(p, (k, v));
                proof {
                    assert(entries@ =~= listing0.update(p as int, (k, v)));
                    let after = entry_views(entries@);
                    assert(after =~= before.update(p as int, (rank, value)));
                    same_ranks_updated::<K, V::V>(before, p as int, value);
                    assert(ranked_at(before, rank, p as int));
                    assert(after == before.update(p as int, (rank, value)));
                }
                *self = SortedMap { entries };
                Some(old_entry.1)
            },
            Err(p) => {
                let ghost listing0 = entries@;
                entries.insert(p, (k, v));
                proof {
                    assert(entries@ =~= listing0.insert(p as int, (k, v)));
                    let after = entry_views(entries@);
                    assert(after =~= before.insert(p as int, (rank, value)));
                    new_rank_inserted::<K, V::V>(before, p as int, rank, value);
                    assert(after == before.insert(p as int, (rank, value)));
                }
                *self = SortedMap { entries };
                None
            },
        }
    }

    /// Adds an entry behind all others.
    pub fn append(&mut self, k: K, v: V)
        requires
            forall|i: int|
                0 <= i < old(self).listing().len() ==> K::before(
                    #[trigger] old(self).listing()[i].0,
                    k.rank(),
                ),
        ensures
            final(self).listing() == old(self).listing().push((k.rank(), v@)),
            final(self)@ == old(self)@.insert(k.rank(), v@),
    {
        proof {
            use_type_invariant(&*self);
        }
        let ghost before = self.listing();
        let ghost rank = k.rank();
        let ghost value = v@;
        let mut taken = SortedMap::new();
        core::mem::swap(self, &mut taken);
        let SortedMap { mut entries } = taken;
        entries.push((k, v));
        proof {
            let n = before.len() as int;
            assert(entry_views(entries@) =~= before.push((rank, value)));
            assert(before.push((rank, value)) =~= before.insert(n, (rank, value)));
            new_rank_inserted::<K, V::V>(before, n, rank, value);
        }
        *self = SortedMap { entries };
    }

    /// Removes `k`, and hands back the value it had.
    pub fn remove(&mut self, k: &K) -> (r: Option<V>)
        ensures
            final(self)@ == old(self)@.remove(k.rank()),
            match r {
                Some(w) => old(self)@.contains_key(k.rank()) && old(self)@[k.rank()] == w@,
                None => !old(self)@.contains_key(k.rank()),
            },
    {
        let ghost before = self.listing();
        proof {
            use_type_invariant(&*self);
        }
        match self.find(k) {
            Ok(p) => {
                let mut taken = SortedMap::new();
                core::mem::swap(self, &mut taken);
                let SortedMap { mut entries } = taken;
                let ghost listing0 = entries@;
                let old_entry = entries.remove(p);
                proof {
                    assert(entries@ =~= listing0.remove(p as int));
                    let after = entry_views(entries@);
                    assert(after =~= before.remove(p as int));
                    rank_removed::<K, V::V>(before, p as int);
                }
                *self = SortedMap { entries };
                Some(old_entry.1)
            },
            Err(_) => {
                assert(self@ =~= self@.remove(k.rank()));
                None
            },
        }
    }

    /// Empties the map, and hands back what it held.
    pub fn drain(&mut self) -> (r: Self)
        ensures
            r@ == old(self)@,
            r.listing() == old(self).listing(),
            final(self)@ == Map::<K::Rank, V::V>::empty(),
            final(self).listing() == Seq::<(K::Rank, V::V)>::empty(),
    {
        let mut taken = SortedMap::new();
        core::mem::swap(self, &mut taken);
        taken
    }
}

proof fn same_ranks_updated<K: Key, T>(s: Seq<(K::Rank, T)>, p: int, v: T)
    requires
        increasing::<K, T>(s),
        0 <= p < s.len(),
    ensures
        increasing::<K, T>(s.update(p, (s[p].0, v))),
        listed(s.update(p, (s[p].0, v))) == listed(s).insert(s[p].0, v),
{
    let t = s.update(p, (s[p].0, v));
    let r = s[p].0;
    assert forall|i: int, j: int| 0 <= i < j < t.len() implies K::before(
        #[trigger] t[i].0,
        #[trigger] t[j].0,
    ) by {
        assert(K::before(s[i].0, s[j].0));
    }
    assert forall|q: K::Rank| listed(t).contains_key(q) == #[trigger] listed(s).insert(
        r,
        v,
    ).contains_key(q) by {
        if listed(t).contains_key(q) {
            let i = choose|i: int| ranked_at(t, q, i);
            assert(ranked_at(s, q, i));
        }
        if listed(s).contains_key(q) {
            let i = choose|i: int| ranked_at(s, q, i);
            assert(ranked_at(t, q, i));
        }
        assert(ranked_at(t, r, p));
    }
    assert forall|q: K::Rank| listed(t).contains_key(q) implies listed(t)[q] == #[trigger] listed(
        s,
    ).insert(r, v)[q] by {
        let i = choose|i: int| ranked_at(t, q, i);
        listed_at::<K, T>(t, i);
        listed_at::<K, T>(s, i);
        listed_at::<K, T>(t, p);
        listed_at::<K, T>(s, p);
    }
    assert(listed(t) =~= listed(s).insert(r, v));
}

proof fn new_rank_inserted<K: Key, T>(s: Seq<(K::Rank, T)>, p: int, r: K::Rank, v: T)
    requires
        increasing::<K, T>(s),
        0 <= p <= s.len(),
        forall|i: int| 0 <= i < p ==> K::before(#[trigger] s[i].0, r),
        forall|i: int| p <= i < s.len() ==> K::before(r, #[trigger] s[i].0),
    ensures
        increasing::<K, T>(s.insert(p, (r, v))),
        listed(s.insert(p, (r, v))) == listed(s).insert(r, v),
{
    let t = s.insert(p, (r, v));
    assert forall|i: int, j: int| 0 <= i < j < t.len() implies K::before(
        #[trigger] t[i].0,
        #[trigger] t[j].0,
    ) by {
        let a = if i < p { i } else { i - 1 };
        let b = if j < p { j } else { j - 1 };
        if i != p && j != p {
            assert(K::before(s[a].0, s[b].0));
        } else if i == p {
            assert(K::before(r, s[b].0));
        } else {
            assert(K::before(s[a].0, r));
        }
    }
    assert forall|q: K::Rank| listed(t).contains_key(q) == #[trigger] listed(s).insert(
        r,
        v,
    ).contains_key(q) by {
        if listed(t).contains_key(q) {
            let i = choose|i: int| ranked_at(t, q, i);
            if i < p {
                assert(ranked_at(s, q, i));
            } else if i > p {
                assert(ranked_at(s, q, i - 1));
            }
        }
        if listed(s).contains_key(q) {
            let i = choose|i: int| ranked_at(s, q, i);
            if i < p {
                assert(ranked_at(t, q, i));
            } else {
                assert(ranked_at(t, q, i + 1));
            }
        }
        assert(ranked_at(t, r, p));
    }
    assert forall|q: K::Rank| listed(t).contains_key(q) implies listed(t)[q] == #[trigger] listed(
        s,
    ).insert(r, v)[q] by {
        let i = choose|i: int| ranked_at(t, q, i);
        listed_at::<K, T>(t, i);
        if i < p {
            listed_at::<K, T>(s, i);
            K::order_irreflexive(r);
            assert(K::before(s[i].0, r));
        } else if i > p {
            listed_at::<K, T>(s, i - 1);
            K::order_irreflexive(r);
            assert(K::before(r, s[i - 1].0));
        }
    }
    assert(listed(t) =~= listed(s).insert(r, v));
}

/// Taking an entry out of an increasing listing takes its rank out of the map.
pub proof fn rank_removed<K: Key, T>(s: Seq<(K::Rank, T)>, p: int)
    requires
        increasing::<K, T>(s),
        0 <= p < s.len(),
    ensures
        increasing::<K, T>(s.remove(p)),
        listed(s.remove(p)) == listed(s).remove(s[p].0),
{
    let t = s.remove(p);
    let r = s[p].0;
    assert forall|i: int, j: int| 0 <= i < j < t.len() implies K::before(
        #[trigger] t[i].0,
        #[trigger] t[j].0,
    ) by {
        let a = if i < p { i } else { i + 1 };
        let b = if j < p { j } else { j + 1 };
        assert(K::before(s[a].0, s[b].0));
    }
    assert forall|q: K::Rank| listed(t).contains_key(q) == #[trigger] listed(s).remove(
        r,
    ).contains_key(q) by {
        K::order_irreflexive(r);
        if listed(t).contains_key(q) {
            let i = choose|i: int| ranked_at(t, q, i);
            if i < p {
                assert(ranked_at(s, q, i));
                assert(K::before(s[i].0, s[p].0));
            } else {
                assert(ranked_at(s, q, i + 1));
                assert(K::before(s[p].0, s[i + 1].0));
            }
        }
        if listed(s).contains_key(q) && q != r {
            let i = choose|i: int| ranked_at(s, q, i);
            if i < p {
                assert(ranked_at(t, q, i));
            } else {
                assert(ranked_at(t, q, i - 1));
            }
        }
    }
    assert forall|q: K::Rank| listed(t).contains_key(q) implies listed(t)[q] == #[trigger] listed(
        s,
    ).remove(r)[q] by {
        let i = choose|i: int| ranked_at(t, q, i);
        listed_at::<K, T>(t, i);
        K::order_irreflexive(r);
        if i < p {
            listed_at::<K, T>(s, i);
            assert(K::before(s[i].0, s[p].0));
        } else {
            listed_at::<K, T>(s, i + 1);
            assert(K::before(s[p].0, s[i + 1].0));
        }
    }
    assert(listed(t) =~= listed(s).remove(r));
}

/// How many ranks of a listing come before `r`.
pub open spec fn slot_of<K: Key, T>(s: Seq<(K::Rank, T)>, r: K::Rank) -> int
    decreases s.len(),
{
    if s.len() == 0 {
        0
    } else if K::before(s.last().0, r) {
        s.len() as int
    } else {
        slot_of::<K, T>(s.drop_last(), r)
    }
}

proof fn slot_parts<K: Key, T>(s: Seq<(K::Rank, T)>, r: K::Rank)
    requires
        increasing::<K, T>(s),
        !listed(s).contains_key(r),
    ensures
        0 <= slot_of::<K, T>(s, r) <= s.len(),
        forall|i: int| 0 <= i < slot_of::<K, T>(s, r) ==> K::before(#[trigger] s[i].0, r),
        forall|i: int|
            slot_of::<K, T>(s, r) <= i < s.len() ==> K::before(r, #[trigger] s[i].0),
    decreases s.len(),
{
    if s.len() > 0 {
        let t = s.drop_last();
        let n = s.len() - 1;
        assert(ranked_at(s, s[n].0, n));
        K::order_total(s[n].0, r);
        if K::before(s[n].0, r) {
            assert forall|i: int| 0 <= i < s.len() implies K::before(#[trigger] s[i].0, r) by {
                if i < n {
                    assert(K::before(s[i].0, s[n].0));
                    K::order_transitive(s[i].0, s[n].0, r);
                }
            }
        } else {
            assert(increasing::<K, T>(t)) by {
                assert forall|i: int, j: int| 0 <= i < j < t.len() implies K::before(
                    #[trigger] t[i].0,
                    #[trigger] t[j].0,
                ) by {
                    assert(K::before(s[i].0, s[j].0));
                }
            }
            assert(!listed(t).contains_key(r)) by {
                if listed(t).contains_key(r) {
                    let i = choose|i: int| ranked_at(t, r, i);
                    assert(ranked_at(s, r, i));
                }
            }
            slot_parts::<K, T>(t, r);
            let p = slot_of::<K, T>(t, r);
            assert forall|i: int| 0 <= i < p implies K::before(#[trigger] s[i].0, r) by {
                assert(t[i] == s[i]);
            }
            assert forall|i: int| p <= i < s.len() implies K::before(r, #[trigger] s[i].0) by {
                if i < n {
                    assert(t[i] == s[i]);
                }
            }
        }
    }
}

/// A map with an entry more can be listed too.
pub proof fn orderly_insert<K: Key, T>(m: Map<K::Rank, T>, r: K::Rank, v: T)
    requires
        orderly::<K, T>(m),
    ensures
        orderly::<K, T>(m.insert(r, v)),
{
    let s = in_order::<K, T>(m);
    if m.contains_key(r) {
        let p = choose|p: int| ranked_at(s, r, p);
        same_ranks_updated::<K, T>(s, p, v);
        in_order_is::<K, T>(s.update(p, (s[p].0, v)));
    } else {
        slot_parts::<K, T>(s, r);
        let p = slot_of::<K, T>(s, r);
        new_rank_inserted::<K, T>(s, p, r, v);
        in_order_is::<K, T>(s.insert(p, (r, v)));
    }
}

/// The empty map can be listed.
pub proof fn orderly_empty<K: Key, T>()
    ensures
        orderly::<K, T>(Map::<K::Rank, T>::empty()),
        in_order::<K, T>(Map::<K::Rank, T>::empty()) == Seq::<(K::Rank, T)>::empty(),
{
    let s = Seq::<(K::Rank, T)>::empty();
    assert(listed(s) =~= Map::<K::Rank, T>::empty()) by {
        assert(forall|r: K::Rank| !listed(s).contains_key(r));
    }
    in_order_is::<K, T>(s);
}

/// Where an entry of a map stands in its listing.
pub proof fn place_in_order<K: Key, T>(m: Map<K::Rank, T>, r: K::Rank) -> (i: int)
    requires
        orderly::<K, T>(m),
        m.contains_key(r),
    ensures
        0 <= i < in_order::<K, T>(m).len(),
        in_order::<K, T>(m)[i] == (r, m[r]),
{
    let s = in_order::<K, T>(m);
    let i = choose|i: int| ranked_at(s, r, i);
    listed_at::<K, T>(s, i);
    i
}

/// The entries of a map whose flag is set.
pub(crate) fn retained<K: Key + Copy, V: View + Copy>(m: &SortedMap<K, V>, keep: &Vec<bool>) -> (r:
    SortedMap<K, V>)
    requires
        keep@.len() == m.listing().len(),
    ensures
        forall|q: K::Rank| #[trigger]
            r@.contains_key(q) == exists|i: int| ranked_at(m.listing(), q, i) && keep@[i],
        forall|q: K::Rank| #[trigger] r@.contains_key(q) ==> m@.contains_key(q) && r@[q] == m@[q],
{
    let mut r: SortedMap<K, V> = SortedMap::new();
    let n: usize = m.len();
    let ghost s = m.listing();
    let mut i: usize = 0;
    while i < n
        invariant
            s == m.listing(),
            n == s.len(),
            n == keep@.len(),
            i <= n,
            increasing::<K, V::V>(s),
            forall|j: int|
                0 <= j < n ==> m@.contains_key(#[trigger] s[j].0) && m@[s[j].0] == s[j].1,
            forall|j: int|
                0 <= j < r.listing().len() ==> exists|k: int|
                    0 <= k < i && (#[trigger] r.listing()[j]).0 == (#[trigger] s[k]).0,
            forall|q: K::Rank| #[trigger]
                r@.contains_key(q) == exists|j: int|
                    0 <= j < i && #[trigger] ranked_at(s, q, j) && keep@[j],
            forall|q: K::Rank| #[trigger]
                r@.contains_key(q) ==> m@.contains_key(q) && r@[q] == m@[q],
        decreases n - i,
    {
        let ghost before = r@;
        let ghost listing0 = r.listing();
        if keep[i] {
            let k: K = *m.key_at(i);
            let v: V = *m.value_at(i);
            proof {
                assert forall|j: int| 0 <= j < r.listing().len() implies K::before(
                    #[trigger] r.listing()[j].0,
                    k.rank(),
                ) by {
                    let a = choose|a: int|
                        0 <= a < i && r.listing()[j].0 == (#[trigger] s[a]).0;
                    assert(K::before(s[a].0, s[i as int].0));
                }
            }
            r.append(k, v);
        }
        proof {
            assert(ranked_at(s, s[i as int].0, i as int));
            assert forall|q: K::Rank| #[trigger] r@.contains_key(q) == exists|j: int|
                0 <= j < i + 1 && #[trigger] ranked_at(s, q, j) && keep@[j] by {
                assert(before.contains_key(q) == exists|j: int|
                    0 <= j < i && #[trigger] ranked_at(s, q, j) && keep@[j]);
                if exists|j: int| 0 <= j < i + 1 && #[trigger] ranked_at(s, q, j) && keep@[j] {
                    let j = choose|j: int|
                        0 <= j < i + 1 && #[trigger] ranked_at(s, q, j) && keep@[j];
                    if j < i {
                        assert(before.contains_key(q));
                    }
                }
            }
            assert forall|j: int| 0 <= j < r.listing().len() implies exists|k: int|
                0 <= k < i + 1 && (#[trigger] r.listing()[j]).0 == (#[trigger] s[k]).0 by {
                if j < listing0.len() {
                    assert(r.listing()[j] == listing0[j]);
                    let a = choose|a: int| 0 <= a < i && listing0[j].0 == (#[trigger] s[a]).0;
                } else {
                    assert(r.listing()[j].0 == s[i as int].0);
                }
            }
        }
        i = i + 1;
    }
    r
}

/// The mark that a key is a member of a set.
#[derive(Clone, Copy, Debug, PartialEq, Eq, Structural)]
struct Present;

impl View for Present {
    type V = Present;

    closed spec fn view(&self) -> Present {
        *self
    }
}

/// A set kept in the order of its members.
pub struct SortedSet<K: Key> {
    members: SortedMap<K, Present>,
}

impl<K: Key> View for SortedSet<K> {
    type V = Set<K::Rank>;

    closed spec fn view(&self) -> Set<K::Rank> {
        self.members@.dom()
    }
}

/// True if every rank of `s` comes before the ranks behind it.
pub open spec fn ascending_ranks<K: Key>(s: Seq<K::Rank>) -> bool {
    forall|i: int, j: int| 0 <= i < j < s.len() ==> K::before(#[trigger] s[i], #[trigger] s[j])
}

impl<K: Key> SortedSet<K> {
    /// The members in order.
    pub closed spec fn ordered(&self) -> Seq<K::Rank> {
        Seq::new(self.members.listing().len(), |i: int| self.members.listing()[i].0)
    }

    /// An empty set.
    pub fn new() -> (r: Self)
        ensures
            r@ == Set::<K::Rank>::empty(),
    {
        let r = SortedSet { members: SortedMap::new() };
        assert(r@ =~= Set::<K::Rank>::empty());
        r
    }

    /// The number of members.
    pub fn len(&self) -> (n: usize)
        ensures
            n == self.ordered().len(),
            n == self@.len(),
            self@.finite(),
            ascending_ranks::<K>(self.ordered()),
            forall|i: int| 0 <= i < n ==> self@.contains(#[trigger] self.ordered()[i]),
            forall|r: K::Rank| self@.contains(r) ==> self.ordered().contains(r),
    {
        let n: usize = self.members.len();
        proof {
            let s = self.ordered();
            let t = self.members.listing();
            assert forall|i: int, j: int| 0 <= i < j < s.len() implies K::before(
                #[trigger] s[i],
                #[trigger] s[j],
            ) by {
                assert(K::before(t[i].0, t[j].0));
            }
            assert forall|i: int, j: int| 0 <= i < s.len() && 0 <= j < s.len() && i != j implies s[i]
                != s[j] by {
                K::order_irreflexive(s[i]);
                if i < j {
                    assert(K::before(s[i], s[j]));
                } else {
                    assert(K::before(s[j], s[i]));
                }
            }
            assert forall|i: int| 0 <= i < n implies self@.contains(#[trigger] s[i]) by {
                assert(self.members@.contains_key(t[i].0));
            }
            assert forall|r: K::Rank| self@.contains(r) implies s.contains(r) by {
                assert(self.members@ == listed(in_order::<K, Present>(self.members@)));
                let i = choose|i: int| ranked_at(t, r, i);
                assert(s[i] == r);
            }
            assert(s.to_set() =~= self@);
            s.unique_seq_to_set();
        }
        n
    }

    /// True if `k` is a member.
    pub fn contains(&self, k: &K) -> (r: bool)
        ensures
            r == self@.contains(k.rank()),
    {
        self.members.contains_key(k)
    }

    /// The member at position `i`.
    pub fn at(&self, i: usize) -> (k: &K)
        requires
            i < self.ordered().len(),
        ensures
            k.rank() == self.ordered()[i as int],
    {
        self.members.key_at(i)
    }

    /// Makes `k` a member.
    pub fn insert(&mut self, k: K)
        ensures
            final(self)@ == old(self)@.insert(k.rank()),
    {
        let ghost before = self@;
        let ghost rank = k.rank();
        let _ = self.members.insert(k, Present);
        assert(self@ =~= before.insert(rank));
    }

    /// Makes `k` no member.
    pub fn remove(&mut self, k: &K)
        ensures
            final(self)@ == old(self)@.remove(k.rank()),
    {
        let ghost before = self@;
        let _ = self.members.remove(k);
        assert(self@ =~= before.remove(k.rank()));
    }

    /// Empties the set, and hands back what it held.
    pub fn drain(&mut self) -> (r: Self)
        ensures
            r@ == old(self)@,
            final(self)@ == Set::<K::Rank>::empty(),
    {
        let members = self.members.drain();
        assert(self@ =~= Set::<K::Rank>::empty());
        SortedSet { members }
    }
}

impl Key for (u32, i64, u32) {
    type Rank = (u32, i64, u32);

    open spec fn rank(&self) -> (u32, i64, u32) {
        *self
    }

    open spec fn before(a: (u32, i64, u32), b: (u32, i64, u32)) -> bool {
        a.0 < b.0 || (a.0 == b.0 && (a.1 < b.1 || (a.1 == b.1 && a.2 < b.2)))
    }

    proof fn order_irreflexive(a: (u32, i64, u32)) {
    }

    proof fn order_transitive(a: (u32, i64, u32), b: (u32, i64, u32), c: (u32, i64, u32)) {
    }

    proof fn order_total(a: (u32, i64, u32), b: (u32, i64, u32)) {
    }

    fn is_before(&self, other: &(u32, i64, u32)) -> (r: bool) {
        self.0 < other.0 || (self.0 == other.0 && (self.1 < other.1 || (self.1 == other.1 && self.2
            < other.2)))
    }
}

impl Key for (i64, i64, u32) {
    type Rank = (i64, i64, u32);

    open spec fn rank(&self) -> (i64, i64, u32) {
        *self
    }

    open spec fn before(a: (i64, i64, u32), b: (i64, i64, u32)) -> bool {
        a.0 < b.0 || (a.0 == b.0 && (a.1 < b.1 || (a.1 == b.1 && a.2 < b.2)))
    }

    proof fn order_irreflexive(a: (i64, i64, u32)) {
    }

    proof fn order_transitive(a: (i64, i64, u32), b: (i64, i64, u32), c: (i64, i64, u32)) {
    }

    proof fn order_total(a: (i64, i64, u32), b: (i64, i64, u32)) {
    }

    fn is_before(&self, other: &(i64, i64, u32)) -> (r: bool) {
        self.0 < other.0 || (self.0 == other.0 && (self.1 < other.1 || (self.1 == other.1 && self.2
            < other.2)))
    }
}

impl Key for (String, Option<String>) {
    type Rank = (Seq<char>, Option<Seq<char>>);

    open spec fn rank(&self) -> (Seq<char>, Option<Seq<char>>) {
        (self.0@, optional_text(self.1))
    }

    open spec fn before(a: (Seq<char>, Option<Seq<char>>), b: (Seq<char>, Option<Seq<char>>)) -> bool {
        text_before(a.0, b.0) || (a.0 == b.0 && <Option<String> as Key>::before(a.1, b.1))
    }

    proof fn order_irreflexive(a: (Seq<char>, Option<Seq<char>>)) {
        text_before_irreflexive(a.0);
        <Option<String> as Key>::order_irreflexive(a.1);
    }

    proof fn order_transitive(
        a: (Seq<char>, Option<Seq<char>>),
        b: (Seq<char>, Option<Seq<char>>),
        c: (Seq<char>, Option<Seq<char>>),
    ) {
        if text_before(a.0, b.0) && text_before(b.0, c.0) {
            text_before_transitive(a.0, b.0, c.0);
        } else if a.0 == b.0 && b.0 == c.0 {
            <Option<String> as Key>::order_transitive(a.1, b.1, c.1);
        }
    }

    proof fn order_total(a: (Seq<char>, Option<Seq<char>>), b: (Seq<char>, Option<Seq<char>>)) {
        text_before_total(a.0, b.0);
        <Option<String> as Key>::order_total(a.1, b.1);
    }

    fn is_before(&self, other: &(String, Option<String>)) -> (r: bool) {
        proof {
            text_before_total(self.0@, other.0@);
            text_before_irreflexive(self.0@);
            if text_before(self.0@, other.0@) && text_before(other.0@, self.0@) {
                text_before_transitive(self.0@, other.0@, self.0@);
            }
        }
        if self.0.is_before(&other.0) {
            true
        } else if other.0.is_before(&self.0) {
            false
        } else {
            self.1.is_before(&other.1)
        }
    }
}

} // verus!
