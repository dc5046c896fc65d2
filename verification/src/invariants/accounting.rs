//! Checks on byte accounting and on what cards document.

use vstd::prelude::*;
use vstd::string::*;
use crate::card::{group_views, views, CardView, Family, ModelCard};
use crate::channels::{ByteBucket, NetBytesView, NodeTxView, ProtoMsgView};
use crate::invariants::outcome::{did_not_run, finding, ran, InvariantOutcome, InvariantViolation, OutcomeView, ViolationView};
use crate::invariants::records::appended;
use crate::keyed::{in_order, SortedMap};
use crate::ledger::EventLedger;
use crate::outside::{lowercase, lowercase_text};
use crate::tally::{amount, Amounts};
use crate::text::{contains_text, decimal, has_text, join2, join3, join_all, joined, numeral, texts};

verus! {

/// Every byte belongs to exactly one bucket.
pub const I_N1: &'static str = "every byte counted in `bytes_on_wire` is attributed to exactly one accounting bucket (air / cellular UL / cellular DL / backhaul / backend)";

/// Some bytes, the bucket they are attributed to, and what they are of.
pub type Attribution = (Option<u64>, ByteBucket, u64);

/// The attribution that a protocol message is: without a transport it names nothing that
/// can be checked.
pub open spec fn message_attribution(m: ProtoMsgView) -> Attribution {
    match m.transport {
        Some(b) => (m.msg, b, m.bytes_on_wire),
        None => (None, ByteBucket::Backend, m.bytes_on_wire),
    }
}

/// Every attribution of a run, in order.
pub open spec fn attributions(l: EventLedger) -> Seq<Attribution> {
    Seq::new(l.tx@.len(), |i: int| (l.tx@[i].msg, ByteBucket::Air, l.tx@[i].bytes_on_wire))
        + Seq::new(
        l.bytes@.len(),
        |i: int| (l.bytes@[i].id, l.bytes@[i].bucket, l.bytes@[i].bytes_on_wire),
    ) + Seq::new(l.proto_msg@.len(), |i: int| message_attribution(l.proto_msg@[i]))
}

/// The bytes of some attributions.
pub open spec fn attributed_bytes(s: Seq<Attribution>) -> int
    decreases s.len(),
{
    if s.len() == 0 {
        0
    } else {
        attributed_bytes(s.drop_last()) + s.last().2
    }
}

/// What is held for an id.
pub open spec fn held_for(m: Map<u64, Seq<(ByteBucket, u64)>>, id: u64) -> Seq<(ByteBucket, u64)> {
    if m.contains_key(id) {
        m[id]
    } else {
        Seq::empty()
    }
}

/// The attributions that name an id, by that id.
pub open spec fn by_id(s: Seq<Attribution>) -> Map<u64, Seq<(ByteBucket, u64)>>
    decreases s.len(),
{
    if s.len() == 0 {
        Map::empty()
    } else {
        let m = by_id(s.drop_last());
        match s.last().0 {
            Some(id) => m.insert(id, held_for(m, id).push((s.last().1, s.last().2))),
            None => m,
        }
    }
}

/// How many attributions name nothing.
pub open spec fn unnamed_count(s: Seq<Attribution>) -> int
    decreases s.len(),
{
    if s.len() == 0 {
        0
    } else {
        unnamed_count(s.drop_last()) + (if s.last().0 is None {
            1int
        } else {
            0int
        })
    }
}

/// The bytes of the attributions that name nothing.
pub open spec fn unnamed_bytes(s: Seq<Attribution>) -> int
    decreases s.len(),
{
    if s.len() == 0 {
        0
    } else {
        unnamed_bytes(s.drop_last()) + (if s.last().0 is None {
            s.last().2 as int
        } else {
            0
        })
    }
}

/// True if some bytes are attributed to `b`.
pub open spec fn uses_bucket(attrs: Seq<(ByteBucket, u64)>, b: ByteBucket) -> bool {
    exists|i: int| 0 <= i < attrs.len() && (#[trigger] attrs[i]).0 == b
}

/// The names of the first `k` buckets that some bytes are attributed to.
pub open spec fn bucket_names(attrs: Seq<(ByteBucket, u64)>, k: int) -> Seq<Seq<char>>
    decreases k,
{
    if k <= 0 {
        Seq::empty()
    } else {
        let before = bucket_names(attrs, k - 1);
        let b = ByteBucket::every()[k - 1];
        if uses_bucket(attrs, b) {
            before.push(b.text())
        } else {
            before
        }
    }
}

/// A violation with the bytes per bucket.
pub open spec fn with_buckets(v: ViolationView, attrs: Seq<(ByteBucket, u64)>) -> ViolationView
    decreases attrs.len(),
{
    if attrs.len() == 0 {
        v
    } else {
        with_buckets(v, attrs.drop_last()).count(attrs.last().0.text(), attrs.last().1 as int)
    }
}

/// The ids whose bytes are attributed to more than one bucket.
pub open spec fn double_findings(s: Seq<(u64, Seq<(ByteBucket, u64)>)>) -> Seq<ViolationView>
    decreases s.len(),
{
    if s.len() == 0 {
        Seq::empty()
    } else {
        let (id, attrs) = s.last();
        let names = bucket_names(attrs, 5);
        appended(
            double_findings(s.drop_last()),
            if names.len() > 1 {
                Some(
                    with_buckets(
                        finding(
                            "I-N1"@,
                            Some("id "@ + numeral(id as nat)),
                            "these bytes are attributed to "@ + numeral(names.len()) + " buckets ("@
                                + joined(names, ", "@) + ") — every byte belongs to exactly one"@,
                        ),
                        attrs,
                    ),
                )
            } else {
                None
            },
        )
    }
}

/// The finding that some attributions name nothing.
pub open spec fn unnamed_finding(s: Seq<Attribution>) -> Option<ViolationView> {
    if unnamed_count(s) > 0 {
        Some(
            finding(
                "I-N1"@,
                None,
                numeral(unnamed_count(s) as nat)
                    + " byte attribution(s) name no frame, PDU or message id (or no transport), so they cannot be checked for double counting"@,
            ).count("records"@, unnamed_count(s)).count("bytes"@, unnamed_bytes(s)),
        )
    } else {
        None
    }
}

/// What the check of byte attributions finds.
pub open spec fn i_n1(l: EventLedger) -> OutcomeView {
    let s = attributions(l);
    if s.len() == 0 {
        did_not_run("I-N1"@, I_N1@, "no node.tx, net.bytes or proto.msg records"@)
    } else {
        ran(
            "I-N1"@,
            I_N1@,
            s.len() as int,
            appended(
                double_findings(in_order::<u64, Seq<(ByteBucket, u64)>>(by_id(s))),
                unnamed_finding(s),
            ),
        )
    }
}

fn list_attributions(ledger: &EventLedger) -> (r: Vec<Attribution>)
    ensures
        r@ == attributions(*ledger),
{
    let ghost all = attributions(*ledger);
    let mut out: Vec<Attribution> = Vec::new();
    let mut i: usize = 0;
    while i < ledger.tx.len()
        invariant
            all == attributions(*ledger),
            i <= ledger.tx@.len(),
            out@ =~= all.subrange(0, i as int),
        decreases ledger.tx@.len() - i,
    {
        out.push((ledger.tx[i].msg, ByteBucket::Air, ledger.tx[i].bytes_on_wire));
        i = i + 1;
    }
    let mut j: usize = 0;
    while j < ledger.bytes.len()
        invariant
            all == attributions(*ledger),
            j <= ledger.bytes@.len(),
            out@ =~= all.subrange(0, ledger.tx@.len() + j),
        decreases ledger.bytes@.len() - j,
    {
        out.push((ledger.bytes[j].id, ledger.bytes[j].bucket, ledger.bytes[j].bytes_on_wire));
        j = j + 1;
    }
    let mut k: usize = 0;
    while k < ledger.proto_msg.len()
        invariant
            all == attributions(*ledger),
            k <= ledger.proto_msg@.len(),
            out@ =~= all.subrange(0, ledger.tx@.len() + ledger.bytes@.len() + k),
        decreases ledger.proto_msg@.len() - k,
    {
        let m = &ledger.proto_msg[k];
        let a: Attribution = match m.transport {
            Some(b) => (m.msg, b, m.bytes_on_wire),
            None => (None, ByteBucket::Backend, m.bytes_on_wire),
        };
        assert(a == message_attribution(*m));
        out.push(a);
        k = k + 1;
    }
    assert(out@ =~= all);
    out
}

fn name_buckets(attrs: &Vec<(ByteBucket, u64)>) -> (r: Vec<String>)
    ensures
        texts(r@) == bucket_names(attrs@, 5),
{
    let every = ByteBucket::all();
    let mut names: Vec<String> = Vec::new();
    let mut k: usize = 0;
    assert(texts(names@) =~= Seq::<Seq<char>>::empty());
    while k < 5
        invariant
            k <= 5,
            every@ == ByteBucket::every(),
            texts(names@) == bucket_names(attrs@, k as int),
        decreases 5 - k,
    {
        broadcast use group_views;

        let b = every[k];
        assert(b == ByteBucket::every()[k as int]);
        let mut found: bool = false;
        let mut i: usize = 0;
        while i < attrs.len()
            invariant
                i <= attrs@.len(),
                found == (exists|q: int| 0 <= q < i && (#[trigger] attrs@[q]).0 == b),
            decreases attrs@.len() - i,
        {
            if attrs[i].0 == b {
                found = true;
                assert(attrs@[i as int].0 == b);
            }
            i = i + 1;
        }
        if found {
            names.push(b.as_str().to_owned());
        }
        k = k + 1;
    }
    names
}

fn count_buckets(v: InvariantViolation, attrs: &Vec<(ByteBucket, u64)>) -> (r: InvariantViolation)
    ensures
        r@ == with_buckets(v@, attrs@),
{
    let ghost v0 = v@;
    let mut out = v;
    let mut i: usize = 0;
    assert(attrs@.subrange(0, 0) =~= Seq::<(ByteBucket, u64)>::empty());
    while i < attrs.len()
        invariant
            i <= attrs@.len(),
            out@ == with_buckets(v0, attrs@.subrange(0, i as int)),
        decreases attrs@.len() - i,
    {
        proof {
            let next = attrs@.subrange(0, i as int + 1);
            assert(next.drop_last() =~= attrs@.subrange(0, i as int));
            assert(next.last() == attrs@[i as int]);
        }
        out = out.count(attrs[i].0.as_str(), attrs[i].1);
        i = i + 1;
    }
    assert(attrs@.subrange(0, i as int) =~= attrs@);
    out
}

proof fn unnamed_bytes_grow(s: Seq<Attribution>)
    ensures
        0 <= unnamed_bytes(s),
        0 <= unnamed_count(s) <= s.len(),
        forall|i: int|
            0 <= i <= s.len() ==> unnamed_bytes(#[trigger] s.subrange(0, i)) <= unnamed_bytes(
                s,
            ),
    decreases s.len(),
{
    if s.len() > 0 {
        let d = s.drop_last();
        unnamed_bytes_grow(d);
        assert forall|i: int| 0 <= i <= s.len() implies unnamed_bytes(#[trigger] s.subrange(0, i))
            <= unnamed_bytes(s) by {
            if i == s.len() {
                assert(s.subrange(0, i) =~= s);
            } else {
                assert(s.subrange(0, i) =~= d.subrange(0, i));
            }
        }
    } else {
        assert forall|i: int| 0 <= i <= s.len() implies unnamed_bytes(#[trigger] s.subrange(0, i))
            <= unnamed_bytes(s) by {
            assert(s.subrange(0, i) =~= s);
        }
    }
}

/// Checks that no id has bytes in two buckets, and that every attribution names what it is
/// of.
pub fn check_i_n1(ledger: &EventLedger) -> (r: InvariantOutcome)
    requires
        unnamed_bytes(attributions(*ledger)) <= u64::MAX,
    ensures
        r@ == i_n1(*ledger),
{
    broadcast use group_views;

    let list = list_attributions(ledger);
    let ghost s = list@;
    if list.len() == 0 {
        return InvariantOutcome::not_run(
            "I-N1",
            I_N1,
            "no node.tx, net.bytes or proto.msg records",
        );
    }
    let mut ids: SortedMap<u64, Vec<(ByteBucket, u64)>> = SortedMap::new();
    let mut loose: u64 = 0;
    let mut loose_bytes: u64 = 0;
    let mut i: usize = 0;
    proof {
        assert(s.subrange(0, 0) =~= Seq::<Attribution>::empty());
        unnamed_bytes_grow(s);
    }
    while i < list.len()
        invariant
            s == list@,
            i <= s.len(),
            unnamed_bytes(s) <= u64::MAX,
            forall|k: int|
                0 <= k <= s.len() ==> unnamed_bytes(#[trigger] s.subrange(0, k)) <= unnamed_bytes(
                    s,
                ),
            ids@ == by_id(s.subrange(0, i as int)),
            loose == unnamed_count(s.subrange(0, i as int)),
            loose <= i,
            loose_bytes == unnamed_bytes(s.subrange(0, i as int)),
        decreases s.len() - i,
    {
        let (id, bucket, bytes) = list[i];
        proof {
            let next = s.subrange(0, i as int + 1);
            assert(next.drop_last() =~= s.subrange(0, i as int));
            assert(next.last() == s[i as int]);
            assert(unnamed_bytes(next) <= unnamed_bytes(s));
        }
        match id {
            Some(k) => {
                let ghost m = ids@;
                let mut attrs: Vec<(ByteBucket, u64)> = match ids.remove(&k) {
                    Some(v) => v,
                    None => Vec::new(),
                };
                assert(attrs@ == held_for(m, k));
                attrs.push((bucket, bytes));
                let ghost now = attrs@;
                let _ = ids.insert(k, attrs);
                assert(ids@ =~= m.insert(k, now));
            },
            None => {
                loose = loose + 1;
                loose_bytes = loose_bytes + bytes;
            },
        }
        i = i + 1;
    }
    assert(s.subrange(0, i as int) =~= s);
    let mut out: Vec<InvariantViolation> = Vec::new();
    let n: usize = ids.len();
    let ghost listing = ids.listing();
    let mut j: usize = 0;
    assert(listing.subrange(0, 0) =~= Seq::<(u64, Seq<(ByteBucket, u64)>)>::empty());
    while j < n
        invariant
            n == ids.listing().len(),
            listing == ids.listing(),
            j <= n,
            views(out@) == double_findings(listing.subrange(0, j as int)),
        decreases n - j,
    {
        broadcast use group_views;

        proof {
            let next = listing.subrange(0, j as int + 1);
            assert(next.drop_last() =~= listing.subrange(0, j as int));
            assert(next.last() == listing[j as int]);
        }
        let id: u64 = *ids.key_at(j);
        let attrs = ids.value_at(j);
        let names = name_buckets(attrs);
        assert(texts(names@).len() == names@.len());
        if names.len() > 1 {
            let mut detail = join3(
                "these bytes are attributed to ",
                decimal(names.len() as u64).as_str(),
                " buckets (",
            );
            detail.append(join_all(&names, ", ").as_str());
            detail.append(") — every byte belongs to exactly one");
            let v = InvariantViolation::new(
                "I-N1",
                Some(join2("id ", decimal(id).as_str())),
                detail,
            );
            out.push(count_buckets(v, attrs));
        }
        j = j + 1;
    }
    assert(listing.subrange(0, n as int) =~= listing);
    if loose > 0 {
        out.push(
            InvariantViolation::new(
                "I-N1",
                None,
                join2(
                    decimal(loose).as_str(),
                    " byte attribution(s) name no frame, PDU or message id (or no transport), so they cannot be checked for double counting",
                ),
            ).count("records", loose).count("bytes", loose_bytes),
        );
    }
    InvariantOutcome::of("I-N1", I_N1, list.len() as u64, out)
}

/// Some byte totals, after some transmissions.
pub open spec fn after_tx(m: Map<ByteBucket, u64>, tx: Seq<NodeTxView>) -> Map<ByteBucket, u64>
    decreases tx.len(),
{
    if tx.len() == 0 {
        m
    } else {
        add_bytes(after_tx(m, tx.drop_last()), ByteBucket::Air, tx.last().bytes_on_wire)
    }
}

/// Some byte totals, with more bytes in one bucket.
pub open spec fn add_bytes(m: Map<ByteBucket, u64>, b: ByteBucket, n: u64) -> Map<ByteBucket, u64> {
    m.insert(b, (amount(m, b) + n) as u64)
}

/// Some byte totals, after some attributed bytes.
pub open spec fn after_bytes(m: Map<ByteBucket, u64>, s: Seq<NetBytesView>) -> Map<ByteBucket, u64>
    decreases s.len(),
{
    if s.len() == 0 {
        m
    } else {
        add_bytes(after_bytes(m, s.drop_last()), s.last().bucket, s.last().bytes_on_wire)
    }
}

/// Some byte totals, after some protocol messages.
pub open spec fn after_messages(m: Map<ByteBucket, u64>, s: Seq<ProtoMsgView>) -> Map<
    ByteBucket,
    u64,
>
    decreases s.len(),
{
    if s.len() == 0 {
        m
    } else {
        let before = after_messages(m, s.drop_last());
        match s.last().transport {
            Some(b) => add_bytes(before, b, s.last().bytes_on_wire),
            None => before,
        }
    }
}

/// The bytes in every bucket.
pub open spec fn totals_by_bucket(l: EventLedger) -> Map<ByteBucket, u64> {
    after_messages(after_bytes(after_tx(Map::empty(), l.tx@), l.bytes@), l.proto_msg@)
}

/// Some bytes and the bucket they are in, if a bucket is known.
pub type Placement = (Option<ByteBucket>, u64);

/// Where the bytes of a run are, in the order of its attributions.
pub open spec fn placements(l: EventLedger) -> Seq<Placement> {
    Seq::new(l.tx@.len(), |i: int| (Some(ByteBucket::Air), l.tx@[i].bytes_on_wire)) + Seq::new(
        l.bytes@.len(),
        |i: int| (Some(l.bytes@[i].bucket), l.bytes@[i].bytes_on_wire),
    ) + Seq::new(
        l.proto_msg@.len(),
        |i: int| (l.proto_msg@[i].transport, l.proto_msg@[i].bytes_on_wire),
    )
}

/// The bytes in one bucket.
pub open spec fn bytes_in(s: Seq<Placement>, b: ByteBucket) -> int
    decreases s.len(),
{
    if s.len() == 0 {
        0
    } else {
        bytes_in(s.drop_last(), b) + if s.last().0 == Some(b) {
            s.last().1 as int
        } else {
            0
        }
    }
}

proof fn bytes_in_grow(s: Seq<Placement>, i: int, b: ByteBucket)
    requires
        0 <= i <= s.len(),
    ensures
        0 <= bytes_in(s.subrange(0, i), b) <= bytes_in(s, b),
    decreases s.len(),
{
    if i == s.len() {
        assert(s.subrange(0, i) =~= s);
        if i > 0 {
            bytes_in_grow(s.drop_last(), i - 1, b);
            assert(s.drop_last().subrange(0, i - 1) =~= s.drop_last());
        }
    } else {
        bytes_in_grow(s.drop_last(), i, b);
        assert(s.drop_last().subrange(0, i) =~= s.subrange(0, i));
    }
}

/// Puts the bytes of one placement in their bucket.
fn place(totals: &mut Amounts<ByteBucket>, bucket: Option<ByteBucket>, n: u64, Ghost(s): Ghost<Seq<Placement>>, Ghost(i): Ghost<int>)
    requires
        0 <= i < s.len(),
        s[i] == (bucket, n),
        forall|b: ByteBucket| #[trigger] bytes_in(s, b) <= u64::MAX,
        forall|b: ByteBucket| #[trigger] amount(old(totals)@, b) == bytes_in(s.subrange(0, i), b),
    ensures
        final(totals)@ == match bucket {
            Some(b) => add_bytes(old(totals)@, b, n),
            None => old(totals)@,
        },
        final(totals).sum() == old(totals).sum() + if bucket is Some {
            n as int
        } else {
            0
        },
        forall|b: ByteBucket| #[trigger]
            amount(final(totals)@, b) == bytes_in(s.subrange(0, i + 1), b),
{
    let ghost before = totals@;
    proof {
        assert(s.subrange(0, i + 1).drop_last() =~= s.subrange(0, i));
        assert(s.subrange(0, i + 1).last() == s[i]);
    }
    if let Some(b) = bucket {
        proof {
            bytes_in_grow(s, i + 1, b);
            assert(amount(before, b) == bytes_in(s.subrange(0, i), b));
        }
        totals.increase(b, n);
    }
    proof {
        assert forall|b: ByteBucket| #[trigger]
            amount(totals@, b) == bytes_in(s.subrange(0, i + 1), b) by {
            assert(amount(before, b) == bytes_in(s.subrange(0, i), b));
        }
    }
}

/// The bytes in every bucket. Where every protocol message names its transport, the
/// buckets hold every attributed byte exactly once.
pub fn bucket_totals(ledger: &EventLedger) -> (totals: Amounts<ByteBucket>)
    requires
        forall|b: ByteBucket| #[trigger] bytes_in(placements(*ledger), b) <= u64::MAX,
    ensures
        totals@ == totals_by_bucket(*ledger),
        forall|b: ByteBucket| #[trigger]
            amount(totals@, b) == bytes_in(placements(*ledger), b),
        0 <= totals.sum() <= attributed_bytes(attributions(*ledger)),
        (forall|i: int|
            0 <= i < ledger.proto_msg@.len() ==> (#[trigger] ledger.proto_msg@[i]).transport is Some)
            ==> totals.sum() == attributed_bytes(attributions(*ledger)),
{
    let ghost all = attributions(*ledger);
    let ghost places = placements(*ledger);
    let mut totals: Amounts<ByteBucket> = Amounts::new();
    let mut i: usize = 0;
    proof {
        assert(ledger.tx@.subrange(0, 0) =~= Seq::<NodeTxView>::empty());
        assert(all.subrange(0, 0) =~= Seq::<Attribution>::empty());
        assert(places.subrange(0, 0) =~= Seq::<Placement>::empty());
    }
    while i < ledger.tx.len()
        invariant
            all == attributions(*ledger),
            places == placements(*ledger),
            forall|b: ByteBucket| #[trigger] bytes_in(places, b) <= u64::MAX,
            i <= ledger.tx@.len(),
            totals@ == after_tx(Map::empty(), ledger.tx@.subrange(0, i as int)),
            forall|b: ByteBucket| #[trigger]
                amount(totals@, b) == bytes_in(places.subrange(0, i as int), b),
            0 <= totals.sum() == attributed_bytes(all.subrange(0, i as int)),
        decreases ledger.tx@.len() - i,
    {
        proof {
            let next = ledger.tx@.subrange(0, i as int + 1);
            assert(next.drop_last() =~= ledger.tx@.subrange(0, i as int));
            let a = all.subrange(0, i as int + 1);
            assert(a.drop_last() =~= all.subrange(0, i as int));
        }
        place(
            &mut totals,
            Some(ByteBucket::Air),
            ledger.tx[i].bytes_on_wire,
            Ghost(places),
            Ghost(i as int),
        );
        i = i + 1;
    }
    assert(ledger.tx@.subrange(0, i as int) =~= ledger.tx@);
    let ghost aired = totals@;
    let ghost n1 = ledger.tx@.len() as int;
    let mut j: usize = 0;
    assert(ledger.bytes@.subrange(0, 0) =~= Seq::<NetBytesView>::empty());
    while j < ledger.bytes.len()
        invariant
            all == attributions(*ledger),
            places == placements(*ledger),
            n1 == ledger.tx@.len(),
            forall|b: ByteBucket| #[trigger] bytes_in(places, b) <= u64::MAX,
            j <= ledger.bytes@.len(),
            totals@ == after_bytes(aired, ledger.bytes@.subrange(0, j as int)),
            forall|b: ByteBucket| #[trigger]
                amount(totals@, b) == bytes_in(places.subrange(0, n1 + j), b),
            0 <= totals.sum() == attributed_bytes(all.subrange(0, n1 + j)),
        decreases ledger.bytes@.len() - j,
    {
        proof {
            let next = ledger.bytes@.subrange(0, j as int + 1);
            assert(next.drop_last() =~= ledger.bytes@.subrange(0, j as int));
            let a = all.subrange(0, n1 + j + 1);
            assert(a.drop_last() =~= all.subrange(0, n1 + j));
        }
        place(
            &mut totals,
            Some(ledger.bytes[j].bucket),
            ledger.bytes[j].bytes_on_wire,
            Ghost(places),
            Ghost(n1 + j),
        );
        j = j + 1;
    }
    assert(ledger.bytes@.subrange(0, j as int) =~= ledger.bytes@);
    let ghost carried = totals@;
    let ghost n2 = n1 + ledger.bytes@.len();
    let mut k: usize = 0;
    assert(ledger.proto_msg@.subrange(0, 0) =~= Seq::<ProtoMsgView>::empty());
    while k < ledger.proto_msg.len()
        invariant
            all == attributions(*ledger),
            places == placements(*ledger),
            n2 == ledger.tx@.len() + ledger.bytes@.len(),
            forall|b: ByteBucket| #[trigger] bytes_in(places, b) <= u64::MAX,
            k <= ledger.proto_msg@.len(),
            totals@ == after_messages(carried, ledger.proto_msg@.subrange(0, k as int)),
            forall|b: ByteBucket| #[trigger]
                amount(totals@, b) == bytes_in(places.subrange(0, n2 + k), b),
            0 <= totals.sum() <= attributed_bytes(all.subrange(0, n2 + k)),
            (forall|q: int|
                0 <= q < k ==> (#[trigger] ledger.proto_msg@[q]).transport is Some) ==> totals.sum()
                == attributed_bytes(all.subrange(0, n2 + k)),
        decreases ledger.proto_msg@.len() - k,
    {
        let m = &ledger.proto_msg[k];
        proof {
            let next = ledger.proto_msg@.subrange(0, k as int + 1);
            assert(next.drop_last() =~= ledger.proto_msg@.subrange(0, k as int));
            let a = all.subrange(0, n2 + k + 1);
            assert(a.drop_last() =~= all.subrange(0, n2 + k));
            assert(a.last() == message_attribution(*m));
        }
        place(&mut totals, m.transport, m.bytes_on_wire, Ghost(places), Ghost(n2 + k));
        k = k + 1;
    }
    proof {
        assert(ledger.proto_msg@.subrange(0, k as int) =~= ledger.proto_msg@);
        assert(all.subrange(0, n2 + k) =~= all);
        assert(places.subrange(0, n2 + k) =~= places);
    }
    totals
}

/// What a fragmenter's card documents.
pub const I_N2: &'static str = "fragmentation strategies must document reassembly timeout and loss amplification in their card";

/// True if a lower-cased text has `word` in it.
pub open spec fn mentions(s: Seq<char>, word: Seq<char>) -> bool {
    contains_text(lowercase_text(s), word)
}

fn does_mention(s: &str, word: &str) -> (r: bool)
    ensures
        r == mentions(s@, word@),
{
    has_text(lowercase(s).as_str(), word)
}

/// True if a parameter is a timeout.
pub open spec fn declares_timeout(card: CardView) -> bool {
    exists|i: int|
        0 <= i < card.parameters.len() && mentions(
            (#[trigger] card.parameters[i]).name,
            "timeout"@,
        )
}

/// True if an equation or a limitation speaks of loss amplification.
pub open spec fn states_amplification(card: CardView) -> bool {
    ||| exists|i: int|
        0 <= i < card.equations.len() && (mentions(
            (#[trigger] card.equations[i]).name,
            "amplification"@,
        ) || mentions(card.equations[i].latex_or_text, "amplification"@))
    ||| exists|i: int|
        0 <= i < card.limitations.len() && mentions(
            #[trigger] card.limitations[i],
            "amplification"@,
        )
}

/// What the check of a fragmenter's card finds.
pub open spec fn i_n2(card: CardView) -> OutcomeView {
    if card.family != Family::Fragmenter {
        did_not_run(
            "I-N2"@,
            I_N2@,
            card.id + " is a "@ + card.family.text() + " card, not a fragmenter"@,
        )
    } else {
        let first = if declares_timeout(card) {
            Seq::empty()
        } else {
            seq![
                finding(
                    "I-N2"@,
                    Some(card.id),
                    "the card declares no reassembly-timeout parameter"@,
                ).count("parameters"@, card.parameters.len() as int),
            ]
        };
        let second = if states_amplification(card) {
            first
        } else {
            first.push(
                finding(
                    "I-N2"@,
                    Some(card.id),
                    "the card states no loss-amplification formula in an equation or a limitation"@,
                ).count("equations"@, card.equations.len() as int),
            )
        };
        ran("I-N2"@, I_N2@, 1, second)
    }
}

/// Checks that a fragmenter's card declares its reassembly timeout and states its loss
/// amplification.
pub fn check_i_n2(card: &ModelCard) -> (r: InvariantOutcome)
    ensures
        r@ == i_n2(card@),
{
    broadcast use group_views;

    let ghost cv = card@;
    assert(cv.parameters.len() == card.parameters@.len());
    assert(cv.equations.len() == card.equations@.len());
    assert(cv.limitations.len() == card.limitations@.len());
    if card.family != Family::Fragmenter {
        let mut why = join3(card.id.as_str(), " is a ", card.family.as_str());
        why.append(" card, not a fragmenter");
        return InvariantOutcome::not_run("I-N2", I_N2, why.as_str());
    }
    let mut has_timeout: bool = false;
    let mut i: usize = 0;
    while i < card.parameters.len()
        invariant
            cv == card@,
            cv.parameters.len() == card.parameters@.len(),
            i <= card.parameters@.len(),
            has_timeout == (exists|k: int|
                0 <= k < i && mentions((#[trigger] cv.parameters[k]).name, "timeout"@)),
        decreases card.parameters@.len() - i,
    {
        assert(cv.parameters[i as int] == card.parameters@[i as int]@);
        if does_mention(card.parameters[i].name.as_str(), "timeout") {
            has_timeout = true;
            assert(mentions(cv.parameters[i as int].name, "timeout"@));
        }
        i = i + 1;
    }
    let mut in_equation: bool = false;
    let mut j: usize = 0;
    while j < card.equations.len()
        invariant
            cv == card@,
            cv.equations.len() == card.equations@.len(),
            j <= card.equations@.len(),
            in_equation == (exists|k: int|
                0 <= k < j && (mentions((#[trigger] cv.equations[k]).name, "amplification"@)
                    || mentions(cv.equations[k].latex_or_text, "amplification"@))),
        decreases card.equations@.len() - j,
    {
        assert(cv.equations[j as int] == card.equations@[j as int]@);
        if does_mention(card.equations[j].name.as_str(), "amplification") || does_mention(
            card.equations[j].latex_or_text.as_str(),
            "amplification",
        ) {
            in_equation = true;
            assert(mentions(cv.equations[j as int].name, "amplification"@) || mentions(
                cv.equations[j as int].latex_or_text,
                "amplification"@,
            ));
        }
        j = j + 1;
    }
    let mut in_limitation: bool = false;
    let mut q: usize = 0;
    while q < card.limitations.len()
        invariant
            cv == card@,
            cv.limitations.len() == card.limitations@.len(),
            q <= card.limitations@.len(),
            in_limitation == (exists|k: int|
                0 <= k < q && mentions(#[trigger] cv.limitations[k], "amplification"@)),
        decreases card.limitations@.len() - q,
    {
        assert(cv.limitations[q as int] == card.limitations@[q as int]@);
        if does_mention(card.limitations[q].as_str(), "amplification") {
            in_limitation = true;
            assert(mentions(cv.limitations[q as int], "amplification"@));
        }
        q = q + 1;
    }
    let mut out: Vec<InvariantViolation> = Vec::new();
    assert(views(out@) =~= Seq::<ViolationView>::empty());
    if !has_timeout {
        out.push(
            InvariantViolation::new(
                "I-N2",
                Some(card.id.clone()),
                "the card declares no reassembly-timeout parameter".to_owned(),
            ).count("parameters", card.parameters.len() as u64),
        );
    }
    if !in_equation && !in_limitation {
        out.push(
            InvariantViolation::new(
                "I-N2",
                Some(card.id.clone()),
                "the card states no loss-amplification formula in an equation or a limitation".to_owned(),
            ).count("equations", card.equations.len() as u64),
        );
    }
    InvariantOutcome::of("I-N2", I_N2, 1, out)
}

} // verus!
