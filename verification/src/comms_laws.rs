//! What the communication metrics measure.

use vstd::prelude::*;
use crate::basic::SimTime;
use crate::bins::{one_bin_for_every_value, rising, Bins};
use crate::channels::{channel_named, ByteBucket, Channel, EventRecord, MacCbrView, NodeRxView, NodeTxView, Payload, PhyRxView, RxFate, RxOutcome};
use crate::comms::{counts_at, distance_bin, more_causes, observed_on, CommsView};
use crate::def::{Dim, DimText, SampleValue};
use crate::distribution::{ascending, samples_commute, Observed};
use crate::gains::{a_proportion_says_its_share, a_quotient_is_read, a_small_quotient_fits, an_observation_is_kept, gained, raised, reads, says_number, says_share, tried};
use crate::keyed::in_order;
use crate::quant::{real_of_is_the_quotient, rounded, rounded_multiple};
use crate::stats::{Counts, RatioEstimate};
use crate::tally::{amount, sum_of, total_of};

verus! {

/// A distance falls in the bin whose edges are around it, and in none where it is below the
/// first one.
pub proof fn a_distance_is_in_the_bin_around_it(bins: Bins, d: i64)
    requires
        bins.per_unit() == 1_000,
        rising(bins.edges()),
        bins.edges().len() > 0,
    ensures
        match distance_bin(bins, Some(d)) {
            Some(b) => {
                &&& 0 <= b < bins.edges().len()
                &&& bins.edges()[b] <= d
                &&& b + 1 < bins.edges().len() ==> d < bins.edges()[b + 1]
            },
            None => d < bins.edges()[0],
        },
        distance_bin(bins, None) is None,
{
    rounded_multiple(d as int, 1_000);
    if bins.edges()[0] <= d {
        one_bin_for_every_value(bins.edges(), d as int);
    }
}

/// True if no more trials succeeded than there were.
pub open spec fn counts_are_sound(v: CommsView) -> bool {
    &&& v.pdr_all.successes <= v.pdr_all.trials
    &&& v.pdr_unbinned.successes <= v.pdr_unbinned.trials
    &&& forall|b: usize| (#[trigger] counts_at(v.pdr_by_bin, b)).successes <= counts_at(
        v.pdr_by_bin,
        b,
    ).trials
}

/// A reception attempt within candidate range is one trial, of all attempts and of those in
/// its distance bin or outside all bins, and a success exactly where the frame was received.
/// One out of range changes nothing at all.
pub proof fn a_reception_is_tried_once(v: CommsView, ev: EventRecord, r: PhyRxView)
    requires
        channel_named(ev.channel@) == Some(Channel::PhyRx),
        ev.payload == Payload::PhyRx(r),
        v.room_for_rx(r),
        counts_are_sound(v),
    ensures
        ({
            let w = v.after(ev);
            let ok = r.outcome == RxOutcome::Received;
            &&& !r.candidate ==> w == v
            &&& r.candidate ==> {
                &&& tried(v.pdr_all, w.pdr_all, ok)
                &&& match distance_bin(v.bins, r.dist_mm) {
                    Some(b) => {
                        &&& tried(
                            counts_at(v.pdr_by_bin, b as usize),
                            counts_at(w.pdr_by_bin, b as usize),
                            ok,
                        )
                        &&& forall|c: usize|
                            c != b as usize ==> #[trigger] counts_at(w.pdr_by_bin, c) == counts_at(
                                v.pdr_by_bin,
                                c,
                            )
                        &&& w.pdr_unbinned == v.pdr_unbinned
                    },
                    None => tried(v.pdr_unbinned, w.pdr_unbinned, ok) && w.pdr_by_bin
                        == v.pdr_by_bin,
                }
            }
            &&& w.bytes == v.bytes && w.airtime_us == v.airtime_us && w.cbr == v.cbr
            &&& w.goodput_bytes == v.goodput_bytes && w.deliveries == v.deliveries
        }),
{
}

/// A lost attempt counts each cause as often as the record names it, and a received one
/// counts none.
pub proof fn a_loss_counts_every_cause_it_names(v: CommsView, ev: EventRecord, r: PhyRxView, cause: Seq<char>)
    requires
        channel_named(ev.channel@) == Some(Channel::PhyRx),
        ev.payload == Payload::PhyRx(r),
        r.candidate,
        forall|c: Seq<char>| #[trigger] amount(v.losses_by_cause, c) + 1 + r.causes@.len() <= u64::MAX,
    ensures
        ({
            let w = v.after(ev);
            let named = times_named(r, cause);
            &&& r.outcome == RxOutcome::Received ==> w.losses_by_cause == v.losses_by_cause
            &&& r.outcome == RxOutcome::Lost ==> amount(w.losses_by_cause, cause) == amount(
                v.losses_by_cause,
                cause,
            ) + named
        }),
{
    broadcast use crate::card::group_views;

    if r.outcome == RxOutcome::Lost {
        let all = r.every_cause();
        causes_add_up(v.losses_by_cause, all, cause);
        let first = r.first_cause();
        let rest = crate::text::texts(r.causes@);
        count_of_two(first, rest, cause);
        assert(all == first + rest);
        count_in_texts(r.causes@, cause);
        if r.cause is Some {
            assert(first.drop_last() =~= Seq::<Seq<char>>::empty());
            assert(occurrences(first.drop_last(), cause) == 0);
            assert(first.last() == r.cause->Some_0@);
        }
    }
}

/// How often a record names a cause: as the leading one, and among the others.
pub open spec fn times_named(r: PhyRxView, cause: Seq<char>) -> int {
    (match r.cause {
        Some(c) => if c@ == cause {
            1int
        } else {
            0int
        },
        None => 0int,
    }) + named_among(r.causes@, cause)
}

/// How often a cause stands in a list.
pub open spec fn named_among(s: Seq<String>, cause: Seq<char>) -> int
    decreases s.len(),
{
    if s.len() == 0 {
        0
    } else {
        named_among(s.drop_last(), cause) + if s.last()@ == cause {
            1int
        } else {
            0int
        }
    }
}

spec fn occurrences(s: Seq<Seq<char>>, cause: Seq<char>) -> int
    decreases s.len(),
{
    if s.len() == 0 {
        0
    } else {
        occurrences(s.drop_last(), cause) + if s.last() == cause {
            1int
        } else {
            0int
        }
    }
}

proof fn count_in_texts(s: Seq<String>, cause: Seq<char>)
    ensures
        occurrences(crate::text::texts(s), cause) == named_among(s, cause),
    decreases s.len(),
{
    let t = crate::text::texts(s);
    if s.len() > 0 {
        count_in_texts(s.drop_last(), cause);
        assert(t.drop_last() =~= crate::text::texts(s.drop_last()));
        assert(t.last() == s.last()@);
    }
}

proof fn count_of_two(a: Seq<Seq<char>>, b: Seq<Seq<char>>, cause: Seq<char>)
    ensures
        occurrences(a + b, cause) == occurrences(a, cause) + occurrences(b, cause),
    decreases b.len(),
{
    if b.len() == 0 {
        assert(a + b =~= a);
    } else {
        count_of_two(a, b.drop_last(), cause);
        assert((a + b).drop_last() =~= a + b.drop_last());
        assert((a + b).last() == b.last());
    }
}

proof fn causes_add_up(m: Map<Seq<char>, u64>, s: Seq<Seq<char>>, cause: Seq<char>)
    requires
        forall|c: Seq<char>| #[trigger] amount(m, c) + s.len() <= u64::MAX,
    ensures
        amount(more_causes(m, s), cause) == amount(m, cause) + occurrences(s, cause),
        0 <= occurrences(s, cause) <= s.len(),
    decreases s.len(),
{
    if s.len() > 0 {
        let init = s.drop_last();
        assert forall|c: Seq<char>| #[trigger] amount(m, c) + init.len() <= u64::MAX by {
            assert(amount(m, c) + s.len() <= u64::MAX);
        }
        causes_add_up(m, init, cause);
        causes_add_up(m, init, s.last());
        assert(amount(m, s.last()) + s.len() <= u64::MAX);
    }
}

/// A reception from one transmitter at one receiver adds a gap exactly where an earlier
/// reception from the same transmitter at the same receiver is held: the time since that
/// one. It is then the one that is held; every other directed link is as it was. A frame that
/// was lost, or whose transmitter is unknown, touches no link.
pub proof fn a_gap_is_between_receptions_on_one_link(v: CommsView, ev: EventRecord, r: PhyRxView)
    requires
        channel_named(ev.channel@) == Some(Channel::PhyRx),
        ev.payload == Payload::PhyRx(r),
        r.candidate,
    ensures
        ({
            let w = v.after(ev);
            &&& (r.outcome == RxOutcome::Lost || r.tx is None) ==> w.pir == v.pir && w.last_rx
                == v.last_rx
            &&& (r.outcome == RxOutcome::Received && r.tx is Some) ==> {
                let link = (r.tx->Some_0, r.rx);
                let earlier = v.last_rx.contains_key(link) && v.last_rx[link] <= r.t_end;
                &&& w.last_rx.contains_key(link) && w.last_rx[link] == r.t_end
                &&& forall|k: (u32, u32)| k != link ==> #[trigger] w.last_rx.contains_key(k)
                    == v.last_rx.contains_key(k) && w.last_rx[k] == v.last_rx[k]
                &&& earlier ==> gained(v.pir, w.pir, r.t_end - v.last_rx[link], 1_000_000_000)
                &&& !earlier ==> w.pir == v.pir
            }
        }),
{
    if r.outcome == RxOutcome::Received && r.tx is Some {
        let link = (r.tx->Some_0, r.rx);
        if v.last_rx.contains_key(link) && v.last_rx[link] <= r.t_end {
            an_observation_is_kept(v.pir, r.t_end - v.last_rx[link], 1_000_000_000);
        }
    }
}

/// Receptions on two different links may come in either order: the gaps and the receptions
/// that are held are the same.
pub proof fn links_do_not_mix(v: CommsView, a: PhyRxView, b: PhyRxView)
    requires
        ascending(v.pir.samples),
        a.tx is Some,
        b.tx is Some,
        a.tx != b.tx || a.rx != b.rx,
    ensures
        v.after_rx(a).after_rx(b).pir == v.after_rx(b).after_rx(a).pir,
        v.after_rx(a).after_rx(b).last_rx == v.after_rx(b).after_rx(a).last_rx,
{
    let x = v.after_rx(a).after_rx(b);
    let y = v.after_rx(b).after_rx(a);
    assert(x.last_rx =~= y.last_rx);
    let (p, q) = ((a.tx->Some_0, a.rx), (b.tx->Some_0, b.rx));
    let g = crate::quant::rounded((a.t_end - v.last_rx[p]) * 1_000_000_000, 1_000_000_000) as i128;
    let h = crate::quant::rounded((b.t_end - v.last_rx[q]) * 1_000_000_000, 1_000_000_000) as i128;
    samples_commute(v.pir.samples, g, h);
    assert(x.pir =~= y.pir);
}

/// A transmission adds its air time to its own node, and its bytes to those on the air; it
/// changes no other node and no other bucket.
pub proof fn a_transmission_is_its_nodes(v: CommsView, ev: EventRecord, t: NodeTxView)
    requires
        channel_named(ev.channel@) == Some(Channel::NodeTx),
        ev.payload == Payload::NodeTx(t),
        amount(v.bytes, ByteBucket::Air) + t.bytes_on_wire <= u64::MAX,
        t.airtime_us matches Some(us) ==> amount(v.airtime_us, t.node) + us <= u64::MAX,
    ensures
        ({
            let w = v.after(ev);
            &&& raised(v.bytes, w.bytes, ByteBucket::Air, t.bytes_on_wire as int)
            &&& t.airtime_us matches Some(us) ==> raised(
                v.airtime_us,
                w.airtime_us,
                t.node,
                us as int,
            )
            &&& t.airtime_us is None ==> w.airtime_us == v.airtime_us
            &&& w.pdr_all == v.pdr_all && w.pir == v.pir && w.last_rx == v.last_rx && w.cbr == v.cbr
            &&& w.goodput_bytes == v.goodput_bytes && w.losses_by_cause == v.losses_by_cause
        }),
{
}

/// A report of the medium access layer is observed on its own channel: the busy time over the
/// window where both are known, and the ratio it states otherwise.
pub proof fn a_busy_ratio_is_its_channels(v: CommsView, ev: EventRecord, m: MacCbrView)
    requires
        channel_named(ev.channel@) == Some(Channel::MacCbr),
        ev.payload == Payload::MacCbr(m),
    ensures
        ({
            let w = v.after(ev);
            let measured = m.busy_us is Some && m.window_us is Some && m.window_us->Some_0 > 0;
            &&& w.cbr.contains_key(m.channel)
            &&& measured ==> gained(
                observed_on(v.cbr, m.channel),
                observed_on(w.cbr, m.channel),
                m.busy_us->Some_0 as int,
                m.window_us->Some_0 as int,
            )
            &&& !measured ==> gained(
                observed_on(v.cbr, m.channel),
                observed_on(w.cbr, m.channel),
                m.cbr_e4 as int,
                10_000,
            )
            &&& forall|c: Option<u16>| c != m.channel ==> #[trigger] w.cbr.contains_key(c)
                == v.cbr.contains_key(c) && w.cbr[c] == v.cbr[c]
            &&& w.bytes == v.bytes && w.pdr_all == v.pdr_all && w.airtime_us == v.airtime_us
        }),
{
    let o = observed_on(v.cbr, m.channel);
    if m.busy_us is Some && m.window_us is Some && m.window_us->Some_0 > 0 {
        an_observation_is_kept(o, m.busy_us->Some_0 as int, m.window_us->Some_0 as int);
    } else {
        an_observation_is_kept(o, m.cbr_e4 as int, 10_000);
    }
}

/// A message counts as goodput exactly where it was delivered and its payload is known.
pub proof fn only_a_delivery_is_goodput(v: CommsView, ev: EventRecord, r: NodeRxView)
    requires
        channel_named(ev.channel@) == Some(Channel::NodeRx),
        ev.payload == Payload::NodeRx(r),
        v.room_for(ev),
    ensures
        ({
            let w = v.after(ev);
            let good = r.outcome == RxFate::Delivered && r.payload_bytes is Some;
            &&& good ==> w.goodput_bytes == v.goodput_bytes + r.payload_bytes->Some_0
                && w.deliveries == v.deliveries + 1
            &&& !good ==> w == v
            &&& w.bytes == v.bytes && w.pdr_all == v.pdr_all && w.pir == v.pir
        }),
{
}

/// Attributed bytes are counted in their bucket and in no other; those of a protocol message
/// in the bucket of its transport, where it names one.
pub proof fn bytes_are_counted_in_their_bucket(v: CommsView, ev: EventRecord)
    requires
        v.room_for(ev),
        forall|b: ByteBucket| #[trigger] amount(v.bytes, b) <= total_of::<ByteBucket>(v.bytes),
    ensures
        ev.payload matches Payload::NetBytes(b) ==> channel_named(ev.channel@) == Some(
            Channel::NetBytes,
        ) ==> raised(v.bytes, v.after(ev).bytes, b.bucket, b.bytes_on_wire as int),
        ev.payload matches Payload::ProtoMsg(m) ==> channel_named(ev.channel@) == Some(
            Channel::ProtoMsg,
        ) ==> match m.transport {
            Some(b) => raised(v.bytes, v.after(ev).bytes, b, m.bytes_on_wire as int),
            None => v.after(ev) == v,
        },
{
}

/// The delivery ratio that a window reports is the share of the trials that succeeded: of
/// all, of those in each bin, and of those outside all bins where there are any; and the
/// error ratio is the share that did not.
pub proof fn a_window_reports_its_receptions(v: CommsView, at: SimTime)
    requires
        v.pdr_all.successes <= v.pdr_all.trials,
    ensures
        ({
            let s = v.pdr_samples(at);
            let e = v.per_sample(at);
            let bins = in_order::<usize, Counts>(v.pdr_by_bin);
            let all = v.pdr_all;
            let loose = v.pdr_unbinned;
            let n = v.min_samples;
            &&& v.samples(at).subrange(0, s.len() as int) == s
            &&& v.samples(at)[s.len() as int] == e
            &&& s.len() == 1 + bins.len() + if loose.trials > 0 {
                1int
            } else {
                0int
            }
            &&& forall|i: int| 0 <= i < s.len() ==> (#[trigger] s[i]).metric == "pdr"@ && s[i].t == at
            &&& s[0].dims.len() == 0
            &&& says_share(s[0].value, all.successes, all.trials, all.trials, n, 10_000, v.level)
            &&& forall|i: int|
                0 <= i < bins.len() ==> {
                    let c = (#[trigger] bins[i]).1;
                    &&& says_share(s[i + 1].value, c.successes, c.trials, c.trials, n, 10_000, v.level)
                    &&& s[i + 1].dims == seq![
                        (Dim::DistBin, DimText::Label(v.bins.label_text(bins[i].0 as int))),
                    ]
                }
            &&& loose.trials > 0 ==> says_share(
                s.last().value,
                loose.successes,
                loose.trials,
                loose.trials,
                n,
                10_000,
                v.level,
            ) && s.last().dims == seq![(Dim::DistBin, DimText::Label("unbinned"@))]
            &&& e.metric == "per"@ && e.t == at && e.dims.len() == 0
            &&& says_share(
                e.value,
                (all.trials - all.successes) as u64,
                all.trials,
                all.trials,
                n,
                10_000,
                v.level,
            )
        }),
{
    let s = v.pdr_samples(at);
    let bins = in_order::<usize, Counts>(v.pdr_by_bin);
    let (all, loose, n, l) = (v.pdr_all, v.pdr_unbinned, v.min_samples, v.level);
    assert(v.samples(at).subrange(0, s.len() as int) =~= s);
    a_proportion_says_its_share(all.successes, all.trials, all.trials, n, l, 10_000);
    a_proportion_says_its_share(
        (all.trials - all.successes) as u64,
        all.trials,
        all.trials,
        n,
        l,
        10_000,
    );
    a_proportion_says_its_share(loose.successes, loose.trials, loose.trials, n, l, 10_000);
    assert forall|i: int| 0 <= i < bins.len() implies {
        let c = (#[trigger] bins[i]).1;
        &&& says_share(s[i + 1].value, c.successes, c.trials, c.trials, n, 10_000, v.level)
        &&& s[i + 1].dims == seq![
            (Dim::DistBin, DimText::Label(v.bins.label_text(bins[i].0 as int))),
        ]
    } by {
        let c = bins[i].1;
        a_proportion_says_its_share(c.successes, c.trials, c.trials, n, l, 10_000);
    }
}

/// The share of every cause is of all losses that name one: the counts of all causes sum to
/// the number that each of them is a share of.
pub proof fn a_window_reports_its_causes(v: CommsView, at: SimTime)
    requires
        total_of::<String>(v.losses_by_cause) <= u64::MAX,
    ensures
        ({
            let s = v.cause_samples(at);
            let causes = in_order::<String, u64>(v.losses_by_cause);
            let all = sum_of(causes) as u64;
            &&& s.len() == causes.len()
            &&& forall|i: int|
                0 <= i < s.len() ==> {
                    &&& (#[trigger] s[i]).metric == "pdr_by_cause"@
                    &&& s[i].t == at
                    &&& s[i].dims == seq![(Dim::Cause, DimText::Label(causes[i].0))]
                    &&& says_share(s[i].value, causes[i].1, all, all, v.min_samples, 10_000, v.level)
                }
        }),
{
    let s = v.cause_samples(at);
    let causes = in_order::<String, u64>(v.losses_by_cause);
    let all = sum_of(causes) as u64;
    assert forall|i: int| 0 <= i < s.len() implies {
        &&& (#[trigger] s[i]).metric == "pdr_by_cause"@
        &&& s[i].t == at
        &&& s[i].dims == seq![(Dim::Cause, DimText::Label(causes[i].0))]
        &&& says_share(s[i].value, causes[i].1, all, all, v.min_samples, 10_000, v.level)
    } by {
        a_proportion_says_its_share(causes[i].1, all, all, v.min_samples, v.level, 10_000);
    }
}

/// The busy ratios of every channel, the gaps, the goodput and the bytes of every bucket are
/// reported under their names: what was counted over the length of the window, per second.
pub proof fn a_window_reports_its_rates(v: CommsView, at: SimTime)
    requires
        v.window_start < at,
        total_of::<ByteBucket>(v.bytes) <= u64::MAX,
        total_of::<ByteBucket>(v.bytes) >= 0,
    ensures
        ({
            let ns = at - v.window_start;
            let air = v.air_samples(at);
            let channels = in_order::<Option<u16>, Observed>(v.cbr);
            let good = v.goodput_sample(at);
            let b = v.byte_samples(at);
            &&& air.len() == channels.len() + 1
            &&& forall|i: int|
                0 <= i < channels.len() ==> (#[trigger] air[i]).metric == "cbr"@ && air[i].value
                    == SampleValue::Distribution(channels[i].1.summary(1)).on(10_000)
                    && air[i].dims == match channels[i].0 {
                    Some(c) => seq![(Dim::Channel, DimText::Index(c as u64))],
                    None => Seq::empty(),
                }
            &&& air.last().metric == "pir"@ && air.last().value == SampleValue::Distribution(
                v.pir.summary(v.min_samples),
            ).on(1_000)
            &&& good.metric == "goodput"@
            &&& v.deliveries > 0 ==> (good.value matches SampleValue::Ratio(
                RatioEstimate::RatioOfSums { point, n, .. },
            ) && n == v.deliveries && reads(point, v.goodput_bytes * 1_000_000_000, ns, 1_000))
            &&& v.deliveries == 0 ==> good.value.refused()
            &&& b.len() == 6
            &&& b[0].metric == "bytes_air"@ && says_number(
                b[0].value,
                amount(v.bytes, ByteBucket::Air) * 1_000_000_000,
                ns,
                1,
                1_000,
            )
            &&& b[1].metric == "bytes_uu_ul"@ && says_number(
                b[1].value,
                amount(v.bytes, ByteBucket::CellularUl) * 1_000_000_000,
                ns,
                1,
                1_000,
            )
            &&& b[2].metric == "bytes_uu_dl"@ && says_number(
                b[2].value,
                amount(v.bytes, ByteBucket::CellularDl) * 1_000_000_000,
                ns,
                1,
                1_000,
            )
            &&& b[3].metric == "bytes_backhaul"@ && says_number(
                b[3].value,
                amount(v.bytes, ByteBucket::Backhaul) * 1_000_000_000,
                ns,
                1,
                1_000,
            )
            &&& b[4].metric == "bytes_backend"@ && says_number(
                b[4].value,
                amount(v.bytes, ByteBucket::Backend) * 1_000_000_000,
                ns,
                1,
                1_000,
            )
            &&& b[5].metric == "bytes_total"@ && says_number(
                b[5].value,
                total_of::<ByteBucket>(v.bytes) * 1_000_000_000,
                ns,
                1,
                1_000,
            )
        }),
{
    let ns = at - v.window_start;
    rate_is_read(amount(v.bytes, ByteBucket::Air) as int, ns);
    rate_is_read(amount(v.bytes, ByteBucket::CellularUl) as int, ns);
    rate_is_read(amount(v.bytes, ByteBucket::CellularDl) as int, ns);
    rate_is_read(amount(v.bytes, ByteBucket::Backhaul) as int, ns);
    rate_is_read(amount(v.bytes, ByteBucket::Backend) as int, ns);
    rate_is_read(total_of::<ByteBucket>(v.bytes), ns);
    rate_is_read(v.goodput_bytes as int, ns);
    real_of_is_the_quotient(ns, 1_000_000_000);
}

proof fn rate_is_read(n: int, ns: int)
    requires
        0 <= n <= u64::MAX,
        0 < ns <= u64::MAX,
    ensures
        reads(
            crate::quant::quantised_real(crate::quant::real_of(n * 1_000_000_000, ns), 1_000),
            n * 1_000_000_000,
            ns,
            1_000,
        ),
{
    a_small_quotient_fits(n * 1_000_000_000, ns, 1_000);
    a_quotient_is_read(n * 1_000_000_000, ns, 1_000);
}

/// The air time of a node is reported in milliseconds per second: what it transmitted, over
/// the length of the window. Behind the nodes stands their mean.
pub proof fn a_window_reports_its_air_times(v: CommsView, at: SimTime)
    requires
        v.window_start < at,
        0 <= total_of::<u32>(v.airtime_us) <= u64::MAX,
        in_order::<u32, u64>(v.airtime_us).len() <= u32::MAX,
    ensures
        ({
            let s = v.airtime_samples(at);
            let nodes = in_order::<u32, u64>(v.airtime_us);
            let ns = at - v.window_start;
            &&& s.len() == nodes.len() + if nodes.len() > 0 {
                1int
            } else {
                0int
            }
            &&& forall|i: int|
                0 <= i < nodes.len() ==> {
                    &&& (#[trigger] s[i]).metric == "airtime_per_node"@
                    &&& s[i].dims == seq![(Dim::Node, DimText::Index(nodes[i].0 as u64))]
                    &&& says_number(s[i].value, nodes[i].1 * 1_000_000, ns, 1, 1_000)
                }
            &&& nodes.len() > 0 ==> {
                &&& s.last().metric == "airtime_per_node"@ && s.last().dims.len() == 0
                &&& says_number(
                    s.last().value,
                    total_of::<u32>(v.airtime_us) * 1_000_000,
                    ns * nodes.len(),
                    nodes.len() as u64,
                    1_000,
                )
            }
        }),
{
    let s = v.airtime_samples(at);
    let nodes = in_order::<u32, u64>(v.airtime_us);
    let ns = at - v.window_start;
    assert forall|i: int| 0 <= i < nodes.len() implies {
        &&& (#[trigger] s[i]).metric == "airtime_per_node"@
        &&& s[i].dims == seq![(Dim::Node, DimText::Index(nodes[i].0 as u64))]
        &&& says_number(s[i].value, nodes[i].1 * 1_000_000, ns, 1, 1_000)
    } by {
        a_small_quotient_fits(nodes[i].1 * 1_000_000, ns, 1_000);
        a_quotient_is_read(nodes[i].1 * 1_000_000, ns, 1_000);
    }
    if nodes.len() > 0 {
        let n = nodes.len() as int;
        assert(0 < ns * n <= 0xffff_ffff_ffff_ffff * 0xffff_ffff) by (nonlinear_arith)
            requires
                0 < ns <= 0xffff_ffff_ffff_ffff,
                0 < n <= 0xffff_ffff,
        ;
        a_small_quotient_fits(total_of::<u32>(v.airtime_us) * 1_000_000, ns * n, 1_000);
        a_quotient_is_read(total_of::<u32>(v.airtime_us) * 1_000_000, ns * n, 1_000);
    }
}

} // verus!
