//! Fragmentation: what splitting an oversize message costs in loss, beside what independent
//! losses would cost.

use vstd::prelude::*;
use vstd::arithmetic::power::{lemma_pow0, lemma_pow_positive, pow};
use crate::basic::SimTime;
use crate::card::{group_views, views, ModelCard};
use crate::catalog::frag as catalog;
use crate::channels::{channel_named, find_channel, Channel, EventRecord, NetReassemblyView, Payload};
use crate::def::{copy_dims, sample_of, MetricDef, MetricSample, SampleValue, SampleView};
use crate::keyed::{in_order, in_order_is, listed, optional_text, SortedMap};
use crate::overhead::{find_type_dims, type_dims};
use crate::quant::{real_of, rounded, rounded_is_nearest, Real};
use crate::stats::{no_counts, ratio_of_whole_sums, whole_sums_ratio, ConfidenceLevel, Counts, Estimate, Proportion};

verus! {

/// The parts of one in which a probability of survival is computed.
pub const SURVIVAL_PARTS: u64 = 1_000_000_000_000;

/// The sums over the groups of one message type.
pub struct GroupSums {
    groups: Proportion,
    fragments: Proportion,
    bytes: u64,
    bytes_lost: u64,
    predicted_e6: u64,
    predicted_content_e6: u64,
    counts: Vec<u32>,
}

/// The sums over the groups of one message type: lost groups of all, lost fragments of all,
/// octets, octets lost, the predictions in millionths, and how many fragments each group
/// has.
#[verifier::ext_equal]
pub ghost struct GroupView {
    pub groups: Counts,
    pub fragments: Counts,
    pub bytes: u64,
    pub bytes_lost: u64,
    pub predicted_e6: u64,
    pub predicted_content_e6: u64,
    pub counts: Seq<u32>,
}

impl View for GroupSums {
    type V = GroupView;

    closed spec fn view(&self) -> GroupView {
        GroupView {
            groups: self.groups@,
            fragments: self.fragments@,
            bytes: self.bytes,
            bytes_lost: self.bytes_lost,
            predicted_e6: self.predicted_e6,
            predicted_content_e6: self.predicted_content_e6,
            counts: self.counts@,
        }
    }
}

/// No group yet.
pub open spec fn no_groups() -> GroupView {
    GroupView {
        groups: no_counts(),
        fragments: no_counts(),
        bytes: 0,
        bytes_lost: 0,
        predicted_e6: 0,
        predicted_content_e6: 0,
        counts: Seq::empty(),
    }
}

/// True if a group has fragments, and claims no more than it had.
pub open spec fn plausible(v: NetReassemblyView) -> bool {
    v.fragments > 0 && v.received <= v.fragments && v.bytes_received <= v.bytes
}

impl GroupView {
    /// With one more group.
    pub open spec fn and(self, v: NetReassemblyView) -> GroupView {
        GroupView {
            groups: self.groups.and(v.received != v.fragments),
            fragments: Counts {
                successes: (self.fragments.successes + (v.fragments - v.received)) as u64,
                trials: (self.fragments.trials + v.fragments) as u64,
            },
            bytes: (self.bytes + v.bytes) as u64,
            bytes_lost: (self.bytes_lost + (v.bytes - v.bytes_received)) as u64,
            predicted_e6: (self.predicted_e6 + v.predicted_loss_e6) as u64,
            predicted_content_e6: (self.predicted_content_e6 + v.predicted_content_loss_e6) as u64,
            counts: self.counts.push(v.fragments),
        }
    }

    /// True if there is room for one more group.
    pub open spec fn room_for(self, v: NetReassemblyView) -> bool {
        &&& self.groups.trials < u64::MAX
        &&& self.fragments.trials + v.fragments <= u64::MAX
        &&& self.bytes + v.bytes <= u64::MAX
        &&& self.bytes_lost + (v.bytes - v.bytes_received) <= u64::MAX
        &&& self.predicted_e6 + v.predicted_loss_e6 <= u64::MAX
        &&& self.predicted_content_e6 + v.predicted_content_loss_e6 <= u64::MAX
    }

    /// There is a group, every group is counted, and no more fragments are lost than there
    /// are.
    pub open spec fn sound(self) -> bool {
        &&& self.groups.trials > 0
        &&& self.counts.len() == self.groups.trials
        &&& self.fragments.successes <= self.fragments.trials
        &&& self.fragments.trials > 0
    }
}

/// The sums of a message type, nothing where there are none.
pub open spec fn groups_at(m: Map<Option<Seq<char>>, GroupView>, key: Option<Seq<char>>) -> GroupView {
    if m.contains_key(key) {
        m[key]
    } else {
        no_groups()
    }
}

/// The probability that `n` fragments survive where each is lost independently with
/// probability `lost / all`, by repeated multiplication, in [`SURVIVAL_PARTS`].
pub open spec fn survival(lost: u64, all: u64, n: nat) -> int
    decreases n,
{
    if n == 0 {
        SURVIVAL_PARTS as int
    } else {
        rounded(survival(lost, all, (n - 1) as nat) * (all - lost), all as int)
    }
}

/// A probability of survival is between zero and one.
pub proof fn survival_is_a_probability(lost: u64, all: u64, n: nat)
    requires
        lost <= all,
        0 < all,
    ensures
        0 <= survival(lost, all, n) <= SURVIVAL_PARTS,
    decreases n,
{
    if n > 0 {
        survival_is_a_probability(lost, all, (n - 1) as nat);
        let (s, k, b) = (survival(lost, all, (n - 1) as nat), all - lost, all as int);
        assert(0 <= s * k <= 1_000_000_000_000 * b) by (nonlinear_arith)
            requires
                0 <= s <= 1_000_000_000_000,
                0 <= k <= b,
        ;
        rounded_is_nearest(s * k, b);
        let r = rounded(s * k, b);
        assert(r <= 1_000_000_000_000) by (nonlinear_arith)
            requires
                2 * (r * b - s * k) <= b,
                s * k <= 1_000_000_000_000 * b,
                b > 0,
        ;
        assert(r >= 0) by (nonlinear_arith)
            requires
                -b <= 2 * (r * b - s * k),
                s * k >= 0,
                b > 0,
        ;
    }
}

/// The computed probability of survival is off by at most half a part per fragment: with
/// `q = (all - lost) / all`, it is within `n / 2` parts of `q` to the power of `n`.
pub proof fn survival_is_close(lost: u64, all: u64, n: nat)
    requires
        lost <= all,
        0 < all,
    ensures
        ({
            let off = survival(lost, all, n) * pow(all as int, n) - SURVIVAL_PARTS * pow(
                all - lost,
                n,
            );
            -(n * pow(all as int, n)) <= 2 * off <= n * pow(all as int, n)
        }),
    decreases n,
{
    if n == 0 {
        lemma_pow0(all as int);
        lemma_pow0(all - lost);
    } else {
        let m = (n - 1) as nat;
        survival_is_close(lost, all, m);
        let (s, k, b) = (survival(lost, all, m), all - lost, all as int);
        let r = survival(lost, all, n);
        let (p, q) = (pow(b, m), pow(k, m));
        reveal(pow);
        assert(pow(b, n) == b * p);
        assert(pow(k, n) == k * q);
        lemma_pow_positive(b, m);
        rounded_is_nearest(s * k, b);
        let e = r * b - s * k;
        let d = s * p - 1_000_000_000_000 * q;
        assert(r * (b * p) - 1_000_000_000_000 * (k * q) == e * p + k * d) by (nonlinear_arith)
            requires
                e == r * b - s * k,
                d == s * p - 1_000_000_000_000 * q,
        ;
        assert(-(b * p) <= 2 * (e * p) <= b * p) by (nonlinear_arith)
            requires
                -b <= 2 * e <= b,
                p > 0,
        ;
        assert(-(b * (m * p)) <= 2 * (k * d) <= b * (m * p)) by (nonlinear_arith)
            requires
                -(m * p) <= 2 * d <= m * p,
                0 <= k <= b,
                m * p >= 0,
        ;
        assert(b * (m * p) + b * p == n * (b * p)) by (nonlinear_arith)
            requires
                n == m + 1,
        ;
    }
}

/// The losses that independence predicts for some groups, in [`SURVIVAL_PARTS`].
pub open spec fn independent_losses(lost: u64, all: u64, counts: Seq<u32>) -> int
    decreases counts.len(),
{
    if counts.len() == 0 {
        0
    } else {
        independent_losses(lost, all, counts.drop_last()) + (SURVIVAL_PARTS - survival(
            lost,
            all,
            counts.last() as nat,
        ))
    }
}

fn find_survival(lost: u64, all: u64, n: u32) -> (r: u64)
    requires
        lost <= all,
        0 < all,
    ensures
        r == survival(lost, all, n as nat),
        r <= SURVIVAL_PARTS,
{
    let mut s: u64 = SURVIVAL_PARTS;
    let mut i: u32 = 0;
    while i < n
        invariant
            lost <= all,
            0 < all,
            i <= n,
            s == survival(lost, all, i as nat),
            s <= SURVIVAL_PARTS,
        decreases n - i,
    {
        let k: u64 = all - lost;
        assert(0 <= s * k <= 1_000_000_000_000 * 0xffff_ffff_ffff_ffff) by (nonlinear_arith)
            requires
                0 <= s <= 1_000_000_000_000,
                0 <= k <= 0xffff_ffff_ffff_ffff,
        ;
        let q: u128 = (2 * ((s as u128) * (k as u128)) + all as u128) / (2 * (all as u128));
        proof {
            survival_is_a_probability(lost, all, (i + 1) as nat);
        }
        s = q as u64;
        i = i + 1;
    }
    s
}

impl GroupSums {
    fn new() -> (r: GroupSums)
        ensures
            r@ == no_groups(),
    {
        let counts: Vec<u32> = Vec::new();
        assert(counts@ =~= Seq::<u32>::empty());
        GroupSums {
            groups: Proportion::new(),
            fragments: Proportion::new(),
            bytes: 0,
            bytes_lost: 0,
            predicted_e6: 0,
            predicted_content_e6: 0,
            counts,
        }
    }

    fn observe(&mut self, v: &NetReassemblyView)
        requires
            plausible(*v),
            old(self)@.room_for(*v),
            old(self)@ == no_groups() || old(self)@.sound(),
        ensures
            final(self)@ == old(self)@.and(*v),
            final(self)@.sound(),
    {
        self.groups.observe(v.received != v.fragments);
        self.fragments.observe_many((v.fragments - v.received) as u64, v.fragments as u64);
        self.bytes = self.bytes + v.bytes;
        self.bytes_lost = self.bytes_lost + (v.bytes - v.bytes_received);
        self.predicted_e6 = self.predicted_e6 + v.predicted_loss_e6 as u64;
        self.predicted_content_e6 = self.predicted_content_e6 + v.predicted_content_loss_e6 as u64;
        self.counts.push(v.fragments);
    }

    fn independent(&self) -> (r: i128)
        requires
            self@.sound(),
        ensures
            r == independent_losses(
                self@.fragments.successes,
                self@.fragments.trials,
                self@.counts,
            ),
            0 <= r <= SURVIVAL_PARTS * self@.counts.len(),
    {
        let lost: u64 = self.fragments.successes();
        let all: u64 = self.fragments.trials();
        let n: usize = self.counts.len();
        let ghost s = self.counts@;
        let mut sum: i128 = 0;
        let mut i: usize = 0;
        assert(s.subrange(0, 0) =~= Seq::<u32>::empty());
        while i < n
            invariant
                s == self.counts@,
                n == s.len(),
                i <= n,
                lost <= all,
                0 < all,
                sum == independent_losses(lost, all, s.subrange(0, i as int)),
                0 <= sum <= 1_000_000_000_000 * i,
            decreases n - i,
        {
            proof {
                let next = s.subrange(0, i as int + 1);
                assert(next.drop_last() =~= s.subrange(0, i as int));
                assert(next.last() == s[i as int]);
            }
            let survive: u64 = find_survival(lost, all, self.counts[i]);
            sum = sum + (SURVIVAL_PARTS - survive) as i128;
            i = i + 1;
        }
        assert(s.subrange(0, n as int) =~= s);
        sum
    }
}

/// The fragmentation metrics of a run.
pub struct FragProvider {
    level: ConfidenceLevel,
    min_samples: u64,
    sums: SortedMap<Option<String>, GroupSums>,
    rejected: u64,
}

/// What the fragmentation metrics have accumulated. The sums over all message types stand
/// under no type.
#[verifier::ext_equal]
pub ghost struct FragView {
    pub level: ConfidenceLevel,
    pub min_samples: u64,
    pub sums: Map<Option<Seq<char>>, GroupView>,
    pub rejected: u64,
}

impl View for FragProvider {
    type V = FragView;

    closed spec fn view(&self) -> FragView {
        FragView {
            level: self.level,
            min_samples: self.min_samples,
            sums: self.sums@,
            rejected: self.rejected,
        }
    }
}

/// A provider that has seen nothing yet.
pub open spec fn fresh() -> FragView {
    FragView { level: ConfidenceLevel::P95, min_samples: 1, sums: Map::empty(), rejected: 0 }
}

/// The mean of a sum of millionths over `n` groups.
pub open spec fn mean_e6(sum: u64, n: u64) -> SampleValue {
    SampleValue::Scalar(Estimate::Value { point: real_of(sum as int, 1_000_000 * n), n })
}

impl FragView {
    /// Every message type that has sums has a group.
    pub open spec fn sound(self) -> bool {
        forall|k: Option<Seq<char>>| #[trigger] self.sums.contains_key(k) ==> self.sums[k].sound()
    }

    /// After one group: it counts for its own message type and for all of them.
    pub open spec fn after_group(self, v: NetReassemblyView) -> FragView {
        if !plausible(v) {
            FragView { rejected: (self.rejected + 1) as u64, ..self }
        } else {
            let all = self.sums.insert(None, groups_at(self.sums, None).and(v));
            FragView {
                sums: match v.msg_type {
                    Some(t) => all.insert(Some(t@), groups_at(self.sums, Some(t@)).and(v)),
                    None => all,
                },
                ..self
            }
        }
    }

    /// After one record.
    pub open spec fn after(self, ev: EventRecord) -> FragView {
        match (channel_named(ev.channel@), ev.payload) {
            (Some(Channel::NetReassembly), Payload::NetReassembly(v)) => self.after_group(v),
            (Some(Channel::NetReassembly), _) => FragView {
                rejected: (self.rejected + 1) as u64,
                ..self
            },
            _ => self,
        }
    }

    /// True if no counter overflows on a group.
    pub open spec fn room_for_group(self, v: NetReassemblyView) -> bool {
        &&& self.rejected < u64::MAX
        &&& plausible(v) ==> {
            &&& groups_at(self.sums, None).room_for(v)
            &&& match v.msg_type {
                Some(t) => groups_at(self.sums, Some(t@)).room_for(v),
                None => true,
            }
        }
    }

    /// True if no counter overflows on `ev`.
    pub open spec fn room_for(self, ev: EventRecord) -> bool {
        match (channel_named(ev.channel@), ev.payload) {
            (Some(Channel::NetReassembly), Payload::NetReassembly(v)) => self.room_for_group(v),
            _ => self.rejected < u64::MAX,
        }
    }

    /// The samples of one message type.
    pub open spec fn samples_of_type(
        self,
        key: Option<Seq<char>>,
        s: GroupView,
        at: SimTime,
    ) -> Seq<SampleView> {
        let dims = type_dims(key);
        let n = s.groups.trials;
        seq![
            sample_of(
                catalog::frag_sdu_loss_def(),
                at,
                dims,
                SampleValue::Ratio(s.groups.ratio(self.min_samples, self.level)),
            ),
            sample_of(
                catalog::frag_sdu_loss_predicted_def(),
                at,
                dims,
                mean_e6(s.predicted_e6, n),
            ),
            sample_of(
                catalog::frag_fragment_loss_def(),
                at,
                dims,
                SampleValue::Ratio(s.fragments.ratio(self.min_samples, self.level)),
            ),
            sample_of(
                catalog::frag_content_loss_def(),
                at,
                dims,
                SampleValue::Ratio(whole_sums_ratio(s.bytes_lost, s.bytes, n, 1)),
            ),
            sample_of(
                catalog::frag_content_loss_predicted_def(),
                at,
                dims,
                mean_e6(s.predicted_content_e6, n),
            ),
            sample_of(
                catalog::frag_sdu_loss_independent_def(),
                at,
                dims,
                SampleValue::Scalar(
                    Estimate::Value {
                        point: real_of(
                            independent_losses(
                                s.fragments.successes,
                                s.fragments.trials,
                                s.counts,
                            ),
                            SURVIVAL_PARTS * n,
                        ),
                        n,
                    },
                ),
            ),
        ]
    }

    /// The samples of some message types.
    pub open spec fn type_samples(
        self,
        s: Seq<(Option<Seq<char>>, GroupView)>,
        at: SimTime,
    ) -> Seq<SampleView>
        decreases s.len(),
    {
        if s.len() == 0 {
            Seq::empty()
        } else {
            self.type_samples(s.drop_last(), at) + self.samples_of_type(
                s.last().0,
                s.last().1,
                at,
            )
        }
    }

    /// All samples of the window that ends at `at`: none where nothing was fragmented.
    pub open spec fn samples(self, at: SimTime) -> Seq<SampleView> {
        self.type_samples(in_order::<Option<String>, GroupView>(self.sums), at)
    }

    /// The state after a flush.
    pub open spec fn flushed(self) -> FragView {
        FragView { sums: Map::empty(), ..self }
    }
}

impl FragProvider {
    /// A provider that reports from the first group on.
    pub fn new() -> (r: FragProvider)
        ensures
            r@ == fresh(),
            r@.sound(),
    {
        FragProvider {
            level: ConfidenceLevel::P95,
            min_samples: 1,
            sums: SortedMap::new(),
            rejected: 0,
        }
    }

    fn count_group(&mut self, key: Option<String>, v: &NetReassemblyView)
        requires
            plausible(*v),
            old(self)@.sound(),
            groups_at(old(self)@.sums, optional_text(key)).room_for(*v),
        ensures
            final(self)@ == (FragView {
                sums: old(self)@.sums.insert(
                    optional_text(key),
                    groups_at(old(self)@.sums, optional_text(key)).and(*v),
                ),
                ..old(self)@
            }),
            final(self)@.sound(),
    {
        let ghost before = self@;
        let ghost k = optional_text(key);
        let mut s = match self.sums.remove(&key) {
            Some(s) => s,
            None => GroupSums::new(),
        };
        s.observe(v);
        let _ = self.sums.insert(key, s);
        assert(self@.sums =~= before.sums.insert(k, groups_at(before.sums, k).and(*v)));
    }

    fn on_group(&mut self, v: &NetReassemblyView)
        requires
            old(self)@.sound(),
            old(self)@.room_for_group(*v),
        ensures
            final(self)@ == old(self)@.after_group(*v),
            final(self)@.sound(),
    {
        if v.fragments == 0 || v.received > v.fragments || v.bytes_received > v.bytes {
            self.rejected = self.rejected + 1;
            return ;
        }
        let ghost before = self@;
        self.count_group(None, v);
        if let Some(t) = &v.msg_type {
            self.count_group(Some(t.clone()), v);
        }
        assert(self@ =~= before.after_group(*v));
    }

    /// Consumes one record.
    pub fn on_event(&mut self, ev: &EventRecord)
        requires
            old(self)@.sound(),
            old(self)@.room_for(*ev),
        ensures
            final(self)@ == old(self)@.after(*ev),
            final(self)@.sound(),
    {
        match (find_channel(ev.channel.as_str()), &ev.payload) {
            (Some(Channel::NetReassembly), Payload::NetReassembly(v)) => self.on_group(v),
            (Some(Channel::NetReassembly), _) => {
                self.rejected = self.rejected + 1;
            },
            _ => {},
        }
    }

    fn mean(sum: u64, n: u64) -> (r: SampleValue)
        requires
            n > 0,
        ensures
            r == mean_e6(sum, n),
    {
        SampleValue::Scalar(
            Estimate::Value { point: Real::new(sum as i128, 1_000_000 * (n as u128)), n },
        )
    }

    fn emit_type(
        &self,
        msg_type: &Option<String>,
        s: &GroupSums,
        at: SimTime,
        out: &mut Vec<MetricSample>,
    )
        requires
            s@.sound(),
        ensures
            views(final(out)@) == views(old(out)@) + self@.samples_of_type(
                optional_text(*msg_type),
                s@,
                at,
            ),
    {
        broadcast use group_views;

        let ghost start = views(out@);
        let dims = find_type_dims(msg_type);
        let n: u64 = s.groups.trials();
        out.push(
            MetricSample::new(
                &catalog::frag_sdu_loss(),
                at,
                copy_dims(&dims),
                SampleValue::Ratio(s.groups.estimate(self.min_samples, self.level)),
            ),
        );
        out.push(
            MetricSample::new(
                &catalog::frag_sdu_loss_predicted(),
                at,
                copy_dims(&dims),
                Self::mean(s.predicted_e6, n),
            ),
        );
        out.push(
            MetricSample::new(
                &catalog::frag_fragment_loss(),
                at,
                copy_dims(&dims),
                SampleValue::Ratio(s.fragments.estimate(self.min_samples, self.level)),
            ),
        );
        out.push(
            MetricSample::new(
                &catalog::frag_content_loss(),
                at,
                copy_dims(&dims),
                SampleValue::Ratio(ratio_of_whole_sums(s.bytes_lost, s.bytes, n, 1)),
            ),
        );
        out.push(
            MetricSample::new(
                &catalog::frag_content_loss_predicted(),
                at,
                copy_dims(&dims),
                Self::mean(s.predicted_content_e6, n),
            ),
        );
        out.push(
            MetricSample::new(
                &catalog::frag_sdu_loss_independent(),
                at,
                dims,
                SampleValue::Scalar(
                    Estimate::Value {
                        point: Real::new(s.independent(), (SURVIVAL_PARTS as u128) * (n as u128)),
                        n,
                    },
                ),
            ),
        );
        assert(views(out@) =~= start + self@.samples_of_type(optional_text(*msg_type), s@, at));
    }

    /// The samples of the window that ends at `at`; what was accumulated is drained.
    pub fn flush(&mut self, at: SimTime) -> (out: Vec<MetricSample>)
        requires
            old(self)@.sound(),
        ensures
            views(out@) == old(self)@.samples(at),
            final(self)@ == old(self)@.flushed(),
            final(self)@.sound(),
    {
        broadcast use group_views;

        let mut out: Vec<MetricSample> = Vec::new();
        let n: usize = self.sums.len();
        let ghost s = self.sums.listing();
        let ghost v = self@;
        let mut i: usize = 0;
        assert(s.subrange(0, 0) =~= Seq::<(Option<Seq<char>>, GroupView)>::empty());
        assert(views(out@) =~= v.type_samples(s.subrange(0, 0), at));
        assert forall|j: int| 0 <= j < n implies (#[trigger] s[j]).1.sound() by {
            assert(v.sums.contains_key(s[j].0));
        }
        while i < n
            invariant
                v == self@,
                s == self.sums.listing(),
                n == s.len(),
                i <= n,
                forall|j: int| 0 <= j < n ==> (#[trigger] s[j]).1.sound(),
                views(out@) == v.type_samples(s.subrange(0, i as int), at),
            decreases n - i,
        {
            proof {
                let next = s.subrange(0, i as int + 1);
                assert(next.drop_last() =~= s.subrange(0, i as int));
                assert(next.last() == s[i as int]);
            }
            let sums = self.sums.value_at(i);
            assert(sums@ == s[i as int].1);
            self.emit_type(self.sums.key_at(i), sums, at, &mut out);
            i = i + 1;
        }
        assert(s.subrange(0, n as int) =~= s);
        let _ = self.sums.drain();
        out
    }

    /// How many records could not be read or were implausible.
    pub fn rejected(&self) -> (r: u64)
        ensures
            r == self@.rejected,
    {
        self.rejected
    }

    /// The card of the provider.
    pub fn card(&self) -> (r: ModelCard)
        ensures
            r@ == catalog::frag_card(),
    {
        catalog::build_card()
    }

    /// The definitions of the provider's metrics.
    pub fn definitions(&self) -> (r: Vec<MetricDef>)
        ensures
            views(r@) == catalog::all_defs(),
    {
        catalog::definitions()
    }
}

/// A lost group has a lost fragment: never are more groups lost than fragments.
pub proof fn lost_groups_have_lost_fragments(s: GroupView, v: NetReassemblyView)
    requires
        s.groups.successes <= s.groups.trials,
        s.fragments.successes <= s.fragments.trials,
        s.groups.successes <= s.fragments.successes,
        plausible(v),
        s.room_for(v),
    ensures
        s.and(v).groups.successes <= s.and(v).fragments.successes,
{
}

/// A window in which nothing was fragmented has no samples.
pub proof fn nothing_fragmented_says_nothing(v: FragView, at: SimTime)
    ensures
        v.flushed().samples(at) == Seq::<SampleView>::empty(),
{
    let s = Seq::<(Option<Seq<char>>, GroupView)>::empty();
    assert(listed(s) =~= Map::<Option<Seq<char>>, GroupView>::empty()) by {
        assert(forall|r: Option<Seq<char>>| !listed(s).contains_key(r));
    }
    in_order_is::<Option<String>, GroupView>(s);
}

} // verus!
