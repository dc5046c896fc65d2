//! Runtime diagnostics: how fast a run ran, and how much memory it took.
//!
//! No clock is read here. Whoever drives the run measures, and hands the measurements in.

use vstd::prelude::*;
use crate::basic::SimTime;
use crate::card::{group_views, views, ModelCard};
use crate::catalog::runtime as catalog;
use crate::channels::{Channel, EventRecord};
use crate::def::{no_dims, sample_of, MetricDef, MetricSample, SampleValue, SampleView};
use crate::keyed::{ascending_ranks, SortedSet};
use crate::quant::{real_of, Real};
use crate::stats::Estimate;
use crate::text::texts;

verus! {

/// The names of the channels that are counted where nothing else is asked for.
pub open spec fn known() -> Seq<Seq<char>> {
    seq![
        Channel::DetObservation.text(),
        Channel::GtAttackAction.text(),
        Channel::GtKinematics.text(),
        Channel::MaDecision.text(),
        Channel::MaReport.text(),
        Channel::MacCbr.text(),
        Channel::NetBytes.text(),
        Channel::NetFrag.text(),
        Channel::NodeTelemetry.text(),
        Channel::NodeTx.text(),
        Channel::NodeVerify.text(),
        Channel::PhyRx.text(),
        Channel::ProtoMsg.text(),
        Channel::ProtoRevocation.text(),
        Channel::SecCert.text(),
    ]
}

/// The names of the channels that are counted where nothing else is asked for.
pub fn known_channels() -> (r: Vec<String>)
    ensures
        texts(r@) == known(),
{
    broadcast use group_views;

    let mut out: Vec<String> = Vec::new();
    out.push(Channel::DetObservation.as_str().to_owned());
    out.push(Channel::GtAttackAction.as_str().to_owned());
    out.push(Channel::GtKinematics.as_str().to_owned());
    out.push(Channel::MaDecision.as_str().to_owned());
    out.push(Channel::MaReport.as_str().to_owned());
    out.push(Channel::MacCbr.as_str().to_owned());
    out.push(Channel::NetBytes.as_str().to_owned());
    out.push(Channel::NetFrag.as_str().to_owned());
    out.push(Channel::NodeTelemetry.as_str().to_owned());
    out.push(Channel::NodeTx.as_str().to_owned());
    out.push(Channel::NodeVerify.as_str().to_owned());
    out.push(Channel::PhyRx.as_str().to_owned());
    out.push(Channel::ProtoMsg.as_str().to_owned());
    out.push(Channel::ProtoRevocation.as_str().to_owned());
    out.push(Channel::SecCert.as_str().to_owned());
    assert(texts(out@) =~= known());
    out
}

/// The runtime metrics of a run.
pub struct RuntimeProvider {
    channels: SortedSet<String>,
    events: u64,
    wall_ns: u64,
    sim_ns: u64,
    peak_bytes: u64,
    measurements: u64,
}

/// What the runtime metrics have accumulated over the run.
#[verifier::ext_equal]
pub ghost struct RuntimeView {
    pub channels: Seq<Seq<char>>,
    pub events: u64,
    pub wall_ns: u64,
    pub sim_ns: u64,
    pub peak_bytes: u64,
    pub measurements: u64,
}

impl View for RuntimeProvider {
    type V = RuntimeView;

    closed spec fn view(&self) -> RuntimeView {
        RuntimeView {
            channels: self.channels.ordered(),
            events: self.events,
            wall_ns: self.wall_ns,
            sim_ns: self.sim_ns,
            peak_bytes: self.peak_bytes,
            measurements: self.measurements,
        }
    }
}

/// A provider of the given channels that has seen nothing yet.
pub open spec fn fresh(channels: Seq<Seq<char>>) -> RuntimeView {
    RuntimeView {
        channels,
        events: 0,
        wall_ns: 0,
        sim_ns: 0,
        peak_bytes: 0,
        measurements: 0,
    }
}

/// The sum of two times, or the longest time there is.
pub open spec fn lasting(a: u64, b: u64) -> u64 {
    if a + b > u64::MAX {
        u64::MAX
    } else {
        (a + b) as u64
    }
}

fn add_time(a: u64, b: u64) -> (r: u64)
    ensures
        r == lasting(a, b),
{
    if b > u64::MAX - a {
        u64::MAX
    } else {
        a + b
    }
}

impl RuntimeView {
    /// After an interval that was measured.
    pub open spec fn after_interval(self, wall_ns: u64, sim_ns: u64) -> RuntimeView {
        RuntimeView {
            wall_ns: lasting(self.wall_ns, wall_ns),
            sim_ns: lasting(self.sim_ns, sim_ns),
            measurements: (self.measurements + 1) as u64,
            ..self
        }
    }

    /// After a reading of the memory in use.
    pub open spec fn after_reading(self, bytes: u64) -> RuntimeView {
        RuntimeView {
            peak_bytes: if bytes > self.peak_bytes {
                bytes
            } else {
                self.peak_bytes
            },
            ..self
        }
    }

    /// After one record.
    pub open spec fn after(self) -> RuntimeView {
        RuntimeView { events: (self.events + 1) as u64, ..self }
    }

    /// The samples of the run until `at`.
    pub open spec fn samples(self, at: SimTime) -> Seq<SampleView> {
        seq![
            sample_of(
                catalog::events_processed_def(),
                at,
                Seq::empty(),
                SampleValue::Count { count: self.events },
            ),
            sample_of(
                catalog::events_per_second_def(),
                at,
                Seq::empty(),
                SampleValue::Scalar(
                    if self.wall_ns > 0 {
                        Estimate::Value {
                            point: real_of(self.events * 1_000_000_000, self.wall_ns as int),
                            n: self.events,
                        }
                    } else {
                        Estimate::Insufficient { n: self.measurements, required: 1 }
                    },
                ),
            ),
            sample_of(
                catalog::wall_clock_per_sim_second_def(),
                at,
                Seq::empty(),
                SampleValue::Scalar(
                    if self.sim_ns > 0 {
                        Estimate::Value {
                            point: real_of(self.wall_ns as int, self.sim_ns as int),
                            n: self.measurements,
                        }
                    } else {
                        Estimate::Insufficient { n: self.measurements, required: 1 }
                    },
                ),
            ),
            sample_of(
                catalog::memory_high_water_mark_def(),
                at,
                Seq::empty(),
                SampleValue::Count { count: self.peak_bytes },
            ),
        ]
    }
}

impl RuntimeProvider {
    /// A provider that counts every known channel.
    pub fn new() -> (r: RuntimeProvider)
        ensures
            r@ == fresh(r@.channels),
            ascending_ranks::<String>(r@.channels),
            r@.channels.to_set() == known().to_set(),
    {
        RuntimeProvider::counting(known_channels())
    }

    /// A provider that counts the given channels: each once, in the order of their names.
    pub fn counting(channels: Vec<String>) -> (r: RuntimeProvider)
        ensures
            r@ == fresh(r@.channels),
            ascending_ranks::<String>(r@.channels),
            r@.channels.to_set() == texts(channels@).to_set(),
    {
        let ghost names = texts(channels@);
        let mut set: SortedSet<String> = SortedSet::new();
        let n: usize = channels.len();
        let mut i: usize = 0;
        while i < n
            invariant
                names == texts(channels@),
                n == names.len(),
                n == channels@.len(),
                i <= n,
                forall|c: Seq<char>| #[trigger]
                    set@.contains(c) == exists|j: int| 0 <= j < i && #[trigger] names[j] == c,
            decreases n - i,
        {
            broadcast use group_views;

            let ghost before = set@;
            let name = channels[i].clone();
            assert(names[i as int] == name@);
            set.insert(name);
            proof {
                assert forall|c: Seq<char>| #[trigger] set@.contains(c) == exists|j: int|
                    0 <= j < i + 1 && #[trigger] names[j] == c by {
                    assert(before.contains(c) == exists|j: int|
                        0 <= j < i && #[trigger] names[j] == c);
                }
            }
            i = i + 1;
        }
        proof {
            assert forall|c: Seq<char>| #[trigger] set@.contains(c) == names.to_set().contains(c) by {
                if names.contains(c) {
                    let j = choose|j: int| 0 <= j < names.len() && names[j] == c;
                    assert(names[j] == c);
                }
            }
            assert(set@ =~= names.to_set());
        }
        let _ = set.len();
        assert(set.ordered().to_set() =~= set@);
        RuntimeProvider {
            channels: set,
            events: 0,
            wall_ns: 0,
            sim_ns: 0,
            peak_bytes: 0,
            measurements: 0,
        }
    }

    /// Records an interval of wall-clock time and of simulated time, in nanoseconds, that
    /// the caller measured.
    pub fn observe_elapsed(&mut self, wall_ns: u64, sim_ns: u64)
        requires
            old(self)@.measurements < u64::MAX,
        ensures
            final(self)@ == old(self)@.after_interval(wall_ns, sim_ns),
    {
        self.wall_ns = add_time(self.wall_ns, wall_ns);
        self.sim_ns = add_time(self.sim_ns, sim_ns);
        self.measurements = self.measurements + 1;
    }

    /// Records how much memory was in use, keeping the most.
    pub fn observe_memory(&mut self, bytes: u64)
        ensures
            final(self)@ == old(self)@.after_reading(bytes),
    {
        if bytes > self.peak_bytes {
            self.peak_bytes = bytes;
        }
    }

    /// The events counted so far.
    pub fn events(&self) -> (r: u64)
        ensures
            r == self@.events,
    {
        self.events
    }

    /// The most memory that was in use so far.
    pub fn peak_bytes(&self) -> (r: u64)
        ensures
            r == self@.peak_bytes,
    {
        self.peak_bytes
    }

    /// The channels that are counted, each once, in the order of their names.
    pub fn subscribe(&self) -> (r: Vec<String>)
        ensures
            texts(r@) == self@.channels,
    {
        let n: usize = self.channels.len();
        let ghost s = self.channels.ordered();
        let mut out: Vec<String> = Vec::new();
        let mut i: usize = 0;
        assert(texts(out@) =~= s.subrange(0, 0));
        while i < n
            invariant
                s == self.channels.ordered(),
                n == s.len(),
                i <= n,
                texts(out@) == s.subrange(0, i as int),
            decreases n - i,
        {
            broadcast use group_views;

            out.push(self.channels.at(i).clone());
            assert(texts(out@) =~= s.subrange(0, i as int + 1));
            i = i + 1;
        }
        assert(s.subrange(0, n as int) =~= s);
        out
    }

    /// Counts one record.
    pub fn on_event(&mut self, _ev: &EventRecord)
        requires
            old(self)@.events < u64::MAX,
        ensures
            final(self)@ == old(self)@.after(),
    {
        self.events = self.events + 1;
    }

    /// The samples of the run until `at`. Everything goes on accumulating.
    pub fn flush(&mut self, at: SimTime) -> (out: Vec<MetricSample>)
        ensures
            views(out@) == old(self)@.samples(at),
            final(self)@ == old(self)@,
    {
        broadcast use group_views;

        let mut out: Vec<MetricSample> = Vec::new();
        out.push(
            MetricSample::new(
                &catalog::events_processed(),
                at,
                no_dims(),
                SampleValue::count(self.events),
            ),
        );
        let pace = if self.wall_ns > 0 {
            Estimate::Value {
                point: Real::new((self.events as i128) * 1_000_000_000, self.wall_ns as u128),
                n: self.events,
            }
        } else {
            Estimate::Insufficient { n: self.measurements, required: 1 }
        };
        out.push(
            MetricSample::new(
                &catalog::events_per_second(),
                at,
                no_dims(),
                SampleValue::Scalar(pace),
            ),
        );
        let slowness = if self.sim_ns > 0 {
            Estimate::Value {
                point: Real::new(self.wall_ns as i128, self.sim_ns as u128),
                n: self.measurements,
            }
        } else {
            Estimate::Insufficient { n: self.measurements, required: 1 }
        };
        out.push(
            MetricSample::new(
                &catalog::wall_clock_per_sim_second(),
                at,
                no_dims(),
                SampleValue::Scalar(slowness),
            ),
        );
        out.push(
            MetricSample::new(
                &catalog::memory_high_water_mark(),
                at,
                no_dims(),
                SampleValue::count(self.peak_bytes),
            ),
        );
        assert(views(out@) =~= self@.samples(at));
        out
    }

    /// The card of the provider.
    pub fn card(&self) -> (r: ModelCard)
        ensures
            r@ == catalog::runtime_card(),
    {
        catalog::build_card()
    }

    /// The definitions of the provider's metrics.
    pub fn definitions(&self) -> (r: Vec<MetricDef>)
        ensures
            views(r@) == catalog::all_defs(),
    {
        catalog::definitions()
    }
}

/// Readings may come in any order: the most is kept.
pub proof fn readings_commute(v: RuntimeView, a: u64, b: u64)
    ensures
        v.after_reading(a).after_reading(b) == v.after_reading(b).after_reading(a),
        v.after_reading(a).peak_bytes >= a,
        v.after_reading(a).peak_bytes >= v.peak_bytes,
{
}

/// A measurement of the machine is a diagnostic, and the number of events is not.
pub proof fn only_machine_figures_are_diagnostic(v: RuntimeView, at: SimTime)
    ensures
        forall|i: int| 0 <= i < 4 ==> (#[trigger] v.samples(at)[i]).diagnostic == (i != 0),
{
}

} // verus!
