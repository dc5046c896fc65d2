//! The communication metrics: their definitions and their card.

use vstd::prelude::*;
use crate::basic::Visibility;
use crate::card::{group_views, views, CardView, EquationView, ModelCard, SourceKind};
use crate::cards::{design, design_source, paper, param, plain_source, provider_card, provider_card_view, ranged_parameter, standard, statistics_parameters, statistics_params};
use crate::channels::ByteBucket;
use crate::def::{bare_def, Agg, AggView, BreakdownView, DefView, Dim, MetricDef};
use crate::quant::{real_of, Quantum, Real};
use crate::text::{join3, texts};

verus! {

pub const PDR_DEFINITION: &'static str = "Received frames divided by frames that were candidate receptions (the receiver was within the tier's candidate range), per 25 m distance bin.";

pub const PER_DEFINITION: &'static str = "Frames lost divided by candidate receptions. Exactly `1 − pdr`; reported separately because a loss-oriented reader should not have to subtract.";

pub const PDR_BY_CAUSE_DEFINITION: &'static str = "The share of losses attributable to each loss cause. Invariant I-R3 requires every loss to carry exactly one cause, so the shares sum to one by construction — and when they do not, that is an I-R3violation and not a rounding artefact.";

pub const CBR_DEFINITION: &'static str = "Channel busy ratio as measured by the MAC: for 802.11p, the fraction of a 100 ms window with CCA busy above −85 dBm; for C-V2X, the TS 38.215 §5.1.27 / TS 36.214 definition. Reported as a distribution over the window's per-node measurements; each is a node's own measurement over its own window, so the distribution is reported whatever the node count, with that count.";

pub const PIR_DEFINITION: &'static str = "Packet inter-reception time: the gap between successive receptions from the same transmitter at the same receiver.";

pub const PIR_SOURCE: &'static str = "Martelli, Elena Renda, Resta, Santi, 'A measurement-based study of beaconing performance in IEEE 802.11p vehicular networks', IEEE INFOCOM 2012 (packet inter-reception time)";

pub const PIR_OMITS_2: &'static str = "a pseudonym change, which a receiver sees as a new transmitter while this metric pairs on the true id";

pub const GOODPUT_DEFINITION: &'static str = "Application payload bytes delivered to receivers' applications (node.rx), divided by the window's length.";

pub const AIRTIME_PER_NODE_DEFINITION: &'static str = "Transmitted air time per node, divided by the window's length. With no dimension, the mean over the nodes that transmitted in the window.";

pub const BYTES_TOTAL_DEFINITION: &'static str = "Every byte on the wire in every accounting bucket, divided by the window's length: the sum of bytes_air, bytes_uu_ul, bytes_uu_dl, bytes_backhaul and bytes_backend, which invariant I-N1 makes disjoint.";

pub const CARD_PURPOSE: &'static str = "Packet delivery ratio by distance, packet error rate, channel busy ratio, inter-packet gap, goodput, byte accounting by bucket and airtime per node.";

pub const CBR_EQUATION: &'static str = "cbr = busy time / window length; recomputed from the producer's busy and window fields when both are present, so the producer's rounding does not become the metric's";

pub const CARD_SOURCE_2: &'static str = "3GPP TS 38.215 §5.1.27 (CBR for NR-V2X) and TS 36.214 (CBR for LTE-V2X), the definitions 08-measurement-and-data.md §2.1 cites for cbr";

pub const CARD_SOURCE_3: &'static str = "ETSI TS 102 687 (DCC): the −85 dBm CCA threshold and the 100 ms window the 802.11p CBR definition uses";

pub const CARD_LIMITATION_1: &'static str = "pdr is measured over candidate receptions, so it says nothing about coverage: a transmitter with no neighbours contributes no trials.";

/// The definition of `pdr`.
pub open spec fn pdr_def(min_samples: u64) -> DefView {
    DefView {
        dims: seq![Dim::T, Dim::DistBin],
        source: Some(design_source("08-measurement-and-data.md §2.1"@)),
        min_samples,
        min_value: Some(real_of(0, 1)),
        max_value: Some(real_of(1, 1)),
        not_accounted: seq!["receivers outside the tier's candidate range"@, "coverage: a transmitter with no candidate receivers contributes no trials"@],
        ..bare_def("pdr"@, "ratio"@, AggView::Ratio { numerator: "received frames"@, denominator: "candidate receptions"@ }, Visibility::NodeAndGt, 10_000, PDR_DEFINITION@)
    }
}

/// The definition of `pdr`.
pub(crate) fn pdr(min_samples: u64) -> (d: MetricDef)
    ensures
        d@ == pdr_def(min_samples),
{
    let dims: Vec<Dim> = vec![Dim::T, Dim::DistBin];
    assert(dims@ =~= seq![Dim::T, Dim::DistBin]);
    let d = MetricDef::new("pdr", "ratio", Agg::ratio("received frames", "candidate receptions"), Visibility::NodeAndGt, Quantum::ratio(), PDR_DEFINITION)
        .with_dims(dims)
        .with_source(design("08-measurement-and-data.md §2.1"))
        .with_min_samples(min_samples)
        .with_range(Some(Real::whole(0)), Some(Real::whole(1)))
        .not_accounting_for("receivers outside the tier's candidate range")
        .not_accounting_for("coverage: a transmitter with no candidate receivers contributes no trials");
    assert(d@ =~= pdr_def(min_samples));
    d
}

/// The definition of `per`.
pub open spec fn per_def(min_samples: u64) -> DefView {
    DefView {
        dims: seq![Dim::T],
        source: Some(design_source("08-measurement-and-data.md §2.1"@)),
        min_samples,
        min_value: Some(real_of(0, 1)),
        max_value: Some(real_of(1, 1)),
        not_accounted: seq!["the same denominator as pdr"@, "bit errors within a received frame (a frame is received or not)"@],
        ..bare_def("per"@, "ratio"@, AggView::Ratio { numerator: "frames lost"@, denominator: "candidate receptions"@ }, Visibility::Node, 10_000, PER_DEFINITION@)
    }
}

/// The definition of `per`.
pub(crate) fn per(min_samples: u64) -> (d: MetricDef)
    ensures
        d@ == per_def(min_samples),
{
    let dims: Vec<Dim> = vec![Dim::T];
    assert(dims@ =~= seq![Dim::T]);
    let d = MetricDef::new("per", "ratio", Agg::ratio("frames lost", "candidate receptions"), Visibility::Node, Quantum::ratio(), PER_DEFINITION)
        .with_dims(dims)
        .with_source(design("08-measurement-and-data.md §2.1"))
        .with_min_samples(min_samples)
        .with_range(Some(Real::whole(0)), Some(Real::whole(1)))
        .not_accounting_for("the same denominator as pdr")
        .not_accounting_for("bit errors within a received frame (a frame is received or not)");
    assert(d@ =~= per_def(min_samples));
    d
}

/// The definition of `pdr_by_cause`.
pub open spec fn pdr_by_cause_def(min_samples: u64) -> DefView {
    DefView {
        dims: seq![Dim::T, Dim::Cause],
        breakdown: seq![BreakdownView { dim: Dim::Cause, values: seq!["collision"@, "hidden-terminal"@, "resource-collision"@, "half-duplex"@, "below-sensitivity"@, "fading"@] }],
        only_broken_down: true,
        source: Some(design_source("08-measurement-and-data.md §2.1"@)),
        min_samples,
        min_value: Some(real_of(0, 1)),
        max_value: Some(real_of(1, 1)),
        not_accounted: seq!["a frame lost for two reasons at once"@, "losses the producer recorded without a cause"@],
        ..bare_def("pdr_by_cause"@, "ratio"@, AggView::Ratio { numerator: "losses with this cause"@, denominator: "all losses"@ }, Visibility::Node, 10_000, PDR_BY_CAUSE_DEFINITION@)
    }
}

/// The definition of `pdr_by_cause`.
pub(crate) fn pdr_by_cause(min_samples: u64) -> (d: MetricDef)
    ensures
        d@ == pdr_by_cause_def(min_samples),
{
    let dims: Vec<Dim> = vec![Dim::T, Dim::Cause];
    assert(dims@ =~= seq![Dim::T, Dim::Cause]);
    let values: Vec<String> = vec!["collision".to_owned(), "hidden-terminal".to_owned(), "resource-collision".to_owned(), "half-duplex".to_owned(), "below-sensitivity".to_owned(), "fading".to_owned()];
    assert(texts(values@) =~= seq!["collision"@, "hidden-terminal"@, "resource-collision"@, "half-duplex"@, "below-sensitivity"@, "fading"@]);
    let d = MetricDef::new("pdr_by_cause", "ratio", Agg::ratio("losses with this cause", "all losses"), Visibility::Node, Quantum::ratio(), PDR_BY_CAUSE_DEFINITION)
        .with_dims(dims)
        .with_breakdown(Dim::Cause, values)
        .breakdown_only()
        .with_source(design("08-measurement-and-data.md §2.1"))
        .with_min_samples(min_samples)
        .with_range(Some(Real::whole(0)), Some(Real::whole(1)))
        .not_accounting_for("a frame lost for two reasons at once")
        .not_accounting_for("losses the producer recorded without a cause");
    assert(d@ =~= pdr_by_cause_def(min_samples));
    d
}

/// The definition of `cbr`.
pub open spec fn cbr_def() -> DefView {
    DefView {
        dims: seq![Dim::T, Dim::Channel],
        breakdown: seq![BreakdownView { dim: Dim::Channel, values: seq!["172"@] }],
        source: Some(plain_source(SourceKind::Standard, "3GPP TS 38.215 §5.1.27; TS 36.214"@)),
        min_samples: 1,
        min_value: Some(real_of(0, 1)),
        max_value: Some(real_of(1, 1)),
        not_accounted: seq!["energy the receiver could not hear (a hidden terminal)"@, "which node measured it: this is the distribution across nodes"@],
        ..bare_def("cbr"@, "ratio"@, AggView::Distribution, Visibility::Node, 10_000, CBR_DEFINITION@)
    }
}

/// The definition of `cbr`.
pub(crate) fn cbr() -> (d: MetricDef)
    ensures
        d@ == cbr_def(),
{
    let dims: Vec<Dim> = vec![Dim::T, Dim::Channel];
    assert(dims@ =~= seq![Dim::T, Dim::Channel]);
    let values: Vec<String> = vec!["172".to_owned()];
    assert(texts(values@) =~= seq!["172"@]);
    let d = MetricDef::new("cbr", "ratio", Agg::Distribution, Visibility::Node, Quantum::ratio(), CBR_DEFINITION)
        .with_dims(dims)
        .with_breakdown(Dim::Channel, values)
        .with_source(standard("3GPP TS 38.215 §5.1.27; TS 36.214"))
        .with_min_samples(1)
        .with_range(Some(Real::whole(0)), Some(Real::whole(1)))
        .not_accounting_for("energy the receiver could not hear (a hidden terminal)")
        .not_accounting_for("which node measured it: this is the distribution across nodes");
    assert(d@ =~= cbr_def());
    d
}

/// The definition of `pir`.
pub open spec fn pir_def(min_samples: u64) -> DefView {
    DefView {
        dims: seq![Dim::T],
        source: Some(plain_source(SourceKind::Paper, PIR_SOURCE@)),
        min_samples,
        min_value: Some(real_of(0, 1)),
        max_value: None,
        not_accounted: seq!["the first reception from a transmitter, which has no predecessor"@, PIR_OMITS_2@],
        ..bare_def("pir"@, "s"@, AggView::Distribution, Visibility::NodeAndGt, 1_000, PIR_DEFINITION@)
    }
}

/// The definition of `pir`.
pub(crate) fn pir(min_samples: u64) -> (d: MetricDef)
    ensures
        d@ == pir_def(min_samples),
{
    let dims: Vec<Dim> = vec![Dim::T];
    assert(dims@ =~= seq![Dim::T]);
    let d = MetricDef::new("pir", "s", Agg::Distribution, Visibility::NodeAndGt, Quantum::time_s(), PIR_DEFINITION)
        .with_dims(dims)
        .with_source(paper(PIR_SOURCE))
        .with_min_samples(min_samples)
        .with_range(Some(Real::whole(0)), None)
        .not_accounting_for("the first reception from a transmitter, which has no predecessor")
        .not_accounting_for(PIR_OMITS_2);
    assert(d@ =~= pir_def(min_samples));
    d
}

/// The definition of `goodput`.
pub open spec fn goodput_def() -> DefView {
    DefView {
        dims: seq![Dim::T],
        source: Some(design_source("08-measurement-and-data.md §2.1"@)),
        min_samples: 1,
        min_value: Some(real_of(0, 1)),
        max_value: None,
        not_accounted: seq!["duplicate suppression: one broadcast to ten receivers counts ten times"@, "headers and the security envelope, which are in bytes_air"@],
        ..bare_def("goodput"@, "B/s"@, AggView::Rate, Visibility::Node, 1_000, GOODPUT_DEFINITION@)
    }
}

/// The definition of `goodput`.
pub(crate) fn goodput() -> (d: MetricDef)
    ensures
        d@ == goodput_def(),
{
    let dims: Vec<Dim> = vec![Dim::T];
    assert(dims@ =~= seq![Dim::T]);
    let d = MetricDef::new("goodput", "B/s", Agg::Rate, Visibility::Node, Quantum::bytes(), GOODPUT_DEFINITION)
        .with_dims(dims)
        .with_source(design("08-measurement-and-data.md §2.1"))
        .with_min_samples(1)
        .with_range(Some(Real::whole(0)), None)
        .not_accounting_for("duplicate suppression: one broadcast to ten receivers counts ten times")
        .not_accounting_for("headers and the security envelope, which are in bytes_air");
    assert(d@ =~= goodput_def());
    d
}

/// The definition of `airtime_per_node`.
pub open spec fn airtime_per_node_def() -> DefView {
    DefView {
        dims: seq![Dim::T, Dim::Node],
        source: Some(design_source("08-measurement-and-data.md §2.1"@)),
        min_samples: 1,
        min_value: Some(real_of(0, 1)),
        max_value: Some(real_of(1000, 1)),
        not_accounted: seq!["receive-side occupancy"@, "inter-frame spacing and backoff, which are not transmitted time"@],
        ..bare_def("airtime_per_node"@, "ms/s"@, AggView::Rate, Visibility::Node, 1_000, AIRTIME_PER_NODE_DEFINITION@)
    }
}

/// The definition of `airtime_per_node`.
pub(crate) fn airtime_per_node() -> (d: MetricDef)
    ensures
        d@ == airtime_per_node_def(),
{
    let dims: Vec<Dim> = vec![Dim::T, Dim::Node];
    assert(dims@ =~= seq![Dim::T, Dim::Node]);
    let d = MetricDef::new("airtime_per_node", "ms/s", Agg::Rate, Visibility::Node, Quantum::time_ms(), AIRTIME_PER_NODE_DEFINITION)
        .with_dims(dims)
        .with_source(design("08-measurement-and-data.md §2.1"))
        .with_min_samples(1)
        .with_range(Some(Real::whole(0)), Some(Real::whole(1000)))
        .not_accounting_for("receive-side occupancy")
        .not_accounting_for("inter-frame spacing and backoff, which are not transmitted time");
    assert(d@ =~= airtime_per_node_def());
    d
}

/// The definition of `bytes_total`.
pub open spec fn bytes_total_def() -> DefView {
    DefView {
        dims: seq![Dim::T],
        source: Some(design_source("03-interfaces.md §5 (I-N1)"@)),
        min_samples: 1,
        min_value: Some(real_of(0, 1)),
        max_value: None,
        not_accounted: seq!["bytes the producer did not attribute to a bucket"@, "physical-layer preamble and padding"@],
        ..bare_def("bytes_total"@, "B/s"@, AggView::Rate, Visibility::Node, 1_000, BYTES_TOTAL_DEFINITION@)
    }
}

/// The definition of `bytes_total`.
pub(crate) fn bytes_total() -> (d: MetricDef)
    ensures
        d@ == bytes_total_def(),
{
    let dims: Vec<Dim> = vec![Dim::T];
    assert(dims@ =~= seq![Dim::T]);
    let d = MetricDef::new("bytes_total", "B/s", Agg::Rate, Visibility::Node, Quantum::bytes(), BYTES_TOTAL_DEFINITION)
        .with_dims(dims)
        .with_source(design("03-interfaces.md §5 (I-N1)"))
        .with_min_samples(1)
        .with_range(Some(Real::whole(0)), None)
        .not_accounting_for("bytes the producer did not attribute to a bucket")
        .not_accounting_for("physical-layer preamble and padding");
    assert(d@ =~= bytes_total_def());
    d
}


/// The definition of a bucket's byte rate.
pub open spec fn bucket_rate_def(b: ByteBucket) -> DefView {
    DefView {
        dims: seq![Dim::T, Dim::Bucket],
        breakdown: seq![BreakdownView { dim: Dim::Bucket, values: seq![b.text()] }],
        source: Some(design_source("08-measurement-and-data.md §2.1 (bytes per bucket)"@)),
        min_samples: 1,
        min_value: Some(real_of(0, 1)),
        max_value: None,
        not_accounted: seq![
            "bytes the producer did not attribute to a bucket"@,
            "physical-layer preamble and padding, unless the producer counts them in bytes_on_wire"@,
        ],
        ..bare_def(
            b.metric_text(),
            "B/s"@,
            AggView::Rate,
            Visibility::Node,
            1_000,
            "Bytes on the wire attributed to the `"@ + b.text()
                + "` accounting bucket, divided by the window's length. Invariant I-N1 requires every byte to belong to exactly one bucket."@,
        )
    }
}

/// The definition of a bucket's byte rate.
pub(crate) fn bucket_rate(b: ByteBucket) -> (d: MetricDef)
    ensures
        d@ == bucket_rate_def(b),
{
    let dims: Vec<Dim> = vec![Dim::T, Dim::Bucket];
    assert(dims@ =~= seq![Dim::T, Dim::Bucket]);
    let values: Vec<String> = vec![b.as_str().to_owned()];
    assert(texts(values@) =~= seq![b.text()]);
    let text = join3(
        "Bytes on the wire attributed to the `",
        b.as_str(),
        "` accounting bucket, divided by the window's length. Invariant I-N1 requires every byte to belong to exactly one bucket.",
    );
    let d = MetricDef::new(
        b.metric_name(),
        "B/s",
        Agg::Rate,
        Visibility::Node,
        Quantum::bytes(),
        text.as_str(),
    ).with_dims(dims).with_breakdown(Dim::Bucket, values).with_source(
        design("08-measurement-and-data.md §2.1 (bytes per bucket)"),
    ).with_min_samples(1).with_range(Some(Real::whole(0)), None).not_accounting_for(
        "bytes the producer did not attribute to a bucket",
    ).not_accounting_for(
        "physical-layer preamble and padding, unless the producer counts them in bytes_on_wire",
    );
    assert(d@ =~= bucket_rate_def(b));
    d
}

/// The definitions of the provider, in order.
pub open spec fn all_defs(min_samples: u64) -> Seq<DefView> {
    seq![
        pdr_def(min_samples),
        per_def(min_samples),
        pdr_by_cause_def(min_samples),
        cbr_def(),
        pir_def(min_samples),
        goodput_def(),
        airtime_per_node_def(),
        bucket_rate_def(ByteBucket::Air),
        bucket_rate_def(ByteBucket::CellularUl),
        bucket_rate_def(ByteBucket::CellularDl),
        bucket_rate_def(ByteBucket::Backhaul),
        bucket_rate_def(ByteBucket::Backend),
        bytes_total_def(),
    ]
}

/// The definitions of the provider, in order.
pub(crate) fn definitions(min_samples: u64) -> (r: Vec<MetricDef>)
    ensures
        views(r@) == all_defs(min_samples),
{
    broadcast use group_views;

    let mut out: Vec<MetricDef> = Vec::new();
    out.push(pdr(min_samples));
    out.push(per(min_samples));
    out.push(pdr_by_cause(min_samples));
    out.push(cbr());
    out.push(pir(min_samples));
    out.push(goodput());
    out.push(airtime_per_node());
    out.push(bucket_rate(ByteBucket::Air));
    out.push(bucket_rate(ByteBucket::CellularUl));
    out.push(bucket_rate(ByteBucket::CellularDl));
    out.push(bucket_rate(ByteBucket::Backhaul));
    out.push(bucket_rate(ByteBucket::Backend));
    out.push(bytes_total());
    out
}

/// The card of the provider.
pub open spec fn comms_card() -> CardView {
    let base = provider_card_view("metric/comms/delivery-and-airtime"@, "1.0.0"@, CARD_PURPOSE@);
    CardView {
        equations: seq![EquationView { name: "pdr"@, latex_or_text: "pdr = received frames / candidate receptions, per 25 m distance bin"@ }, EquationView { name: "per"@, latex_or_text: "per = frames lost / candidate receptions = 1 − pdr"@ }, EquationView { name: "cbr"@, latex_or_text: CBR_EQUATION@ }, EquationView { name: "pir"@, latex_or_text: "pir = t(k) − t(k−1) for successive receptions from one transmitter at one receiver"@ }, EquationView { name: "goodput"@, latex_or_text: "goodput = Σ delivered payload bytes / window length, in B/s"@ }, EquationView { name: "airtime_per_node"@, latex_or_text: "airtime_per_node = Σ airtime of the node's transmissions / window length, in ms/s"@ }],
        parameters: statistics_parameters().push(ranged_parameter("dist_bin_width_m"@, "m"@, "25.0"@, "1.0"@, "1000.0"@, design_source("08-measurement-and-data.md §2 (dist_bin, 25 m), to 1 km"@), None)),
        sources: seq![design_source("08-measurement-and-data.md §2.1 (radio and network metric catalog)"@), plain_source(SourceKind::Standard, CARD_SOURCE_2@), plain_source(SourceKind::Standard, CARD_SOURCE_3@)],
        assumptions: base.assumptions,
        limitations: seq![CARD_LIMITATION_1@, "goodput is receiver-side: one broadcast delivered to ten receivers counts ten times."@],
        ignores: seq!["Per-receiver interference decomposition (that is the radio crate's own output)."@, "Fragmentation: reassembly failure and loss amplification are net-layer metrics."@],
        validation_tests: seq!["comms::tests::pdr_by_distance_reproduces_a_hand_computed_fixture"@, "comms::tests::cbr_is_recomputed_from_busy_over_window"@, "comms::tests::airtime_and_bytes_are_order_independent"@],
        ..base
    }
}

/// The card of the provider.
pub(crate) fn build_card() -> (r: ModelCard)
    ensures
        r@ == comms_card(),
{
    let mut card = provider_card("metric/comms/delivery-and-airtime", "1.0.0", CARD_PURPOSE);
    card.parameters = statistics_params();
    let card = card
        .with_equation("pdr", "pdr = received frames / candidate receptions, per 25 m distance bin")
        .with_equation("per", "per = frames lost / candidate receptions = 1 − pdr")
        .with_equation("cbr", CBR_EQUATION)
        .with_equation("pir", "pir = t(k) − t(k−1) for successive receptions from one transmitter at one receiver")
        .with_equation("goodput", "goodput = Σ delivered payload bytes / window length, in B/s")
        .with_equation("airtime_per_node", "airtime_per_node = Σ airtime of the node's transmissions / window length, in ms/s")
        .with_parameter(param("dist_bin_width_m", "m", "25.0", "1.0", "1000.0", design("08-measurement-and-data.md §2 (dist_bin, 25 m), to 1 km")))
        .with_source(design("08-measurement-and-data.md §2.1 (radio and network metric catalog)"))
        .with_source(standard(CARD_SOURCE_2))
        .with_source(standard(CARD_SOURCE_3))
        .limited_by(CARD_LIMITATION_1)
        .limited_by("goodput is receiver-side: one broadcast delivered to ten receivers counts ten times.")
        .ignoring("Per-receiver interference decomposition (that is the radio crate's own output).")
        .ignoring("Fragmentation: reassembly failure and loss amplification are net-layer metrics.")
        .tested_by("comms::tests::pdr_by_distance_reproduces_a_hand_computed_fixture")
        .tested_by("comms::tests::cbr_is_recomputed_from_busy_over_window")
        .tested_by("comms::tests::airtime_and_bytes_are_order_independent");
    assert(card@ =~= comms_card());
    card
}

} // verus!
