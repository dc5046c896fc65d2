//! The overhead metrics: their definitions and their card.

use vstd::prelude::*;
use crate::basic::Visibility;
use crate::card::{group_views, views, CardView, EquationView, ModelCard, SourceKind};
use crate::cards::{design, design_source, plain_source, provider_card, provider_card_view, standard, statistics_parameters, statistics_params};
use crate::def::{bare_def, Agg, AggView, BreakdownView, DefView, Dim, MetricDef};
use crate::quant::{real_of, Quantum, Real};
use crate::text::texts;

verus! {

pub const SECURITY_OVERHEAD_DEFINITION: &'static str = "The share of the octets on the air that are the security envelope — headers, signer identifier (certificate or digest) and signature — over the frames whose payload/envelope split is known.";

pub const NET_HEADER_OVERHEAD_DEFINITION: &'static str = "The share of the octets on the air that are the network and transport header: WSMP for the US stack, GeoNetworking plus BTP for the European one.";

pub const LINK_OVERHEAD_DEFINITION: &'static str = "The share of the octets on the air that are the link layer: LLC/SNAP, the 802.11 QoS Data MAC header and the frame check sequence.";

pub const CERT_BYTES_SHARE_DEFINITION: &'static str = "The share of the security envelope's octets that are attached certificates rather than eight-octet digests — the price of the certificate-attachment policy.";

pub const AIR_BYTES_PER_PAYLOAD_BYTE_DEFINITION: &'static str = "Octets on the air per octet of application payload: how many bytes the air carries for each byte the application wanted to send.";

pub const BYTES_PER_VEHICLE_HOUR_DEFINITION: &'static str = "Octets in one accounting bucket — air, cellular uplink, cellular downlink, backhaul, backend — per hour of equipped-vehicle time on the road in the window. Every byte is in exactly one bucket (invariant I-N1).";

pub const CARD_PURPOSE: &'static str = "Security, network-header and link-layer overhead as shares of the octets on the air, the certificate's share of the security envelope, octets on the air per payload octet, and octets per equipped-vehicle hour in every accounting bucket.";

pub const CARD_SOURCE_3: &'static str = "IEEE 1609.2-2022 §6.3.4 (SignerIdentifier: a certificate or its HashedId8 digest), the choice cert_bytes_share measures the cost of";

pub const CARD_LIMITATION_1: &'static str = "Frames the engine sized from a protocol wire table (misbehaviour reports, CRL broadcasts) have no payload/envelope split; they count in the octets on the air and in the network and link overheads, and not in the security overhead or the certificate share.";

pub const CARD_LIMITATION_2: &'static str = "Vehicle hours integrate gt.kinematics between successive records of one equipped vehicle; a vehicle's first record contributes no time, so a window with churn slightly understates the hours.";

/// The definition of `security_overhead`.
pub open spec fn security_overhead_def() -> DefView {
    DefView {
        dims: seq![Dim::T, Dim::MsgType],
        breakdown: seq![BreakdownView { dim: Dim::MsgType, values: seq!["bsm"@, "cam"@] }],
        source: Some(design_source("04-models.md §4.6, §7, §9.3"@)),
        min_samples: 1,
        min_value: Some(real_of(0, 1)),
        max_value: Some(real_of(1, 1)),
        not_accounted: seq!["frames whose envelope was sized from a table rather than built"@, "the PHY preamble and tail, which are air time"@],
        ..bare_def("security_overhead"@, "ratio"@, AggView::Ratio { numerator: "Σ envelope octets"@, denominator: "Σ octets on the air"@ }, Visibility::Node, 10_000, SECURITY_OVERHEAD_DEFINITION@)
    }
}

/// The definition of `security_overhead`.
pub(crate) fn security_overhead() -> (d: MetricDef)
    ensures
        d@ == security_overhead_def(),
{
    let dims: Vec<Dim> = vec![Dim::T, Dim::MsgType];
    assert(dims@ =~= seq![Dim::T, Dim::MsgType]);
    let values: Vec<String> = vec!["bsm".to_owned(), "cam".to_owned()];
    assert(texts(values@) =~= seq!["bsm"@, "cam"@]);
    let d = MetricDef::new("security_overhead", "ratio", Agg::ratio("Σ envelope octets", "Σ octets on the air"), Visibility::Node, Quantum::ratio(), SECURITY_OVERHEAD_DEFINITION)
        .with_dims(dims)
        .with_breakdown(Dim::MsgType, values)
        .with_source(design("04-models.md §4.6, §7, §9.3"))
        .with_min_samples(1)
        .with_range(Some(Real::whole(0)), Some(Real::whole(1)))
        .not_accounting_for("frames whose envelope was sized from a table rather than built")
        .not_accounting_for("the PHY preamble and tail, which are air time");
    assert(d@ =~= security_overhead_def());
    d
}

/// The definition of `net_header_overhead`.
pub open spec fn net_header_overhead_def() -> DefView {
    DefView {
        dims: seq![Dim::T, Dim::MsgType],
        breakdown: seq![BreakdownView { dim: Dim::MsgType, values: seq!["bsm"@, "cam"@] }],
        source: Some(design_source("04-models.md §4.6, §7, §9.3"@)),
        min_samples: 1,
        min_value: Some(real_of(0, 1)),
        max_value: Some(real_of(1, 1)),
        not_accounted: seq!["the LLC/SNAP octets, which are in link_overhead"@, "the PHY preamble and tail, which are air time"@],
        ..bare_def("net_header_overhead"@, "ratio"@, AggView::Ratio { numerator: "Σ network and transport header octets"@, denominator: "Σ octets on the air"@ }, Visibility::Node, 10_000, NET_HEADER_OVERHEAD_DEFINITION@)
    }
}

/// The definition of `net_header_overhead`.
pub(crate) fn net_header_overhead() -> (d: MetricDef)
    ensures
        d@ == net_header_overhead_def(),
{
    let dims: Vec<Dim> = vec![Dim::T, Dim::MsgType];
    assert(dims@ =~= seq![Dim::T, Dim::MsgType]);
    let values: Vec<String> = vec!["bsm".to_owned(), "cam".to_owned()];
    assert(texts(values@) =~= seq!["bsm"@, "cam"@]);
    let d = MetricDef::new("net_header_overhead", "ratio", Agg::ratio("Σ network and transport header octets", "Σ octets on the air"), Visibility::Node, Quantum::ratio(), NET_HEADER_OVERHEAD_DEFINITION)
        .with_dims(dims)
        .with_breakdown(Dim::MsgType, values)
        .with_source(design("04-models.md §4.6, §7, §9.3"))
        .with_min_samples(1)
        .with_range(Some(Real::whole(0)), Some(Real::whole(1)))
        .not_accounting_for("the LLC/SNAP octets, which are in link_overhead")
        .not_accounting_for("the PHY preamble and tail, which are air time");
    assert(d@ =~= net_header_overhead_def());
    d
}

/// The definition of `link_overhead`.
pub open spec fn link_overhead_def() -> DefView {
    DefView {
        dims: seq![Dim::T, Dim::MsgType],
        breakdown: seq![BreakdownView { dim: Dim::MsgType, values: seq!["bsm"@, "cam"@] }],
        source: Some(design_source("04-models.md §4.6, §7, §9.3"@)),
        min_samples: 1,
        min_value: Some(real_of(0, 1)),
        max_value: Some(real_of(1, 1)),
        not_accounted: seq!["the 802.11 PLCP header, which is air time and not octets"@, "the PHY preamble and tail, which are air time"@],
        ..bare_def("link_overhead"@, "ratio"@, AggView::Ratio { numerator: "Σ LLC/SNAP, MAC header and FCS octets"@, denominator: "Σ octets on the air"@ }, Visibility::Node, 10_000, LINK_OVERHEAD_DEFINITION@)
    }
}

/// The definition of `link_overhead`.
pub(crate) fn link_overhead() -> (d: MetricDef)
    ensures
        d@ == link_overhead_def(),
{
    let dims: Vec<Dim> = vec![Dim::T, Dim::MsgType];
    assert(dims@ =~= seq![Dim::T, Dim::MsgType]);
    let values: Vec<String> = vec!["bsm".to_owned(), "cam".to_owned()];
    assert(texts(values@) =~= seq!["bsm"@, "cam"@]);
    let d = MetricDef::new("link_overhead", "ratio", Agg::ratio("Σ LLC/SNAP, MAC header and FCS octets", "Σ octets on the air"), Visibility::Node, Quantum::ratio(), LINK_OVERHEAD_DEFINITION)
        .with_dims(dims)
        .with_breakdown(Dim::MsgType, values)
        .with_source(design("04-models.md §4.6, §7, §9.3"))
        .with_min_samples(1)
        .with_range(Some(Real::whole(0)), Some(Real::whole(1)))
        .not_accounting_for("the 802.11 PLCP header, which is air time and not octets")
        .not_accounting_for("the PHY preamble and tail, which are air time");
    assert(d@ =~= link_overhead_def());
    d
}

/// The definition of `cert_bytes_share`.
pub open spec fn cert_bytes_share_def() -> DefView {
    DefView {
        dims: seq![Dim::T, Dim::MsgType],
        breakdown: seq![BreakdownView { dim: Dim::MsgType, values: seq!["bsm"@, "cam"@] }],
        source: Some(design_source("04-models.md §4.6, §7, §9.3"@)),
        min_samples: 1,
        min_value: Some(real_of(0, 1)),
        max_value: Some(real_of(1, 1)),
        not_accounted: seq!["peer-to-peer certificate responses outside ordinary messages"@, "the PHY preamble and tail, which are air time"@],
        ..bare_def("cert_bytes_share"@, "ratio"@, AggView::Ratio { numerator: "Σ attached-certificate octets"@, denominator: "Σ envelope octets"@ }, Visibility::Node, 10_000, CERT_BYTES_SHARE_DEFINITION@)
    }
}

/// The definition of `cert_bytes_share`.
pub(crate) fn cert_bytes_share() -> (d: MetricDef)
    ensures
        d@ == cert_bytes_share_def(),
{
    let dims: Vec<Dim> = vec![Dim::T, Dim::MsgType];
    assert(dims@ =~= seq![Dim::T, Dim::MsgType]);
    let values: Vec<String> = vec!["bsm".to_owned(), "cam".to_owned()];
    assert(texts(values@) =~= seq!["bsm"@, "cam"@]);
    let d = MetricDef::new("cert_bytes_share", "ratio", Agg::ratio("Σ attached-certificate octets", "Σ envelope octets"), Visibility::Node, Quantum::ratio(), CERT_BYTES_SHARE_DEFINITION)
        .with_dims(dims)
        .with_breakdown(Dim::MsgType, values)
        .with_source(design("04-models.md §4.6, §7, §9.3"))
        .with_min_samples(1)
        .with_range(Some(Real::whole(0)), Some(Real::whole(1)))
        .not_accounting_for("peer-to-peer certificate responses outside ordinary messages")
        .not_accounting_for("the PHY preamble and tail, which are air time");
    assert(d@ =~= cert_bytes_share_def());
    d
}

/// The definition of `air_bytes_per_payload_byte`.
pub open spec fn air_bytes_per_payload_byte_def() -> DefView {
    DefView {
        dims: seq![Dim::T, Dim::MsgType],
        source: Some(design_source("04-models.md §4.6, §7, §9.3"@)),
        min_samples: 1,
        min_value: Some(real_of(1, 1)),
        max_value: None,
        not_accounted: seq!["frames with no payload/envelope split"@, "the PHY preamble and tail, which are air time"@],
        ..bare_def("air_bytes_per_payload_byte"@, "B/B"@, AggView::Ratio { numerator: "Σ octets on the air"@, denominator: "Σ application payload octets"@ }, Visibility::Node, 10_000, AIR_BYTES_PER_PAYLOAD_BYTE_DEFINITION@)
    }
}

/// The definition of `air_bytes_per_payload_byte`.
pub(crate) fn air_bytes_per_payload_byte() -> (d: MetricDef)
    ensures
        d@ == air_bytes_per_payload_byte_def(),
{
    let dims: Vec<Dim> = vec![Dim::T, Dim::MsgType];
    assert(dims@ =~= seq![Dim::T, Dim::MsgType]);
    let d = MetricDef::new("air_bytes_per_payload_byte", "B/B", Agg::ratio("Σ octets on the air", "Σ application payload octets"), Visibility::Node, Quantum::ratio(), AIR_BYTES_PER_PAYLOAD_BYTE_DEFINITION)
        .with_dims(dims)
        .with_source(design("04-models.md §4.6, §7, §9.3"))
        .with_min_samples(1)
        .with_range(Some(Real::whole(1)), None)
        .not_accounting_for("frames with no payload/envelope split")
        .not_accounting_for("the PHY preamble and tail, which are air time");
    assert(d@ =~= air_bytes_per_payload_byte_def());
    d
}

/// The definition of `bytes_per_vehicle_hour`.
pub open spec fn bytes_per_vehicle_hour_def() -> DefView {
    DefView {
        dims: seq![Dim::T, Dim::Bucket],
        breakdown: seq![BreakdownView { dim: Dim::Bucket, values: seq!["air"@, "cellular-ul"@, "cellular-dl"@, "backhaul"@, "backend"@] }],
        source: Some(design_source("03-interfaces.md §5 (I-N1)"@)),
        min_samples: 1,
        min_value: Some(real_of(0, 1)),
        max_value: None,
        not_accounted: seq!["roadside units' own time, which is not vehicle time"@, "a vehicle's first record, which contributes no time"@],
        ..bare_def("bytes_per_vehicle_hour"@, "B/(veh·h)"@, AggView::Ratio { numerator: "octets in the bucket"@, denominator: "equipped-vehicle hours"@ }, Visibility::NodeAndGt, 1_000, BYTES_PER_VEHICLE_HOUR_DEFINITION@)
    }
}

/// The definition of `bytes_per_vehicle_hour`.
pub(crate) fn bytes_per_vehicle_hour() -> (d: MetricDef)
    ensures
        d@ == bytes_per_vehicle_hour_def(),
{
    let dims: Vec<Dim> = vec![Dim::T, Dim::Bucket];
    assert(dims@ =~= seq![Dim::T, Dim::Bucket]);
    let values: Vec<String> = vec!["air".to_owned(), "cellular-ul".to_owned(), "cellular-dl".to_owned(), "backhaul".to_owned(), "backend".to_owned()];
    assert(texts(values@) =~= seq!["air"@, "cellular-ul"@, "cellular-dl"@, "backhaul"@, "backend"@]);
    let d = MetricDef::new("bytes_per_vehicle_hour", "B/(veh·h)", Agg::ratio("octets in the bucket", "equipped-vehicle hours"), Visibility::NodeAndGt, Quantum::bytes(), BYTES_PER_VEHICLE_HOUR_DEFINITION)
        .with_dims(dims)
        .with_breakdown(Dim::Bucket, values)
        .with_source(design("03-interfaces.md §5 (I-N1)"))
        .with_min_samples(1)
        .with_range(Some(Real::whole(0)), None)
        .not_accounting_for("roadside units' own time, which is not vehicle time")
        .not_accounting_for("a vehicle's first record, which contributes no time");
    assert(d@ =~= bytes_per_vehicle_hour_def());
    d
}


/// The definitions of the provider, in order.
pub open spec fn all_defs() -> Seq<DefView> {
    seq![
        security_overhead_def(),
        net_header_overhead_def(),
        link_overhead_def(),
        cert_bytes_share_def(),
        air_bytes_per_payload_byte_def(),
        bytes_per_vehicle_hour_def(),
    ]
}

/// The definitions of the provider, in order.
pub(crate) fn definitions() -> (r: Vec<MetricDef>)
    ensures
        views(r@) == all_defs(),
{
    broadcast use group_views;

    let mut out: Vec<MetricDef> = Vec::new();
    out.push(security_overhead());
    out.push(net_header_overhead());
    out.push(link_overhead());
    out.push(cert_bytes_share());
    out.push(air_bytes_per_payload_byte());
    out.push(bytes_per_vehicle_hour());
    out
}

/// The card of the provider.
pub open spec fn overhead_card() -> CardView {
    let base = provider_card_view("metric/overhead/communication"@, "1.0.0"@, CARD_PURPOSE@);
    CardView {
        equations: seq![EquationView { name: "security_overhead"@, latex_or_text: "Σ envelope / Σ bytes_on_wire over frames whose split is known"@ }, EquationView { name: "bytes_per_vehicle_hour"@, latex_or_text: "bytes(bucket) / (Σ equipped-vehicle time in the window / 3600 s)"@ }],
        parameters: statistics_parameters(),
        sources: seq![design_source("04-models.md §4.6, §7 and §9.3 (the frame's layers and their sizes)"@), design_source("03-interfaces.md §5, invariant I-N1 (every byte in exactly one bucket)"@), plain_source(SourceKind::Standard, CARD_SOURCE_3@)],
        assumptions: base.assumptions,
        limitations: seq![CARD_LIMITATION_1@, CARD_LIMITATION_2@],
        ignores: seq!["The PHY preamble and tail, which are air time, not octets."@],
        validation_tests: seq!["overhead::tests::the_shares_of_a_frame_add_up_to_one"@, "overhead::tests::bytes_per_vehicle_hour_divides_by_equipped_time"@],
        ..base
    }
}

/// The card of the provider.
pub(crate) fn build_card() -> (r: ModelCard)
    ensures
        r@ == overhead_card(),
{
    let mut card = provider_card("metric/overhead/communication", "1.0.0", CARD_PURPOSE);
    card.parameters = statistics_params();
    let card = card
        .with_equation("security_overhead", "Σ envelope / Σ bytes_on_wire over frames whose split is known")
        .with_equation("bytes_per_vehicle_hour", "bytes(bucket) / (Σ equipped-vehicle time in the window / 3600 s)")
        .with_source(design("04-models.md §4.6, §7 and §9.3 (the frame's layers and their sizes)"))
        .with_source(design("03-interfaces.md §5, invariant I-N1 (every byte in exactly one bucket)"))
        .with_source(standard(CARD_SOURCE_3))
        .limited_by(CARD_LIMITATION_1)
        .limited_by(CARD_LIMITATION_2)
        .ignoring("The PHY preamble and tail, which are air time, not octets.")
        .tested_by("overhead::tests::the_shares_of_a_frame_add_up_to_one")
        .tested_by("overhead::tests::bytes_per_vehicle_hour_divides_by_equipped_time");
    assert(card@ =~= overhead_card());
    card
}

} // verus!
