#![allow(dead_code)]

use v2xw_metrics::awareness::AwarenessProvider;
use v2xw_metrics::basic::Visibility;
use v2xw_metrics::card::SourceKind;
use v2xw_metrics::channels::{
    ByteBucket, DetObservationView, EventRecord, GtAttackActionView, GtKinematicsView, MaDecisionView,
    MaReportView, MacCbrView, NetBytesView, NetReassemblyView, NodeRxView, NodeTxView, NodeVerifyView,
    Payload, PhyRxView, ProtoMsgView, ProtoRevocationView, RxFate, RxOutcome, VerifyOutcome, yes,
};
use v2xw_metrics::comms::CommsProvider;
use v2xw_metrics::def::{Dim, DimValue, MetricSample, SampleValue};
use v2xw_metrics::detection::{Cell, ConfusionMatrix, DetectionLevel};
use v2xw_metrics::detection_metrics::DetectionProvider;
use v2xw_metrics::distribution::Percentile;
use v2xw_metrics::frag::FragProvider;
use v2xw_metrics::invariants::{check_m_byte2, check_m_share};
use v2xw_metrics::latency::{LatencyTrace, Span, TraceBuilder};
use v2xw_metrics::latency_metrics::LatencyProvider;
use v2xw_metrics::load::LoadProvider;
use v2xw_metrics::overhead::OverheadProvider;
use v2xw_metrics::provider::MetricProvider;
use v2xw_metrics::quant::{Quantum, Real};
use v2xw_metrics::runtime::{RuntimeProvider, known_channels};
use v2xw_metrics::safety::SafetyProvider;
use v2xw_metrics::stats::{ConfidenceLevel, RatioEstimate};

fn f(r: Real) -> f64 {
    r.num() as f64 / r.den() as f64
}

fn q(num: i128, den: u128) -> Real {
    Real::new(num, den)
}

fn record(visibility: Visibility, json: &str, payload: Payload) -> EventRecord {
    let channel = match &payload {
        Payload::NodeTx(_) => "node.tx",
        Payload::PhyRx(_) => "phy.rx",
        Payload::NodeRx(_) => "node.rx",
        Payload::MsgLatency(_) => "msg.latency",
        Payload::PhyPrr(_) => "phy.prr",
        Payload::MacCbr(_) => "mac.cbr",
        Payload::NetFrag(_) => "net.frag",
        Payload::NetReassembly(_) => "net.reassembly",
        Payload::NetBytes(_) => "net.bytes",
        Payload::ProtoMsg(_) => "proto.msg",
        Payload::NodeVerify(_) => "node.verify",
        Payload::NodeTelemetry(_) => "node.telemetry",
        Payload::SecCert(_) => "sec.cert",
        Payload::ProtoRevocation(_) => "proto.revocation",
        Payload::DetObservation(_) => "det.observation",
        Payload::MaReport(_) => "ma.report",
        Payload::MaDecision(_) => "ma.decision",
        Payload::GtKinematics(_) => "gt.kinematics",
        Payload::GtAttackAction(_) => "gt.attack.action",
        Payload::Unread(_) => "unread",
    };
    EventRecord { channel: channel.to_string(), visibility, json: json.as_bytes().to_vec(), payload }
}

/// A record of `channel` that could not be read.
fn unread(channel: &str) -> EventRecord {
    EventRecord {
        channel: channel.to_string(),
        visibility: Visibility::Node,
        json: b"{}".to_vec(),
        payload: Payload::Unread("missing field `t`".to_string()),
    }
}

fn node(payload: Payload) -> EventRecord {
    record(Visibility::Node, "{}", payload)
}

fn both(payload: Payload) -> EventRecord {
    record(Visibility::NodeAndGt, "{}", payload)
}

fn truth(json: &str, payload: Payload) -> EventRecord {
    record(Visibility::Gt, json, payload)
}

fn tx(t: u64, node: u32, bytes_on_wire: u64) -> NodeTxView {
    NodeTxView {
        t,
        node,
        msg: None,
        msg_type: None,
        bytes_on_wire,
        payload_bytes: None,
        envelope_bytes: None,
        spdu_bytes: None,
        net_header_bytes: None,
        link_bytes: None,
        cert_bytes: None,
        airtime_us: None,
        mcs: None,
        power_cdbm: None,
        channel: None,
        ac: None,
        dcc_state: None,
        signer: None,
        t_generated: None,
        t_signed: None,
    }
}

fn received(t_end: u64, rx: u32) -> PhyRxView {
    PhyRxView {
        t_start: 0,
        t_end,
        tx: None,
        rx,
        msg: None,
        rssi_dbm: None,
        sinr_cdb: None,
        outcome: RxOutcome::Received,
        cause: None,
        causes: vec![],
        dist_mm: None,
        candidate: yes(),
        payload_bytes: None,
    }
}

fn lost(t_end: u64, rx: u32, cause: Option<&str>) -> PhyRxView {
    PhyRxView {
        outcome: RxOutcome::Lost,
        cause: cause.map(str::to_string),
        ..received(t_end, rx)
    }
}

fn fate(t: u64, rx: u32, outcome: RxFate) -> NodeRxView {
    NodeRxView {
        t,
        rx,
        tx: None,
        msg: None,
        msg_type: None,
        outcome,
        cause: None,
        verification: None,
        rssi_dbm: None,
        sinr_cdb: None,
        dist_mm: None,
        bytes_on_wire: None,
        airtime_us: None,
        payload_bytes: None,
        t_generated: None,
        t_sign_start: None,
        t_signed: None,
        mac_aifs_ns: None,
        mac_backoff_ns: None,
        t_tx_start: None,
        t_tx_end: None,
        t_arrival: None,
        t_rx_done: None,
        t_verify_start: None,
        t_verify_done: None,
        t_delivered: None,
    }
}

fn cbr(t: u64, node: u32, cbr_e4: i64) -> MacCbrView {
    MacCbrView {
        t,
        node,
        channel: None,
        cbr_e4,
        busy_us: None,
        window_us: None,
        queue_depth: None,
        mac_drops: None,
        offered_bytes: None,
        offered_airtime_us: None,
    }
}

fn bytes_in(t: u64, id: Option<u64>, bucket: ByteBucket, bytes_on_wire: u64) -> NetBytesView {
    NetBytesView { t, id, bucket, bytes_on_wire, node: None }
}

fn proto(t: u64, msg: Option<u64>, bytes_on_wire: u64, transport: Option<ByteBucket>) -> ProtoMsgView {
    ProtoMsgView { t, from: None, to: None, flow: None, step: None, bytes_on_wire, transport, msg }
}

fn motion(t: u64, actor: u32, x_mm: i64, speed_mmps: i32) -> GtKinematicsView {
    GtKinematicsView {
        t,
        actor,
        x_mm,
        y_mm: 0,
        z_mm: None,
        speed_mmps,
        acc_mmps2: None,
        heading_mrad: None,
        lane: None,
        lane_pos_mm: None,
        class: None,
        node: None,
    }
}

fn attack(t: u64, actor: u32, msg: Option<u64>) -> GtAttackActionView {
    GtAttackActionView {
        t,
        actor,
        attacker: "ghost".to_string(),
        action: "false-position".to_string(),
        fields: vec![],
        changed_bytes_on_air: true,
        msg,
    }
}

fn report(t: u64, subject: &str) -> MaReportView {
    MaReportView {
        t,
        reporter: None,
        subject: subject.to_string(),
        detector: Some("d1".to_string()),
    }
}

fn decision(t: u64, subject: &str, decision: &str) -> MaDecisionView {
    MaDecisionView { t, subject: subject.to_string(), decision: decision.to_string() }
}

fn revocation(stage: &str, t: u64, id: &str) -> ProtoRevocationView {
    ProtoRevocationView {
        t,
        stage: stage.to_string(),
        id: id.to_string(),
        size_bytes: None,
        entries: None,
        node: None,
    }
}

fn verification(outcome: VerifyOutcome) -> NodeVerifyView {
    NodeVerifyView {
        t_enqueue: 0,
        t_start: None,
        t_done: None,
        node: 1,
        primitive: None,
        cost_us: None,
        outcome,
        policy: None,
        msg: None,
        queue_depth: None,
    }
}

const NS_PER_S: u64 = 1_000_000_000;
const NS_PER_MS: u64 = 1_000_000;

fn keys(samples: &[MetricSample]) -> Vec<String> {
    samples.iter().map(MetricSample::key).collect()
}

fn sample<'a>(samples: &'a [MetricSample], key: &str) -> &'a MetricSample {
    samples
        .iter()
        .find(|s| s.key() == key)
        .unwrap_or_else(|| panic!("no sample with key {key}; have {:?}", keys(samples)))
}

fn point(samples: &[MetricSample], key: &str) -> Option<f64> {
    sample(samples, key).value.point().map(f)
}

/// What a run's samples say, with nothing of how they are stored.
fn said(samples: Vec<MetricSample>) -> Vec<(String, Vec<Real>)> {
    samples.iter().map(|s| (s.key(), s.floats())).collect()
}

fn rx_at(from: u32, to: u32, dist_mm: i64, ok: bool, t: u64) -> EventRecord {
    let v = if ok { received(t + 1_000, to) } else { lost(t + 1_000, to, Some("collision")) };
    node(Payload::PhyRx(PhyRxView {
        t_start: t,
        tx: Some(from),
        dist_mm: Some(dist_mm),
        payload_bytes: if ok { Some(100) } else { None },
        ..v
    }))
}

#[test]
fn every_definition_validates() {
    CommsProvider::new(0).validate_defs().unwrap();
    LatencyProvider::new().validate_defs().unwrap();
    AwarenessProvider::new(0).validate_defs().unwrap();
    LoadProvider::new(0).validate_defs().unwrap();
    OverheadProvider::new(0).validate_defs().unwrap();
    FragProvider::new().validate_defs().unwrap();
}

#[test]
fn the_card_validates_and_declares_every_parameter_it_reads() {
    let p = CommsProvider::new(0);
    let card = p.card();
    let names: Vec<&str> = card.parameters.iter().map(|x| x.name.as_str()).collect();
    for expected in ["min_samples", "confidence_level", "dist_bin_width_m"] {
        assert!(names.contains(&expected), "{expected} not declared");
    }
}

#[test]
fn pdr_by_distance_reproduces_a_hand_computed_fixture() {
    let mut p = CommsProvider::new(0).with_min_samples(1);
    for (i, ok) in [true, true, true, false].into_iter().enumerate() {
        p.on_event(&rx_at(1, 2, 10_000, ok, 1_000_000 * (i as u64 + 1)));
    }
    for (i, ok) in [true, false, false, false].into_iter().enumerate() {
        p.on_event(&rx_at(3, 4, 30_000, ok, 1_000_000 * (i as u64 + 1)));
    }
    let s = p.flush(1_000_000_000);
    assert_eq!(point(&s, "pdr|dist_bin=0-25"), Some(0.75));
    assert_eq!(point(&s, "pdr|dist_bin=25-50"), Some(0.25));
    assert_eq!(point(&s, "pdr"), Some(0.5));
    assert_eq!(sample(&s, "pdr").value.n(), 8);
    assert_eq!(point(&s, "per"), Some(0.5));
    assert_eq!(point(&s, "pdr_by_cause|cause=collision"), Some(1.0));
}

#[test]
fn a_thin_bin_reports_insufficient_rather_than_a_point_estimate() {
    let mut p = CommsProvider::new(0);
    p.on_event(&rx_at(1, 2, 10_000, true, 1_000));
    let s = p.flush(1_000_000_000);
    let bin = sample(&s, "pdr|dist_bin=0-25");
    assert!(bin.value.is_insufficient(), "{:?}", bin.value);
    assert_eq!(bin.value.n(), 1);
    assert_eq!(bin.value.point(), None);
}

#[test]
fn an_empty_window_yields_insufficient_and_never_nan() {
    let mut p = CommsProvider::new(0);
    let s = p.flush(1_000_000_000);
    for key in ["pdr", "per", "pir"] {
        let v = &sample(&s, key).value;
        assert!(v.is_insufficient(), "{key}: {v:?}");
        assert_eq!(v.point(), None, "{key}");
    }
    for x in s.iter().flat_map(MetricSample::floats) {
        assert!(f(x).is_finite(), "{x:?} is not finite");
    }
}

#[test]
fn receptions_without_a_ground_truth_distance_are_labelled_not_dropped() {
    let mut p = CommsProvider::new(0).with_min_samples(1);
    p.on_event(&node(Payload::PhyRx(PhyRxView { tx: Some(1), ..received(10, 2) })));
    let s = p.flush(1_000_000_000);
    assert_eq!(point(&s, "pdr|dist_bin=unbinned"), Some(1.0));
    assert_eq!(sample(&s, "pdr").value.n(), 1);
}

#[test]
fn cbr_is_recomputed_from_busy_over_window() {
    let mut p = CommsProvider::new(0).with_min_samples(1);
    for (n, busy) in [(1, 25_000), (2, 75_000)] {
        p.on_event(&node(Payload::MacCbr(MacCbrView {
            channel: Some(180),
            busy_us: Some(busy),
            window_us: Some(100_000),
            ..cbr(0, n, 9_000)
        })));
    }
    let s = p.flush(1_000_000_000);
    assert_eq!(point(&s, "cbr|channel=180"), Some(0.5));
    assert_eq!(sample(&s, "cbr|channel=180").value.n(), 2);
    let mut p = CommsProvider::new(0).with_min_samples(1);
    p.on_event(&node(Payload::MacCbr(cbr(0, 1, 3_750))));
    let s = p.flush(1_000_000_000);
    assert_eq!(point(&s, "cbr"), Some(0.375));
}

#[test]
fn pir_pairs_successive_receptions_per_link() {
    let mut p = CommsProvider::new(0).with_min_samples(1);
    for (from, t_end) in [(1, 1_000_000), (1, 101_000_000), (9, 1_000_000)] {
        p.on_event(&node(Payload::PhyRx(PhyRxView { tx: Some(from), ..received(t_end, 2) })));
    }
    let s = p.flush(1_000_000_000);
    assert_eq!(sample(&s, "pir").value.n(), 1, "one gap from two receptions on one link");
    assert_eq!(point(&s, "pir"), Some(0.1));
}

#[test]
fn goodput_and_bytes_are_rates_over_the_window() {
    let mut p = CommsProvider::new(0);
    for msg in [1, 2] {
        p.on_event(&node(Payload::NodeTx(NodeTxView {
            msg: Some(msg),
            airtime_us: Some(600),
            ..tx(0, 1, 400)
        })));
    }
    for receiver in [2, 3] {
        p.on_event(&node(Payload::NodeRx(NodeRxView {
            tx: Some(1),
            payload_bytes: Some(100),
            ..fate(1_000, receiver, RxFate::Delivered)
        })));
    }
    p.on_event(&node(Payload::NodeRx(NodeRxView {
        tx: Some(1),
        cause: Some("fading".to_string()),
        payload_bytes: Some(100),
        ..fate(1_000, 4, RxFate::Lost)
    })));
    p.on_event(&node(Payload::NetBytes(bytes_in(0, Some(5), ByteBucket::Backhaul, 1_000))));
    let s = p.flush(2_000_000_000);
    assert_eq!(point(&s, "bytes_air|bucket=air"), Some(400.0));
    assert_eq!(point(&s, "bytes_backhaul|bucket=backhaul"), Some(500.0));
    assert_eq!(point(&s, "bytes_uu_ul|bucket=cellular-ul"), Some(0.0));
    assert_eq!(point(&s, "goodput"), Some(100.0));
    assert_eq!(point(&s, "bytes_total"), Some(900.0));
    assert_eq!(point(&s, "airtime_per_node|node=1"), Some(0.6));
}

#[test]
fn a_zero_length_window_reports_insufficient_rather_than_dividing() {
    let mut p = CommsProvider::new(1_000);
    p.on_event(&node(Payload::NodeTx(NodeTxView { airtime_us: Some(600), ..tx(1_000, 1, 400) })));
    let s = p.flush(1_000);
    assert!(sample(&s, "bytes_air|bucket=air").value.is_insufficient());
    assert!(sample(&s, "airtime_per_node|node=1").value.is_insufficient());
    assert!(sample(&s, "goodput").value.is_insufficient());
}

#[test]
fn airtime_and_bytes_are_order_independent() {
    let events: Vec<EventRecord> = (0..8u64)
        .map(|i| {
            node(Payload::NodeTx(NodeTxView {
                airtime_us: Some(500 + i * 7),
                ..tx(i * 1_000, (i % 3) as u32, 100 + i)
            }))
        })
        .collect();
    let run = |order: Vec<usize>| {
        let mut p = CommsProvider::new(0);
        for i in order {
            p.on_event(&events[i]);
        }
        said(p.flush(1_000_000_000))
    };
    let forward = run((0..8).collect());
    assert_eq!(forward, run((0..8).rev().collect()));
    assert_eq!(forward, run(vec![3, 7, 0, 5, 1, 6, 2, 4]));
}

#[test]
fn an_undecodable_record_is_counted_not_swallowed() {
    let mut p = CommsProvider::new(0);
    p.on_event(&unread("phy.rx"));
    assert_eq!(p.rejected(), 1);
    p.on_event(&unread("a.channel.of.another"));
    assert_eq!(p.rejected(), 1, "a channel it does not read is none of its business");
}

#[test]
fn a_non_candidate_reception_is_not_a_trial() {
    let mut p = CommsProvider::new(0).with_min_samples(1);
    p.on_event(&node(Payload::PhyRx(PhyRxView {
        candidate: false,
        ..lost(1, 2, Some("below-sensitivity"))
    })));
    let s = p.flush(1_000_000_000);
    assert_eq!(sample(&s, "pdr").value.n(), 0);
}

#[test]
fn the_subscription_list_is_the_channels_it_reads() {
    let p = CommsProvider::new(0);
    assert_eq!(
        p.subscribe(),
        vec!["node.tx", "phy.rx", "mac.cbr", "node.rx", "net.bytes", "proto.msg"]
    );
}

#[test]
fn channel_load_sums_sensed_and_own_air_time() {
    let mut p = LoadProvider::new(0).with_min_samples(1);
    p.on_event(&node(Payload::NodeTx(NodeTxView { airtime_us: Some(100_000), ..tx(1, 1, 1000) })));
    for (p_cdbm, us) in [(-6_000, 300_000u64), (-9_500, 200_000)] {
        p.on_event(&node(Payload::NodeRx(NodeRxView {
            cause: Some("fading".to_string()),
            rssi_dbm: Some(q(p_cdbm, 100)),
            airtime_us: Some(us),
            ..fate(1, 2, RxFate::Lost)
        })));
    }
    let s = p.flush(NS_PER_S);
    let SampleValue::Distribution(d) = sample(&s, "channel_load").value else {
        panic!("channel_load is a distribution")
    };
    assert_eq!(d.n(), 2);
    assert_eq!(d.quantile(Percentile::P99).map(|v| f(v) > 0.29), Some(true));
    assert_eq!(point(&s, "carried_load"), Some(8000.0));
    assert_eq!(point(&s, "offered_load"), Some(8000.0), "no MAC report: offered = carried");
}

#[test]
fn loss_rates_are_over_resolved_attempts() {
    let mut p = LoadProvider::new(0).with_min_samples(1);
    for (outcome, cause) in [
        (RxFate::Delivered, None),
        (RxFate::Lost, Some("collision")),
        (RxFate::Lost, Some("half-duplex")),
        (RxFate::Lost, Some("verify-overflow")),
        (RxFate::InFlight, None),
    ] {
        p.on_event(&node(Payload::NodeRx(NodeRxView {
            cause: cause.map(str::to_string),
            ..fate(1, 2, outcome)
        })));
    }
    let s = p.flush(NS_PER_S);
    assert_eq!(point(&s, "collision_rate"), Some(0.25));
    assert_eq!(point(&s, "half_duplex_rate"), Some(0.25));
    let total: f64 =
        s.iter().filter(|x| x.metric == "loss_rate").map(|x| f(x.value.point().unwrap())).sum();
    assert!((total - 0.75).abs() < 1e-9, "Σ loss rates = 1 − delivery ratio");
}

#[test]
fn the_mac_report_fills_queue_depth_drops_and_offered_load() {
    let mut p = LoadProvider::new(0).with_min_samples(1);
    p.on_event(&node(Payload::MacCbr(MacCbrView {
        queue_depth: Some(3),
        mac_drops: Some(2),
        offered_bytes: Some(2000),
        offered_airtime_us: Some(1000),
        ..cbr(1, 1, 2_000)
    })));
    p.on_event(&node(Payload::NodeTx(NodeTxView {
        airtime_us: Some(500),
        t_signed: Some(1_000_000),
        ..tx(2_000_000, 1, 1000)
    })));
    let s = p.flush(NS_PER_S);
    assert_eq!(point(&s, "offered_load"), Some(16_000.0));
    assert_eq!(point(&s, "carried_load"), Some(8_000.0));
    assert_eq!(point(&s, "mac_drops"), Some(2.0));
    assert_eq!(point(&s, "mac_access_delay"), Some(1.0));
    assert_eq!(point(&s, "mac_queue_depth"), Some(3.0));
}

#[test]
fn the_shares_of_a_frame_add_up_to_one() {
    let mut p = OverheadProvider::new(0);
    p.on_event(&node(Payload::NodeTx(NodeTxView {
        msg_type: Some("bsm".to_string()),
        payload_bytes: Some(40),
        envelope_bytes: Some(93),
        spdu_bytes: Some(133),
        net_header_bytes: Some(5),
        link_bytes: Some(38),
        cert_bytes: Some(0),
        ..tx(1, 1, 176)
    })));
    let s = p.flush(NS_PER_S);
    let get = |name: &str, of: Option<&str>| match of {
        Some(t) => point(&s, &format!("{name}|msg_type={t}")).unwrap(),
        None => point(&s, name).unwrap(),
    };
    let total = get("security_overhead", Some("bsm"))
        + get("net_header_overhead", Some("bsm"))
        + get("link_overhead", Some("bsm"))
        + 40.0 / 176.0;
    assert!((total - 1.0).abs() < 1e-3, "shares sum to {total}");
    assert!((get("air_bytes_per_payload_byte", None) - 4.4).abs() < 1e-3);
    assert_eq!(get("cert_bytes_share", None), 0.0);
}

#[test]
fn bytes_per_vehicle_hour_divides_by_equipped_time() {
    let mut p = OverheadProvider::new(0);
    for k in 0..=10u64 {
        let t = k * NS_PER_S / 10;
        p.on_event(&node(Payload::GtKinematics(GtKinematicsView {
            node: Some(7),
            ..motion(t, 1, 0, 1_000)
        })));
        p.on_event(&node(Payload::GtKinematics(motion(t, 2, 0, 1_000))));
    }
    p.on_event(&node(Payload::NodeTx(tx(1, 7, 1000))));
    p.on_event(&node(Payload::NetBytes(bytes_in(1, Some(3), ByteBucket::CellularUl, 500))));
    let s = p.flush(NS_PER_S);
    let per_hour = |b: &str| point(&s, &format!("bytes_per_vehicle_hour|bucket={b}")).unwrap();
    assert_eq!(per_hour("air"), 3_600_000.0);
    assert_eq!(per_hour("cellular-ul"), 1_800_000.0);
    assert_eq!(per_hour("backend"), 0.0);
}

fn group(
    fragments: u32,
    received: u32,
    bytes: u64,
    bytes_received: u64,
    predicted_loss_e6: u32,
    predicted_content_loss_e6: u32,
) -> EventRecord {
    truth(
        "{}",
        Payload::NetReassembly(NetReassemblyView {
            t: 1,
            rx: 2,
            tx: 1,
            sdu: 7,
            msg_type: Some("bsm".to_string()),
            fragments,
            received,
            bytes,
            bytes_received,
            predicted_loss_e6,
            predicted_content_loss_e6,
        }),
    )
}

#[test]
fn a_group_lost_to_one_fragment_amplifies_the_fragment_loss() {
    let mut p = FragProvider::new();
    p.on_event(&group(2, 2, 2_000, 2_000, 190_000, 100_000));
    p.on_event(&group(2, 1, 2_000, 1_000, 510_000, 300_000));
    let s = p.flush(1_000_000_000);
    assert_eq!(point(&s, "frag_sdu_loss"), Some(0.5));
    assert_eq!(point(&s, "frag_fragment_loss"), Some(0.25));
    assert_eq!(point(&s, "frag_content_loss"), Some(0.25));
    assert!((point(&s, "frag_sdu_loss_predicted").unwrap() - 0.35).abs() < 1e-12);
    assert!((point(&s, "frag_content_loss_predicted").unwrap() - 0.2).abs() < 1e-12);
    assert!((point(&s, "frag_sdu_loss_independent").unwrap() - 0.4375).abs() < 1e-12);
    assert_eq!(p.rejected(), 0);
    assert!(p.flush(2_000_000_000).is_empty());
}

#[test]
fn segments_lose_content_not_messages() {
    let mut p = FragProvider::new();
    p.on_event(&group(4, 3, 4_000, 3_000, 400_000, 100_000));
    let s = p.flush(1_000_000_000);
    assert_eq!(point(&s, "frag_content_loss"), Some(0.25));
    assert_eq!(point(&s, "frag_fragment_loss"), Some(0.25));
    p.on_event(&group(2, 3, 2_000, 2_000, 0, 0));
    assert_eq!(p.rejected(), 1);
}

fn delivered(rx: u32, from: u32, generated: u64, at: u64, dist_mm: i64) -> EventRecord {
    both(Payload::NodeRx(NodeRxView {
        tx: Some(from),
        msg: Some(generated),
        msg_type: Some("bsm".to_string()),
        dist_mm: Some(dist_mm),
        t_generated: Some(generated),
        t_delivered: Some(at),
        ..fate(at, rx, RxFate::Delivered)
    }))
}

fn lost_message(rx: u32, from: u32, at: u64, dist_mm: i64) -> EventRecord {
    both(Payload::NodeRx(NodeRxView {
        tx: Some(from),
        cause: Some("fading".to_string()),
        dist_mm: Some(dist_mm),
        ..fate(at, rx, RxFate::Lost)
    }))
}

fn place(n: u32, t: u64, x_mm: i64) -> EventRecord {
    truth(
        "{}",
        Payload::GtKinematics(GtKinematicsView { node: Some(n), ..motion(t, n, x_mm, 10_000) }),
    )
}

#[test]
fn aoi_of_a_periodic_link_is_half_the_period_plus_the_delay() {
    let mut p = AwarenessProvider::new(0).with_min_samples(1);
    for k in 0..11u64 {
        let g0 = k * 100 * NS_PER_MS;
        p.on_event(&delivered(1, 2, g0, g0 + 2 * NS_PER_MS, 30_000));
    }
    let s = p.flush(2_000 * NS_PER_MS);
    assert_eq!(point(&s, "aoi"), Some(52.0));
    assert_eq!(point(&s, "aoi_peak"), Some(102.0));
    assert_eq!(sample(&s, "aoi_peak").value.n(), 10, "the first message has no predecessor");
}

#[test]
fn nar_counts_heard_neighbours_within_the_radius() {
    let mut p = AwarenessProvider::new(0).with_min_samples(1);
    let t = 5_000 * NS_PER_MS;
    for (n, x) in [(1, 0), (2, 50_000), (3, 90_000), (4, 250_000), (5, 1_000_000)] {
        p.on_event(&place(n, t, x));
    }
    p.on_event(&delivered(1, 2, t - 300 * NS_PER_MS, t - 200 * NS_PER_MS, 50_000));
    p.on_event(&delivered(1, 4, t - 1_600 * NS_PER_MS, t - 1_500 * NS_PER_MS, 250_000));
    let s = p.flush(t);
    assert_eq!(sample(&s, "nar|radius=100m").value.n(), 6);
    assert!((point(&s, "nar|radius=100m").unwrap() - 1.0 / 6.0).abs() < 1e-3);
    assert_eq!(sample(&s, "nar|radius=300m").value.n(), 12);
}

/// The bounds of a proportion at 95 %, for the test that looks at them.
fn wilson(p: f64, n: f64) -> (f64, f64) {
    let z = 1.959_963_984_540_054_f64;
    let d = 1.0 + z * z / n;
    let c = (p + z * z / (2.0 * n)) / d;
    let h = z * (p * (1.0 - p) / n + z * z / (4.0 * n * n)).sqrt() / d;
    (c - h, c + h)
}

#[test]
fn a_sparse_run_reports_nar_with_the_interval_of_its_few_pairs() {
    let mut p = AwarenessProvider::new(0);
    for k in 0..10u64 {
        let t = k * 100 * NS_PER_MS;
        p.on_event(&place(1, t, 0));
        p.on_event(&place(2, t, 50_000));
        p.on_event(&delivered(1, 2, t, t + NS_PER_MS, 50_000));
    }
    let s = p.flush(1_000 * NS_PER_MS);
    let nar = sample(&s, "nar|radius=100m");
    assert!(!nar.value.is_insufficient(), "{:?}", nar.value);
    assert_eq!(nar.value.point().map(f), Some(0.5));
    assert_eq!(nar.value.n(), 20);
    let SampleValue::Ratio(RatioEstimate::Proportion { point, effective, level, .. }) = nar.value else {
        panic!("nar is a proportion")
    };
    assert_eq!(effective, 2, "the interval rests on the two pairs");
    assert_eq!(level, ConfidenceLevel::P95);
    let (lo, hi) = wilson(f(point), effective as f64);
    assert!((lo - 0.0945).abs() < 1e-3, "{lo}");
    assert!((hi - 0.9055).abs() < 1e-3, "{hi}");
    assert!(lo < 0.2 && hi > 0.8);
}

#[test]
fn a_window_with_no_neighbour_pair_is_insufficient_not_zero() {
    let mut p = AwarenessProvider::new(0);
    p.on_event(&place(1, 0, 0));
    p.on_event(&place(2, 0, 900_000));
    let s = p.flush(1_000 * NS_PER_MS);
    for x in s.iter().filter(|x| x.metric == "nar") {
        assert!(x.value.is_insufficient(), "{:?}", x.value);
    }
}

#[test]
fn delivery_ratio_by_distance_counts_losses_above_the_phy() {
    let mut p = AwarenessProvider::new(0).with_min_samples(1);
    p.on_event(&delivered(1, 2, 0, NS_PER_MS, 20_000));
    p.on_event(&lost_message(1, 3, NS_PER_MS, 30_000));
    p.on_event(&lost_message(1, 3, NS_PER_MS, 480_000));
    let s = p.flush(NS_PER_MS * 10);
    assert!((point(&s, "delivery_ratio").unwrap() - 1.0 / 3.0).abs() < 1e-3);
    assert_eq!(point(&s, "delivery_ratio|dist_bin=0-50"), Some(0.5));
    assert_eq!(point(&s, "delivery_ratio|dist_bin=450-500"), Some(0.0));
}

#[test]
fn neighbours_across_a_cell_border_are_found() {
    let mut p = AwarenessProvider::new(0);
    for (n, x) in [(1, -10_000), (2, 10_000), (3, 299_999), (4, 300_001), (5, -299_000)] {
        p.on_event(&place(n, 0, x));
    }
    let s = p.flush(NS_PER_S);
    // Within 100 m: 1-2 and 3-4, both ways.
    assert_eq!(sample(&s, "nar|radius=100m").value.n(), 4);
    // Within 300 m: those, 2-3, 2-4 and 1-5.
    assert_eq!(sample(&s, "nar|radius=300m").value.n(), 10);
}

fn stamped(g0: u64, delivered: u64) -> NodeRxView {
    NodeRxView {
        tx: Some(1),
        msg: Some(9),
        msg_type: Some("bsm".to_string()),
        verification: Some("verified".to_string()),
        rssi_dbm: Some(q(-70, 1)),
        sinr_cdb: Some(2_000),
        dist_mm: Some(50_000),
        bytes_on_wire: Some(300),
        airtime_us: Some(424),
        payload_bytes: Some(40),
        t_generated: Some(g0),
        t_sign_start: Some(g0 + 1_000),
        t_signed: Some(g0 + 4_000),
        mac_aifs_ns: Some(58_000),
        mac_backoff_ns: Some(39_000),
        t_tx_start: Some(g0 + 4_000 + 150_000),
        t_tx_end: Some(g0 + 4_000 + 150_000 + 424_000),
        t_arrival: Some(g0 + 4_000 + 150_000 + 424_000 + 167),
        t_rx_done: Some(g0 + 578_167),
        t_verify_start: Some(g0 + 600_000),
        t_verify_done: Some(delivered),
        t_delivered: Some(delivered),
        ..fate(delivered, 2, RxFate::Delivered)
    }
}

#[test]
fn stages_sum_to_the_total_exactly() {
    let v = stamped(1_000_000, 1_000_000 + 1_000_000);
    let t = v.latency_trace().expect("complete stamps build a trace");
    t.validate().unwrap();
    let names: Vec<&str> = t.spans.iter().map(|s| s.stage.as_str()).collect();
    assert_eq!(
        names,
        vec![
            "sign_queue",
            "sign",
            "mac_aifs",
            "mac_backoff",
            "mac_defer",
            "airtime",
            "propagation",
            "reception",
            "verify_queue",
            "verify"
        ]
    );
    let s = t.stage_ns();
    assert_eq!(Some(s.total()), t.total_ns());
    assert_eq!(t.total_ns(), v.e2e_ns());
    let ns = |stage: &str| s.get(&stage.to_string());
    assert_eq!(ns("mac_aifs") + ns("mac_backoff") + ns("mac_defer"), 150_000);
    assert_eq!(ns("mac_aifs"), 58_000);
    assert_eq!(ns("propagation"), 167);
}

#[test]
fn the_provider_reports_percentiles_and_shares_that_sum_to_one() {
    let mut p = LatencyProvider::new().with_min_samples(1);
    for i in 0..50u64 {
        let g0 = i * 100_000_000;
        p.on_event(&both(Payload::NodeRx(stamped(g0, g0 + 1_000_000 + i * 10_000))));
    }
    let s = p.flush(10_000_000_000);
    assert_eq!(sample(&s, "e2e_latency").value.n(), 50);
    let shares: f64 = s
        .iter()
        .filter(|x| x.metric == "latency_stage_share" && !x.dims.contains_key(&Dim::MsgType))
        .map(|x| f(x.value.point().unwrap()))
        .sum();
    assert!((shares - 1.0).abs() < 1e-3, "shares sum to {shares}");
    assert!(keys(&s).contains(&"e2e_latency|msg_type=bsm".to_string()));
}

#[test]
fn a_trace_with_a_gap_is_rejected_and_counted() {
    let mut p = LatencyProvider::new().with_min_samples(1);
    let mut v = stamped(1_000_000, 3_000_000);
    v.t_signed = Some(900_000);
    p.on_event(&both(Payload::NodeRx(v)));
    let mut t = stamped(0, 2_000_000).latency_trace().unwrap();
    t.spans[3].start += 1;
    p.on_event(&both(Payload::MsgLatency(t)));
    let s = p.flush(1);
    assert_eq!(point(&s, "latency_trace_rejected"), Some(2.0));
    assert!(!s.iter().any(|x| x.metric == "e2e_latency"));
}

#[test]
fn a_backend_flow_plugs_in_with_its_own_stages_and_hops() {
    let mut b = TraceBuilder::new("credential-topup", None, Some(4), 0);
    b.endpoints(Some(3), None);
    b.to("uu_uplink", 20_000_000)
        .to("ra_processing", 45_000_000)
        .hop(1)
        .to("backend", 47_000_000)
        .hop(2)
        .to("uu_downlink", 70_000_000);
    let t = b.finish();
    assert_eq!(t.visibility(), Visibility::NodeAndGt);
    let mut p = LatencyProvider::new().with_min_samples(1);
    p.on_event(&both(Payload::MsgLatency(t)));
    let s = p.flush(1_000_000_000);
    assert_eq!(point(&s, "e2e_latency|flow=credential-topup"), Some(70.0));
}

#[test]
fn an_undelivered_message_has_no_latency() {
    let mut v = stamped(0, 1_000_000);
    v.outcome = RxFate::Lost;
    v.cause = Some("collision".to_string());
    assert!(v.latency_trace().is_none());
    let mut p = LatencyProvider::new().with_min_samples(1);
    p.on_event(&both(Payload::NodeRx(v)));
    let s = p.flush(1);
    assert!(!s.iter().any(|x| x.metric == "e2e_latency"));
}

#[test]
fn every_defect_of_a_trace_is_named() {
    let span = |stage: &str, start, end| Span { stage: stage.to_string(), hop: 0, start, end };
    let trace = |spans| LatencyTrace {
        flow: "v2v".to_string(),
        msg_type: None,
        msg: None,
        origin: None,
        dest: None,
        t_origin: 5,
        spans,
    };
    let text = |spans| trace(spans).validate().unwrap_err().to_text();
    let empty = text(vec![]);
    let late = text(vec![span("a", 6, 7)]);
    let backward = text(vec![span("a", 5, 4)]);
    let gap = text(vec![span("a", 5, 6), span("b", 7, 8)]);
    assert!(late.contains('a') && late.contains('6') && late.contains('5'), "{late}");
    assert!(backward.contains('a'), "{backward}");
    assert!(gap.contains('b'), "{gap}");
    for (i, x) in [&empty, &late, &backward, &gap].iter().enumerate() {
        for y in [&empty, &late, &backward, &gap].iter().skip(i + 1) {
            assert_ne!(x, y);
        }
    }
    assert!(trace(vec![span("a", 5, 6), span("b", 6, 9)]).validate().is_ok());
}

#[test]
fn detection_every_definition_validates_and_the_card_is_accepted() {
    let p = DetectionProvider::new();
    p.validate_defs().unwrap();
    assert_eq!(p.card().version, "1.0.0");
}

#[test]
fn the_matrix_and_its_summaries_reproduce_a_hand_computed_fixture() {
    let mut p = DetectionProvider::new().with_min_samples(1);
    for i in 0..10u32 {
        p.declare_subject(&format!("s{i}"), i);
    }
    for i in 0..4u32 {
        p.on_event(&node(Payload::GtAttackAction(attack(1_000_000_000, i, None))));
    }
    for i in [0u32, 1, 2, 7] {
        p.on_event(&node(Payload::MaDecision(decision(5_000_000_000, &format!("s{i}"), "revoke"))));
    }
    let m = p.matrix(DetectionLevel::Vehicle);
    assert_eq!(m, ConfusionMatrix { tp: 3, fp: 1, fn_: 1, tn: 5 });
    assert_eq!(m.total(), 10);
    let s = p.flush(10_000_000_000);
    assert_eq!(sample(&s, "det_tp|level=vehicle|cell=tp").value, SampleValue::count(3));
    assert_eq!(sample(&s, "det_fn|level=vehicle|cell=fn").value, SampleValue::count(1));
    assert_eq!(point(&s, "det_recall|level=vehicle"), Some(0.75));
    assert_eq!(point(&s, "det_fpr|level=vehicle"), Some(0.1667), "1/6 on the 1e-4 ratio grid");
    assert_eq!(point(&s, "det_precision|level=vehicle"), Some(0.75));
    assert_eq!(point(&s, "det_f1|level=vehicle"), Some(0.75));
    assert_eq!(point(&s, "det_accuracy|level=vehicle"), Some(0.8));
    assert_eq!(sample(&s, "false_accusations|level=vehicle").value, SampleValue::count(1));
    assert_eq!(sample(&s, "det_accuracy|level=vehicle").value.n(), 10);
    match &sample(&s, "det_f1|level=vehicle").value {
        SampleValue::Scalar(_) => {}
        other => panic!("F1 must not be a proportion with an interval: {other:?}"),
    }
}

#[test]
fn per_report_and_per_vehicle_precision_differ_and_both_are_reported() {
    let mut p = DetectionProvider::new().with_min_samples(1);
    p.declare_subject("attacker", 1);
    p.declare_subject("benign", 2);
    p.on_event(&node(Payload::GtAttackAction(attack(0, 1, None))));
    for i in 0..1000u64 {
        p.on_event(&node(Payload::MaReport(report(i, "attacker"))));
    }
    p.on_event(&node(Payload::MaReport(report(1, "benign"))));
    let s = p.flush(1_000_000_000);
    let per_report = point(&s, "det_precision|level=report").unwrap();
    assert!((per_report - 0.999).abs() < 1e-9, "{per_report}");
    assert_eq!(sample(&s, "det_tp|level=report|cell=tp").value, SampleValue::count(1));
    assert_eq!(sample(&s, "det_fp|level=report|cell=fp").value, SampleValue::count(1));
    assert_eq!(point(&s, "det_recall|level=report"), Some(1.0));
}

#[test]
fn an_undeclared_subject_is_reported_not_guessed() {
    let mut p = DetectionProvider::new().with_min_samples(1);
    p.on_event(&node(Payload::MaReport(report(0, "who-is-this"))));
    assert_eq!(p.undeclared_subjects().len(), 1);
    assert!(p.undeclared_subjects().contains(&"who-is-this".to_string()));
    assert_eq!(p.matrix(DetectionLevel::Report).total(), 0);
}

#[test]
fn an_empty_matrix_is_insufficient_rather_than_nan() {
    let m = ConfusionMatrix::new();
    assert!(m.recall(1, ConfidenceLevel::P95).is_insufficient());
    assert!(m.fpr(1, ConfidenceLevel::P95).is_insufficient());
    assert!(m.precision(1, ConfidenceLevel::P95).is_insufficient());
    assert!(m.accuracy(1, ConfidenceLevel::P95).is_insufficient());
    assert!(m.f1(1).is_insufficient());
    let mut p = DetectionProvider::new();
    let s = p.flush(1_000);
    for x in &s {
        assert!(
            matches!(x.value, SampleValue::Count { count: 0 }) || x.value.is_insufficient(),
            "{}: {:?}",
            x.key(),
            x.value
        );
        for v in x.floats() {
            assert!(f(v).is_finite(), "{v:?}");
        }
    }
}

#[test]
fn a_matrix_with_no_positives_has_no_f1_and_no_precision() {
    let m = ConfusionMatrix { tp: 0, fp: 0, fn_: 0, tn: 50 };
    assert!(m.f1(1).is_insufficient());
    assert!(m.precision(1, ConfidenceLevel::P95).is_insufficient());
    assert!(m.recall(1, ConfidenceLevel::P95).is_insufficient());
    assert_eq!(m.accuracy(1, ConfidenceLevel::P95).point().map(f), Some(1.0));
    assert_eq!(m.fpr(1, ConfidenceLevel::P95).point().map(f), Some(0.0));
}

#[test]
fn detection_latency_measures_from_onset_to_first_correct_report() {
    let mut p = DetectionProvider::new().with_min_samples(1);
    p.declare_subject("a", 1);
    p.declare_subject("b", 2);
    p.on_event(&node(Payload::GtAttackAction(attack(1_000_000_000, 1, None))));
    p.on_event(&node(Payload::GtAttackAction(attack(9_000_000_000, 1, None))));
    p.on_event(&node(Payload::MaReport(report(3_500_000_000, "a"))));
    p.on_event(&node(Payload::MaReport(report(2_000_000_000, "b"))));
    p.on_event(&node(Payload::MaDecision(decision(6_000_000_000, "a", "revoke"))));
    let s = p.flush(10_000_000_000);
    assert_eq!(point(&s, "time_to_detect"), Some(2.5));
    assert_eq!(sample(&s, "time_to_detect").value.n(), 1);
    assert_eq!(point(&s, "time_to_decision"), Some(5.0));
}

#[test]
fn a_dismissed_decision_is_not_a_revocation() {
    let mut p = DetectionProvider::new().with_min_samples(1);
    p.declare_subject("a", 1);
    p.on_event(&node(Payload::GtAttackAction(attack(0, 1, None))));
    p.on_event(&node(Payload::MaDecision(decision(1_000_000_000, "a", "dismiss"))));
    assert_eq!(
        p.matrix(DetectionLevel::Vehicle),
        ConfusionMatrix { tp: 0, fp: 0, fn_: 1, tn: 0 }
    );
}

#[test]
fn an_attack_that_changed_no_bytes_on_the_air_is_not_an_onset() {
    let mut p = DetectionProvider::new();
    let passive = GtAttackActionView { changed_bytes_on_air: false, ..attack(0, 1, None) };
    p.on_event(&node(Payload::GtAttackAction(passive)));
    assert_eq!(p.attackers().len(), 0);
}

#[test]
fn the_matrix_is_order_independent() {
    let run = |order: Vec<u32>| {
        let mut p = DetectionProvider::new().with_min_samples(1);
        for i in 0..6u32 {
            p.declare_subject(&format!("s{i}"), i);
        }
        p.on_event(&node(Payload::GtAttackAction(attack(0, 0, None))));
        for i in order {
            p.on_event(&node(Payload::MaDecision(decision(i as u64, &format!("s{i}"), "revoke"))));
        }
        p.matrix(DetectionLevel::Vehicle)
    };
    assert_eq!(run((0..6).collect()), run((0..6).rev().collect()));
    assert_eq!(run((0..6).collect()), run(vec![3, 0, 5, 1, 4, 2]));
}

#[test]
fn local_detector_firings_are_counted_per_detector() {
    let mut p = DetectionProvider::new();
    for d in [" art", "art", "sybil"] {
        p.on_event(&node(Payload::DetObservation(DetObservationView {
            t: 0,
            node: 1,
            detector: d.trim().to_string(),
            subject: "x".to_string(),
            score_e4: Some(10_000),
        })));
    }
    assert_eq!(p.detector_firings().get(&"art".to_string()), 2);
    assert_eq!(p.detector_firings().get(&"sybil".to_string()), 1);
}

#[test]
fn the_cells_of_a_matrix_sum_to_its_total() {
    let m = ConfusionMatrix { tp: 3, fp: 1, fn_: 2, tn: 5 };
    let sum: u64 = Cell::all().iter().map(|c| m.cell(*c)).sum();
    assert_eq!(sum, m.total());
}

fn driving(
    t: u64,
    actor: u32,
    lane: Option<u32>,
    pos_mm: i64,
    speed_mmps: i32,
    acc_mmps2: Option<i32>,
) -> EventRecord {
    truth(
        "{}",
        Payload::GtKinematics(GtKinematicsView {
            lane,
            lane_pos_mm: lane.map(|_| pos_mm),
            acc_mmps2,
            ..motion(t, actor, pos_mm, speed_mmps)
        }),
    )
}

#[test]
fn safety_every_definition_validates_and_the_card_is_accepted() {
    let p = SafetyProvider::new(0);
    p.validate_defs().unwrap();
    let card = p.card();
    let todo: Vec<&str> = card
        .parameters
        .iter()
        .filter(|x| x.source.kind == SourceKind::TodoCalibrate)
        .map(|x| x.name.as_str())
        .collect();
    assert_eq!(todo, vec!["pet_cell_m", "pet_horizon_s"]);
}

#[test]
fn ttc_and_headway_reproduce_a_hand_computed_fixture() {
    let mut p = SafetyProvider::new(0).with_min_samples(1);
    p.on_event(&driving(0, 1, Some(7), 0, 20_000, Some(500)));
    p.on_event(&driving(0, 2, Some(7), 30_000, 10_000, Some(-1_000)));
    let s = p.flush(1_000_000_000);
    assert_eq!(point(&s, "ttc_min"), Some(3.0));
    assert_eq!(point(&s, "headway_time"), Some(1.5));
    assert_eq!(point(&s, "headway_distance"), Some(30.0));
    assert_eq!(point(&s, "drac"), Some(1.667));
    assert_eq!(
        sample(&s, "ttc_conflicts").value,
        SampleValue::count(0),
        "3 s is above the 1.5 s threshold"
    );
    assert_eq!(point(&s, "speed"), Some(15.0));
    assert_eq!(point(&s, "acceleration"), Some(-0.25));
}

#[test]
fn a_pair_that_is_not_closing_has_no_ttc() {
    let mut p = SafetyProvider::new(0).with_min_samples(1);
    p.on_event(&driving(0, 1, Some(7), 0, 10_000, None));
    p.on_event(&driving(0, 2, Some(7), 30_000, 20_000, None));
    let s = p.flush(1_000_000_000);
    assert!(sample(&s, "ttc_min").value.is_insufficient());
    assert!(sample(&s, "drac").value.is_insufficient());
    assert_eq!(point(&s, "headway_distance"), Some(30.0));
}

#[test]
fn a_ttc_below_the_threshold_is_counted_and_the_comparison_is_quantised() {
    let mut p = SafetyProvider::new(0).with_min_samples(1);
    p.on_event(&driving(0, 1, Some(1), 0, 20_000, None));
    p.on_event(&driving(0, 2, Some(1), 10_000, 10_000, None));
    p.on_event(&driving(0, 3, Some(2), 0, 20_000, None));
    p.on_event(&driving(0, 4, Some(2), 15_000, 10_000, None));
    let s = p.flush(1_000_000_000);
    assert_eq!(sample(&s, "ttc_conflicts").value, SampleValue::count(1));
}

#[test]
fn a_stopped_follower_has_no_time_headway_and_no_infinity() {
    let mut p = SafetyProvider::new(0).with_min_samples(1);
    p.on_event(&driving(0, 1, Some(7), 0, 0, None));
    p.on_event(&driving(0, 2, Some(7), 30_000, 0, None));
    let s = p.flush(1_000_000_000);
    assert!(sample(&s, "headway_time").value.is_insufficient());
    assert_eq!(point(&s, "headway_distance"), Some(30.0));
    for x in s.iter().flat_map(MetricSample::floats) {
        assert!(f(x).is_finite(), "{x:?}");
    }
}

#[test]
fn edies_aggregates_reproduce_a_hand_computed_fixture() {
    let mut p = SafetyProvider::new(0).with_min_samples(1);
    p.declare_lane_length(7, 100_000);
    for i in 0..10u64 {
        p.on_event(&driving(i * 100_000_000, 1, Some(7), (i as i64) * 2_000, 20_000, None));
    }
    let s = p.flush(1_000_000_000);
    assert_eq!(point(&s, "density|region=7"), Some(10.0));
    assert_eq!(point(&s, "flow|region=7"), Some(720.0));
    assert_eq!(point(&s, "mean_speed|region=7"), Some(20.0));
    assert_eq!(10.0 * 72.0, 720.0);
}

#[test]
fn an_undeclared_lane_has_no_aggregate_and_is_counted() {
    let mut p = SafetyProvider::new(0).with_min_samples(1);
    p.on_event(&driving(0, 1, Some(42), 0, 20_000, None));
    let s = p.flush(1_000_000_000);
    assert!(!s.iter().any(|x| x.metric == "flow"));
    assert!(p.undeclared_lanes().contains(&42));
}

#[test]
fn pet_needs_two_different_actors_in_one_cell() {
    let mut p = SafetyProvider::new(0).with_min_samples(1);
    p.on_event(&driving(0, 1, None, 250, 5_000, None));
    p.on_event(&driving(1_500_000_000, 2, None, 250, 5_000, None));
    let s = p.flush(3_000_000_000);
    assert_eq!(point(&s, "pet"), Some(1.5));

    let mut p = SafetyProvider::new(0).with_min_samples(1);
    p.on_event(&driving(0, 1, None, 250, 5_000, None));
    p.on_event(&driving(1_500_000_000, 1, None, 250, 5_000, None));
    let s = p.flush(3_000_000_000);
    assert!(sample(&s, "pet").value.is_insufficient());

    let mut p = SafetyProvider::new(0).with_min_samples(1);
    p.on_event(&driving(0, 1, None, 250, 5_000, None));
    p.on_event(&driving(9_000_000_000, 2, None, 250, 5_000, None));
    let s = p.flush(10_000_000_000);
    assert!(sample(&s, "pet").value.is_insufficient());
}

#[test]
fn an_empty_window_is_insufficient_and_never_nan() {
    let mut p = SafetyProvider::new(0);
    let s = p.flush(1_000_000_000);
    for key in
        ["ttc_min", "pet", "drac", "headway_time", "headway_distance", "speed", "acceleration"]
    {
        assert!(sample(&s, key).value.is_insufficient(), "{key}");
    }
    assert_eq!(sample(&s, "ttc_conflicts").value, SampleValue::count(0));
    for x in s.iter().flat_map(MetricSample::floats) {
        assert!(f(x).is_finite(), "{x:?}");
    }
}

#[test]
fn a_frames_results_do_not_depend_on_the_order_of_its_actors() {
    let positions = [(1u32, 0i64, 22_500i32), (2, 13_750, 18_000), (3, 41_125, 9_500)];
    let run = |order: Vec<usize>| {
        let mut p = SafetyProvider::new(0).with_min_samples(1);
        p.declare_lane_length(3, 200_000);
        for i in order {
            let (a, pos, v) = positions[i];
            p.on_event(&driving(0, a, Some(3), pos, v, Some(125)));
        }
        said(p.flush(1_000_000_000))
    };
    let forward = run(vec![0, 1, 2]);
    assert_eq!(forward, run(vec![2, 1, 0]));
    assert_eq!(forward, run(vec![1, 2, 0]));
}

#[test]
fn every_safety_metric_is_tagged_ground_truth() {
    for d in SafetyProvider::new(0).defs() {
        assert_eq!(d.visibility, Visibility::Gt, "{}", d.name);
        assert!(!d.visibility.allowed_on_node_channel(), "{} must not reach a node channel", d.name);
    }
}

#[test]
fn a_duplicate_sample_for_one_actor_in_one_frame_does_not_double_count() {
    let mut p = SafetyProvider::new(0).with_min_samples(1);
    p.on_event(&driving(0, 1, Some(7), 0, 20_000, None));
    p.on_event(&driving(0, 1, Some(7), 0, 20_000, None));
    let s = p.flush(1_000_000_000);
    assert_eq!(sample(&s, "speed").value.n(), 1);
}

#[test]
fn an_encroachment_may_span_the_end_of_a_window() {
    let mut p = SafetyProvider::new(0).with_min_samples(1);
    p.on_event(&driving(900_000_000, 1, None, 250, 5_000, None));
    let _ = p.flush(1_000_000_000);
    p.on_event(&driving(1_400_000_000, 2, None, 250, 5_000, None));
    let s = p.flush(2_000_000_000);
    assert_eq!(point(&s, "pet"), Some(0.5));
}

#[test]
fn runtime_every_definition_validates_and_the_card_is_accepted() {
    let p = RuntimeProvider::new();
    p.validate_defs().unwrap();
    assert_eq!(p.card().version, "1.0.0");
}

#[test]
fn the_three_diagnostics_are_flagged_and_the_event_count_is_not() {
    let defs = RuntimeProvider::new().defs();
    let flagged: Vec<&str> = defs.iter().filter(|d| d.diagnostic).map(|d| d.name.as_str()).collect();
    assert_eq!(
        flagged,
        vec!["events_per_second", "wall_clock_per_sim_second", "memory_high_water_mark"]
    );
    let plain: Vec<&str> = defs.iter().filter(|d| !d.diagnostic).map(|d| d.name.as_str()).collect();
    assert_eq!(plain, vec!["events_processed"]);
}

#[test]
fn the_flag_travels_from_the_definition_to_the_sample() {
    let mut p = RuntimeProvider::new();
    p.observe_elapsed(500 * NS_PER_MS, 10 * NS_PER_S);
    p.observe_memory(1_024);
    p.on_event(&unread("node.tx"));
    let s = p.flush(1_000_000_000);
    for x in &s {
        assert_eq!(x.diagnostic, x.metric != "events_processed", "{}", x.metric);
    }
}

#[test]
fn the_rates_reproduce_a_hand_computed_fixture() {
    let mut p = RuntimeProvider::new();
    for _ in 0..200 {
        p.on_event(&unread("node.tx"));
    }
    p.observe_elapsed(500 * NS_PER_MS, 10 * NS_PER_S);
    p.observe_memory(4_096);
    p.observe_memory(1_024);
    let s = p.flush(10_000_000_000);
    assert_eq!(sample(&s, "events_processed").value, SampleValue::count(200));
    assert_eq!(point(&s, "events_per_second"), Some(400.0));
    assert_eq!(point(&s, "wall_clock_per_sim_second"), Some(0.05));
    assert_eq!(
        sample(&s, "memory_high_water_mark").value,
        SampleValue::count(4_096),
        "the maximum, not the last reading"
    );
}

#[test]
fn with_no_measurement_the_rates_are_insufficient_rather_than_nan() {
    let mut p = RuntimeProvider::new();
    p.on_event(&unread("node.tx"));
    let s = p.flush(1_000);
    for x in &s {
        if x.metric.ends_with("_per_second") || x.metric.contains("per_sim_second") {
            assert!(x.value.is_insufficient(), "{}", x.metric);
        }
        for v in x.floats() {
            assert!(f(v).is_finite(), "{v:?}");
        }
    }
}

#[test]
fn the_counted_channels_are_sorted_and_deduplicated() {
    let p = RuntimeProvider::counting(vec![
        "node.tx".to_string(),
        "node.tx".to_string(),
        "mac.cbr".to_string(),
    ]);
    assert_eq!(p.subscribe(), vec!["mac.cbr", "node.tx"]);
}

#[test]
fn the_default_channel_list_matches_the_declared_count() {
    let p = RuntimeProvider::new();
    let card = p.card();
    let declared = card
        .parameters
        .iter()
        .find(|x| x.name == "count_channels")
        .map(|x| x.default.parse::<usize>().unwrap())
        .unwrap();
    assert_eq!(p.subscribe().len(), declared);
    assert_eq!(known_channels().len(), declared);
}

#[test]
fn a_flushed_window_does_not_come_back() {
    let mut p = CommsProvider::new(0).with_min_samples(1);
    p.on_event(&rx_at(1, 2, 10_000, true, 1_000));
    assert_eq!(sample(&p.flush(1_000_000_000), "pdr").value.n(), 1);
    assert_eq!(sample(&p.flush(2_000_000_000), "pdr").value.n(), 0);
}

#[test]
fn a_label_is_found_among_the_dimensions_of_a_sample() {
    let mut p = OverheadProvider::new(0);
    p.on_event(&node(Payload::NodeTx(tx(1, 7, 1000))));
    let s = p.flush(NS_PER_S);
    let x = sample(&s, "bytes_per_vehicle_hour|bucket=air");
    assert!(matches!(x.dims.get(&Dim::Bucket), Some(DimValue::Label(l)) if l == "air"));
    assert!(x.value.is_insufficient(), "nobody drove");
}

#[test]
fn reported_byte_rates_pass_their_check_for_all_roundings() {
    for window in [3 * NS_PER_S, 7 * NS_PER_S, NS_PER_S / 3, 999_999_937] {
        let mut p = CommsProvider::new(0);
        for (bucket, n) in [
            (ByteBucket::CellularUl, 11u64),
            (ByteBucket::CellularDl, 13),
            (ByteBucket::Backhaul, 17),
            (ByteBucket::Backend, 19),
        ] {
            p.on_event(&node(Payload::NetBytes(bytes_in(1, None, bucket, n))));
        }
        p.on_event(&node(Payload::NodeTx(tx(1, 1, 101))));
        let s = p.flush(window);
        let r = check_m_byte2(&s);
        assert_eq!((r.checked, r.held()), (1, true), "over {window} ns");
    }
}

#[test]
fn reported_shares_pass_their_check() {
    let mut p = LatencyProvider::new().with_min_samples(1);
    for i in 0..7u64 {
        let g0 = i * 100_000_000;
        p.on_event(&both(Payload::NodeRx(stamped(g0, g0 + 1_000_003 + i * 10_007))));
    }
    let r = check_m_share(&p.flush(NS_PER_S));
    assert_eq!((r.checked, r.held()), (2, true), "over all types, and of the one there is");
}

#[test]
fn every_fate_is_counted_under_one_cause() {
    let mut p = LoadProvider::new(0).with_min_samples(1);
    for (outcome, cause) in
        [(RxFate::Lost, Some("fading")), (RxFate::Lost, None), (RxFate::Delivered, None), (RxFate::InFlight, None)]
    {
        p.on_event(&node(Payload::NodeRx(NodeRxView {
            cause: cause.map(str::to_string),
            ..fate(1, 2, outcome)
        })));
    }
    let s = p.flush(NS_PER_S);
    assert_eq!(sample(&s, "loss_rate|cause=fading").value.n(), 3);
    assert_eq!(point(&s, "loss_rate|cause=fading"), Some(0.3333));
    assert_eq!(point(&s, "loss_rate|cause=unknown"), Some(0.3333));
}

#[test]
fn the_sampling_interval_weights_every_sample() {
    let mut p = SafetyProvider::new(0).with_min_samples(1).with_sample_interval(50_000_000);
    p.declare_lane_length(7, 100_000);
    for i in 0..10u64 {
        p.on_event(&driving(i * 50_000_000, 1, Some(7), (i as i64) * 1_000, 20_000, None));
    }
    let s = p.flush(1_000_000_000);
    assert_eq!(point(&s, "density|region=7"), Some(5.0));
    assert_eq!(point(&s, "flow|region=7"), Some(360.0));
    assert_eq!(point(&s, "mean_speed|region=7"), Some(20.0));
}

#[test]
fn a_wider_cell_holds_more_encroachments() {
    let encroachments = |cell_mm: u32| {
        let mut p = SafetyProvider::new(0).with_min_samples(1).with_pet_cell(cell_mm);
        p.on_event(&truth("{}", Payload::GtKinematics(motion(0, 1, 0, 0))));
        p.on_event(&truth("{}", Payload::GtKinematics(motion(2_000_000_000, 2, 3_000, 0))));
        point(&p.flush(3_000_000_000), "pet")
    };
    assert_eq!(encroachments(1_000), None);
    assert_eq!(encroachments(10_000), Some(2.0));
}

fn is_silent(samples: &[MetricSample]) -> bool {
    samples.iter().all(|s| {
        s.value.is_insufficient()
            || s.value == SampleValue::count(0)
            || matches!(s.value, SampleValue::Scalar(_)) && s.value.point().is_some_and(|x| x.num() == 0)
    })
}

#[test]
fn a_second_flush_is_silent() {
    a_second_flush_says_nothing(NS_PER_S);
    a_second_flush_says_nothing(2 * NS_PER_S);
}

fn a_second_flush_says_nothing(later: u64) {
    let at = NS_PER_S;
    let sent = node(Payload::NodeTx(NodeTxView { airtime_us: Some(400), ..tx(1, 1, 300) }));
    let heard = both(Payload::NodeRx(stamped(1_000, 2_000_000)));
    let moved = driving(5, 1, Some(7), 0, 20_000, None);
    let mut comms = CommsProvider::new(0).with_min_samples(1);
    let mut load = LoadProvider::new(0).with_min_samples(1);
    let mut safety = SafetyProvider::new(0).with_min_samples(1);
    safety.declare_lane_length(7, 100_000);
    let mut awareness = AwarenessProvider::new(0).with_min_samples(1);
    let mut overhead = OverheadProvider::new(0);
    let mut latency = LatencyProvider::new().with_min_samples(1);
    for ev in [&sent, &heard, &moved] {
        comms.on_event(ev);
        load.on_event(ev);
        safety.on_event(ev);
        awareness.on_event(ev);
        overhead.on_event(ev);
        latency.on_event(ev);
    }
    for (first, second) in [
        (comms.flush(at), comms.flush(later)),
        (load.flush(at), load.flush(later)),
        (safety.flush(at), safety.flush(later)),
        (awareness.flush(at), awareness.flush(later)),
        (overhead.flush(at), overhead.flush(later)),
        (latency.flush(at), latency.flush(later)),
    ] {
        assert!(!is_silent(&first));
        assert!(is_silent(&second), "{:?}", keys(&second));
    }
}

#[test]
fn a_revocation_counts_whatever_was_decided_before() {
    let mut p = DetectionProvider::new().with_min_samples(1);
    p.declare_subject("a", 1);
    p.on_event(&truth("{}", Payload::GtAttackAction(attack(0, 1, None))));
    p.on_event(&node(Payload::MaDecision(decision(1_000_000_000, "a", "investigate"))));
    p.on_event(&node(Payload::MaDecision(decision(2_000_000_000, "a", "revoke"))));
    p.on_event(&node(Payload::MaDecision(decision(3_000_000_000, "a", "revoke"))));
    let m = p.matrix(DetectionLevel::Vehicle);
    assert_eq!((m.tp, m.fp, m.fn_, m.tn), (1, 0, 0, 0));
    assert_eq!(point(&p.flush(4_000_000_000), "time_to_decision"), Some(2.0), "the first one");
}

#[test]
fn a_subject_that_is_declared_late_is_no_longer_listed() {
    let mut p = DetectionProvider::new();
    p.on_event(&node(Payload::MaReport(report(0, "a"))));
    assert_eq!(p.undeclared_subjects().len(), 1);
    p.declare_subject("a", 1);
    assert_eq!(p.undeclared_subjects().len(), 0);
    assert_eq!(p.matrix(DetectionLevel::Report).total(), 1);
}

#[test]
fn the_cells_of_the_matrix_are_the_declared_subjects() {
    let mut p = DetectionProvider::new();
    for (subject, actor) in [("a", 1), ("b", 2), ("c", 1), ("d", 3)] {
        p.declare_subject(subject, actor);
    }
    p.on_event(&truth("{}", Payload::GtAttackAction(attack(0, 1, None))));
    for subject in ["a", "b", "b", "nobody"] {
        p.on_event(&node(Payload::MaReport(report(0, subject))));
    }
    let m = p.matrix(DetectionLevel::Report);
    assert_eq!(m.total(), 4);
    assert_eq!(m.tp + m.fn_, 2, "a and c");
    assert_eq!(m.tp + m.fp, 2, "a and b");
}

#[test]
fn a_lane_that_is_declared_late_is_no_longer_listed() {
    let mut p = SafetyProvider::new(0);
    p.on_event(&driving(0, 1, Some(42), 0, 20_000, None));
    p.on_event(&driving(1, 1, Some(42), 0, 20_000, None));
    assert!(p.undeclared_lanes().contains(&42));
    p.declare_lane_length(42, 100_000);
    assert!(!p.undeclared_lanes().contains(&42));
}

#[test]
fn a_very_long_latency_is_observed() {
    let mut p = LatencyProvider::new().with_min_samples(1);
    p.on_event(&both(Payload::NodeRx(stamped(0, 10_000_000_000_000_000))));
    assert_eq!(point(&p.flush(NS_PER_S), "e2e_latency"), Some(1e10));
}

#[test]
fn the_busy_threshold_is_not_rounded() {
    let load_at = |dbm: Real| {
        let mut p = LoadProvider::new(0).with_min_samples(1);
        p.on_event(&node(Payload::NodeRx(NodeRxView {
            rssi_dbm: Some(dbm),
            airtime_us: Some(500_000),
            ..fate(1, 2, RxFate::Delivered)
        })));
        point(&p.flush(NS_PER_S), "channel_load")
    };
    assert_eq!(load_at(q(-85, 1)), Some(0.5));
    assert_eq!(load_at(q(-85_004, 1_000)), None, "just below it");
}

#[test]
fn edies_aggregates_hold_for_long_intervals_and_lanes() {
    let mut p = SafetyProvider::new(0).with_min_samples(1).with_sample_interval(u64::MAX);
    p.declare_lane_length(7, u64::MAX);
    p.on_event(&driving(0, 1, Some(7), 0, 20_000, None));
    let s = p.flush(1_000_000_000);
    assert_eq!(point(&s, "flow|region=7"), Some(0.072));
    assert_eq!(point(&s, "density|region=7"), Some(0.001));
    assert_eq!(point(&s, "mean_speed|region=7"), Some(20.0));
}
