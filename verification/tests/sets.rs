#![allow(dead_code)]

use v2xw_metrics::basic::Visibility;
use v2xw_metrics::channels::{
    ByteBucket, ChannelView, DetObservationView, EventRecord, GtAttackActionView, GtKinematicsView,
    MaDecisionView, MaReportView, MacCbrView, NetBytesView, NetFragView, NodeRxView, NodeTelemetryView,
    NodeTxView, NodeVerifyView, Payload, PhyRxView, ProtoMsgView, ProtoRevocationView, RxFate, RxOutcome,
    SecCertView, VerifyOutcome, allowed_visibilities, decode, yes,
};
use v2xw_metrics::def::{MetricSample, SampleValue};
use v2xw_metrics::error::MetricError;
use v2xw_metrics::overhead::OverheadProvider;
use v2xw_metrics::provider::{MetricProvider, ModelRef, ProviderSet};
use v2xw_metrics::providers::{AnyProvider, all_providers};
use v2xw_metrics::quant::{Quantum, Real};
use v2xw_metrics::runtime::RuntimeProvider;
use v2xw_metrics::safety::SafetyProvider;

fn f(r: Real) -> f64 {
    r.num() as f64 / r.den() as f64
}

fn q(num: i128, den: u128) -> Real {
    Real::new(num, den)
}

fn record(visibility: Visibility, json: &str, payload: Payload) -> EventRecord {
    let channel = match &payload {
        Payload::NodeTx(_) => "node.tx",
        Payload::PhyRx(_) => "phy.rx",
        Payload::NodeRx(_) => "node.rx",
        Payload::MsgLatency(_) => "msg.latency",
        Payload::PhyPrr(_) => "phy.prr",
        Payload::MacCbr(_) => "mac.cbr",
        Payload::NetFrag(_) => "net.frag",
        Payload::NetReassembly(_) => "net.reassembly",
        Payload::NetBytes(_) => "net.bytes",
        Payload::ProtoMsg(_) => "proto.msg",
        Payload::NodeVerify(_) => "node.verify",
        Payload::NodeTelemetry(_) => "node.telemetry",
        Payload::SecCert(_) => "sec.cert",
        Payload::ProtoRevocation(_) => "proto.revocation",
        Payload::DetObservation(_) => "det.observation",
        Payload::MaReport(_) => "ma.report",
        Payload::MaDecision(_) => "ma.decision",
        Payload::GtKinematics(_) => "gt.kinematics",
        Payload::GtAttackAction(_) => "gt.attack.action",
        Payload::Unread(_) => "unread",
    };
    EventRecord { channel: channel.to_string(), visibility, json: json.as_bytes().to_vec(), payload }
}

/// A record of `channel` that could not be read.
fn unread(channel: &str) -> EventRecord {
    EventRecord {
        channel: channel.to_string(),
        visibility: Visibility::Node,
        json: b"{}".to_vec(),
        payload: Payload::Unread("missing field `t`".to_string()),
    }
}

fn node(payload: Payload) -> EventRecord {
    record(Visibility::Node, "{}", payload)
}

fn both(payload: Payload) -> EventRecord {
    record(Visibility::NodeAndGt, "{}", payload)
}

fn truth(json: &str, payload: Payload) -> EventRecord {
    record(Visibility::Gt, json, payload)
}

fn tx(t: u64, node: u32, bytes_on_wire: u64) -> NodeTxView {
    NodeTxView {
        t,
        node,
        msg: None,
        msg_type: None,
        bytes_on_wire,
        payload_bytes: None,
        envelope_bytes: None,
        spdu_bytes: None,
        net_header_bytes: None,
        link_bytes: None,
        cert_bytes: None,
        airtime_us: None,
        mcs: None,
        power_cdbm: None,
        channel: None,
        ac: None,
        dcc_state: None,
        signer: None,
        t_generated: None,
        t_signed: None,
    }
}

fn received(t_end: u64, rx: u32) -> PhyRxView {
    PhyRxView {
        t_start: 0,
        t_end,
        tx: None,
        rx,
        msg: None,
        rssi_dbm: None,
        sinr_cdb: None,
        outcome: RxOutcome::Received,
        cause: None,
        causes: vec![],
        dist_mm: None,
        candidate: yes(),
        payload_bytes: None,
    }
}

fn lost(t_end: u64, rx: u32, cause: Option<&str>) -> PhyRxView {
    PhyRxView {
        outcome: RxOutcome::Lost,
        cause: cause.map(str::to_string),
        ..received(t_end, rx)
    }
}

fn fate(t: u64, rx: u32, outcome: RxFate) -> NodeRxView {
    NodeRxView {
        t,
        rx,
        tx: None,
        msg: None,
        msg_type: None,
        outcome,
        cause: None,
        verification: None,
        rssi_dbm: None,
        sinr_cdb: None,
        dist_mm: None,
        bytes_on_wire: None,
        airtime_us: None,
        payload_bytes: None,
        t_generated: None,
        t_sign_start: None,
        t_signed: None,
        mac_aifs_ns: None,
        mac_backoff_ns: None,
        t_tx_start: None,
        t_tx_end: None,
        t_arrival: None,
        t_rx_done: None,
        t_verify_start: None,
        t_verify_done: None,
        t_delivered: None,
    }
}

fn cbr(t: u64, node: u32, cbr_e4: i64) -> MacCbrView {
    MacCbrView {
        t,
        node,
        channel: None,
        cbr_e4,
        busy_us: None,
        window_us: None,
        queue_depth: None,
        mac_drops: None,
        offered_bytes: None,
        offered_airtime_us: None,
    }
}

fn bytes_in(t: u64, id: Option<u64>, bucket: ByteBucket, bytes_on_wire: u64) -> NetBytesView {
    NetBytesView { t, id, bucket, bytes_on_wire, node: None }
}

fn proto(t: u64, msg: Option<u64>, bytes_on_wire: u64, transport: Option<ByteBucket>) -> ProtoMsgView {
    ProtoMsgView { t, from: None, to: None, flow: None, step: None, bytes_on_wire, transport, msg }
}

fn motion(t: u64, actor: u32, x_mm: i64, speed_mmps: i32) -> GtKinematicsView {
    GtKinematicsView {
        t,
        actor,
        x_mm,
        y_mm: 0,
        z_mm: None,
        speed_mmps,
        acc_mmps2: None,
        heading_mrad: None,
        lane: None,
        lane_pos_mm: None,
        class: None,
        node: None,
    }
}

fn attack(t: u64, actor: u32, msg: Option<u64>) -> GtAttackActionView {
    GtAttackActionView {
        t,
        actor,
        attacker: "ghost".to_string(),
        action: "false-position".to_string(),
        fields: vec![],
        changed_bytes_on_air: true,
        msg,
    }
}

fn report(t: u64, subject: &str) -> MaReportView {
    MaReportView {
        t,
        reporter: None,
        subject: subject.to_string(),
        detector: Some("d1".to_string()),
    }
}

fn decision(t: u64, subject: &str, decision: &str) -> MaDecisionView {
    MaDecisionView { t, subject: subject.to_string(), decision: decision.to_string() }
}

fn revocation(stage: &str, t: u64, id: &str) -> ProtoRevocationView {
    ProtoRevocationView {
        t,
        stage: stage.to_string(),
        id: id.to_string(),
        size_bytes: None,
        entries: None,
        node: None,
    }
}

fn verification(outcome: VerifyOutcome) -> NodeVerifyView {
    NodeVerifyView {
        t_enqueue: 0,
        t_start: None,
        t_done: None,
        node: 1,
        primitive: None,
        cost_us: None,
        outcome,
        policy: None,
        msg: None,
        queue_depth: None,
    }
}

const NS_PER_S: u64 = 1_000_000_000;

fn with(index: u32) -> Result<ModelRef, String> {
    Ok(ModelRef { index })
}

fn counting(channels: &[&str]) -> RuntimeProvider {
    RuntimeProvider::counting(channels.iter().map(|c| c.to_string()).collect())
}

#[test]
fn registration_keeps_the_answer_of_the_registry() {
    let mut set = ProviderSet::new();
    assert!(set.is_empty());
    let r = set.register(counting(&["node.tx"]), with(4)).unwrap();
    assert_eq!(r, ModelRef { index: 4 });
    assert_eq!(set.refs(), &vec![r]);
    assert_eq!(set.len(), 1);
}

#[test]
fn a_refused_card_is_not_taken_into_the_set() {
    let mut set = ProviderSet::new();
    let e = set.register(counting(&["node.tx"]), Err("the id is taken".to_string())).unwrap_err();
    match e {
        MetricError::Registry { id, problem } => {
            assert_eq!(id, RuntimeProvider::new().card().id);
            assert_eq!(problem, "the id is taken");
        }
        other => panic!("{other:?}"),
    }
    assert!(set.is_empty());
    assert!(set.channels().is_empty());
}

#[test]
fn dispatch_reaches_only_the_subscribers() {
    let mut set = ProviderSet::new();
    set.register(counting(&["node.tx"]), with(0)).unwrap();
    set.register(counting(&["phy.rx"]), with(1)).unwrap();
    assert_eq!(set.channels(), vec!["node.tx", "phy.rx"]);
    set.on_event(&unread("node.tx"));
    set.on_event(&unread("node.tx"));
    set.on_event(&unread("phy.rx"));
    set.on_event(&unread("mac.cbr"));
    let samples = set.flush(1_000);
    let counts: Vec<u64> = samples
        .iter()
        .filter(|s| s.metric == "events_processed")
        .map(|s| match s.value {
            SampleValue::Count { count } => count,
            _ => panic!("a count"),
        })
        .collect();
    assert_eq!(counts, vec![2, 1], "equal keys stay in the order of registration");
}

#[test]
fn flushing_twice_does_not_report_the_same_window_twice() {
    let mut set = ProviderSet::new();
    set.register(AnyProvider::Overhead(OverheadProvider::new(0)), with(0)).unwrap();
    set.on_event(&node(Payload::NodeTx(tx(1, 1, 100))));
    let frames = |samples: Vec<MetricSample>| {
        samples.iter().find(|s| s.key() == "link_overhead").map(|s| s.value.n())
    };
    assert_eq!(frames(set.flush(NS_PER_S)), Some(1));
    assert_eq!(frames(set.flush(2 * NS_PER_S)), None);
}

#[test]
fn the_catalog_is_sorted_by_name_not_by_registration_order() {
    let mut set = ProviderSet::new();
    set.register(AnyProvider::Safety(SafetyProvider::new(0)), with(0)).unwrap();
    set.register(AnyProvider::Overhead(OverheadProvider::new(0)), with(1)).unwrap();
    let names: Vec<String> = set.catalog().iter().map(|d| d.name.clone()).collect();
    let mut sorted = names.clone();
    sorted.sort();
    assert_eq!(names, sorted);
    assert!(names.contains(&"ttc_min".to_string()));
    assert!(names.contains(&"link_overhead".to_string()));
}

fn run(order: &[usize]) -> Vec<(String, u64, Vec<Real>)> {
    let mut set = ProviderSet::new();
    let mut providers: Vec<Option<AnyProvider>> = all_providers(0).into_iter().map(Some).collect();
    for (k, i) in order.iter().enumerate() {
        set.register(providers[*i].take().unwrap(), with(k as u32)).unwrap();
    }
    for i in 0..5u64 {
        set.on_event(&node(Payload::NodeTx(NodeTxView {
            airtime_us: Some(100 + i),
            ..tx(i, i as u32, 200 + i)
        })));
        set.on_event(&node(Payload::PhyRx(received(i, 2))));
        set.on_event(&truth("{}", Payload::GtKinematics(motion(i, 1, 1_000, 500))));
    }
    set.flush(NS_PER_S).iter().map(|s| (s.key(), s.t, s.floats())).collect()
}

#[test]
fn the_table_does_not_depend_on_the_order_of_registration() {
    let forward: Vec<usize> = (0..9).collect();
    let backward: Vec<usize> = (0..9).rev().collect();
    let table = run(&forward);
    assert!(table.len() > 40);
    assert_eq!(table, run(&backward));
    let mut sorted: Vec<(String, u64)> = table.iter().map(|(k, t, _)| (k.clone(), *t)).collect();
    sorted.sort();
    assert_eq!(sorted, table.iter().map(|(k, t, _)| (k.clone(), *t)).collect::<Vec<_>>());
}

#[test]
fn refused_records_are_summed_over_the_set() {
    let mut set = ProviderSet::new();
    for (i, p) in all_providers(0).into_iter().enumerate() {
        set.register(p, with(i as u32)).unwrap();
    }
    set.on_event(&unread("node.tx"));
    // The communication, load and overhead providers read it; the runtime provider counts it.
    assert_eq!(set.rejected_total(), 3);
}

#[test]
fn a_definition_is_found_by_its_name() {
    let p = SafetyProvider::new(0);
    assert_eq!(p.def("drac").unwrap().unit, "m/s²");
    assert!(p.def("no_such_metric").is_none());
}

#[test]
fn a_view_reads_only_the_fields_it_needs() {
    let r = node(Payload::NodeTx(NodeTxView { airtime_us: Some(600), ..tx(1000, 3, 400) }));
    let v: &NodeTxView = decode(&r).unwrap();
    assert_eq!(v.node, 3);
    assert_eq!(v.bytes_on_wire, 400);
    assert_eq!(v.airtime_us, Some(600));
    assert_eq!(v.payload_bytes, None, "absent means absent, not zero");
}

#[test]
fn a_record_from_another_channel_is_refused() {
    let r = node(Payload::MacCbr(cbr(1, 0, 3_000)));
    let e = decode::<NodeTxView>(&r).unwrap_err();
    assert!(matches!(e, MetricError::ChannelMismatch { .. }));
}

#[test]
fn malformed_json_names_the_channel() {
    let r = unread("mac.cbr");
    let e = decode::<MacCbrView>(&r).unwrap_err();
    assert!(matches!(e, MetricError::Decode { ref channel, .. } if channel == "mac.cbr"));
}

#[test]
fn a_reception_defaults_to_being_a_candidate() {
    let v = received(10, 2);
    assert!(v.candidate);
    assert!(v.all_causes().is_empty());
    let v = PhyRxView { candidate: false, ..lost(10, 2, Some("collision")) };
    assert!(!v.candidate);
    assert_eq!(v.all_causes(), vec!["collision"]);
}

#[test]
fn the_bucket_names_match_the_metric_names_of_08_measurement() {
    assert_eq!(ByteBucket::Air.metric_name(), "bytes_air");
    assert_eq!(ByteBucket::CellularUl.metric_name(), "bytes_uu_ul");
    assert_eq!(ByteBucket::CellularDl.metric_name(), "bytes_uu_dl");
    assert_eq!(ByteBucket::Backhaul.metric_name(), "bytes_backhaul");
    assert_eq!(ByteBucket::Backend.metric_name(), "bytes_backend");
    assert_eq!(ByteBucket::all().len(), 5);
}

#[test]
fn the_visibility_table_is_sorted_and_covers_the_channels_this_crate_reads() {
    for channel in [
        "node.tx",
        "phy.rx",
        "mac.cbr",
        "net.frag",
        "net.bytes",
        "node.verify",
        "node.telemetry",
        "sec.cert",
        "proto.msg",
        "proto.revocation",
        "det.observation",
        "ma.report",
        "ma.decision",
        "gt.kinematics",
        "gt.attack.action",
    ] {
        assert!(
            allowed_visibilities(channel).is_some(),
            "{channel} is missing from the visibility table"
        );
    }
    assert_eq!(
        allowed_visibilities("phy.rx"),
        Some(vec![Visibility::Node, Visibility::NodeAndGt])
    );
    assert_eq!(allowed_visibilities("a.plugin.invented.this"), None);
}

#[test]
fn channel_names_match_03_interfaces_section_14() {
    assert_eq!(NodeTxView::channel_name(), "node.tx");
    assert_eq!(PhyRxView::channel_name(), "phy.rx");
    assert_eq!(MacCbrView::channel_name(), "mac.cbr");
    assert_eq!(NetFragView::channel_name(), "net.frag");
    assert_eq!(NodeVerifyView::channel_name(), "node.verify");
    assert_eq!(SecCertView::channel_name(), "sec.cert");
    assert_eq!(ProtoRevocationView::channel_name(), "proto.revocation");
    assert_eq!(DetObservationView::channel_name(), "det.observation");
    assert_eq!(GtKinematicsView::channel_name(), "gt.kinematics");
    assert_eq!(GtAttackActionView::channel_name(), "gt.attack.action");
    assert_eq!(ProtoMsgView::channel_name(), "proto.msg");
    assert_eq!(NodeTelemetryView::channel_name(), "node.telemetry");
    assert_eq!(MaDecisionView::channel_name(), "ma.decision");
    assert_eq!(MaReportView::channel_name(), "ma.report");
}

#[test]
fn a_table_is_sorted_by_key_against_the_order_of_registration() {
    let mut set = ProviderSet::new();
    set.register(AnyProvider::Safety(SafetyProvider::new(0).with_min_samples(1)), with(0)).unwrap();
    set.register(AnyProvider::Overhead(OverheadProvider::new(0)), with(1)).unwrap();
    set.on_event(&record(Visibility::Gt, "{}", Payload::GtKinematics(motion(1, 1, 0, 20_000))));
    set.on_event(&record(Visibility::Gt, "{}", Payload::GtKinematics(motion(1, 2, 50_000, 10_000))));
    set.on_event(&node(Payload::NodeTx(tx(1, 1, 100))));
    set.on_event(&unread("mac.cbr"));
    let samples = set.flush(1_000);
    let keys: Vec<String> = samples.iter().map(MetricSample::key).collect();
    let mut sorted = keys.clone();
    sorted.sort();
    assert_eq!(keys, sorted);
    let at = |key: &str| keys.iter().position(|k| k == key).unwrap();
    assert!(at("link_overhead") < at("speed"), "though it was registered later");
    assert_eq!(samples[at("link_overhead")].value.n(), 1, "one transmission");
    assert_eq!(samples[at("speed")].value.n(), 2, "two actors");
    assert_eq!(set.rejected_total(), 0, "nobody reads the other record");
}

#[test]
fn an_unread_record_says_what_the_parser_said() {
    let e = decode::<MacCbrView>(&unread("mac.cbr")).unwrap_err();
    assert_eq!(
        e.to_text(),
        "channel mac.cbr: record does not decode against the reader-side view: missing field `t`"
    );
}

#[test]
fn a_diagnostic_in_a_digest_is_named() {
    let e = MetricError::DiagnosticInDigest { name: "events_per_second".to_string() };
    assert_eq!(
        e.to_text(),
        "metric events_per_second is a runtime diagnostic and may not enter a digested artefact"
    );
    let e = MetricError::Json { problem: "EOF while parsing".to_string() };
    assert_eq!(e.to_text(), "json: EOF while parsing");
}
