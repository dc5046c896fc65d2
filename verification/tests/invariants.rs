#![allow(dead_code)]

use v2xw_metrics::basic::Visibility;
use v2xw_metrics::card::{Equation, Family, ModelCard, Parameter, Source, SourceKind};
use v2xw_metrics::channels::{
    ByteBucket, CensusBin, EventRecord, GtAttackActionView, GtKinematicsView, MaDecisionView, MaReportView,
    MacCbrView, NetBytesView, NodeRxView, NodeTxView, NodeVerifyView, Payload, PhyPrrView, PhyRxView,
    ProtoMsgView, ProtoRevocationView, RxFate, RxOutcome, VerifyOutcome, yes,
};
use v2xw_metrics::def::{Agg, Dim, DimValue, Dims, MetricDef, MetricSample, SampleValue, no_dims, one_dim};
use v2xw_metrics::distribution::Distribution;
use v2xw_metrics::error::MetricError;
use v2xw_metrics::invariants::{
    InvariantOutcome, Number, bucket_totals, check_all, check_d9_quantisation, check_i_c1, check_i_m1,
    check_i_n1, check_i_n2, check_i_p4, check_i_r3, check_i_s1, check_i_t2, check_i_t3, check_m_byte1,
    check_m_byte2, check_m_lat1, check_m_prr, check_m_rx1, check_m_share, check_metric_ranges, truncate,
};
use v2xw_metrics::ledger::{EventLedger, Tag};
use v2xw_metrics::quant::{Quantum, Real};
use v2xw_metrics::security::stage_rank;
use v2xw_metrics::stats::{ConfidenceLevel, Estimate, Proportion, ratio_of_sums};

fn f(r: Real) -> f64 {
    r.num() as f64 / r.den() as f64
}

fn q(num: i128, den: u128) -> Real {
    Real::new(num, den)
}

fn record(visibility: Visibility, json: &str, payload: Payload) -> EventRecord {
    let channel = match &payload {
        Payload::NodeTx(_) => "node.tx",
        Payload::PhyRx(_) => "phy.rx",
        Payload::NodeRx(_) => "node.rx",
        Payload::MsgLatency(_) => "msg.latency",
        Payload::PhyPrr(_) => "phy.prr",
        Payload::MacCbr(_) => "mac.cbr",
        Payload::NetFrag(_) => "net.frag",
        Payload::NetReassembly(_) => "net.reassembly",
        Payload::NetBytes(_) => "net.bytes",
        Payload::ProtoMsg(_) => "proto.msg",
        Payload::NodeVerify(_) => "node.verify",
        Payload::NodeTelemetry(_) => "node.telemetry",
        Payload::SecCert(_) => "sec.cert",
        Payload::ProtoRevocation(_) => "proto.revocation",
        Payload::DetObservation(_) => "det.observation",
        Payload::MaReport(_) => "ma.report",
        Payload::MaDecision(_) => "ma.decision",
        Payload::GtKinematics(_) => "gt.kinematics",
        Payload::GtAttackAction(_) => "gt.attack.action",
        Payload::Unread(_) => "unread",
    };
    EventRecord { channel: channel.to_string(), visibility, json: json.as_bytes().to_vec(), payload }
}

/// A record of `channel` that could not be read.
fn unread(channel: &str) -> EventRecord {
    EventRecord {
        channel: channel.to_string(),
        visibility: Visibility::Node,
        json: b"{}".to_vec(),
        payload: Payload::Unread("missing field `t`".to_string()),
    }
}

fn node(payload: Payload) -> EventRecord {
    record(Visibility::Node, "{}", payload)
}

fn both(payload: Payload) -> EventRecord {
    record(Visibility::NodeAndGt, "{}", payload)
}

fn truth(json: &str, payload: Payload) -> EventRecord {
    record(Visibility::Gt, json, payload)
}

fn tx(t: u64, node: u32, bytes_on_wire: u64) -> NodeTxView {
    NodeTxView {
        t,
        node,
        msg: None,
        msg_type: None,
        bytes_on_wire,
        payload_bytes: None,
        envelope_bytes: None,
        spdu_bytes: None,
        net_header_bytes: None,
        link_bytes: None,
        cert_bytes: None,
        airtime_us: None,
        mcs: None,
        power_cdbm: None,
        channel: None,
        ac: None,
        dcc_state: None,
        signer: None,
        t_generated: None,
        t_signed: None,
    }
}

fn received(t_end: u64, rx: u32) -> PhyRxView {
    PhyRxView {
        t_start: 0,
        t_end,
        tx: None,
        rx,
        msg: None,
        rssi_dbm: None,
        sinr_cdb: None,
        outcome: RxOutcome::Received,
        cause: None,
        causes: vec![],
        dist_mm: None,
        candidate: yes(),
        payload_bytes: None,
    }
}

fn lost(t_end: u64, rx: u32, cause: Option<&str>) -> PhyRxView {
    PhyRxView {
        outcome: RxOutcome::Lost,
        cause: cause.map(str::to_string),
        ..received(t_end, rx)
    }
}

fn fate(t: u64, rx: u32, outcome: RxFate) -> NodeRxView {
    NodeRxView {
        t,
        rx,
        tx: None,
        msg: None,
        msg_type: None,
        outcome,
        cause: None,
        verification: None,
        rssi_dbm: None,
        sinr_cdb: None,
        dist_mm: None,
        bytes_on_wire: None,
        airtime_us: None,
        payload_bytes: None,
        t_generated: None,
        t_sign_start: None,
        t_signed: None,
        mac_aifs_ns: None,
        mac_backoff_ns: None,
        t_tx_start: None,
        t_tx_end: None,
        t_arrival: None,
        t_rx_done: None,
        t_verify_start: None,
        t_verify_done: None,
        t_delivered: None,
    }
}

fn cbr(t: u64, node: u32, cbr_e4: i64) -> MacCbrView {
    MacCbrView {
        t,
        node,
        channel: None,
        cbr_e4,
        busy_us: None,
        window_us: None,
        queue_depth: None,
        mac_drops: None,
        offered_bytes: None,
        offered_airtime_us: None,
    }
}

fn bytes_in(t: u64, id: Option<u64>, bucket: ByteBucket, bytes_on_wire: u64) -> NetBytesView {
    NetBytesView { t, id, bucket, bytes_on_wire, node: None }
}

fn proto(t: u64, msg: Option<u64>, bytes_on_wire: u64, transport: Option<ByteBucket>) -> ProtoMsgView {
    ProtoMsgView { t, from: None, to: None, flow: None, step: None, bytes_on_wire, transport, msg }
}

fn motion(t: u64, actor: u32, x_mm: i64, speed_mmps: i32) -> GtKinematicsView {
    GtKinematicsView {
        t,
        actor,
        x_mm,
        y_mm: 0,
        z_mm: None,
        speed_mmps,
        acc_mmps2: None,
        heading_mrad: None,
        lane: None,
        lane_pos_mm: None,
        class: None,
        node: None,
    }
}

fn attack(t: u64, actor: u32, msg: Option<u64>) -> GtAttackActionView {
    GtAttackActionView {
        t,
        actor,
        attacker: "ghost".to_string(),
        action: "false-position".to_string(),
        fields: vec![],
        changed_bytes_on_air: true,
        msg,
    }
}

fn report(t: u64, subject: &str) -> MaReportView {
    MaReportView {
        t,
        reporter: None,
        subject: subject.to_string(),
        detector: Some("d1".to_string()),
    }
}

fn decision(t: u64, subject: &str, decision: &str) -> MaDecisionView {
    MaDecisionView { t, subject: subject.to_string(), decision: decision.to_string() }
}

fn revocation(stage: &str, t: u64, id: &str) -> ProtoRevocationView {
    ProtoRevocationView {
        t,
        stage: stage.to_string(),
        id: id.to_string(),
        size_bytes: None,
        entries: None,
        node: None,
    }
}

fn verification(outcome: VerifyOutcome) -> NodeVerifyView {
    NodeVerifyView {
        t_enqueue: 0,
        t_start: None,
        t_done: None,
        node: 1,
        primitive: None,
        cost_us: None,
        outcome,
        policy: None,
        msg: None,
        queue_depth: None,
    }
}

fn ledger(records: Vec<EventRecord>) -> EventLedger {
    let mut l = EventLedger::new();
    l.ingest_all(records);
    l
}

fn texts(o: &InvariantOutcome) -> Vec<String> {
    o.violations.iter().map(|v| v.to_text()).collect()
}

fn number(o: &InvariantOutcome, i: usize, name: &str) -> Option<Number> {
    o.violations[i].numbers.get(&name.to_string()).copied()
}

fn good_rx(ok: bool) -> EventRecord {
    if ok {
        both(Payload::PhyRx(received(1, 1)))
    } else {
        both(Payload::PhyRx(lost(1, 1, Some("collision"))))
    }
}

#[test]
fn i_r3_holds_on_a_well_formed_run() {
    let l = ledger(vec![good_rx(true), good_rx(false)]);
    let o = check_i_r3(&l);
    assert!(o.held(), "{:?}", texts(&o));
    assert_eq!(o.checked, 2);
}

#[test]
fn i_r3_detects_a_loss_with_no_cause() {
    let l = ledger(vec![both(Payload::PhyRx(lost(1, 7, None)))]);
    let o = check_i_r3(&l);
    assert!(!o.held());
    assert_eq!(o.violations[0].id, "I-R3");
    assert_eq!(number(&o, 0, "causes"), Some(Number::Int(0)));
    assert!(o.violations[0].detail.contains("exactly one cause"));
}

#[test]
fn i_r3_detects_a_loss_with_two_causes() {
    let mut v = lost(1, 7, Some("collision"));
    v.causes = vec!["hidden-terminal".to_string()];
    let o = check_i_r3(&ledger(vec![both(Payload::PhyRx(v))]));
    assert!(!o.held());
    assert_eq!(number(&o, 0, "causes"), Some(Number::Int(2)));
}

#[test]
fn i_r3_detects_a_received_frame_carrying_a_cause() {
    let mut v = received(1, 7);
    v.cause = Some("collision".to_string());
    assert!(!check_i_r3(&ledger(vec![both(Payload::PhyRx(v))])).held());
}

#[test]
fn i_r3_detects_partial_airtime_accounting() {
    let l = ledger(vec![
        node(Payload::NodeTx(NodeTxView { channel: Some(180), airtime_us: Some(600), ..tx(0, 1, 100) })),
        node(Payload::NodeTx(NodeTxView { channel: Some(180), ..tx(1, 1, 100) })),
    ]);
    let o = check_i_r3(&l);
    assert!(!o.held());
    assert!(o.violations[0].detail.contains("partial"), "{}", o.violations[0].detail);
    assert_eq!(number(&o, 0, "with_airtime"), Some(Number::Int(1)));
    assert_eq!(number(&o, 0, "without_airtime"), Some(Number::Int(1)));
}

#[test]
fn i_r3_detects_busy_time_that_does_not_cover_a_nodes_own_transmissions() {
    let l = ledger(vec![
        node(Payload::NodeTx(NodeTxView { channel: Some(180), airtime_us: Some(10_000), ..tx(0, 1, 100) })),
        node(Payload::MacCbr(MacCbrView {
            channel: Some(180),
            busy_us: Some(5_000),
            window_us: Some(100_000),
            ..cbr(100_000_000, 1, 500)
        })),
    ]);
    let o = check_i_r3(&l);
    assert!(!o.held());
    let i = o
        .violations
        .iter()
        .position(|v| v.detail.contains("hears itself"))
        .expect("the busy-time violation");
    assert_eq!(number(&o, i, "missing_us"), Some(Number::Int(5_000)));
}

#[test]
fn i_n1_holds_when_every_byte_has_one_bucket() {
    let l = ledger(vec![
        node(Payload::NodeTx(NodeTxView { msg: Some(1), ..tx(0, 1, 400) })),
        node(Payload::NetBytes(bytes_in(1, Some(2), ByteBucket::Backhaul, 1000))),
    ]);
    let o = check_i_n1(&l);
    assert!(o.held(), "{:?}", texts(&o));
    assert_eq!(o.checked, 2);
    let totals = bucket_totals(&l);
    assert_eq!(totals.get(&ByteBucket::Air), 400);
    assert_eq!(totals.get(&ByteBucket::Backhaul), 1000);
}

#[test]
fn i_n1_detects_one_frame_attributed_to_two_buckets() {
    let l = ledger(vec![
        node(Payload::NodeTx(NodeTxView { msg: Some(42), ..tx(0, 1, 400) })),
        node(Payload::NetBytes(bytes_in(1, Some(42), ByteBucket::Backhaul, 400))),
    ]);
    let o = check_i_n1(&l);
    assert!(!o.held());
    assert_eq!(o.violations[0].id, "I-N1");
    assert_eq!(o.violations[0].subject.as_deref(), Some("id 42"));
    assert_eq!(number(&o, 0, "air"), Some(Number::Int(400)));
    assert_eq!(number(&o, 0, "backhaul"), Some(Number::Int(400)));
}

#[test]
fn i_n1_detects_an_attribution_with_no_id() {
    let o = check_i_n1(&ledger(vec![node(Payload::NetBytes(bytes_in(1, None, ByteBucket::Backend, 700)))]));
    assert!(!o.held());
    assert_eq!(number(&o, 0, "bytes"), Some(Number::Int(700)));
}

#[test]
fn i_n1_detects_a_protocol_message_with_no_transport() {
    assert!(!check_i_n1(&ledger(vec![node(Payload::ProtoMsg(proto(1, Some(9), 250, None)))])).held());
}

fn fragmenter_card(with_timeout: bool, with_amplification: bool) -> ModelCard {
    let mut card = ModelCard::new("net/fragmenter/test", Family::Fragmenter, "1.0.0", "A fragmenter.");
    if with_timeout {
        card.parameters.push(Parameter {
            name: "reassembly_timeout_ms".to_string(),
            unit: "ms".to_string(),
            default: "1000".to_string(),
            range: None,
            source: Source {
                kind: SourceKind::Standard,
                reference: "ETSI EN 302 636-4-1".to_string(),
                accessed: None,
                note: None,
            },
            calibration: None,
        });
    }
    if with_amplification {
        card.equations.push(Equation::new(
            "loss_amplification",
            "P(SDU lost) = 1 − (1 − p)^n for n fragments",
        ));
    }
    card
}

#[test]
fn i_n2_holds_for_a_complete_fragmenter_card() {
    let o = check_i_n2(&fragmenter_card(true, true));
    assert!(o.held(), "{:?}", texts(&o));
    assert_eq!(o.checked, 1);
}

#[test]
fn i_n2_detects_a_missing_timeout_and_a_missing_amplification() {
    let o = check_i_n2(&fragmenter_card(false, false));
    assert_eq!(o.violations.len(), 2);
    assert!(o.violations.iter().any(|v| v.detail.contains("timeout")));
    assert!(o.violations.iter().any(|v| v.detail.contains("amplification")));
}

#[test]
fn i_n2_reads_a_card_whatever_its_capitals() {
    let mut card = fragmenter_card(false, false);
    card.parameters = fragmenter_card(true, false).parameters;
    card.parameters[0].name = "Reassembly_TIMEOUT".to_string();
    card.limitations.push("Loss AMPLIFICATION is not modelled beyond this.".to_string());
    let o = check_i_n2(&card);
    assert!(o.held(), "{:?}", texts(&o));
}

#[test]
fn i_n2_skips_a_card_of_another_family() {
    let card = ModelCard::new("radio/phy/test", Family::Phy, "1.0.0", "A PHY.");
    let o = check_i_n2(&card);
    assert!(o.held());
    assert!(o.skipped.is_some());
}

fn kin(t: u64, actor: u32) -> EventRecord {
    truth(
        &format!(r#"{{"t":{t},"actor":{actor},"x_m":0.0,"y_m":0.0,"speed_mps":1.0}}"#),
        Payload::GtKinematics(motion(t, actor, 0, 1_000)),
    )
}

#[test]
fn i_m1_holds_when_each_step_is_in_actor_order() {
    let l = ledger(vec![kin(0, 1), kin(0, 2), kin(0, 7), kin(100, 1), kin(100, 5)]);
    let o = check_i_m1(&l);
    assert!(o.held(), "{:?}", texts(&o));
    assert_eq!(o.checked, 2, "two frames");
}

#[test]
fn i_m1_detects_an_out_of_order_step() {
    let l = ledger(vec![kin(0, 1), kin(0, 7), kin(0, 2)]);
    let o = check_i_m1(&l);
    assert!(!o.held());
    assert_eq!(number(&o, 0, "previous_actor"), Some(Number::Int(7)));
    assert_eq!(number(&o, 0, "this_actor"), Some(Number::Int(2)));
    assert_eq!(o.violations[0].subject.as_deref(), Some("t=0"));
}

fn stage(stage: &str, t: u64, id: &str) -> EventRecord {
    record(Visibility::Public, "{}", Payload::ProtoRevocation(revocation(stage, t, id)))
}

#[test]
fn i_p4_holds_for_a_well_formed_revocation() {
    let l = ledger(vec![
        stage("detect", 0, "r1"),
        stage("decision", 1_000, "r1"),
        stage("issued", 2_000, "r1"),
        stage("published", 3_000, "r1"),
    ]);
    let o = check_i_p4(&l);
    assert!(o.held(), "{:?}", texts(&o));
    assert_eq!(o.checked, 1);
}

#[test]
fn i_p4_detects_a_stage_out_of_order() {
    let l = ledger(vec![
        stage("decision", 5_000, "r1"),
        stage("issued", 6_000, "r1"),
        stage("published", 1_000, "r1"),
    ]);
    let o = check_i_p4(&l);
    assert!(!o.held());
    let i = o
        .violations
        .iter()
        .position(|v| v.detail.contains("before the earlier stage"))
        .expect("the ordering violation");
    assert_eq!(number(&o, i, "t_from"), Some(Number::Int(6_000)));
    assert_eq!(number(&o, i, "t_to"), Some(Number::Int(1_000)));
}

#[test]
fn i_p4_detects_a_published_revocation_with_no_decision() {
    let o = check_i_p4(&ledger(vec![stage("issued", 1_000, "r1"), stage("published", 2_000, "r1")]));
    assert!(!o.held());
    assert!(o.violations[0].detail.contains("never emitted `decision`"));
}

#[test]
fn the_stage_names_the_i_p4_clause_keys_on_are_declared_stages() {
    for stage in ["published", "decision", "issued"] {
        assert!(
            stage_rank(stage).is_some(),
            "`{stage}` is no longer a declared stage, which disables an I-P4 clause"
        );
    }
    assert!(stage_rank("published").unwrap() < usize::MAX);
}

#[test]
fn i_p4_detects_an_invented_stage() {
    let o = check_i_p4(&ledger(vec![stage("thought-about-it", 1_000, "r1")]));
    assert!(!o.held());
    assert!(o.violations[0].detail.contains("not one of the stage ids"));
}

#[test]
fn i_t2_holds_when_every_record_carries_its_channels_tag() {
    let l = ledger(vec![
        node(Payload::NodeTx(tx(0, 1, 100))),
        good_rx(true),
        kin(0, 1),
        stage("detect", 0, "r1"),
    ]);
    let o = check_i_t2(&l);
    assert!(o.held(), "{:?}", texts(&o));
}

#[test]
fn i_t2_detects_ground_truth_on_a_node_channel() {
    let o = check_i_t2(&ledger(vec![truth("{}", Payload::NodeTx(tx(0, 1, 100)))]));
    assert!(!o.held());
    assert!(
        o.violations.iter().any(|v| v.detail.contains("reached a NODE channel")),
        "{:?}",
        texts(&o)
    );
}

#[test]
fn i_t2_reports_an_unlisted_channel_rather_than_judging_it() {
    let o = check_i_t2(&ledger(vec![unread("a.plugin.invented.this")]));
    assert!(!o.held());
    assert!(o.violations[0].detail.contains("not in 03-interfaces.md §14"));
}

#[test]
fn i_t3_holds_when_every_on_air_action_names_a_real_transmission() {
    let l = ledger(vec![
        node(Payload::NodeTx(NodeTxView { msg: Some(5), ..tx(0, 1, 300) })),
        truth("{}", Payload::GtAttackAction(attack(0, 1, Some(5)))),
    ]);
    let o = check_i_t3(&l);
    assert!(o.held(), "{:?}", texts(&o));
    assert_eq!(o.checked, 1);
}

#[test]
fn i_t3_detects_an_action_that_names_no_message() {
    let l = ledger(vec![
        node(Payload::NodeTx(NodeTxView { msg: Some(5), ..tx(0, 1, 300) })),
        truth("{}", Payload::GtAttackAction(attack(0, 1, None))),
    ]);
    let o = check_i_t3(&l);
    assert!(!o.held());
    assert!(o.violations[0].detail.contains("names no message"));
}

#[test]
fn i_t3_detects_an_action_whose_message_was_never_transmitted() {
    let l = ledger(vec![
        node(Payload::NodeTx(NodeTxView { msg: Some(5), ..tx(0, 1, 300) })),
        truth("{}", Payload::GtAttackAction(attack(0, 1, Some(99)))),
    ]);
    let o = check_i_t3(&l);
    assert!(!o.held());
    assert_eq!(number(&o, 0, "msg"), Some(Number::Int(99)));
}

#[test]
fn i_t3_skips_a_passive_attacker() {
    let passive = GtAttackActionView { changed_bytes_on_air: false, ..attack(0, 1, None) };
    let o = check_i_t3(&ledger(vec![truth("{}", Payload::GtAttackAction(passive))]));
    assert!(o.held());
    assert!(o.skipped.is_some());
}

fn verify(outcome: VerifyOutcome) -> EventRecord {
    node(Payload::NodeVerify(verification(outcome)))
}

#[test]
fn i_s1_holds_when_the_two_modes_agree() {
    let a = ledger(vec![verify(VerifyOutcome::Valid), verify(VerifyOutcome::Invalid)]);
    let b = ledger(vec![verify(VerifyOutcome::Valid), verify(VerifyOutcome::Invalid)]);
    let o = check_i_s1(&a, &b);
    assert!(o.held(), "{:?}", texts(&o));
}

#[test]
fn i_s1_detects_a_differing_outcome_and_names_the_index() {
    let a = ledger(vec![verify(VerifyOutcome::Valid), verify(VerifyOutcome::Valid)]);
    let b = ledger(vec![verify(VerifyOutcome::Valid), verify(VerifyOutcome::Invalid)]);
    let o = check_i_s1(&a, &b);
    assert!(!o.held());
    assert_eq!(o.violations[0].subject.as_deref(), Some("node.verify[1]"));
    assert_eq!(number(&o, 0, "index"), Some(Number::Int(1)));
}

#[test]
fn i_s1_detects_a_differing_size() {
    let a = ledger(vec![node(Payload::NodeTx(tx(0, 1, 400)))]);
    let b = ledger(vec![node(Payload::NodeTx(tx(0, 1, 401)))]);
    let o = check_i_s1(&a, &b);
    assert!(!o.held());
    assert_eq!(number(&o, 0, "modeled_bytes"), Some(Number::Int(400)));
    assert_eq!(number(&o, 0, "real_bytes"), Some(Number::Int(401)));
}

#[test]
fn i_c1_holds_for_two_identical_runs() {
    let o = check_i_c1(&vec![kin(0, 1), good_rx(true)], &vec![kin(0, 1), good_rx(true)]);
    assert!(o.held(), "{:?}", texts(&o));
    assert_eq!(o.checked, 2);
}

#[test]
fn i_c1_detects_a_single_differing_byte() {
    let o = check_i_c1(&vec![kin(0, 1)], &vec![kin(0, 2)]);
    assert!(!o.held());
    assert!(o.violations[0].detail.contains("different bytes"));
    assert_eq!(number(&o, 0, "index"), Some(Number::Int(0)));
}

#[test]
fn i_c1_detects_a_differing_record_count_and_a_differing_tag() {
    let o = check_i_c1(&vec![kin(0, 1), kin(0, 2)], &vec![kin(0, 1)]);
    assert!(!o.held());
    assert_eq!(number(&o, 0, "run_a"), Some(Number::Int(2)));

    let mut tagged = kin(0, 1);
    tagged.visibility = Visibility::Node;
    let o = check_i_c1(&vec![kin(0, 1)], &vec![tagged]);
    assert!(!o.held());
    assert!(o.violations[0].detail.contains("tagged this record differently"));
}

#[test]
fn a_long_record_is_quoted_in_part() {
    assert_eq!(truncate(&b"short".to_vec()), "short");
    let long = "é".repeat(300);
    let cut = truncate(&long.as_bytes().to_vec());
    assert_eq!(cut.chars().count(), 200);
    assert!(cut.ends_with('…'));
    assert_eq!(truncate(&vec![0x61, 0xff, 0x62]), "a\u{fffd}b", "what is not text is replaced");
}

fn a_def() -> MetricDef {
    MetricDef::new("pdr", "ratio", Agg::Mean, Visibility::Node, Quantum::ratio(), "A test metric.")
        .not_accounting_for("being real")
}

#[test]
fn d9_holds_for_samples_built_the_normal_way() {
    let s = vec![MetricSample::new(
        &a_def(),
        0,
        no_dims(),
        SampleValue::Scalar(Estimate::Value { point: q(1, 3), n: 9 }),
    )];
    let o = check_d9_quantisation(&s);
    assert!(o.held(), "{:?}", texts(&o));
    assert_eq!(o.checked, 1);
}

#[test]
fn d9_detects_an_unquantised_float_that_bypassed_the_constructor() {
    let mut s = MetricSample::new(
        &a_def(),
        0,
        no_dims(),
        SampleValue::Scalar(Estimate::Value { point: q(1, 2), n: 9 }),
    );
    s.value = SampleValue::Scalar(Estimate::Value { point: q(1, 3), n: 9 });
    let o = check_d9_quantisation(&vec![s]);
    assert!(!o.held());
    assert_eq!(o.violations[0].id, "D9");
    assert!(
        o.violations[0].detail.contains("off the declared grid"),
        "{}",
        o.violations[0].detail
    );
}

#[test]
fn d9_detects_a_value_quantised_onto_the_wrong_declared_grid() {
    let def = a_def();
    assert_eq!(def.quantum, Quantum::ratio(), "the case needs the 1e-4 grid");
    let mut s = MetricSample::new(
        &def,
        0,
        no_dims(),
        SampleValue::Scalar(Estimate::Value { point: q(1, 2), n: 9 }),
    );
    let wrong = Quantum::probability().quantise(q(1, 3));
    assert_eq!(f(wrong), 0.333_333);
    assert!(
        Quantum::probability().holds(wrong) && !Quantum::ratio().holds(wrong),
        "the injected value must be on the finer grid and off the declared one"
    );
    s.value = SampleValue::Scalar(Estimate::Value { point: wrong, n: 9 });
    let o = check_d9_quantisation(&vec![s]);
    assert!(!o.held(), "a wrongly quantised value must be a violation");
    assert_eq!(o.violations.len(), 1);
    match number(&o, 0, "quantum") {
        Some(Number::Real(x)) => assert_eq!(f(x), 1e-4),
        other => panic!("{other:?}"),
    }
    assert!(o.violations[0].detail.contains("0.333333"), "{}", o.violations[0].detail);
}

#[test]
fn d9_accepts_the_finer_grids_the_writer_itself_uses() {
    let def = MetricDef::new(
        "rssi_ratio",
        "db",
        Agg::Mean,
        Visibility::Node,
        Quantum::db(),
        "A test metric on the coarse dB grid.",
    )
    .not_accounting_for("being real");
    let bounded = Proportion::from_counts(30, 40)
        .estimate(1, ConfidenceLevel::P95)
        .with_interval(q(598_073_4, 10_000_000), q(858_110_2, 10_000_000));
    let proportion = MetricSample::new(&def, 0, no_dims(), SampleValue::Ratio(bounded));
    let sums = MetricSample::new(
        &def,
        0,
        no_dims(),
        SampleValue::Ratio(ratio_of_sums(q(1, 3), q(7, 1), q(1, 21), 40, 1)),
    );
    assert!(proportion
        .floats()
        .iter()
        .any(|x| !Quantum::db().holds(*x) && Quantum::probability().holds(*x)));
    assert!(sums.floats().iter().any(|x| !Quantum::db().holds(*x) && Quantum::sum().holds(*x)));
    let o = check_d9_quantisation(&vec![proportion, sums]);
    assert!(o.held(), "{:?}", texts(&o));
    assert_eq!(o.checked, 6);
}

#[test]
fn check_all_runs_every_single_run_check_in_identifier_order() {
    let l = ledger(vec![
        node(Payload::NodeTx(NodeTxView { msg: Some(1), airtime_us: Some(600), ..tx(0, 1, 400) })),
        good_rx(true),
        kin(0, 1),
        stage("detect", 0, "r1"),
    ]);
    let report = check_all(&l, &vec![]);
    assert_eq!(
        report.outcomes.iter().map(|o| o.id.as_str()).collect::<Vec<_>>(),
        vec![
            "I-M1", "I-N1", "I-P4", "I-R3", "I-T2", "I-T3", "M-BYTE1", "M-BYTE2", "M-LAT1", "M-PRR", "M-RX1",
            "M-SHARE", "D9"
        ]
    );
    assert!(report.held(), "{:?}", report.failed());
    report.assert_all().unwrap();
    let skipped = report.skipped();
    assert!(skipped.iter().any(|(id, _)| *id == "I-T3"));
    assert!(skipped.iter().any(|(id, _)| *id == "D9"));
}

#[test]
fn assert_all_names_every_violation_with_its_numbers() {
    let l = ledger(vec![
        both(Payload::PhyRx(lost(1, 7, None))),
        node(Payload::NetBytes(bytes_in(1, None, ByteBucket::Backend, 700))),
    ]);
    let report = check_all(&l, &vec![]);
    assert!(!report.held());
    let mut failed = report.failed();
    failed.sort_unstable();
    assert_eq!(failed, vec!["I-N1", "I-R3"]);
    let e = report.assert_all().unwrap_err();
    let msg = e.to_text();
    assert!(msg.contains("I-R3"), "{msg}");
    assert!(msg.contains("I-N1"), "{msg}");
    assert!(msg.contains("bytes=700"), "{msg}");
    assert!(matches!(e, MetricError::InvariantViolated { count: 2, .. }));
}

#[test]
fn every_check_skips_cleanly_on_an_empty_ledger() {
    let l = EventLedger::new();
    let report = check_all(&l, &vec![]);
    assert!(report.held());
    assert_eq!(report.skipped().len(), report.outcomes.len());
    report.assert_all().unwrap();
}

fn phy(msg: u64, rx: u32, cause: Option<&str>) -> EventRecord {
    let v = match cause {
        None => received(1, rx),
        Some(_) => lost(1, rx, cause),
    };
    both(Payload::PhyRx(PhyRxView { msg: Some(msg), tx: Some(1), ..v }))
}

fn fated(msg: u64, rx: u32, outcome: RxFate, cause: Option<&str>) -> EventRecord {
    both(Payload::NodeRx(NodeRxView {
        tx: Some(1),
        msg: Some(msg),
        cause: cause.map(str::to_string),
        ..fate(1, rx, outcome)
    }))
}

fn phy_at(msg: u64, rx: u32, ok: bool, dist_mm: i64) -> EventRecord {
    let v = if ok { received(1, rx) } else { lost(1, rx, Some("fading")) };
    both(Payload::PhyRx(PhyRxView { msg: Some(msg), tx: Some(1), dist_mm: Some(dist_mm), ..v }))
}

fn census(msg: u64, bins: &[(u32, u32, u32)]) -> EventRecord {
    let bins =
        bins.iter().map(|&(bin, in_range, decoded)| CensusBin { bin, in_range, decoded }).collect();
    truth("{}", Payload::PhyPrr(PhyPrrView { t: 1, tx: 1, msg, bins }))
}

#[test]
fn m_prr_holds_when_the_census_counts_exactly_the_decodes() {
    let l = ledger(vec![
        phy_at(1, 2, true, 15_000),
        phy_at(1, 3, false, 15_000),
        phy_at(1, 4, true, 250_000),
        phy_at(1, 5, true, 1_200_000),
        census(1, &[(0, 3, 1), (12, 1, 1)]),
    ]);
    let o = check_m_prr(&l);
    assert!(o.held(), "{:?}", texts(&o));
    assert_eq!(o.checked, 1);
}

#[test]
fn m_prr_catches_an_invented_decode_and_one_more_decode_than_receivers() {
    let l = ledger(vec![phy_at(1, 2, true, 15_000), census(1, &[(0, 2, 2)])]);
    assert!(!check_m_prr(&l).held(), "the census counts a decode phy.rx never made");
    let l = ledger(vec![
        phy_at(1, 2, true, 15_000),
        phy_at(1, 3, true, 16_000),
        census(1, &[(0, 1, 2)]),
    ]);
    assert!(!check_m_prr(&l).held(), "two decodes among one receiver in range");
}

#[test]
fn m_rx1_holds_when_every_attempt_has_one_fate() {
    let l = ledger(vec![
        phy(1, 2, None),
        phy(1, 3, Some("collision")),
        phy(2, 2, None),
        phy(2, 3, None),
        fated(1, 2, RxFate::Delivered, None),
        fated(1, 3, RxFate::Lost, Some("collision")),
        fated(2, 2, RxFate::Lost, Some("verify-overflow")),
        fated(2, 3, RxFate::InFlight, None),
    ]);
    let o = check_m_rx1(&l);
    assert!(o.held(), "{:?}", texts(&o));
    assert_eq!(o.checked, 4);
}

#[test]
fn m_rx1_catches_a_missing_fate_a_double_fate_and_a_changed_cause() {
    let l = ledger(vec![phy(1, 2, None), phy(1, 3, None), fated(1, 2, RxFate::Delivered, None)]);
    assert!(!check_m_rx1(&l).held());
    let l = ledger(vec![
        phy(1, 2, None),
        fated(1, 2, RxFate::Delivered, None),
        fated(1, 2, RxFate::Lost, Some("revoked")),
    ]);
    assert!(!check_m_rx1(&l).held());
    let l = ledger(vec![phy(1, 2, Some("fading")), fated(1, 2, RxFate::Lost, Some("revoked"))]);
    let o = check_m_rx1(&l);
    assert!(!o.held());
    assert!(texts(&o)[0].contains(r#"Some("revoked")"#), "{:?}", texts(&o));
    let l = ledger(vec![phy(1, 2, None), fated(1, 2, RxFate::Lost, Some("collision"))]);
    assert!(!check_m_rx1(&l).held());
    let l = ledger(vec![phy(1, 2, None), fated(1, 2, RxFate::Lost, None)]);
    assert!(!check_m_rx1(&l).held());
    let l = ledger(vec![phy(1, 2, None), fated(1, 2, RxFate::Lost, Some("gremlins"))]);
    assert!(!check_m_rx1(&l).held());
}

fn delivered_rx(stamps: [u64; 8], delivered: u64) -> EventRecord {
    let [g, s0, s1, a, b, arr, rxd, vd] = stamps;
    both(Payload::NodeRx(NodeRxView {
        tx: Some(1),
        msg: Some(1),
        t_generated: Some(g),
        t_sign_start: Some(s0),
        t_signed: Some(s1),
        t_tx_start: Some(a),
        t_tx_end: Some(b),
        t_arrival: Some(arr),
        t_rx_done: Some(rxd),
        t_verify_start: Some(rxd),
        t_verify_done: Some(vd),
        t_delivered: Some(delivered),
        ..fate(delivered, 2, RxFate::Delivered)
    }))
}

#[test]
fn m_lat1_holds_on_forward_stamps_and_fails_on_backward_ones() {
    let good = delivered_rx([0, 10, 20, 30, 40, 41, 50, 60], 60);
    assert!(check_m_lat1(&ledger(vec![good])).held());
    let bad = delivered_rx([0, 10, 5, 30, 40, 41, 50, 60], 60);
    assert!(!check_m_lat1(&ledger(vec![bad])).held());
    let bad = delivered_rx([0, 10, 20, 30, 40, 41, 50, 60], 70);
    assert!(!check_m_lat1(&ledger(vec![bad])).held());
}

#[test]
fn m_byte1_catches_layers_that_do_not_add_up() {
    let sent = |on_wire: u64| {
        node(Payload::NodeTx(NodeTxView {
            msg: Some(1),
            payload_bytes: Some(40),
            envelope_bytes: Some(93),
            spdu_bytes: Some(133),
            net_header_bytes: Some(5),
            link_bytes: Some(38),
            ..tx(1, 1, on_wire)
        }))
    };
    assert!(check_m_byte1(&ledger(vec![sent(176)])).held());
    assert!(!check_m_byte1(&ledger(vec![sent(177)])).held());
}

fn scalar(def: &MetricDef, t: u64, dims: Dims, v: Real) -> MetricSample {
    MetricSample::new(def, t, dims, SampleValue::Scalar(Estimate::Value { point: v, n: 1 }))
}

fn rate_def(name: &str) -> MetricDef {
    MetricDef::new(name, "B/s", Agg::Rate, Visibility::Node, Quantum::bytes(), "d").not_accounting_for("x")
}

#[test]
fn m_byte2_checks_the_buckets_against_the_total() {
    let mut samples: Vec<MetricSample> = ByteBucket::all()
        .iter()
        .map(|b| scalar(&rate_def(b.metric_name()), 5, no_dims(), q(100, 1)))
        .collect();
    samples.push(scalar(&rate_def("bytes_total"), 5, no_dims(), q(500, 1)));
    assert!(check_m_byte2(&samples).held());
    samples.pop();
    samples.push(scalar(&rate_def("bytes_total"), 5, no_dims(), q(501, 1)));
    assert!(!check_m_byte2(&samples).held());
}

#[test]
fn m_share_requires_the_stage_shares_to_sum_to_one() {
    let def = MetricDef::new(
        "latency_stage_share",
        "ratio",
        Agg::ratio("a", "b"),
        Visibility::Node,
        Quantum::ratio(),
        "d",
    )
    .not_accounting_for("x");
    let share =
        |stage: &str, v: Real| scalar(&def, 1, one_dim(Dim::Stage, DimValue::label(stage)), v);
    assert!(check_m_share(&vec![share("a", q(1, 4)), share("b", q(3, 4))]).held());
    assert!(!check_m_share(&vec![share("a", q(1, 4)), share("b", q(7, 10))]).held());
}

#[test]
fn m_range_fails_an_impossible_value() {
    let ratio = || {
        MetricDef::new(
            "delivery_ratio",
            "ratio",
            Agg::ratio("a", "b"),
            Visibility::Node,
            Quantum::ratio(),
            "d",
        )
        .with_range(Some(q(0, 1)), Some(q(1, 1)))
        .not_accounting_for("x")
    };
    let latency = || {
        MetricDef::new("e2e_latency", "ms", Agg::Distribution, Visibility::Node, Quantum::time_ms(), "d")
            .with_range(Some(q(0, 1)), None)
            .not_accounting_for("x")
    };
    let catalog = vec![ratio(), latency()];
    let fine = vec![
        scalar(&ratio(), 1, no_dims(), q(97, 100)),
        scalar(&latency(), 1, no_dims(), q(35, 10)),
    ];
    assert!(check_metric_ranges(&fine, &catalog).held());
    let over = vec![scalar(&ratio(), 1, no_dims(), q(102, 100))];
    assert!(!check_metric_ranges(&over, &catalog).held());
    let mut d = Distribution::new();
    for x in [-2, 4, 5] {
        d.observe_quotient(x, 1);
    }
    let neg = vec![MetricSample::new(
        &latency(),
        1,
        no_dims(),
        SampleValue::Distribution(d.summary(1)),
    )];
    assert!(!check_metric_ranges(&neg, &catalog).held());
}

#[test]
fn it_decodes_every_channel_it_knows_and_keeps_the_order() {
    let l = ledger(vec![
        node(Payload::NodeTx(tx(1, 1, 100))),
        node(Payload::NodeTx(tx(2, 2, 200))),
        both(Payload::PhyRx(received(1, 3))),
    ]);
    assert_eq!(l.ingested, 3);
    assert_eq!(l.tx.len(), 2);
    assert_eq!(l.tx[0].t, 1, "arrival order is kept");
    assert_eq!(l.tx[1].t, 2);
    assert_eq!(l.rx.len(), 1);
    let tag = Tag { channel: "node.tx".to_string(), visibility: Visibility::Node };
    assert_eq!(l.visibility_seen.get(&tag), 2);
}

#[test]
fn a_malformed_record_is_counted_and_the_audit_continues() {
    let l = ledger(vec![unread("mac.cbr"), node(Payload::MacCbr(cbr(2, 1, 3_000)))]);
    assert_eq!(l.decode_failure_total(), 1);
    assert_eq!(l.cbr.len(), 1, "the good record still landed");
}

#[test]
fn an_unknown_channel_is_counted_not_dropped_silently() {
    let l = ledger(vec![unread("a.plugin.invented.this")]);
    assert_eq!(l.unknown_channels.get(&"a.plugin.invented.this".to_string()), 1);
    assert_eq!(l.ingested, 1);
}

#[test]
fn a_filtered_ledger_keeps_only_what_was_asked_for() {
    let mut l = EventLedger::only(vec!["node.tx".to_string()]);
    l.ingest(node(Payload::NodeTx(tx(1, 1, 100))));
    l.ingest(both(Payload::PhyRx(received(1, 3))));
    assert_eq!(l.tx.len(), 1);
    assert!(l.rx.is_empty());
    assert_eq!(l.ingested, 2, "the visibility tally still sees everything");
    let tag = Tag { channel: "phy.rx".to_string(), visibility: Visibility::NodeAndGt };
    assert_eq!(l.visibility_seen.get(&tag), 1);
}

#[test]
fn an_empty_ledger_says_so() {
    assert!(EventLedger::new().is_empty());
}

#[test]
fn m_byte2_reads_what_a_sample_holds_and_not_what_it_rounds_to() {
    let raw = |name: &str, v: Real| {
        let mut s = scalar(&rate_def(name), 5, no_dims(), v);
        s.value = SampleValue::Scalar(Estimate::Value { point: v, n: 1 });
        s
    };
    let pair = |bucket: Real| vec![raw("bytes_air", bucket), raw("bytes_total", q(99_996, 10_000))];
    assert!(check_m_byte2(&pair(q(100_006, 10_000))).held(), "a thousandth apart");
    assert!(!check_m_byte2(&pair(q(100_014, 10_000))).held(), "more than that, though not once rounded");
}

#[test]
fn i_s1_runs_where_only_the_second_run_transmitted() {
    let other = ledger(vec![node(Payload::NodeTx(tx(0, 1, 400)))]);
    let o = check_i_s1(&EventLedger::new(), &other);
    assert!(!o.held());
    assert!(o.skipped.is_none());
    assert_eq!(number(&o, 0, "modeled"), Some(Number::Int(0)));
    assert_eq!(number(&o, 0, "real"), Some(Number::Int(1)));
    assert!(check_i_s1(&EventLedger::new(), &EventLedger::new()).skipped.is_some());
}

#[test]
fn assert_all_lists_one_violation_per_line() {
    let l = ledger(vec![
        both(Payload::PhyRx(lost(1, 7, None))),
        node(Payload::NetBytes(bytes_in(1, None, ByteBucket::Backend, 700))),
    ]);
    let text = check_all(&l, &vec![]).assert_all().unwrap_err().to_text();
    assert_eq!(text.lines().count(), 2, "{text}");
    assert!(text.lines().any(|x| x.contains("I-N1") && x.contains("bytes=700")));
    assert!(text.lines().any(|x| x.contains("I-R3")));
}

#[test]
fn a_filter_drops_known_channels_only() {
    let mut l = EventLedger::only(vec!["node.tx".to_string()]);
    let mut strange = node(Payload::Unread(String::new()));
    strange.channel = "a.plugin.invented.this".to_string();
    l.ingest(strange);
    l.ingest(both(Payload::PhyRx(lost(1, 7, None))));
    assert_eq!(l.ingested, 2);
    assert_eq!(l.unknown_channels.get(&"a.plugin.invented.this".to_string()), 1);
    assert_eq!(l.unknown_channels.total(), 1);
    assert_eq!(l.rx.len(), 0);
}

#[test]
fn m_byte2_reads_large_rates() {
    let samples = vec![
        scalar(&rate_def("bytes_air"), 5, no_dims(), q(50_000_000_000_000, 1)),
        scalar(&rate_def("bytes_total"), 5, no_dims(), q(20_000_000_000_000, 1)),
    ];
    assert!(!check_m_byte2(&samples).held());
}

#[test]
fn sums_of_one_node_or_bucket_need_to_fit_and_no_others() {
    let own = |node: u32| node_record(NodeTxView { airtime_us: Some(u64::MAX), ..tx(1, node, 1) });
    assert!(check_i_r3(&ledger(vec![own(1), own(2)])).held());
    let l = ledger(vec![
        node(Payload::NodeTx(NodeTxView { msg: Some(1), ..tx(0, 1, u64::MAX) })),
        node(Payload::NetBytes(bytes_in(1, Some(2), ByteBucket::Backend, u64::MAX))),
    ]);
    assert!(check_i_n1(&l).held());
    let totals = bucket_totals(&l);
    assert_eq!(totals.get(&ByteBucket::Air), u64::MAX);
    assert_eq!(totals.get(&ByteBucket::Backend), u64::MAX);
}

fn node_record(v: NodeTxView) -> EventRecord {
    node(Payload::NodeTx(v))
}
