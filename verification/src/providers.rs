//! The providers of the library, as providers of a set.

use vstd::prelude::*;
use crate::basic::SimTime;
use crate::card::{group_views, CardView, ModelCard};
use crate::catalog;
use crate::channels::{Channel, EventRecord};
use crate::def::{DefView, MetricDef, MetricSample, SampleView};
use crate::awareness::{AwarenessProvider, AwarenessView};
use crate::comms::{CommsProvider, CommsView};
use crate::detection_metrics::{DetectionProvider, DetectionView};
use crate::frag::{FragProvider, FragView};
use crate::latency_metrics::{LatencyProvider, LatencyView};
use crate::load::{LoadProvider, LoadView};
use crate::overhead::{OverheadProvider, OverheadView};
use crate::provider::MetricProvider;
use crate::runtime::{RuntimeProvider, RuntimeView};
use crate::safety::{SafetyProvider, SafetyView};
use crate::text::texts;

verus! {

impl MetricProvider for CommsProvider {
    open spec fn is_sound(v: CommsView) -> bool {
        v.sound()
    }

    open spec fn has_room_for(v: CommsView, ev: EventRecord) -> bool {
        v.room_for(ev)
    }

    open spec fn has_room_to_flush(v: CommsView) -> bool {
        true
    }

    open spec fn next(v: CommsView, ev: EventRecord) -> CommsView {
        v.after(ev)
    }

    open spec fn window(v: CommsView, at: SimTime) -> Seq<SampleView> {
        v.samples(at)
    }

    open spec fn emptied(v: CommsView, at: SimTime) -> CommsView {
        v.flushed(at)
    }

    open spec fn refused(v: CommsView) -> u64 {
        v.rejected
    }

    open spec fn published(v: CommsView) -> Seq<DefView> {
        catalog::comms::all_defs(v.min_samples)
    }

    open spec fn needed_channels(v: CommsView) -> Seq<Seq<char>> {
        seq![Channel::NodeTx.text(), Channel::PhyRx.text(), Channel::MacCbr.text(), Channel::NodeRx.text(), Channel::NetBytes.text(), Channel::ProtoMsg.text()]
    }

    open spec fn described(v: CommsView) -> CardView {
        catalog::comms::comms_card()
    }

    fn card(&self) -> (r: ModelCard) {
        CommsProvider::card(self)
    }

    fn defs(&self) -> (r: Vec<MetricDef>) {
        self.definitions()
    }

    fn subscribe(&self) -> (r: Vec<String>) {
        broadcast use group_views;

        let mut r: Vec<String> = Vec::new();
        r.push(Channel::NodeTx.as_str().to_owned());
        r.push(Channel::PhyRx.as_str().to_owned());
        r.push(Channel::MacCbr.as_str().to_owned());
        r.push(Channel::NodeRx.as_str().to_owned());
        r.push(Channel::NetBytes.as_str().to_owned());
        r.push(Channel::ProtoMsg.as_str().to_owned());
        assert(texts(r@) =~= Self::needed_channels(self@));
        r
    }

    fn on_event(&mut self, ev: &EventRecord) {
        CommsProvider::on_event(self, ev)
    }

    fn flush(&mut self, at: SimTime) -> (out: Vec<MetricSample>) {
        CommsProvider::flush(self, at)
    }

    fn rejected(&self) -> (r: u64) {
        CommsProvider::rejected(self)
    }
}

impl MetricProvider for LatencyProvider {
    open spec fn is_sound(v: LatencyView) -> bool {
        v.sound()
    }

    open spec fn has_room_for(v: LatencyView, ev: EventRecord) -> bool {
        v.room_for(ev)
    }

    open spec fn has_room_to_flush(v: LatencyView) -> bool {
        true
    }

    open spec fn next(v: LatencyView, ev: EventRecord) -> LatencyView {
        v.after(ev)
    }

    open spec fn window(v: LatencyView, at: SimTime) -> Seq<SampleView> {
        v.samples(at)
    }

    open spec fn emptied(v: LatencyView, at: SimTime) -> LatencyView {
        v.flushed()
    }

    open spec fn refused(v: LatencyView) -> u64 {
        v.rejected
    }

    open spec fn published(v: LatencyView) -> Seq<DefView> {
        catalog::latency::all_defs(v.min_samples)
    }

    open spec fn needed_channels(v: LatencyView) -> Seq<Seq<char>> {
        seq![Channel::NodeRx.text(), Channel::MsgLatency.text()]
    }

    open spec fn described(v: LatencyView) -> CardView {
        catalog::latency::latency_card()
    }

    fn card(&self) -> (r: ModelCard) {
        LatencyProvider::card(self)
    }

    fn defs(&self) -> (r: Vec<MetricDef>) {
        self.definitions()
    }

    fn subscribe(&self) -> (r: Vec<String>) {
        broadcast use group_views;

        let mut r: Vec<String> = Vec::new();
        r.push(Channel::NodeRx.as_str().to_owned());
        r.push(Channel::MsgLatency.as_str().to_owned());
        assert(texts(r@) =~= Self::needed_channels(self@));
        r
    }

    fn on_event(&mut self, ev: &EventRecord) {
        LatencyProvider::on_event(self, ev)
    }

    fn flush(&mut self, at: SimTime) -> (out: Vec<MetricSample>) {
        LatencyProvider::flush(self, at)
    }

    fn rejected(&self) -> (r: u64) {
        LatencyProvider::rejected(self)
    }
}

impl MetricProvider for AwarenessProvider {
    open spec fn is_sound(v: AwarenessView) -> bool {
        v.sound()
    }

    open spec fn has_room_for(v: AwarenessView, ev: EventRecord) -> bool {
        v.room_for(ev)
    }

    open spec fn has_room_to_flush(v: AwarenessView) -> bool {
        v.room_to_flush()
    }

    open spec fn next(v: AwarenessView, ev: EventRecord) -> AwarenessView {
        v.after(ev)
    }

    open spec fn window(v: AwarenessView, at: SimTime) -> Seq<SampleView> {
        v.samples(at)
    }

    open spec fn emptied(v: AwarenessView, at: SimTime) -> AwarenessView {
        v.flushed(at)
    }

    open spec fn refused(v: AwarenessView) -> u64 {
        v.rejected
    }

    open spec fn published(v: AwarenessView) -> Seq<DefView> {
        catalog::awareness::all_defs(v.min_samples, v.bins)
    }

    open spec fn needed_channels(v: AwarenessView) -> Seq<Seq<char>> {
        seq![Channel::NodeRx.text(), Channel::GtKinematics.text()]
    }

    open spec fn described(v: AwarenessView) -> CardView {
        catalog::awareness::awareness_card()
    }

    fn card(&self) -> (r: ModelCard) {
        AwarenessProvider::card(self)
    }

    fn defs(&self) -> (r: Vec<MetricDef>) {
        self.definitions()
    }

    fn subscribe(&self) -> (r: Vec<String>) {
        broadcast use group_views;

        let mut r: Vec<String> = Vec::new();
        r.push(Channel::NodeRx.as_str().to_owned());
        r.push(Channel::GtKinematics.as_str().to_owned());
        assert(texts(r@) =~= Self::needed_channels(self@));
        r
    }

    fn on_event(&mut self, ev: &EventRecord) {
        AwarenessProvider::on_event(self, ev)
    }

    fn flush(&mut self, at: SimTime) -> (out: Vec<MetricSample>) {
        AwarenessProvider::flush(self, at)
    }

    fn rejected(&self) -> (r: u64) {
        AwarenessProvider::rejected(self)
    }
}

impl MetricProvider for LoadProvider {
    open spec fn is_sound(v: LoadView) -> bool {
        v.sound()
    }

    open spec fn has_room_for(v: LoadView, ev: EventRecord) -> bool {
        v.room_for(ev)
    }

    open spec fn has_room_to_flush(v: LoadView) -> bool {
        true
    }

    open spec fn next(v: LoadView, ev: EventRecord) -> LoadView {
        v.after(ev)
    }

    open spec fn window(v: LoadView, at: SimTime) -> Seq<SampleView> {
        v.samples(at)
    }

    open spec fn emptied(v: LoadView, at: SimTime) -> LoadView {
        v.flushed(at)
    }

    open spec fn refused(v: LoadView) -> u64 {
        v.rejected
    }

    open spec fn published(v: LoadView) -> Seq<DefView> {
        catalog::load::all_defs(v.min_samples)
    }

    open spec fn needed_channels(v: LoadView) -> Seq<Seq<char>> {
        seq![Channel::NodeTx.text(), Channel::NodeRx.text(), Channel::MacCbr.text()]
    }

    open spec fn described(v: LoadView) -> CardView {
        catalog::load::load_card()
    }

    fn card(&self) -> (r: ModelCard) {
        LoadProvider::card(self)
    }

    fn defs(&self) -> (r: Vec<MetricDef>) {
        self.definitions()
    }

    fn subscribe(&self) -> (r: Vec<String>) {
        broadcast use group_views;

        let mut r: Vec<String> = Vec::new();
        r.push(Channel::NodeTx.as_str().to_owned());
        r.push(Channel::NodeRx.as_str().to_owned());
        r.push(Channel::MacCbr.as_str().to_owned());
        assert(texts(r@) =~= Self::needed_channels(self@));
        r
    }

    fn on_event(&mut self, ev: &EventRecord) {
        LoadProvider::on_event(self, ev)
    }

    fn flush(&mut self, at: SimTime) -> (out: Vec<MetricSample>) {
        LoadProvider::flush(self, at)
    }

    fn rejected(&self) -> (r: u64) {
        LoadProvider::rejected(self)
    }
}

impl MetricProvider for OverheadProvider {
    open spec fn is_sound(v: OverheadView) -> bool {
        true
    }

    open spec fn has_room_for(v: OverheadView, ev: EventRecord) -> bool {
        v.room_for(ev)
    }

    open spec fn has_room_to_flush(v: OverheadView) -> bool {
        true
    }

    open spec fn next(v: OverheadView, ev: EventRecord) -> OverheadView {
        v.after(ev)
    }

    open spec fn window(v: OverheadView, at: SimTime) -> Seq<SampleView> {
        v.samples(at)
    }

    open spec fn emptied(v: OverheadView, at: SimTime) -> OverheadView {
        v.flushed(at)
    }

    open spec fn refused(v: OverheadView) -> u64 {
        v.rejected
    }

    open spec fn published(v: OverheadView) -> Seq<DefView> {
        catalog::overhead::all_defs()
    }

    open spec fn needed_channels(v: OverheadView) -> Seq<Seq<char>> {
        seq![Channel::NodeTx.text(), Channel::NetBytes.text(), Channel::ProtoMsg.text(), Channel::GtKinematics.text()]
    }

    open spec fn described(v: OverheadView) -> CardView {
        catalog::overhead::overhead_card()
    }

    fn card(&self) -> (r: ModelCard) {
        OverheadProvider::card(self)
    }

    fn defs(&self) -> (r: Vec<MetricDef>) {
        self.definitions()
    }

    fn subscribe(&self) -> (r: Vec<String>) {
        broadcast use group_views;

        let mut r: Vec<String> = Vec::new();
        r.push(Channel::NodeTx.as_str().to_owned());
        r.push(Channel::NetBytes.as_str().to_owned());
        r.push(Channel::ProtoMsg.as_str().to_owned());
        r.push(Channel::GtKinematics.as_str().to_owned());
        assert(texts(r@) =~= Self::needed_channels(self@));
        r
    }

    fn on_event(&mut self, ev: &EventRecord) {
        OverheadProvider::on_event(self, ev)
    }

    fn flush(&mut self, at: SimTime) -> (out: Vec<MetricSample>) {
        OverheadProvider::flush(self, at)
    }

    fn rejected(&self) -> (r: u64) {
        OverheadProvider::rejected(self)
    }
}

impl MetricProvider for FragProvider {
    open spec fn is_sound(v: FragView) -> bool {
        v.sound()
    }

    open spec fn has_room_for(v: FragView, ev: EventRecord) -> bool {
        v.room_for(ev)
    }

    open spec fn has_room_to_flush(v: FragView) -> bool {
        true
    }

    open spec fn next(v: FragView, ev: EventRecord) -> FragView {
        v.after(ev)
    }

    open spec fn window(v: FragView, at: SimTime) -> Seq<SampleView> {
        v.samples(at)
    }

    open spec fn emptied(v: FragView, at: SimTime) -> FragView {
        v.flushed()
    }

    open spec fn refused(v: FragView) -> u64 {
        v.rejected
    }

    open spec fn published(v: FragView) -> Seq<DefView> {
        catalog::frag::all_defs()
    }

    open spec fn needed_channels(v: FragView) -> Seq<Seq<char>> {
        seq![Channel::NetReassembly.text()]
    }

    open spec fn described(v: FragView) -> CardView {
        catalog::frag::frag_card()
    }

    fn card(&self) -> (r: ModelCard) {
        FragProvider::card(self)
    }

    fn defs(&self) -> (r: Vec<MetricDef>) {
        self.definitions()
    }

    fn subscribe(&self) -> (r: Vec<String>) {
        broadcast use group_views;

        let mut r: Vec<String> = Vec::new();
        r.push(Channel::NetReassembly.as_str().to_owned());
        assert(texts(r@) =~= Self::needed_channels(self@));
        r
    }

    fn on_event(&mut self, ev: &EventRecord) {
        FragProvider::on_event(self, ev)
    }

    fn flush(&mut self, at: SimTime) -> (out: Vec<MetricSample>) {
        FragProvider::flush(self, at)
    }

    fn rejected(&self) -> (r: u64) {
        FragProvider::rejected(self)
    }
}

impl MetricProvider for DetectionProvider {
    open spec fn is_sound(v: DetectionView) -> bool {
        true
    }

    open spec fn has_room_for(v: DetectionView, ev: EventRecord) -> bool {
        v.room_for(ev)
    }

    open spec fn has_room_to_flush(v: DetectionView) -> bool {
        true
    }

    open spec fn next(v: DetectionView, ev: EventRecord) -> DetectionView {
        v.after(ev)
    }

    open spec fn window(v: DetectionView, at: SimTime) -> Seq<SampleView> {
        v.samples(at)
    }

    open spec fn emptied(v: DetectionView, at: SimTime) -> DetectionView {
        v
    }

    open spec fn refused(v: DetectionView) -> u64 {
        v.rejected
    }

    open spec fn published(v: DetectionView) -> Seq<DefView> {
        catalog::detection::all_defs(v.min_samples)
    }

    open spec fn needed_channels(v: DetectionView) -> Seq<Seq<char>> {
        seq![Channel::GtAttackAction.text(), Channel::MaReport.text(), Channel::MaDecision.text(), Channel::DetObservation.text()]
    }

    open spec fn described(v: DetectionView) -> CardView {
        catalog::detection::detection_card()
    }

    fn card(&self) -> (r: ModelCard) {
        DetectionProvider::card(self)
    }

    fn defs(&self) -> (r: Vec<MetricDef>) {
        self.definitions()
    }

    fn subscribe(&self) -> (r: Vec<String>) {
        broadcast use group_views;

        let mut r: Vec<String> = Vec::new();
        r.push(Channel::GtAttackAction.as_str().to_owned());
        r.push(Channel::MaReport.as_str().to_owned());
        r.push(Channel::MaDecision.as_str().to_owned());
        r.push(Channel::DetObservation.as_str().to_owned());
        assert(texts(r@) =~= Self::needed_channels(self@));
        r
    }

    fn on_event(&mut self, ev: &EventRecord) {
        DetectionProvider::on_event(self, ev)
    }

    fn flush(&mut self, at: SimTime) -> (out: Vec<MetricSample>) {
        DetectionProvider::flush(self, at)
    }

    fn rejected(&self) -> (r: u64) {
        DetectionProvider::rejected(self)
    }
}

impl MetricProvider for SafetyProvider {
    open spec fn is_sound(v: SafetyView) -> bool {
        v.sound()
    }

    open spec fn has_room_for(v: SafetyView, ev: EventRecord) -> bool {
        v.room_for(ev)
    }

    open spec fn has_room_to_flush(v: SafetyView) -> bool {
        v.room_to_close()
    }

    open spec fn next(v: SafetyView, ev: EventRecord) -> SafetyView {
        v.after(ev)
    }

    open spec fn window(v: SafetyView, at: SimTime) -> Seq<SampleView> {
        v.samples(at)
    }

    open spec fn emptied(v: SafetyView, at: SimTime) -> SafetyView {
        v.flushed(at)
    }

    open spec fn refused(v: SafetyView) -> u64 {
        v.rejected
    }

    open spec fn published(v: SafetyView) -> Seq<DefView> {
        catalog::safety::all_defs(v.min_samples)
    }

    open spec fn needed_channels(v: SafetyView) -> Seq<Seq<char>> {
        seq![Channel::GtKinematics.text()]
    }

    open spec fn described(v: SafetyView) -> CardView {
        catalog::safety::safety_card()
    }

    fn card(&self) -> (r: ModelCard) {
        SafetyProvider::card(self)
    }

    fn defs(&self) -> (r: Vec<MetricDef>) {
        self.definitions()
    }

    fn subscribe(&self) -> (r: Vec<String>) {
        broadcast use group_views;

        let mut r: Vec<String> = Vec::new();
        r.push(Channel::GtKinematics.as_str().to_owned());
        assert(texts(r@) =~= Self::needed_channels(self@));
        r
    }

    fn on_event(&mut self, ev: &EventRecord) {
        SafetyProvider::on_event(self, ev)
    }

    fn flush(&mut self, at: SimTime) -> (out: Vec<MetricSample>) {
        SafetyProvider::flush(self, at)
    }

    fn rejected(&self) -> (r: u64) {
        SafetyProvider::rejected(self)
    }
}

impl MetricProvider for RuntimeProvider {
    open spec fn is_sound(v: RuntimeView) -> bool {
        true
    }

    open spec fn has_room_for(v: RuntimeView, ev: EventRecord) -> bool {
        v.events < u64::MAX
    }

    open spec fn has_room_to_flush(v: RuntimeView) -> bool {
        true
    }

    open spec fn next(v: RuntimeView, ev: EventRecord) -> RuntimeView {
        v.after()
    }

    open spec fn window(v: RuntimeView, at: SimTime) -> Seq<SampleView> {
        v.samples(at)
    }

    open spec fn emptied(v: RuntimeView, at: SimTime) -> RuntimeView {
        v
    }

    open spec fn refused(v: RuntimeView) -> u64 {
        0
    }

    open spec fn published(v: RuntimeView) -> Seq<DefView> {
        catalog::runtime::all_defs()
    }

    open spec fn needed_channels(v: RuntimeView) -> Seq<Seq<char>> {
        v.channels
    }

    open spec fn described(v: RuntimeView) -> CardView {
        catalog::runtime::runtime_card()
    }

    fn card(&self) -> (r: ModelCard) {
        RuntimeProvider::card(self)
    }

    fn defs(&self) -> (r: Vec<MetricDef>) {
        self.definitions()
    }

    fn subscribe(&self) -> (r: Vec<String>) {
        RuntimeProvider::subscribe(self)
    }

    fn on_event(&mut self, ev: &EventRecord) {
        RuntimeProvider::on_event(self, ev)
    }

    fn flush(&mut self, at: SimTime) -> (out: Vec<MetricSample>) {
        RuntimeProvider::flush(self, at)
    }

    fn rejected(&self) -> (r: u64) {
        0
    }
}

/// Any provider of the library.
pub enum AnyProvider {
    /// The comms metrics.
    Comms(CommsProvider),
    /// The latency metrics.
    Latency(LatencyProvider),
    /// The awareness metrics.
    Awareness(AwarenessProvider),
    /// The load metrics.
    Load(LoadProvider),
    /// The overhead metrics.
    Overhead(OverheadProvider),
    /// The frag metrics.
    Frag(FragProvider),
    /// The detection metrics.
    Detection(DetectionProvider),
    /// The safety metrics.
    Safety(SafetyProvider),
    /// The runtime metrics.
    Runtime(RuntimeProvider),
}

/// What a provider of the library has accumulated.
pub ghost enum AnyView {
    Comms(CommsView),
    Latency(LatencyView),
    Awareness(AwarenessView),
    Load(LoadView),
    Overhead(OverheadView),
    Frag(FragView),
    Detection(DetectionView),
    Safety(SafetyView),
    Runtime(RuntimeView),
}

impl View for AnyProvider {
    type V = AnyView;

    open spec fn view(&self) -> AnyView {
        match *self {
            AnyProvider::Comms(p) => AnyView::Comms(p@),
            AnyProvider::Latency(p) => AnyView::Latency(p@),
            AnyProvider::Awareness(p) => AnyView::Awareness(p@),
            AnyProvider::Load(p) => AnyView::Load(p@),
            AnyProvider::Overhead(p) => AnyView::Overhead(p@),
            AnyProvider::Frag(p) => AnyView::Frag(p@),
            AnyProvider::Detection(p) => AnyView::Detection(p@),
            AnyProvider::Safety(p) => AnyView::Safety(p@),
            AnyProvider::Runtime(p) => AnyView::Runtime(p@),
        }
    }
}

impl MetricProvider for AnyProvider {
    open spec fn is_sound(v: AnyView) -> bool {
        match v {
            AnyView::Comms(p) => CommsProvider::is_sound(p),
            AnyView::Latency(p) => LatencyProvider::is_sound(p),
            AnyView::Awareness(p) => AwarenessProvider::is_sound(p),
            AnyView::Load(p) => LoadProvider::is_sound(p),
            AnyView::Overhead(p) => OverheadProvider::is_sound(p),
            AnyView::Frag(p) => FragProvider::is_sound(p),
            AnyView::Detection(p) => DetectionProvider::is_sound(p),
            AnyView::Safety(p) => SafetyProvider::is_sound(p),
            AnyView::Runtime(p) => RuntimeProvider::is_sound(p),
        }
    }

    open spec fn has_room_for(v: AnyView, ev: EventRecord) -> bool {
        match v {
            AnyView::Comms(p) => CommsProvider::has_room_for(p, ev),
            AnyView::Latency(p) => LatencyProvider::has_room_for(p, ev),
            AnyView::Awareness(p) => AwarenessProvider::has_room_for(p, ev),
            AnyView::Load(p) => LoadProvider::has_room_for(p, ev),
            AnyView::Overhead(p) => OverheadProvider::has_room_for(p, ev),
            AnyView::Frag(p) => FragProvider::has_room_for(p, ev),
            AnyView::Detection(p) => DetectionProvider::has_room_for(p, ev),
            AnyView::Safety(p) => SafetyProvider::has_room_for(p, ev),
            AnyView::Runtime(p) => RuntimeProvider::has_room_for(p, ev),
        }
    }

    open spec fn has_room_to_flush(v: AnyView) -> bool {
        match v {
            AnyView::Comms(p) => CommsProvider::has_room_to_flush(p),
            AnyView::Latency(p) => LatencyProvider::has_room_to_flush(p),
            AnyView::Awareness(p) => AwarenessProvider::has_room_to_flush(p),
            AnyView::Load(p) => LoadProvider::has_room_to_flush(p),
            AnyView::Overhead(p) => OverheadProvider::has_room_to_flush(p),
            AnyView::Frag(p) => FragProvider::has_room_to_flush(p),
            AnyView::Detection(p) => DetectionProvider::has_room_to_flush(p),
            AnyView::Safety(p) => SafetyProvider::has_room_to_flush(p),
            AnyView::Runtime(p) => RuntimeProvider::has_room_to_flush(p),
        }
    }

    open spec fn next(v: AnyView, ev: EventRecord) -> AnyView {
        match v {
            AnyView::Comms(p) => AnyView::Comms(CommsProvider::next(p, ev)),
            AnyView::Latency(p) => AnyView::Latency(LatencyProvider::next(p, ev)),
            AnyView::Awareness(p) => AnyView::Awareness(AwarenessProvider::next(p, ev)),
            AnyView::Load(p) => AnyView::Load(LoadProvider::next(p, ev)),
            AnyView::Overhead(p) => AnyView::Overhead(OverheadProvider::next(p, ev)),
            AnyView::Frag(p) => AnyView::Frag(FragProvider::next(p, ev)),
            AnyView::Detection(p) => AnyView::Detection(DetectionProvider::next(p, ev)),
            AnyView::Safety(p) => AnyView::Safety(SafetyProvider::next(p, ev)),
            AnyView::Runtime(p) => AnyView::Runtime(RuntimeProvider::next(p, ev)),
        }
    }

    open spec fn window(v: AnyView, at: SimTime) -> Seq<SampleView> {
        match v {
            AnyView::Comms(p) => CommsProvider::window(p, at),
            AnyView::Latency(p) => LatencyProvider::window(p, at),
            AnyView::Awareness(p) => AwarenessProvider::window(p, at),
            AnyView::Load(p) => LoadProvider::window(p, at),
            AnyView::Overhead(p) => OverheadProvider::window(p, at),
            AnyView::Frag(p) => FragProvider::window(p, at),
            AnyView::Detection(p) => DetectionProvider::window(p, at),
            AnyView::Safety(p) => SafetyProvider::window(p, at),
            AnyView::Runtime(p) => RuntimeProvider::window(p, at),
        }
    }

    open spec fn emptied(v: AnyView, at: SimTime) -> AnyView {
        match v {
            AnyView::Comms(p) => AnyView::Comms(CommsProvider::emptied(p, at)),
            AnyView::Latency(p) => AnyView::Latency(LatencyProvider::emptied(p, at)),
            AnyView::Awareness(p) => AnyView::Awareness(AwarenessProvider::emptied(p, at)),
            AnyView::Load(p) => AnyView::Load(LoadProvider::emptied(p, at)),
            AnyView::Overhead(p) => AnyView::Overhead(OverheadProvider::emptied(p, at)),
            AnyView::Frag(p) => AnyView::Frag(FragProvider::emptied(p, at)),
            AnyView::Detection(p) => AnyView::Detection(DetectionProvider::emptied(p, at)),
            AnyView::Safety(p) => AnyView::Safety(SafetyProvider::emptied(p, at)),
            AnyView::Runtime(p) => AnyView::Runtime(RuntimeProvider::emptied(p, at)),
        }
    }

    open spec fn refused(v: AnyView) -> u64 {
        match v {
            AnyView::Comms(p) => CommsProvider::refused(p),
            AnyView::Latency(p) => LatencyProvider::refused(p),
            AnyView::Awareness(p) => AwarenessProvider::refused(p),
            AnyView::Load(p) => LoadProvider::refused(p),
            AnyView::Overhead(p) => OverheadProvider::refused(p),
            AnyView::Frag(p) => FragProvider::refused(p),
            AnyView::Detection(p) => DetectionProvider::refused(p),
            AnyView::Safety(p) => SafetyProvider::refused(p),
            AnyView::Runtime(p) => RuntimeProvider::refused(p),
        }
    }

    open spec fn published(v: AnyView) -> Seq<DefView> {
        match v {
            AnyView::Comms(p) => CommsProvider::published(p),
            AnyView::Latency(p) => LatencyProvider::published(p),
            AnyView::Awareness(p) => AwarenessProvider::published(p),
            AnyView::Load(p) => LoadProvider::published(p),
            AnyView::Overhead(p) => OverheadProvider::published(p),
            AnyView::Frag(p) => FragProvider::published(p),
            AnyView::Detection(p) => DetectionProvider::published(p),
            AnyView::Safety(p) => SafetyProvider::published(p),
            AnyView::Runtime(p) => RuntimeProvider::published(p),
        }
    }

    open spec fn needed_channels(v: AnyView) -> Seq<Seq<char>> {
        match v {
            AnyView::Comms(p) => CommsProvider::needed_channels(p),
            AnyView::Latency(p) => LatencyProvider::needed_channels(p),
            AnyView::Awareness(p) => AwarenessProvider::needed_channels(p),
            AnyView::Load(p) => LoadProvider::needed_channels(p),
            AnyView::Overhead(p) => OverheadProvider::needed_channels(p),
            AnyView::Frag(p) => FragProvider::needed_channels(p),
            AnyView::Detection(p) => DetectionProvider::needed_channels(p),
            AnyView::Safety(p) => SafetyProvider::needed_channels(p),
            AnyView::Runtime(p) => RuntimeProvider::needed_channels(p),
        }
    }

    open spec fn described(v: AnyView) -> CardView {
        match v {
            AnyView::Comms(p) => CommsProvider::described(p),
            AnyView::Latency(p) => LatencyProvider::described(p),
            AnyView::Awareness(p) => AwarenessProvider::described(p),
            AnyView::Load(p) => LoadProvider::described(p),
            AnyView::Overhead(p) => OverheadProvider::described(p),
            AnyView::Frag(p) => FragProvider::described(p),
            AnyView::Detection(p) => DetectionProvider::described(p),
            AnyView::Safety(p) => SafetyProvider::described(p),
            AnyView::Runtime(p) => RuntimeProvider::described(p),
        }
    }

    fn card(&self) -> (r: ModelCard) {
        match self {
            AnyProvider::Comms(p) => MetricProvider::card(p),
            AnyProvider::Latency(p) => MetricProvider::card(p),
            AnyProvider::Awareness(p) => MetricProvider::card(p),
            AnyProvider::Load(p) => MetricProvider::card(p),
            AnyProvider::Overhead(p) => MetricProvider::card(p),
            AnyProvider::Frag(p) => MetricProvider::card(p),
            AnyProvider::Detection(p) => MetricProvider::card(p),
            AnyProvider::Safety(p) => MetricProvider::card(p),
            AnyProvider::Runtime(p) => MetricProvider::card(p),
        }
    }

    fn defs(&self) -> (r: Vec<MetricDef>) {
        match self {
            AnyProvider::Comms(p) => MetricProvider::defs(p),
            AnyProvider::Latency(p) => MetricProvider::defs(p),
            AnyProvider::Awareness(p) => MetricProvider::defs(p),
            AnyProvider::Load(p) => MetricProvider::defs(p),
            AnyProvider::Overhead(p) => MetricProvider::defs(p),
            AnyProvider::Frag(p) => MetricProvider::defs(p),
            AnyProvider::Detection(p) => MetricProvider::defs(p),
            AnyProvider::Safety(p) => MetricProvider::defs(p),
            AnyProvider::Runtime(p) => MetricProvider::defs(p),
        }
    }

    fn subscribe(&self) -> (r: Vec<String>) {
        match self {
            AnyProvider::Comms(p) => MetricProvider::subscribe(p),
            AnyProvider::Latency(p) => MetricProvider::subscribe(p),
            AnyProvider::Awareness(p) => MetricProvider::subscribe(p),
            AnyProvider::Load(p) => MetricProvider::subscribe(p),
            AnyProvider::Overhead(p) => MetricProvider::subscribe(p),
            AnyProvider::Frag(p) => MetricProvider::subscribe(p),
            AnyProvider::Detection(p) => MetricProvider::subscribe(p),
            AnyProvider::Safety(p) => MetricProvider::subscribe(p),
            AnyProvider::Runtime(p) => MetricProvider::subscribe(p),
        }
    }

    fn on_event(&mut self, ev: &EventRecord) {
        match self {
            AnyProvider::Comms(p) => MetricProvider::on_event(p, ev),
            AnyProvider::Latency(p) => MetricProvider::on_event(p, ev),
            AnyProvider::Awareness(p) => MetricProvider::on_event(p, ev),
            AnyProvider::Load(p) => MetricProvider::on_event(p, ev),
            AnyProvider::Overhead(p) => MetricProvider::on_event(p, ev),
            AnyProvider::Frag(p) => MetricProvider::on_event(p, ev),
            AnyProvider::Detection(p) => MetricProvider::on_event(p, ev),
            AnyProvider::Safety(p) => MetricProvider::on_event(p, ev),
            AnyProvider::Runtime(p) => MetricProvider::on_event(p, ev),
        }
    }

    fn flush(&mut self, at: SimTime) -> (out: Vec<MetricSample>) {
        match self {
            AnyProvider::Comms(p) => MetricProvider::flush(p, at),
            AnyProvider::Latency(p) => MetricProvider::flush(p, at),
            AnyProvider::Awareness(p) => MetricProvider::flush(p, at),
            AnyProvider::Load(p) => MetricProvider::flush(p, at),
            AnyProvider::Overhead(p) => MetricProvider::flush(p, at),
            AnyProvider::Frag(p) => MetricProvider::flush(p, at),
            AnyProvider::Detection(p) => MetricProvider::flush(p, at),
            AnyProvider::Safety(p) => MetricProvider::flush(p, at),
            AnyProvider::Runtime(p) => MetricProvider::flush(p, at),
        }
    }

    fn rejected(&self) -> (r: u64) {
        match self {
            AnyProvider::Comms(p) => MetricProvider::rejected(p),
            AnyProvider::Latency(p) => MetricProvider::rejected(p),
            AnyProvider::Awareness(p) => MetricProvider::rejected(p),
            AnyProvider::Load(p) => MetricProvider::rejected(p),
            AnyProvider::Overhead(p) => MetricProvider::rejected(p),
            AnyProvider::Frag(p) => MetricProvider::rejected(p),
            AnyProvider::Detection(p) => MetricProvider::rejected(p),
            AnyProvider::Safety(p) => MetricProvider::rejected(p),
            AnyProvider::Runtime(p) => MetricProvider::rejected(p),
        }
    }
}

/// Every provider of the library, in the order in which a run registers them, the first
/// window starting at `t0`.
pub fn all_providers(t0: SimTime) -> (r: Vec<AnyProvider>)
    ensures
        r@.len() == 9,
        forall|i: int| 0 <= i < 9 ==> AnyProvider::is_sound((#[trigger] r@[i])@),
        r@[0]@ matches AnyView::Comms(v) && v == crate::comms::fresh(t0, v.bins),
        r@[1]@ == AnyView::Latency(crate::latency_metrics::fresh()),
        r@[2]@ matches AnyView::Awareness(v) && v == crate::awareness::fresh(t0, v.bins),
        r@[3]@ == AnyView::Load(crate::load::fresh(t0)),
        r@[4]@ == AnyView::Overhead(crate::overhead::fresh(t0)),
        r@[5]@ == AnyView::Frag(crate::frag::fresh()),
        r@[6]@ == AnyView::Detection(crate::detection_metrics::fresh()),
        r@[7]@ == AnyView::Safety(crate::safety::fresh(t0)),
        r@[8]@ matches AnyView::Runtime(v) && v == crate::runtime::fresh(v.channels),
{
    let mut r: Vec<AnyProvider> = Vec::new();
    r.push(AnyProvider::Comms(CommsProvider::new(t0)));
    r.push(AnyProvider::Latency(LatencyProvider::new()));
    r.push(AnyProvider::Awareness(AwarenessProvider::new(t0)));
    r.push(AnyProvider::Load(LoadProvider::new(t0)));
    r.push(AnyProvider::Overhead(OverheadProvider::new(t0)));
    r.push(AnyProvider::Frag(FragProvider::new()));
    r.push(AnyProvider::Detection(DetectionProvider::new()));
    r.push(AnyProvider::Safety(SafetyProvider::new(t0)));
    r.push(AnyProvider::Runtime(RuntimeProvider::new()));
    r
}

} // verus!
