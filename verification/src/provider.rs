//! Metric providers, and the set that drives the providers of a run.

use vstd::prelude::*;
use crate::arrange::{distinct, ranked, sort, sorted, sorting_forgets_the_order};
use crate::basic::SimTime;
use crate::card::{group_views, views, CardView, ModelCard};
use crate::channels::EventRecord;
use crate::def::{definition_problem, DefView, MetricDef, MetricSample, SampleView};
use crate::error::{ErrorView, MetricError};
use crate::keyed::{in_order, Key, SortedMap};
use crate::text::{same_text, texts};

verus! {

/// A provider of one family of metrics.
///
/// What a provider has accumulated is its view. The functions on the view say what a
/// provider does with records and windows, and the methods do it.
pub trait MetricProvider: View + Sized {
    /// What holds of a provider at all times.
    spec fn is_sound(v: Self::V) -> bool;

    /// True if no counter overflows on `ev`.
    spec fn has_room_for(v: Self::V, ev: EventRecord) -> bool;

    /// True if no counter overflows on a flush.
    spec fn has_room_to_flush(v: Self::V) -> bool;

    /// The provider after `ev`.
    spec fn next(v: Self::V, ev: EventRecord) -> Self::V;

    /// The samples of the window that ends at `at`.
    spec fn window(v: Self::V, at: SimTime) -> Seq<SampleView>;

    /// The provider after the window that ends at `at`.
    spec fn emptied(v: Self::V, at: SimTime) -> Self::V;

    /// How many records could not be read.
    spec fn refused(v: Self::V) -> u64;

    /// The metrics that are computed.
    spec fn published(v: Self::V) -> Seq<DefView>;

    /// The names of the channels that are needed.
    spec fn needed_channels(v: Self::V) -> Seq<Seq<char>>;

    /// The card of the provider.
    spec fn described(v: Self::V) -> CardView;

    /// The card of this provider.
    fn card(&self) -> (r: ModelCard)
        ensures
            r@ == Self::described(self@),
    ;

    /// The metrics this provider computes.
    fn defs(&self) -> (r: Vec<MetricDef>)
        ensures
            views(r@) == Self::published(self@),
    ;

    /// The names of the channels that this provider needs.
    fn subscribe(&self) -> (r: Vec<String>)
        ensures
            texts(r@) == Self::needed_channels(self@),
    ;

    /// Consumes one record. One that cannot be read is counted, not dropped in silence.
    fn on_event(&mut self, ev: &EventRecord)
        requires
            Self::is_sound(old(self)@),
            Self::has_room_for(old(self)@, *ev),
        ensures
            final(self)@ == Self::next(old(self)@, *ev),
            Self::is_sound(final(self)@),
    ;

    /// The samples of the window that ends at `at`; a new window starts.
    fn flush(&mut self, at: SimTime) -> (out: Vec<MetricSample>)
        requires
            Self::is_sound(old(self)@),
            Self::has_room_to_flush(old(self)@),
        ensures
            views(out@) == Self::window(old(self)@, at),
            final(self)@ == Self::emptied(old(self)@, at),
            Self::is_sound(final(self)@),
    ;

    /// How many records could not be read.
    fn rejected(&self) -> (r: u64)
        ensures
            r == Self::refused(self@),
    ;

    /// Checks every definition: the first problem, or none.
    fn validate_defs(&self) -> (r: Result<(), MetricError>)
        ensures
            match r {
                Ok(_) => first_problem(Self::published(self@)) is None,
                Err(e) => first_problem(Self::published(self@)) == Some(e@),
            },
    {
        let defs = self.defs();
        check_defs(&defs)
    }

    /// The definition of the metric with the given name.
    fn def(&self, name: &str) -> (r: Option<MetricDef>)
        ensures
            match r {
                Some(d) => named(Self::published(self@), name@) == Some(d@),
                None => named(Self::published(self@), name@) is None,
            },
    {
        find_def(self.defs(), name)
    }
}

/// The problem of the first definition that has one.
pub open spec fn first_problem(defs: Seq<DefView>) -> Option<ErrorView>
    decreases defs.len(),
{
    if defs.len() == 0 {
        None
    } else {
        match first_problem(defs.drop_last()) {
            Some(e) => Some(e),
            None => match definition_problem(defs.last()) {
                Some(problem) => Some(
                    ErrorView::BadDefinition { name: defs.last().name, problem },
                ),
                None => None,
            },
        }
    }
}

/// The first definition with the given name.
pub open spec fn named(defs: Seq<DefView>, name: Seq<char>) -> Option<DefView>
    decreases defs.len(),
{
    if defs.len() == 0 {
        None
    } else {
        match named(defs.drop_last(), name) {
            Some(d) => Some(d),
            None => if defs.last().name == name {
                Some(defs.last())
            } else {
                None
            },
        }
    }
}

fn check_defs(defs: &Vec<MetricDef>) -> (r: Result<(), MetricError>)
    ensures
        match r {
            Ok(_) => first_problem(views(defs@)) is None,
            Err(e) => first_problem(views(defs@)) == Some(e@),
        },
{
    let n: usize = defs.len();
    let ghost all = views(defs@);
    let mut i: usize = 0;
    while i < n
        invariant
            n == defs@.len(),
            all == views(defs@),
            i <= n,
            first_problem(all.subrange(0, i as int)) is None,
        decreases n - i,
    {
        broadcast use group_views;

        proof {
            let next = all.subrange(0, i as int + 1);
            assert(next.drop_last() =~= all.subrange(0, i as int));
            assert(next.last() == defs@[i as int]@);
        }
        match defs[i].validate() {
            Ok(_) => {},
            Err(e) => {
                proof {
                    a_problem_stays_first(all, i as int + 1);
                }
                return Err(e);
            },
        }
        i = i + 1;
    }
    assert(all.subrange(0, n as int) =~= all) by {
        broadcast use group_views;

    }
    Ok(())
}

/// The first problem of some definitions is that of all.
proof fn a_problem_stays_first(defs: Seq<DefView>, i: int)
    requires
        0 <= i <= defs.len(),
        first_problem(defs.subrange(0, i)) is Some,
    ensures
        first_problem(defs) == first_problem(defs.subrange(0, i)),
    decreases defs.len() - i,
{
    if i == defs.len() {
        assert(defs.subrange(0, i) =~= defs);
    } else {
        let next = defs.subrange(0, i + 1);
        assert(next.drop_last() =~= defs.subrange(0, i));
        a_problem_stays_first(defs, i + 1);
    }
}

fn find_def(defs: Vec<MetricDef>, name: &str) -> (r: Option<MetricDef>)
    ensures
        match r {
            Some(d) => named(views(defs@), name@) == Some(d@),
            None => named(views(defs@), name@) is None,
        },
{
    let ghost all = views(defs@);
    let mut found: Option<MetricDef> = None;
    assert(named(all.subrange(0, 0), name@) is None);
    for d in it: defs
        invariant
            all == views(it.seq()),
            match found {
                Some(d) => named(all.subrange(0, it.index() as int), name@) == Some(d@),
                None => named(all.subrange(0, it.index() as int), name@) is None,
            },
    {
        broadcast use group_views;

        proof {
            let i = it.index() as int;
            let next = all.subrange(0, i + 1);
            assert(next.drop_last() =~= all.subrange(0, i));
            assert(next.last() == d@);
        }
        if found.is_none() && same_text(d.name.as_str(), name) {
            found = Some(d);
        }
    }
    assert(all.subrange(0, all.len() as int) =~= all);
    found
}

/// Where a registry keeps the card of a provider.
#[derive(Clone, Copy, Debug, PartialEq, Eq, Structural)]
pub struct ModelRef {
    /// The place of the card among those registered.
    pub index: u32,
}

/// The providers of one run, with their subscriptions resolved.
pub struct ProviderSet<P: MetricProvider> {
    providers: Vec<P>,
    refs: Vec<ModelRef>,
    by_channel: SortedMap<String, Vec<usize>>,
}

/// The providers of one run, where their cards are, and which of them need which channel.
#[verifier::ext_equal]
pub ghost struct SetView<V> {
    pub providers: Seq<V>,
    pub refs: Seq<ModelRef>,
    pub by_channel: Map<Seq<char>, Seq<usize>>,
}

impl<P: MetricProvider> View for ProviderSet<P> {
    type V = SetView<P::V>;

    closed spec fn view(&self) -> SetView<P::V> {
        SetView {
            providers: views(self.providers@),
            refs: self.refs@,
            by_channel: self.by_channel@,
        }
    }
}

/// The providers that need a channel, in the order in which they were registered.
pub open spec fn subscribers(m: Map<Seq<char>, Seq<usize>>, channel: Seq<char>) -> Seq<usize> {
    if m.contains_key(channel) {
        m[channel]
    } else {
        Seq::empty()
    }
}

/// The subscriptions, with those of one more provider.
pub open spec fn subscribed(
    m: Map<Seq<char>, Seq<usize>>,
    channels: Seq<Seq<char>>,
    who: usize,
) -> Map<Seq<char>, Seq<usize>>
    decreases channels.len(),
{
    if channels.len() == 0 {
        m
    } else {
        let before = subscribed(m, channels.drop_last(), who);
        before.insert(channels.last(), subscribers(before, channels.last()).push(who))
    }
}

/// The providers after `ev` was handed to some of them in turn.
pub open spec fn delivered<P: MetricProvider>(
    providers: Seq<P::V>,
    to: Seq<usize>,
    ev: EventRecord,
) -> Seq<P::V>
    decreases to.len(),
{
    if to.len() == 0 {
        providers
    } else {
        let before = delivered::<P>(providers, to.drop_last(), ev);
        before.update(to.last() as int, P::next(before[to.last() as int], ev))
    }
}

/// The samples of some providers, one after the other.
pub open spec fn windows<P: MetricProvider>(providers: Seq<P::V>, at: SimTime) -> Seq<SampleView>
    decreases providers.len(),
{
    if providers.len() == 0 {
        Seq::empty()
    } else {
        windows::<P>(providers.drop_last(), at) + P::window(providers.last(), at)
    }
}

/// The definitions of some providers, one after the other.
pub open spec fn publications<P: MetricProvider>(providers: Seq<P::V>) -> Seq<DefView>
    decreases providers.len(),
{
    if providers.len() == 0 {
        Seq::empty()
    } else {
        publications::<P>(providers.drop_last()) + P::published(providers.last())
    }
}

/// How many records some providers could not read.
pub open spec fn refusals<P: MetricProvider>(providers: Seq<P::V>) -> int
    decreases providers.len(),
{
    if providers.len() == 0 {
        0
    } else {
        refusals::<P>(providers.drop_last()) + P::refused(providers.last())
    }
}

/// Samples with their keys and instants.
pub open spec fn by_key(s: Seq<SampleView>) -> Seq<((Seq<char>, u64), SampleView)> {
    Seq::new(s.len(), |i: int| ((s[i].key(), s[i].t), s[i]))
}

/// Definitions with their names.
pub open spec fn by_name(s: Seq<DefView>) -> Seq<(Seq<char>, DefView)> {
    Seq::new(s.len(), |i: int| (s[i].name, s[i]))
}

/// The second parts of some pairs.
pub open spec fn seconds<A, B>(s: Seq<(A, B)>) -> Seq<B> {
    Seq::new(s.len(), |i: int| s[i].1)
}

/// Samples in the order of their keys and instants.
pub open spec fn table(s: Seq<SampleView>) -> Seq<SampleView> {
    seconds(sorted::<(String, u64), SampleView>(by_key(s)))
}

/// Definitions in the order of their names.
pub open spec fn index(s: Seq<DefView>) -> Seq<DefView> {
    seconds(sorted::<String, DefView>(by_name(s)))
}

/// Every provider is sound, and every subscriber is a provider.
pub open spec fn is_sound_set<P: MetricProvider>(v: SetView<P::V>) -> bool {
    &&& forall|i: int| 0 <= i < v.providers.len() ==> P::is_sound(#[trigger] v.providers[i])
    &&& well_subscribed(v.by_channel, v.providers.len() as int)
}

/// True if every subscriber is one of `n` providers.
pub open spec fn well_subscribed(m: Map<Seq<char>, Seq<usize>>, n: int) -> bool {
    forall|c: Seq<char>, k: int|
        #![trigger m[c][k]]
        m.contains_key(c) && 0 <= k < m[c].len() ==> m[c][k] < n
}

/// The set after a provider was registered.
pub open spec fn with_provider<P: MetricProvider>(v: SetView<P::V>, p: P::V, r: ModelRef) -> SetView<
    P::V,
> {
    SetView {
        providers: v.providers.push(p),
        refs: v.refs.push(r),
        by_channel: subscribed(
            v.by_channel,
            P::needed_channels(p),
            v.providers.len() as usize,
        ),
    }
}

/// True if no counter of a subscriber overflows on `ev`.
pub open spec fn has_room<P: MetricProvider>(v: SetView<P::V>, ev: EventRecord) -> bool {
    let to = subscribers(v.by_channel, ev.channel@);
    forall|k: int|
        #![trigger to[k]]
        0 <= k < to.len() ==> P::has_room_for(
            delivered::<P>(v.providers, to.subrange(0, k), ev)[to[k] as int],
            ev,
        )
}

impl<P: MetricProvider> ProviderSet<P> {
    /// An empty set.
    pub fn new() -> (r: ProviderSet<P>)
        ensures
            r@.providers == Seq::<P::V>::empty(),
            r@.refs == Seq::<ModelRef>::empty(),
            r@.by_channel == Map::<Seq<char>, Seq<usize>>::empty(),
            is_sound_set::<P>(r@),
    {
        let r = ProviderSet {
            providers: Vec::new(),
            refs: Vec::new(),
            by_channel: SortedMap::new(),
        };
        assert(views(r.providers@) =~= Seq::<P::V>::empty());
        assert(r@.refs =~= Seq::<ModelRef>::empty());
        r
    }

    fn subscribe_all(&mut self, channels: &Vec<String>, who: usize)
        requires
            well_subscribed(old(self)@.by_channel, who as int),
        ensures
            final(self)@ == (SetView {
                by_channel: subscribed(old(self)@.by_channel, texts(channels@), who),
                ..old(self)@
            }),
            well_subscribed(final(self)@.by_channel, who + 1),
    {
        let ghost v = self@;
        let ghost names = texts(channels@);
        let n: usize = channels.len();
        let mut i: usize = 0;
        assert(names.subrange(0, 0) =~= Seq::<Seq<char>>::empty());
        while i < n
            invariant
                names == texts(channels@),
                n == channels@.len(),
                n == names.len(),
                i <= n,
                self@.providers == v.providers,
                self@.refs == v.refs,
                self@.by_channel == subscribed(v.by_channel, names.subrange(0, i as int), who),
                well_subscribed(self@.by_channel, who + 1),
            decreases n - i,
        {
            broadcast use group_views;

            let ghost before = self@.by_channel;
            proof {
                let next = names.subrange(0, i as int + 1);
                assert(next.drop_last() =~= names.subrange(0, i as int));
                assert(next.last() == channels@[i as int]@);
            }
            let mut list: Vec<usize> = match self.by_channel.remove(&channels[i]) {
                Some(l) => l,
                None => Vec::new(),
            };
            assert(list@ =~= subscribers(before, channels@[i as int]@));
            list.push(who);
            let _ = self.by_channel.insert(channels[i].clone(), list);
            proof {
                let c = channels@[i as int]@;
                assert(self@.by_channel =~= before.insert(c, subscribers(before, c).push(who)));
                assert forall|d: Seq<char>, k: int|
                    #![trigger self@.by_channel[d][k]]
                    self@.by_channel.contains_key(d) && 0 <= k
                        < self@.by_channel[d].len() implies self@.by_channel[d][k] < who + 1 by {
                    if before.contains_key(d) && k < before[d].len() {
                        assert(before[d][k] < who + 1);
                    }
                }
            }
            i = i + 1;
        }
        assert(names.subrange(0, n as int) =~= names);
        assert(self@ =~= (SetView { by_channel: subscribed(v.by_channel, names, who), ..v }));
    }

    /// Takes a provider into the set, given what the registry answered on its card. One
    /// with an invalid definition, or with a card that was refused, is not taken.
    pub fn register(&mut self, provider: P, answer: Result<ModelRef, String>) -> (r: Result<
        ModelRef,
        MetricError,
    >)
        requires
            is_sound_set::<P>(old(self)@),
            P::is_sound(provider@),
            old(self)@.providers.len() < usize::MAX,
        ensures
            is_sound_set::<P>(final(self)@),
            match first_problem(P::published(provider@)) {
                Some(problem) => {
                    &&& r matches Err(e)
                    &&& e@ == problem
                    &&& final(self)@ == old(self)@
                },
                None => match answer {
                    Err(why) => {
                        &&& r matches Err(e)
                        &&& e@ == (ErrorView::Registry {
                            id: P::described(provider@).id,
                            problem: why@,
                        })
                        &&& final(self)@ == old(self)@
                    },
                    Ok(m) => {
                        &&& r == Ok::<ModelRef, MetricError>(m)
                        &&& final(self)@ == with_provider::<P>(old(self)@, provider@, m)
                    },
                },
            },
    {
        broadcast use group_views;

        let ghost v = self@;
        match provider.validate_defs() {
            Ok(_) => {},
            Err(e) => {
                return Err(e);
            },
        }
        match answer {
            Err(problem) => Err(MetricError::Registry { id: provider.card().id, problem }),
            Ok(m) => {
                let who: usize = self.providers.len();
                let channels = provider.subscribe();
                assert(views(self.providers@).len() == who);
                self.subscribe_all(&channels, who);
                let ghost before = views(self.providers@);
                self.providers.push(provider);
                self.refs.push(m);
                proof {
                    assert(views(self.providers@) =~= before.push(provider@));
                    assert(self@ =~= with_provider::<P>(v, provider@, m));
                    assert forall|i: int| 0 <= i < self@.providers.len() implies P::is_sound(
                        #[trigger] self@.providers[i],
                    ) by {
                        if i < v.providers.len() {
                            assert(self@.providers[i] == v.providers[i]);
                        }
                    }
                }
                Ok(m)
            },
        }
    }

    /// How many providers the set holds.
    pub fn len(&self) -> (n: usize)
        ensures
            n == self@.providers.len(),
    {
        assert(views(self.providers@).len() == self.providers@.len());
        self.providers.len()
    }

    /// True if no provider is registered.
    pub fn is_empty(&self) -> (r: bool)
        ensures
            r == (self@.providers.len() == 0),
    {
        assert(views(self.providers@).len() == self.providers@.len());
        self.providers.len() == 0
    }

    /// Where the cards of the providers are, in the order in which these were registered.
    pub fn refs(&self) -> (r: &Vec<ModelRef>)
        ensures
            r@ == self@.refs,
    {
        &self.refs
    }

    /// Every channel that a provider needs, each once, in order.
    pub fn channels(&self) -> (r: Vec<String>)
        ensures
            texts(r@) == Seq::new(
                in_order::<String, Seq<usize>>(self@.by_channel).len(),
                |i: int| in_order::<String, Seq<usize>>(self@.by_channel)[i].0,
            ),
    {
        let n: usize = self.by_channel.len();
        let ghost s = self.by_channel.listing();
        let ghost all = Seq::new(s.len(), |i: int| s[i].0);
        let mut out: Vec<String> = Vec::new();
        let mut i: usize = 0;
        assert(texts(out@) =~= all.subrange(0, 0));
        while i < n
            invariant
                s == self.by_channel.listing(),
                n == s.len(),
                all == Seq::new(s.len(), |i: int| s[i].0),
                i <= n,
                texts(out@) == all.subrange(0, i as int),
            decreases n - i,
        {
            broadcast use group_views;

            out.push(self.by_channel.key_at(i).clone());
            assert(texts(out@) =~= all.subrange(0, i as int + 1));
            i = i + 1;
        }
        assert(all.subrange(0, n as int) =~= all);
        out
    }

    fn deliver(&mut self, who: usize, ev: &EventRecord)
        requires
            is_sound_set::<P>(old(self)@),
            who < old(self)@.providers.len(),
            P::has_room_for(old(self)@.providers[who as int], *ev),
        ensures
            is_sound_set::<P>(final(self)@),
            final(self)@.providers == old(self)@.providers.update(
                who as int,
                P::next(old(self)@.providers[who as int], *ev),
            ),
            final(self)@.refs == old(self)@.refs,
            final(self)@.by_channel == old(self)@.by_channel,
    {
        broadcast use group_views;

        let ghost before = self@;
        let mut p = self.providers.remove(who);
        assert(p@ == before.providers[who as int]);
        assert(P::is_sound(before.providers[who as int]));
        p.on_event(ev);
        self.providers.insert(who, p);
        proof {
            assert(views(self.providers@) =~= before.providers.update(who as int, p@));
            assert forall|k: int| 0 <= k < self@.providers.len() implies P::is_sound(
                #[trigger] self@.providers[k],
            ) by {
                if k != who {
                    assert(self@.providers[k] == before.providers[k]);
                }
            }
        }
    }

    /// Hands a record to every provider that needs its channel. One that nobody needs is
    /// ignored.
    pub fn on_event(&mut self, ev: &EventRecord)
        requires
            is_sound_set::<P>(old(self)@),
            has_room::<P>(old(self)@, *ev),
        ensures
            is_sound_set::<P>(final(self)@),
            final(self)@ == (SetView {
                providers: delivered::<P>(
                    old(self)@.providers,
                    subscribers(old(self)@.by_channel, ev.channel@),
                    *ev,
                ),
                ..old(self)@
            }),
    {
        broadcast use group_views;

        let ghost v = self@;
        let ghost to = subscribers(v.by_channel, ev.channel@);
        let list: Vec<usize> = match self.by_channel.get(&ev.channel) {
            Some(l) => copy_indices(l),
            None => Vec::new(),
        };
        assert(list@ =~= to);
        let n: usize = list.len();
        let mut i: usize = 0;
        assert(to.subrange(0, 0) =~= Seq::<usize>::empty());
        assert(views(self.providers@) =~= v.providers);
        while i < n
            invariant
                list@ == to,
                n == to.len(),
                i <= n,
                to == subscribers(v.by_channel, ev.channel@),
                has_room::<P>(v, *ev),
                is_sound_set::<P>(v),
                self@.refs == v.refs,
                self@.by_channel == v.by_channel,
                self@.providers == delivered::<P>(v.providers, to.subrange(0, i as int), *ev),
                self@.providers.len() == v.providers.len(),
                is_sound_set::<P>(self@),
            decreases n - i,
        {
            proof {
                let next = to.subrange(0, i as int + 1);
                assert(next.drop_last() =~= to.subrange(0, i as int));
                assert(next.last() == to[i as int]);
                assert(v.by_channel[ev.channel@][i as int] < v.providers.len());
            }
            let who: usize = list[i];
            assert(P::has_room_for(
                delivered::<P>(v.providers, to.subrange(0, i as int), *ev)[to[i as int] as int],
                *ev,
            ));
            self.deliver(who, ev);
            i = i + 1;
        }
        assert(to.subrange(0, n as int) =~= to);
    }
}

fn copy_indices(l: &Vec<usize>) -> (r: Vec<usize>)
    ensures
        r@ == l@,
{
    let mut out: Vec<usize> = Vec::new();
    let n: usize = l.len();
    let mut i: usize = 0;
    while i < n
        invariant
            n == l@.len(),
            i <= n,
            out@ =~= l@.subrange(0, i as int),
        decreases n - i,
    {
        out.push(l[i]);
        i = i + 1;
    }
    assert(l@.subrange(0, n as int) =~= l@);
    out
}

impl<P: MetricProvider> ProviderSet<P> {
    fn all_defs(&self) -> (r: Vec<MetricDef>)
        ensures
            views(r@) == publications::<P>(self@.providers),
    {
        broadcast use group_views;

        let ghost ps = self@.providers;
        let n: usize = self.providers.len();
        let mut all: Vec<MetricDef> = Vec::new();
        let mut i: usize = 0;
        assert(ps.subrange(0, 0) =~= Seq::<P::V>::empty());
        assert(views(all@) =~= publications::<P>(ps.subrange(0, 0)));
        while i < n
            invariant
                ps == self@.providers,
                n == self.providers@.len(),
                n == ps.len(),
                i <= n,
                views(all@) == publications::<P>(ps.subrange(0, i as int)),
            decreases n - i,
        {
            broadcast use group_views;

            let ghost before = views(all@);
            proof {
                let next = ps.subrange(0, i as int + 1);
                assert(next.drop_last() =~= ps.subrange(0, i as int));
                assert(next.last() == self.providers@[i as int]@);
            }
            let mut defs = self.providers[i].defs();
            let ghost more = views(defs@);
            all.append(&mut defs);
            assert(views(all@) =~= before + more);
            i = i + 1;
        }
        assert(ps.subrange(0, n as int) =~= ps);
        all
    }

    /// Every definition of every provider, in the order of the metrics' names.
    pub fn catalog(&self) -> (r: Vec<MetricDef>)
        ensures
            views(r@) == index(publications::<P>(self@.providers)),
    {
        let all = self.all_defs();
        let ghost s = views(all@);
        let mut keyed: Vec<(String, MetricDef)> = Vec::new();
        assert(ranked(keyed@) =~= by_name(s.subrange(0, 0)));
        for d in it: all
            invariant
                s == views(it.seq()),
                ranked(keyed@) == by_name(s.subrange(0, it.index() as int)),
        {
            broadcast use group_views;

            let ghost i = it.index() as int;
            let ghost before = ranked(keyed@);
            assert(s[i] == d@);
            let name = d.name.clone();
            assert(name.rank() == s[i].name);
            keyed.push((name, d));
            assert(ranked(keyed@) =~= before.push((s[i].name, s[i])));
            assert(by_name(s.subrange(0, i)).push((s[i].name, s[i])) =~= by_name(
                s.subrange(0, i + 1),
            ));
            assert(ranked(keyed@) =~= by_name(s.subrange(0, i + 1)));
        }
        assert(s.subrange(0, s.len() as int) =~= s);
        let filed = sort(keyed);
        let ghost f = ranked(filed@);
        let mut out: Vec<MetricDef> = Vec::new();
        assert(views(out@) =~= seconds(f.subrange(0, 0)));
        for e in it: filed
            invariant
                f == ranked(it.seq()),
                views(out@) == seconds(f.subrange(0, it.index() as int)),
        {
            broadcast use group_views;

            let ghost i = it.index() as int;
            assert(f[i].1 == e.1@);
            out.push(e.1);
            assert(views(out@) =~= seconds(f.subrange(0, i + 1)));
        }
        assert(f.subrange(0, f.len() as int) =~= f);
        out
    }

    fn flush_all(&mut self, at: SimTime) -> (r: Vec<MetricSample>)
        requires
            is_sound_set::<P>(old(self)@),
            forall|i: int|
                0 <= i < old(self)@.providers.len() ==> P::has_room_to_flush(
                    #[trigger] old(self)@.providers[i],
                ),
        ensures
            views(r@) == windows::<P>(old(self)@.providers, at),
            final(self)@ == (SetView {
                providers: Seq::new(
                    old(self)@.providers.len(),
                    |i: int| P::emptied(old(self)@.providers[i], at),
                ),
                ..old(self)@
            }),
            is_sound_set::<P>(final(self)@),
    {
        broadcast use group_views;

        let ghost v = self@;
        let ghost ps = v.providers;
        let n: usize = self.providers.len();
        let mut all: Vec<MetricSample> = Vec::new();
        let mut i: usize = 0;
        assert(ps.subrange(0, 0) =~= Seq::<P::V>::empty());
        assert(views(all@) =~= windows::<P>(ps.subrange(0, 0), at));
        while i < n
            invariant
                ps == v.providers,
                n == ps.len(),
                n == self.providers@.len(),
                i <= n,
                self@.refs == v.refs,
                self@.by_channel == v.by_channel,
                self@.providers.len() == n,
                is_sound_set::<P>(self@),
                forall|k: int| 0 <= k < n ==> P::has_room_to_flush(#[trigger] ps[k]),
                forall|k: int| 0 <= k < i ==> #[trigger] self@.providers[k] == P::emptied(ps[k], at),
                forall|k: int| i <= k < n ==> #[trigger] self@.providers[k] == ps[k],
                views(all@) == windows::<P>(ps.subrange(0, i as int), at),
            decreases n - i,
        {
            broadcast use group_views;

            let ghost before = self@;
            let ghost taken = views(all@);
            proof {
                let next = ps.subrange(0, i as int + 1);
                assert(next.drop_last() =~= ps.subrange(0, i as int));
                assert(next.last() == ps[i as int]);
                assert(before.providers[i as int] == ps[i as int]);
            }
            let mut p = self.providers.remove(i);
            assert(p@ == ps[i as int]);
            assert(P::is_sound(before.providers[i as int]));
            assert(P::has_room_to_flush(ps[i as int]));
            let mut samples = p.flush(at);
            let ghost more = views(samples@);
            all.append(&mut samples);
            assert(views(all@) =~= taken + more);
            self.providers.insert(i, p);
            proof {
                assert(views(self.providers@) =~= before.providers.update(i as int, p@));
                assert forall|k: int| 0 <= k < self@.providers.len() implies P::is_sound(
                    #[trigger] self@.providers[k],
                ) by {
                    if k != i {
                        assert(self@.providers[k] == before.providers[k]);
                    }
                }
            }
            i = i + 1;
        }
        proof {
            assert(ps.subrange(0, n as int) =~= ps);
            assert(self@.providers =~= Seq::new(ps.len(), |i: int| P::emptied(ps[i], at)));
        }
        all
    }

    /// The samples of every provider for the window that ends at `at`, in the order of
    /// their keys and instants; a new window starts.
    pub fn flush(&mut self, at: SimTime) -> (r: Vec<MetricSample>)
        requires
            is_sound_set::<P>(old(self)@),
            forall|i: int|
                0 <= i < old(self)@.providers.len() ==> P::has_room_to_flush(
                    #[trigger] old(self)@.providers[i],
                ),
        ensures
            views(r@) == table(windows::<P>(old(self)@.providers, at)),
            final(self)@ == (SetView {
                providers: Seq::new(
                    old(self)@.providers.len(),
                    |i: int| P::emptied(old(self)@.providers[i], at),
                ),
                ..old(self)@
            }),
            is_sound_set::<P>(final(self)@),
    {
        let all = self.flush_all(at);
        let ghost s = views(all@);
        let mut keyed: Vec<((String, u64), MetricSample)> = Vec::new();
        assert(ranked(keyed@) =~= by_key(s.subrange(0, 0)));
        for x in it: all
            invariant
                s == views(it.seq()),
                ranked(keyed@) == by_key(s.subrange(0, it.index() as int)),
        {
            broadcast use group_views;

            let ghost i = it.index() as int;
            let ghost before = ranked(keyed@);
            assert(s[i] == x@);
            let key = (x.key(), x.t);
            assert(key.rank() == (s[i].key(), s[i].t));
            keyed.push((key, x));
            assert(ranked(keyed@) =~= before.push(((s[i].key(), s[i].t), s[i])));
            assert(by_key(s.subrange(0, i)).push(((s[i].key(), s[i].t), s[i])) =~= by_key(
                s.subrange(0, i + 1),
            ));
            assert(ranked(keyed@) =~= by_key(s.subrange(0, i + 1)));
        }
        assert(s.subrange(0, s.len() as int) =~= s);
        let filed = sort(keyed);
        let ghost f = ranked(filed@);
        let mut out: Vec<MetricSample> = Vec::new();
        assert(views(out@) =~= seconds(f.subrange(0, 0)));
        for e in it: filed
            invariant
                f == ranked(it.seq()),
                views(out@) == seconds(f.subrange(0, it.index() as int)),
        {
            broadcast use group_views;

            let ghost i = it.index() as int;
            assert(f[i].1 == e.1@);
            out.push(e.1);
            assert(views(out@) =~= seconds(f.subrange(0, i + 1)));
        }
        assert(f.subrange(0, f.len() as int) =~= f);
        out
    }

    /// How many records the providers could not read.
    pub fn rejected_total(&self) -> (r: u64)
        requires
            refusals::<P>(self@.providers) <= u64::MAX,
        ensures
            r == refusals::<P>(self@.providers),
    {
        broadcast use group_views;

        let ghost ps = self@.providers;
        let n: usize = self.providers.len();
        let mut sum: u64 = 0;
        let mut i: usize = 0;
        assert(ps.subrange(0, 0) =~= Seq::<P::V>::empty());
        while i < n
            invariant
                ps == self@.providers,
                n == self.providers@.len(),
                n == ps.len(),
                i <= n,
                refusals::<P>(ps) <= u64::MAX,
                sum == refusals::<P>(ps.subrange(0, i as int)),
            decreases n - i,
        {
            broadcast use group_views;

            proof {
                let next = ps.subrange(0, i as int + 1);
                assert(next.drop_last() =~= ps.subrange(0, i as int));
                assert(next.last() == self.providers@[i as int]@);
                refusals_add_up::<P>(ps, i as int + 1);
            }
            sum = sum + self.providers[i].rejected();
            i = i + 1;
        }
        assert(ps.subrange(0, n as int) =~= ps);
        sum
    }
}

/// Some providers refuse no more than all of them.
proof fn refusals_add_up<P: MetricProvider>(ps: Seq<P::V>, i: int)
    requires
        0 <= i <= ps.len(),
    ensures
        refusals::<P>(ps.subrange(0, i)) <= refusals::<P>(ps),
    decreases ps.len() - i,
{
    if i == ps.len() {
        assert(ps.subrange(0, i) =~= ps);
    } else {
        refusals_add_up::<P>(ps, i + 1);
        assert(ps.subrange(0, i + 1).drop_last() =~= ps.subrange(0, i));
    }
}

/// Giving samples their keys keeps how often each occurs.
proof fn keys_keep_counts(s: Seq<SampleView>, p: ((Seq<char>, u64), SampleView))
    ensures
        by_key(s).to_multiset().count(p) == if p.0 == (p.1.key(), p.1.t) {
            s.to_multiset().count(p.1)
        } else {
            0
        },
    decreases s.len(),
{
    broadcast use vstd::seq_lib::group_to_multiset_ensures;

    if s.len() == 0 {
        assert(by_key(s) =~= Seq::<((Seq<char>, u64), SampleView)>::empty());
        assert(s =~= Seq::<SampleView>::empty());
    } else {
        let t = s.drop_last();
        let x = s.last();
        keys_keep_counts(t, p);
        assert(by_key(s) =~= by_key(t).push(((x.key(), x.t), x)));
        assert(s =~= t.push(x));
    }
}

/// Samples with distinct keys make one table, in whatever order they come.
pub proof fn a_table_forgets_the_order(s: Seq<SampleView>, t: Seq<SampleView>)
    requires
        distinct(by_key(s)),
        s.to_multiset() == t.to_multiset(),
    ensures
        table(s) == table(t),
{
    assert forall|p: ((Seq<char>, u64), SampleView)| by_key(s).to_multiset().count(p)
        == #[trigger] by_key(t).to_multiset().count(p) by {
        keys_keep_counts(s, p);
        keys_keep_counts(t, p);
    }
    assert(by_key(s).to_multiset() =~= by_key(t).to_multiset());
    sorting_forgets_the_order::<(String, u64), SampleView>(by_key(s), by_key(t));
}

/// A provider's samples may be taken out from among those of the others.
proof fn windows_without<P: MetricProvider>(ps: Seq<P::V>, at: SimTime, j: int)
    requires
        0 <= j < ps.len(),
    ensures
        windows::<P>(ps, at).to_multiset() == windows::<P>(ps.remove(j), at).to_multiset().add(
            P::window(ps[j], at).to_multiset(),
        ),
    decreases ps.len(),
{
    broadcast use vstd::seq_lib::group_to_multiset_ensures;

    let last = P::window(ps.last(), at);
    if j == ps.len() - 1 {
        assert(ps.remove(j) =~= ps.drop_last());
        vstd::seq_lib::lemma_multiset_commutative(windows::<P>(ps.drop_last(), at), last);
    } else {
        let rest = ps.remove(j);
        assert(rest.drop_last() =~= ps.drop_last().remove(j));
        assert(rest.last() == ps.last());
        windows_without::<P>(ps.drop_last(), at, j);
        vstd::seq_lib::lemma_multiset_commutative(windows::<P>(ps.drop_last(), at), last);
        vstd::seq_lib::lemma_multiset_commutative(windows::<P>(rest.drop_last(), at), last);
        assert(windows::<P>(ps, at).to_multiset() =~= windows::<P>(rest, at).to_multiset().add(
            P::window(ps[j], at).to_multiset(),
        ));
    }
}

/// The samples of some providers are the same, whatever the order of these.
proof fn windows_forget_the_order<P: MetricProvider>(a: Seq<P::V>, b: Seq<P::V>, at: SimTime)
    requires
        a.to_multiset() == b.to_multiset(),
    ensures
        windows::<P>(a, at).to_multiset() == windows::<P>(b, at).to_multiset(),
    decreases a.len(),
{
    broadcast use vstd::seq_lib::group_to_multiset_ensures;

    assert(a.len() == a.to_multiset().len());
    assert(b.len() == b.to_multiset().len());
    if a.len() == 0 {
        assert(b =~= a);
    } else {
        let x = a.last();
        assert(a.to_multiset().count(x) > 0);
        assert(b.contains(x));
        let j = choose|j: int| 0 <= j < b.len() && b[j] == x;
        let rest = a.drop_last();
        assert(a =~= rest.push(x));
        assert(rest.to_multiset() =~= b.remove(j).to_multiset()) by {
            assert(a.to_multiset() =~= rest.to_multiset().insert(x));
            assert(b.remove(j).to_multiset() =~= b.to_multiset().remove(x));
        }
        windows_forget_the_order::<P>(rest, b.remove(j), at);
        windows_without::<P>(b, at, j);
        vstd::seq_lib::lemma_multiset_commutative(windows::<P>(rest, at), P::window(x, at));
    }
}

/// Two sets with the same providers, registered in whatever order, make the same table: its
/// samples have distinct keys.
pub proof fn registration_order_does_not_matter<P: MetricProvider>(
    a: Seq<P::V>,
    b: Seq<P::V>,
    at: SimTime,
)
    requires
        a.to_multiset() == b.to_multiset(),
        distinct(by_key(windows::<P>(a, at))),
    ensures
        table(windows::<P>(a, at)) == table(windows::<P>(b, at)),
{
    windows_forget_the_order::<P>(a, b, at);
    a_table_forgets_the_order(windows::<P>(a, at), windows::<P>(b, at));
}

/// Giving definitions their names keeps how often each occurs.
proof fn names_keep_counts(s: Seq<DefView>, p: (Seq<char>, DefView))
    ensures
        by_name(s).to_multiset().count(p) == if p.0 == p.1.name {
            s.to_multiset().count(p.1)
        } else {
            0
        },
    decreases s.len(),
{
    broadcast use vstd::seq_lib::group_to_multiset_ensures;

    if s.len() == 0 {
        assert(by_name(s) =~= Seq::<(Seq<char>, DefView)>::empty());
        assert(s =~= Seq::<DefView>::empty());
    } else {
        let t = s.drop_last();
        let x = s.last();
        names_keep_counts(t, p);
        assert(by_name(s) =~= by_name(t).push((x.name, x)));
        assert(s =~= t.push(x));
    }
}

/// A provider's definitions may be taken out from among those of the others.
proof fn publications_without<P: MetricProvider>(ps: Seq<P::V>, j: int)
    requires
        0 <= j < ps.len(),
    ensures
        publications::<P>(ps).to_multiset() == publications::<P>(ps.remove(j)).to_multiset().add(
            P::published(ps[j]).to_multiset(),
        ),
    decreases ps.len(),
{
    broadcast use vstd::seq_lib::group_to_multiset_ensures;

    let last = P::published(ps.last());
    if j == ps.len() - 1 {
        assert(ps.remove(j) =~= ps.drop_last());
        vstd::seq_lib::lemma_multiset_commutative(publications::<P>(ps.drop_last()), last);
    } else {
        let rest = ps.remove(j);
        assert(rest.drop_last() =~= ps.drop_last().remove(j));
        assert(rest.last() == ps.last());
        publications_without::<P>(ps.drop_last(), j);
        vstd::seq_lib::lemma_multiset_commutative(publications::<P>(ps.drop_last()), last);
        vstd::seq_lib::lemma_multiset_commutative(publications::<P>(rest.drop_last()), last);
        assert(publications::<P>(ps).to_multiset() =~= publications::<P>(rest).to_multiset().add(
            P::published(ps[j]).to_multiset(),
        ));
    }
}

/// The definitions of some providers are the same, whatever the order of these.
proof fn publications_forget_the_order<P: MetricProvider>(a: Seq<P::V>, b: Seq<P::V>)
    requires
        a.to_multiset() == b.to_multiset(),
    ensures
        publications::<P>(a).to_multiset() == publications::<P>(b).to_multiset(),
    decreases a.len(),
{
    broadcast use vstd::seq_lib::group_to_multiset_ensures;

    assert(a.len() == a.to_multiset().len());
    assert(b.len() == b.to_multiset().len());
    if a.len() == 0 {
        assert(b =~= a);
    } else {
        let x = a.last();
        assert(a.to_multiset().count(x) > 0);
        assert(b.contains(x));
        let j = choose|j: int| 0 <= j < b.len() && b[j] == x;
        let rest = a.drop_last();
        assert(a =~= rest.push(x));
        assert(rest.to_multiset() =~= b.remove(j).to_multiset()) by {
            assert(a.to_multiset() =~= rest.to_multiset().insert(x));
            assert(b.remove(j).to_multiset() =~= b.to_multiset().remove(x));
        }
        publications_forget_the_order::<P>(rest, b.remove(j));
        publications_without::<P>(b, j);
        vstd::seq_lib::lemma_multiset_commutative(publications::<P>(rest), P::published(x));
    }
}

/// Two sets with the same providers, registered in whatever order, have the same catalogue:
/// its definitions have distinct names.
pub proof fn the_catalogue_forgets_the_order<P: MetricProvider>(a: Seq<P::V>, b: Seq<P::V>)
    requires
        a.to_multiset() == b.to_multiset(),
        distinct(by_name(publications::<P>(a))),
    ensures
        index(publications::<P>(a)) == index(publications::<P>(b)),
{
    publications_forget_the_order::<P>(a, b);
    let s = publications::<P>(a);
    let t = publications::<P>(b);
    assert forall|p: (Seq<char>, DefView)| by_name(s).to_multiset().count(p)
        == #[trigger] by_name(t).to_multiset().count(p) by {
        names_keep_counts(s, p);
        names_keep_counts(t, p);
    }
    assert(by_name(s).to_multiset() =~= by_name(t).to_multiset());
    sorting_forgets_the_order::<String, DefView>(by_name(s), by_name(t));
}

/// A record that nobody needs changes nothing.
pub proof fn an_unneeded_record_changes_nothing<P: MetricProvider>(
    v: SetView<P::V>,
    ev: EventRecord,
)
    requires
        !v.by_channel.contains_key(ev.channel@),
    ensures
        delivered::<P>(v.providers, subscribers(v.by_channel, ev.channel@), ev) == v.providers,
        has_room::<P>(v, ev),
{
}

/// True if the subscribers of `channel` are just those providers whose `needs` hold it, each
/// of them once.
pub open spec fn serves(
    m: Map<Seq<char>, Seq<usize>>,
    needs: Seq<Seq<Seq<char>>>,
    channel: Seq<char>,
) -> bool {
    let to = subscribers(m, channel);
    &&& to.no_duplicates()
    &&& forall|k: int| 0 <= k < to.len() ==> (#[trigger] to[k]) < needs.len()
    &&& forall|i: usize|
        i < needs.len() ==> (#[trigger] to.contains(i) <==> needs[i as int].contains(channel))
}

/// True if every channel is served.
pub open spec fn resolved(m: Map<Seq<char>, Seq<usize>>, needs: Seq<Seq<Seq<char>>>) -> bool {
    forall|channel: Seq<char>| #[trigger] serves(m, needs, channel)
}

/// Who gets a channel once one more provider has subscribed to `channels`.
proof fn subscribers_after(
    m: Map<Seq<char>, Seq<usize>>,
    channels: Seq<Seq<char>>,
    who: usize,
    channel: Seq<char>,
)
    requires
        channels.no_duplicates(),
    ensures
        subscribers(subscribed(m, channels, who), channel) == if channels.contains(channel) {
            subscribers(m, channel).push(who)
        } else {
            subscribers(m, channel)
        },
    decreases channels.len(),
{
    if channels.len() > 0 {
        let init = channels.drop_last();
        subscribers_after(m, init, who, channel);
        assert(channels =~= init.push(channels.last()));
        if channel == channels.last() {
            assert(channels[channels.len() - 1] == channel);
            if init.contains(channel) {
                let k = choose|k: int| 0 <= k < init.len() && init[k] == channel;
                assert(channels[k] == channel);
            }
        } else if channels.contains(channel) {
            let k = choose|k: int| 0 <= k < channels.len() && channels[k] == channel;
            assert(init[k] == channel);
        } else if init.contains(channel) {
            let k = choose|k: int| 0 <= k < init.len() && init[k] == channel;
            assert(channels[k] == channel);
        }
    }
}

/// Registering a provider subscribes it to the channels that it needs, and changes nothing
/// for the providers before it. It names no channel twice.
pub proof fn registration_resolves_the_channels(
    m: Map<Seq<char>, Seq<usize>>,
    needs: Seq<Seq<Seq<char>>>,
    channels: Seq<Seq<char>>,
)
    requires
        resolved(m, needs),
        channels.no_duplicates(),
        needs.len() < usize::MAX,
    ensures
        resolved(subscribed(m, channels, needs.len() as usize), needs.push(channels)),
{
    let who = needs.len() as usize;
    let after = subscribed(m, channels, who);
    let all = needs.push(channels);
    assert forall|channel: Seq<char>| #[trigger] serves(after, all, channel) by {
        subscribers_after(m, channels, who, channel);
        assert(serves(m, needs, channel));
        let old_to = subscribers(m, channel);
        let to = subscribers(after, channel);
        assert forall|k: int| 0 <= k < to.len() implies (#[trigger] to[k]) < all.len() by {
            if k < old_to.len() {
                assert(to[k] == old_to[k]);
            }
        }
        assert forall|i: usize| i < all.len() implies (#[trigger] to.contains(i)
            <==> all[i as int].contains(channel)) by {
            if old_to.contains(i) {
                let k = choose|k: int| 0 <= k < old_to.len() && old_to[k] == i;
                assert(to[k] == i);
            } else if to.contains(i) {
                let k = choose|k: int| 0 <= k < to.len() && to[k] == i;
                assert(k == old_to.len());
            }
            if i == who && channels.contains(channel) {
                assert(to[old_to.len() as int] == who);
            }
        }
    }
}

/// A record reaches each provider that needs its channel, once, and no other provider.
pub proof fn a_record_reaches_just_its_subscribers<P: MetricProvider>(
    v: SetView<P::V>,
    needs: Seq<Seq<Seq<char>>>,
    ev: EventRecord,
)
    requires
        v.providers.len() == needs.len(),
        needs.len() <= usize::MAX,
        resolved(v.by_channel, needs),
    ensures
        delivered::<P>(v.providers, subscribers(v.by_channel, ev.channel@), ev) =~= Seq::new(
            v.providers.len(),
            |i: int|
                if needs[i].contains(ev.channel@) {
                    P::next(v.providers[i], ev)
                } else {
                    v.providers[i]
                },
        ),
{
    let to = subscribers(v.by_channel, ev.channel@);
    assert(serves(v.by_channel, needs, ev.channel@));
    delivered_to_each::<P>(v.providers, to, ev);
    let after = delivered::<P>(v.providers, to, ev);
    assert forall|i: int| 0 <= i < after.len() implies #[trigger] after[i] == if needs[i].contains(
        ev.channel@,
    ) {
        P::next(v.providers[i], ev)
    } else {
        v.providers[i]
    } by {
        assert(to.contains(i as usize) <==> needs[i].contains(ev.channel@));
    }
}

/// What becomes of each provider when a record is handed to some of them, once each.
proof fn delivered_to_each<P: MetricProvider>(providers: Seq<P::V>, to: Seq<usize>, ev: EventRecord)
    requires
        to.no_duplicates(),
        forall|k: int| 0 <= k < to.len() ==> (#[trigger] to[k]) < providers.len(),
        providers.len() <= usize::MAX,
    ensures
        delivered::<P>(providers, to, ev).len() == providers.len(),
        forall|i: int|
            0 <= i < providers.len() ==> #[trigger] delivered::<P>(providers, to, ev)[i] == if to.contains(
                i as usize,
            ) {
                P::next(providers[i], ev)
            } else {
                providers[i]
            },
    decreases to.len(),
{
    if to.len() > 0 {
        let init = to.drop_last();
        assert forall|k: int| 0 <= k < init.len() implies (#[trigger] init[k]) < providers.len() by {
            assert(init[k] == to[k]);
        }
        delivered_to_each::<P>(providers, init, ev);
        let before = delivered::<P>(providers, init, ev);
        let last = to.last();
        assert(last == to[to.len() - 1]);
        assert forall|i: int| 0 <= i < providers.len() implies #[trigger] delivered::<P>(
            providers,
            to,
            ev,
        )[i] == if to.contains(i as usize) {
            P::next(providers[i], ev)
        } else {
            providers[i]
        } by {
            let w = i as usize;
            assert(before[i] == if init.contains(w) {
                P::next(providers[i], ev)
            } else {
                providers[i]
            });
            if init.contains(w) {
                let k = choose|k: int| 0 <= k < init.len() && init[k] == w;
                assert(to[k] == w);
            } else if to.contains(w) {
                let k = choose|k: int| 0 <= k < to.len() && to[k] == w;
                assert(k == to.len() - 1) by {
                    if k < to.len() - 1 {
                        assert(init[k] == w);
                    }
                }
            }
        }
    }
}

} // verus!
