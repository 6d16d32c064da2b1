//! On-demand watches: what a view asks for, and how the events reach it.
//!
//! Only what someone is looking at is watched. The first subscriber starts a
//! watch, later ones attach to the running one and are handed its current
//! contents immediately. When the last subscriber goes away the watch lingers
//! briefly before shutting down, because clicking from Pods to Deployments and
//! back is a normal thing to do and re-listing a large namespace for it is not.
use std::sync::Arc;

use vstd::prelude::*;

use crate::base::dict::{row_less, row_of, Dict, Key, Row};
use crate::base::text::{borrowed, held, three, two};
use crate::k8s::resources::{
    core_resource, event, ApiResource, DynamicObject, ObjectView, ResourceView,
};
use crate::k8s::session::{after_failure, after_success, HealthState, StateView};
use crate::k8s::store::{
    a_list_is_everything, applied, applied_all, copies_stay_alike, delta_views, indexed,
    object_views, ref_of, slim, slimmed, Delta, DeltaBatch, DeltaView, ObjectRef, ResourceStore,
    StoreView,
};

verus! {

/// How long deltas accumulate before being sent, in milliseconds: one frame.
pub const BATCH_WINDOW: u64 = 16;

/// Flush early once a batch reaches this size, so that a sustained flood does
/// not grow an unbounded buffer between ticks.
pub const BATCH_LIMIT: usize = 512;

/// How long a watch with no subscribers stays alive, in seconds.
pub const LINGER: u64 = 30;

/// Objects fetched per page during the initial list.
pub const PAGE_SIZE: u32 = 500;

/// What to watch: one kind, one scope, one filter.
///
/// Two views asking for the same thing share a single watch and a single copy
/// of the objects.
#[derive(Debug, PartialEq, Eq, Hash)]
pub struct WatchKey {
    pub resource: ApiResource,
    /// `None` means every namespace, and is the only option for a
    /// cluster-scoped kind.
    pub namespace: Option<String>,
    /// A label selector, as `kubectl -l` spells it.
    pub labels: Option<String>,
    /// A field selector, such as `involvedObject.uid=...`.
    pub fields: Option<String>,
}

/// What to watch, as a mathematical object.
pub struct WatchKeyView {
    pub resource: ResourceView,
    pub namespace: Option<Seq<char>>,
    pub labels: Option<Seq<char>>,
    pub fields: Option<Seq<char>>,
}

impl View for WatchKey {
    type V = WatchKeyView;

    open spec fn view(&self) -> WatchKeyView {
        WatchKeyView {
            resource: self.resource@,
            namespace: held(self.namespace),
            labels: held(self.labels),
            fields: held(self.fields),
        }
    }
}

impl WatchKey {
    /// Every object of a kind, across all namespaces.
    pub fn all(resource: ApiResource) -> (r: WatchKey)
        ensures
            r@ == (WatchKeyView {
                resource: resource@,
                namespace: None,
                labels: None,
                fields: None,
            }),
    {
        WatchKey { resource, namespace: None, labels: None, fields: None }
    }

    /// Every object of a kind within one namespace.
    pub fn namespaced(resource: ApiResource, namespace: &str) -> (r: WatchKey)
        ensures
            r@ == (WatchKeyView {
                resource: resource@,
                namespace: Some(namespace@),
                labels: None,
                fields: None,
            }),
    {
        WatchKey { resource, namespace: Some(namespace.to_owned()), labels: None, fields: None }
    }

    /// The events about one object, by its UID: matching by name would show
    /// events about whatever held the name before.
    pub fn events_about(uid: &str, namespace: Option<String>) -> (r: WatchKey)
        ensures
            r@ == (WatchKeyView {
                resource: core_resource("Event"@, "events"@),
                namespace: held(namespace),
                labels: None,
                fields: Some("involvedObject.uid="@ + uid@),
            }),
    {
        WatchKey::all(event()).in_namespace(namespace).with_fields(
            two("involvedObject.uid=", uid).as_str(),
        )
    }

    /// Scopes a key to a namespace, or to the whole cluster with `None`.
    pub fn in_namespace(self, namespace: Option<String>) -> (r: WatchKey)
        ensures
            r@ == (WatchKeyView { namespace: held(namespace), ..self@ }),
    {
        WatchKey { resource: self.resource, namespace, labels: self.labels, fields: self.fields }
    }

    pub fn with_labels(self, selector: &str) -> (r: WatchKey)
        ensures
            r@ == (WatchKeyView { labels: Some(selector@), ..self@ }),
    {
        WatchKey {
            resource: self.resource,
            namespace: self.namespace,
            labels: Some(selector.to_owned()),
            fields: self.fields,
        }
    }

    pub fn with_fields(self, selector: &str) -> (r: WatchKey)
        ensures
            r@ == (WatchKeyView { fields: Some(selector@), ..self@ }),
    {
        WatchKey {
            resource: self.resource,
            namespace: self.namespace,
            labels: self.labels,
            fields: Some(selector.to_owned()),
        }
    }

    /// What a log line says about this watch: `Pod`, or `Pod in kube-system`.
    pub fn describe(&self) -> (r: String)
        ensures
            r@ == (match self@.namespace {
                Some(namespace) => self@.resource.kind + " in "@ + namespace,
                None => self@.resource.kind,
            }),
    {
        match &self.namespace {
            Some(namespace) => three(self.resource.kind.as_str(), " in ", namespace.as_str()),
            None => self.resource.kind.clone(),
        }
    }

    /// A copy.
    pub fn copy(&self) -> (r: WatchKey)
        ensures
            r@ == self@,
    {
        WatchKey {
            resource: self.resource.copy(),
            namespace: self.namespace.clone(),
            labels: self.labels.clone(),
            fields: self.fields.clone(),
        }
    }

    /// What the key is ordered by.
    fn texts(&self) -> (r: Vec<Option<&str>>)
        ensures
            row_of(r@) == WatchKey::row(self@),
    {
        let r: Vec<Option<&str>> = vec![
            Some(self.resource.kind.as_str()),
            Some(self.resource.group.as_str()),
            Some(self.resource.version.as_str()),
            Some(self.resource.api_version.as_str()),
            Some(self.resource.plural.as_str()),
            borrowed(&self.namespace),
            borrowed(&self.labels),
            borrowed(&self.fields),
        ];
        assert(row_of(r@) =~= WatchKey::row(self@));
        r
    }
}

impl Key for WatchKey {
    open spec fn row(v: WatchKeyView) -> Row {
        seq![
            Some(v.resource.kind),
            Some(v.resource.group),
            Some(v.resource.version),
            Some(v.resource.api_version),
            Some(v.resource.plural),
            v.namespace,
            v.labels,
            v.fields,
        ]
    }

    proof fn row_injective(a: WatchKeyView, b: WatchKeyView) {
        let x = Self::row(a);
        let y = Self::row(b);
        assert(x[0] == y[0] && x[1] == y[1] && x[2] == y[2] && x[3] == y[3] && x[4] == y[4]);
        assert(x[5] == y[5] && x[6] == y[6] && x[7] == y[7]);
    }

    fn less(&self, other: &Self) -> (r: bool) {
        row_less(&self.texts(), &other.texts())
    }
}

/// An event of a watch. A list arrives as `Init`, any number of `InitApply` and
/// `InitDone`; what happens after it as `Apply` and `Delete`.
#[derive(Debug, PartialEq, Eq)]
pub enum Event {
    Init,
    InitApply(DynamicObject),
    InitDone,
    Apply(DynamicObject),
    Delete(DynamicObject),
}

/// An event of a watch, as a mathematical object.
pub enum EventView {
    Init,
    InitApply(ObjectView),
    InitDone,
    Apply(ObjectView),
    Delete(ObjectView),
}

impl View for Event {
    type V = EventView;

    open spec fn view(&self) -> EventView {
        match self {
            Event::Init => EventView::Init,
            Event::InitApply(object) => EventView::InitApply(object@),
            Event::InitDone => EventView::InitDone,
            Event::Apply(object) => EventView::Apply(object@),
            Event::Delete(object) => EventView::Delete(object@),
        }
    }
}

/// Turns a watcher's event stream into coalesced batches.
///
/// An `Init`/`InitApply`/`InitDone` sequence has to become a single
/// [`Delta::Reset`], not a stream of upserts, or the table shows objects that
/// the relist already removed.
pub struct Coalescer {
    pending: DeltaBatch,
    /// `Some` while a relist is in progress.
    relisting: Option<Vec<Arc<DynamicObject>>>,
}

/// What has been gathered, as a mathematical object.
pub struct CoalescerView {
    pub pending: Seq<DeltaView>,
    pub relisting: Option<Seq<ObjectView>>,
}

impl View for Coalescer {
    type V = CoalescerView;

    closed spec fn view(&self) -> CoalescerView {
        CoalescerView {
            pending: delta_views(self.pending@),
            relisting: match self.relisting {
                Some(list) => Some(object_views(list@)),
                None => None,
            },
        }
    }
}

/// The objects of the relist in progress; none where there is none.
pub open spec fn relisted(c: CoalescerView) -> Seq<ObjectView> {
    match c.relisting {
        Some(list) => list,
        None => Seq::empty(),
    }
}

/// What has been gathered after one more event. A relist replaces wholesale
/// what was gathered before it.
pub open spec fn ingested(c: CoalescerView, event: EventView) -> CoalescerView {
    match event {
        EventView::Init => CoalescerView {
            pending: Seq::empty(),
            relisting: Some(Seq::empty()),
        },
        EventView::InitApply(object) => CoalescerView {
            pending: c.pending,
            relisting: Some(relisted(c).push(slimmed(object))),
        },
        EventView::InitDone => CoalescerView {
            pending: c.pending.push(DeltaView::Reset(relisted(c))),
            relisting: None,
        },
        EventView::Apply(object) => CoalescerView {
            pending: c.pending.push(DeltaView::Upsert(slimmed(object))),
            relisting: c.relisting,
        },
        EventView::Delete(object) => CoalescerView {
            pending: c.pending.push(DeltaView::Remove(ref_of(object))),
            relisting: c.relisting,
        },
    }
}

/// Whether a batch is to be sent right after an event rather than at the next
/// tick: at the end of a list, and when it has grown to the limit.
pub open spec fn flushes(c: CoalescerView, event: EventView) -> bool {
    match event {
        EventView::Init => false,
        EventView::InitApply(_) => false,
        EventView::InitDone => true,
        _ => ingested(c, event).pending.len() >= BATCH_LIMIT,
    }
}

/// What has been gathered after several events.
pub open spec fn ingested_all(c: CoalescerView, events: Seq<EventView>) -> CoalescerView
    decreases events.len(),
{
    if events.len() == 0 {
        c
    } else {
        ingested(ingested_all(c, events.drop_last()), events.last())
    }
}

/// The events of a list of objects.
pub open spec fn list_events(objects: Seq<ObjectView>) -> Seq<EventView> {
    objects.map_values(|o: ObjectView| EventView::InitApply(o))
}

/// Each object without what no list reads.
pub open spec fn slimmed_all(objects: Seq<ObjectView>) -> Seq<ObjectView> {
    objects.map_values(|o: ObjectView| slimmed(o))
}

/// The listed objects gather behind what was there.
proof fn listing_gathers(c: CoalescerView, objects: Seq<ObjectView>)
    requires
        c.relisting is Some,
    ensures
        ingested_all(c, list_events(objects)) == (CoalescerView {
            pending: c.pending,
            relisting: Some(relisted(c) + slimmed_all(objects)),
        }),
    decreases objects.len(),
{
    if objects.len() == 0 {
        assert(relisted(c) + slimmed_all(objects) =~= relisted(c));
    } else {
        let front = objects.drop_last();
        listing_gathers(c, front);
        assert(list_events(objects).drop_last() =~= list_events(front));
        assert(relisted(c) + slimmed_all(objects) =~= (relisted(c) + slimmed_all(front)).push(
            slimmed(objects.last()),
        ));
    }
}

/// A relist becomes one reset to the listed objects, whatever was gathered
/// before it.
pub proof fn relist_becomes_one_reset(c: CoalescerView, objects: Seq<ObjectView>)
    ensures
        ingested(
            ingested_all(ingested(c, EventView::Init), list_events(objects)),
            EventView::InitDone,
        ) == (CoalescerView {
            pending: seq![DeltaView::Reset(slimmed_all(objects))],
            relisting: None,
        }),
{
    let started = ingested(c, EventView::Init);
    listing_gathers(started, objects);
    assert(relisted(started) + slimmed_all(objects) =~= slimmed_all(objects));
    assert(Seq::<DeltaView>::empty().push(DeltaView::Reset(slimmed_all(objects))) =~= seq![
        DeltaView::Reset(slimmed_all(objects)),
    ]);
}

/// Nothing is sent while a relist is in progress.
pub proof fn nothing_is_pending_mid_relist(c: CoalescerView, objects: Seq<ObjectView>)
    ensures
        ingested_all(ingested(c, EventView::Init), list_events(objects)).pending.len() == 0,
{
    listing_gathers(ingested(c, EventView::Init), objects);
}

/// A store that applies the batch of a relist holds exactly what was listed.
pub proof fn relist_reaches_the_store(c: CoalescerView, store: StoreView, objects: Seq<ObjectView>)
    ensures
        applied_all(
            store,
            ingested(
                ingested_all(ingested(c, EventView::Init), list_events(objects)),
                EventView::InitDone,
            ).pending,
        ).objects == indexed(slimmed_all(objects)),
{
    relist_becomes_one_reset(c, objects);
    let batch = seq![DeltaView::Reset(slimmed_all(objects))];
    assert(batch.drop_last() =~= Seq::empty());
    assert(batch.last() == DeltaView::Reset(slimmed_all(objects)));
    reveal_with_fuel(applied_all, 2);
}

impl Coalescer {
    pub fn new() -> (r: Coalescer)
        ensures
            r@.pending.len() == 0,
            r@.relisting is None,
    {
        Coalescer { pending: Vec::new(), relisting: None }
    }

    /// Takes one event. Returns whether the batch should be flushed right away
    /// rather than at the next tick.
    pub fn ingest(&mut self, event: Event) -> (r: bool)
        ensures
            final(self)@ == ingested(old(self)@, event@),
            r == flushes(old(self)@, event@),
    {
        let ghost before = self@;
        let ghost waiting = self.pending@;
        match event {
            Event::Init => {
                self.pending = Vec::new();
                let none: Vec<Arc<DynamicObject>> = Vec::new();
                assert(object_views(none@) =~= Seq::empty());
                self.relisting = Some(none);
                assert(self@.pending =~= Seq::empty());
                false
            },
            Event::InitApply(object) => {
                let mut list: Vec<Arc<DynamicObject>> = match self.relisting.take() {
                    Some(list) => list,
                    None => Vec::new(),
                };
                assert(object_views(list@) =~= relisted(before));
                let ghost earlier = list@;
                let object = slim(object);
                let ghost added = object@;
                list.push(Arc::new(object));
                assert(object_views(list@) =~= object_views(earlier).push(added));
                self.relisting = Some(list);
                false
            },
            Event::InitDone => {
                let list: Vec<Arc<DynamicObject>> = match self.relisting.take() {
                    Some(list) => list,
                    None => Vec::new(),
                };
                assert(object_views(list@) =~= relisted(before));
                let ghost delta = DeltaView::Reset(object_views(list@));
                self.pending.push(Delta::Reset(list));
                assert(self@.pending =~= before.pending.push(delta));
                // The first screen should not wait for a tick.
                true
            },
            Event::Apply(object) => {
                let object = slim(object);
                let ghost delta = DeltaView::Upsert(object@);
                self.pending.push(Delta::Upsert(Arc::new(object)));
                assert(self@.pending =~= before.pending.push(delta));
                self.pending.len() >= BATCH_LIMIT
            },
            Event::Delete(object) => {
                let key = ObjectRef::of(&object);
                let ghost delta = DeltaView::Remove(key@);
                self.pending.push(Delta::Remove(key));
                assert(self@.pending =~= before.pending.push(delta));
                self.pending.len() >= BATCH_LIMIT
            },
        }
    }

    pub fn is_empty(&self) -> (r: bool)
        ensures
            r == (self@.pending.len() == 0),
    {
        self.pending.len() == 0
    }

    /// Hands out what has been gathered and starts over.
    pub fn take(&mut self) -> (r: DeltaBatch)
        ensures
            delta_views(r@) == old(self)@.pending,
            final(self)@.pending.len() == 0,
            final(self)@.relisting == old(self)@.relisting,
    {
        let mut out: DeltaBatch = Vec::new();
        core::mem::swap(&mut out, &mut self.pending);
        out
    }
}

/// What the task of a watch can meet.
pub enum Signal {
    Event(Event),
    /// The stream failed. It restarts itself, so this is a report and no reason
    /// to stop.
    Failed(String),
    /// The time for a batch is up.
    Tick,
}

/// What the task of a watch can meet, as a mathematical object.
pub enum SignalView {
    Event(EventView),
    Failed(Seq<char>),
    Tick,
}

impl View for Signal {
    type V = SignalView;

    open spec fn view(&self) -> SignalView {
        match self {
            Signal::Event(event) => SignalView::Event(event@),
            Signal::Failed(error) => SignalView::Failed(error@),
            Signal::Tick => SignalView::Tick,
        }
    }
}

/// What a watch's task makes of a signal: what is gathered then, and the batch
/// to send.
pub open spec fn stepped(c: CoalescerView, signal: SignalView) -> (
    CoalescerView,
    Option<Seq<DeltaView>>,
) {
    let (gathered, flush) = match signal {
        SignalView::Event(event) => (ingested(c, event), flushes(c, event)),
        SignalView::Failed(_) => (c, false),
        SignalView::Tick => (c, c.pending.len() > 0),
    };
    if flush {
        (
            CoalescerView { pending: Seq::empty(), relisting: gathered.relisting },
            Some(gathered.pending),
        )
    } else {
        (gathered, None)
    }
}

/// What a signal says of the session's health.
pub open spec fn reported(s: StateView, id: u64, signal: SignalView) -> StateView {
    match signal {
        SignalView::Event(_) => after_success(s, id),
        SignalView::Failed(error) => after_failure(s, id, error),
        SignalView::Tick => s,
    }
}

/// No signal but the start of a relist loses what was gathered: it is sent, or
/// still there.
pub proof fn only_a_relist_discards(c: CoalescerView, signal: SignalView)
    requires
        signal != SignalView::Event(EventView::Init),
    ensures
        ({
            let (after, sent) = stepped(c, signal);
            match sent {
                Some(batch) => c.pending.is_prefix_of(batch) && after.pending.len() == 0,
                None => c.pending.is_prefix_of(after.pending),
            }
        }),
{
}

/// A batch that is sent is never empty.
pub proof fn no_batch_is_empty(c: CoalescerView, signal: SignalView)
    ensures
        stepped(c, signal).1 matches Some(batch) ==> batch.len() > 0,
{
}

/// One step of a watch's task: takes in a signal, reports to the session's
/// health, and returns the batch to send where one is due.
pub fn step(
    coalescer: &mut Coalescer,
    health: &mut HealthState,
    id: u64,
    signal: Signal,
) -> (r: Option<DeltaBatch>)
    ensures
        final(coalescer)@ == stepped(old(coalescer)@, signal@).0,
        final(health)@ == reported(old(health)@, id, signal@),
        (match r {
            Some(batch) => Some(delta_views(batch@)),
            None => None,
        }) == stepped(old(coalescer)@, signal@).1,
{
    let flush = match signal {
        Signal::Event(event) => {
            health.healthy(id);
            coalescer.ingest(event)
        },
        Signal::Failed(error) => {
            health.failed(id, error.as_str());
            false
        },
        Signal::Tick => !coalescer.is_empty(),
    };
    if flush {
        let batch = coalescer.take();
        assert(coalescer@.pending =~= Seq::empty());
        Some(batch)
    } else {
        None
    }
}

/// One running watch and everyone listening to it.
pub struct Watch {
    /// The authoritative contents, so that a late subscriber is caught up
    /// without waiting for the next event.
    store: ResourceStore,
    /// Whether the initial list has completed. Until it has, an empty store
    /// means "not yet", not "nothing there".
    listed: bool,
    subscribers: Vec<u64>,
    /// Bumped on every new subscriber, so that a pending shutdown can tell that
    /// somebody re-subscribed while it was waiting.
    generation: u64,
}

/// One running watch, as a mathematical object.
pub struct WatchView {
    pub store: StoreView,
    pub listed: bool,
    /// Who listens, in the order in which they joined.
    pub subscribers: Seq<u64>,
    pub generation: u64,
}

impl View for Watch {
    type V = WatchView;

    closed spec fn view(&self) -> WatchView {
        WatchView {
            store: self.store@,
            listed: self.listed,
            subscribers: self.subscribers@,
            generation: self.generation,
        }
    }
}

impl Watch {
    /// Nobody listens twice.
    #[verifier::type_invariant]
    closed spec fn listens_once(self) -> bool {
        self.subscribers@.no_duplicates()
    }
}

/// The listeners with one more, who is not listed twice.
pub open spec fn joined_by(list: Seq<u64>, id: u64) -> Seq<u64> {
    if list.contains(id) {
        list
    } else {
        list.push(id)
    }
}

/// The listeners without some.
pub open spec fn left_by(list: Seq<u64>, gone: Set<u64>) -> Seq<u64> {
    list.filter(|id: u64| !gone.contains(id))
}

/// Those who stay are still listed once.
proof fn leaving_lists_once(list: Seq<u64>, gone: Set<u64>)
    requires
        list.no_duplicates(),
    ensures
        left_by(list, gone).no_duplicates(),
    decreases list.len(),
{
    reveal(Seq::filter);
    if list.len() > 0 {
        let front = list.drop_last();
        let kept_front = left_by(front, gone);
        leaving_lists_once(front, gone);
        assert forall|x: u64| kept_front.contains(x) implies front.contains(x) by {
            front.lemma_filter_contains_rev(|id: u64| !gone.contains(id), x);
        }
        if kept_front.contains(list.last()) {
            let i = choose|i: int| 0 <= i < front.len() && front[i] == list.last();
            assert(list[i] == list[list.len() - 1]);
        }
        assert forall|i: int, j: int|
            0 <= i < left_by(list, gone).len() && 0 <= j < left_by(list, gone).len() && i
                != j implies left_by(list, gone)[i] != left_by(list, gone)[j] by {
            if i < kept_front.len() {
                assert(kept_front.contains(kept_front[i]));
            }
            if j < kept_front.len() {
                assert(kept_front.contains(kept_front[j]));
            }
        }
    }
}

/// Where none of the listeners leave, all stay.
proof fn nobody_leaves(list: Seq<u64>, gone: Set<u64>)
    requires
        forall|i: int| 0 <= i < list.len() ==> !gone.contains(#[trigger] list[i]),
    ensures
        left_by(list, gone) == list,
    decreases list.len(),
{
    reveal(Seq::filter);
    if list.len() > 0 {
        nobody_leaves(list.drop_last(), gone);
        assert(!gone.contains(list[list.len() - 1]));
        assert(list.drop_last().push(list.last()) =~= list);
    }
}

/// A watch before its first subscriber.
pub open spec fn fresh_watch() -> WatchView {
    WatchView {
        store: StoreView { objects: Map::empty(), revision: 0 },
        listed: false,
        subscribers: Seq::empty(),
        generation: 0,
    }
}

/// Every watch running against one cluster.
pub struct Registry {
    watches: Dict<WatchKey, Watch>,
    next_subscriber_id: u64,
}

/// Every watch running against one cluster, as a mathematical object.
pub struct RegistryView {
    pub watches: Map<WatchKeyView, WatchView>,
    pub next_id: u64,
}

pub open spec fn watch_views(map: Map<WatchKeyView, Watch>) -> Map<WatchKeyView, WatchView> {
    map.map_values(|w: Watch| w@)
}

impl View for Registry {
    type V = RegistryView;

    closed spec fn view(&self) -> RegistryView {
        RegistryView { watches: watch_views(self.watches@), next_id: self.next_subscriber_id }
    }
}

/// The watch under a key as a new subscriber finds it: the running one, one
/// generation on, or a fresh one.
pub open spec fn found_watch(r: RegistryView, key: WatchKeyView) -> WatchView {
    if r.watches.dom().contains(key) {
        WatchView { generation: (r.watches[key].generation + 1) as u64, ..r.watches[key] }
    } else {
        fresh_watch()
    }
}

/// The registry after a view has subscribed.
pub open spec fn subscribed(r: RegistryView, key: WatchKeyView) -> RegistryView {
    let watch = found_watch(r, key);
    RegistryView {
        watches: r.watches.insert(
            key,
            WatchView { subscribers: joined_by(watch.subscribers, r.next_id), ..watch },
        ),
        next_id: r.next_id.wrapping_add(1),
    }
}

/// The registry after a subscriber has left.
pub open spec fn released(r: RegistryView, key: WatchKeyView, id: u64) -> RegistryView {
    if r.watches.dom().contains(key) {
        let watch = r.watches[key];
        RegistryView {
            watches: r.watches.insert(
                key,
                WatchView {
                    subscribers: left_by(watch.subscribers, Set::empty().insert(id)),
                    ..watch
                },
            ),
            ..r
        }
    } else {
        r
    }
}

/// Whether a watch has been idle since the given generation.
pub open spec fn idle_since(r: RegistryView, key: WatchKeyView, generation: u64) -> bool {
    r.watches.dom().contains(key) && r.watches[key].generation == generation
        && r.watches[key].subscribers.len() == 0
}

/// Whether a batch holds a whole list.
pub open spec fn holds_list(batch: Seq<DeltaView>) -> bool {
    exists|i: int| 0 <= i < batch.len() && (#[trigger] batch[i]) is Reset
}

/// A watch after a batch has reached it and the subscribers `gone` turned out
/// not to listen any more. An empty batch reaches nobody.
pub open spec fn flushed(watch: WatchView, batch: Seq<DeltaView>, gone: Set<u64>) -> WatchView {
    if batch.len() == 0 {
        watch
    } else {
        WatchView {
            store: applied_all(watch.store, batch),
            listed: watch.listed || holds_list(batch),
            subscribers: left_by(watch.subscribers, gone),
            generation: watch.generation,
        }
    }
}

/// What a view gets when it subscribes.
pub struct Subscribed {
    pub id: u64,
    /// Whether a watch has to be started.
    pub started: bool,
    /// The contents of a watch that has listed, to be handed over as a reset
    /// before any event. A watch still listing has nothing to catch up with,
    /// and an empty reset would say the opposite.
    pub catch_up: Option<Vec<Arc<DynamicObject>>>,
}

/// Whether a value is in a list.
fn among(list: &Vec<u64>, value: u64) -> (r: bool)
    ensures
        r == list@.contains(value),
{
    let mut i: usize = 0;
    while i < list.len()
        invariant
            i <= list.len(),
            forall|k: int| 0 <= k < i ==> (#[trigger] list@[k]) != value,
        decreases list.len() - i,
    {
        if list[i] == value {
            return true;
        }
        i += 1;
    }
    false
}

/// The list without the values of another.
fn without(list: &Vec<u64>, gone: &Vec<u64>) -> (out: Vec<u64>)
    ensures
        out@ == left_by(list@, gone@.to_set()),
{
    let ghost stays = |id: u64| !gone@.to_set().contains(id);
    let mut out: Vec<u64> = Vec::new();
    let mut i: usize = 0;
    proof {
        reveal(Seq::filter);
        assert(list@.take(0) =~= Seq::empty());
    }
    while i < list.len()
        invariant
            i <= list.len(),
            stays == (|id: u64| !gone@.to_set().contains(id)),
            out@ == list@.take(i as int).filter(stays),
        decreases list.len() - i,
    {
        proof {
            reveal(Seq::filter);
            assert(list@.take(i + 1).drop_last() =~= list@.take(i as int));
            assert(list@.take(i + 1).last() == list@[i as int]);
        }
        if !among(gone, list[i]) {
            out.push(list[i]);
        }
        i += 1;
    }
    assert(list@.take(i as int) =~= list@);
    out
}

impl Registry {
    pub fn new() -> (r: Registry)
        ensures
            r@.watches == Map::<WatchKeyView, WatchView>::empty(),
            r@.next_id == 0,
    {
        let watches: Dict<WatchKey, Watch> = Dict::new();
        assert(watch_views(watches@) =~= Map::<WatchKeyView, WatchView>::empty());
        Registry { watches, next_subscriber_id: 0 }
    }

    /// Attaches to a watch, or asks for one to be started if nobody is watching
    /// yet. A subscriber of a watch that has listed is caught up before it sees
    /// a single event.
    pub fn subscribe(&mut self, key: &WatchKey) -> (r: Subscribed)
        requires
            old(self)@.watches.dom().contains(key@) ==> old(self)@.watches[key@].generation
                < u64::MAX,
        ensures
            final(self)@ == subscribed(old(self)@, key@),
            r.id == old(self)@.next_id,
            r.started == !old(self)@.watches.dom().contains(key@),
            match r.catch_up {
                Some(list) => found_watch(old(self)@, key@).listed && indexed(object_views(list@))
                    == found_watch(old(self)@, key@).store.objects && list@.len() == found_watch(
                    old(self)@,
                    key@,
                ).store.objects.dom().len(),
                None => !found_watch(old(self)@, key@).listed,
            },
    {
        let ghost before = self@;
        let id: u64 = self.next_subscriber_id;
        self.next_subscriber_id = id.wrapping_add(1);
        let ghost known = self.watches@;
        let (watch, started) = match self.watches.remove(key) {
            Some(watch) => {
                let mut watch = watch;
                proof {
                    use_type_invariant(&watch);
                }
                watch.generation = watch.generation + 1;
                (watch, false)
            },
            None => {
                let watch = Watch {
                    store: ResourceStore::new(),
                    listed: false,
                    subscribers: Vec::new(),
                    generation: 0,
                };
                assert(watch@.subscribers =~= Seq::empty());
                (watch, true)
            },
        };
        assert(watch@ == found_watch(before, key@));
        let catch_up = if watch.listed {
            Some(watch.store.snapshot())
        } else {
            None
        };
        proof {
            use_type_invariant(&watch);
        }
        let mut subscribers = watch.subscribers;
        if !among(&subscribers, id) {
            subscribers.push(id);
        }
        let watch = Watch {
            store: watch.store,
            listed: watch.listed,
            subscribers,
            generation: watch.generation,
        };
        proof {
            assert(watch_views(known.remove(key@).insert(key@, watch)) =~= before.watches.insert(
                key@,
                watch@,
            ));
        }
        self.watches.insert(key.copy(), watch);
        Subscribed { id, started, catch_up }
    }

    /// How many watches are running.
    pub fn active(&self) -> (r: usize)
        ensures
            r == self@.watches.dom().len(),
    {
        assert(self@.watches.dom() =~= self.watches@.dom());
        self.watches.len()
    }

    /// Drops one subscriber. Where it was the last one, returns the generation
    /// at which the watch became idle: when it has lingered, [`expire`] is to be
    /// asked with it.
    ///
    /// [`expire`]: Registry::expire
    pub fn release(&mut self, key: &WatchKey, id: u64) -> (r: Option<u64>)
        ensures
            final(self)@ == released(old(self)@, key@, id),
            match r {
                Some(generation) => idle_since(final(self)@, key@, generation),
                None => !final(self)@.watches.dom().contains(key@)
                    || final(self)@.watches[key@].subscribers.len() > 0,
            },
    {
        let ghost before = self@;
        let ghost known = self.watches@;
        match self.watches.remove(key) {
            None => {
                assert(known.remove(key@) =~= known);
                None
            },
            Some(watch) => {
                let mut watch = watch;
                let gone: Vec<u64> = vec![id];
                let left = without(&watch.subscribers, &gone);
                proof {
                    assert(gone@.to_set() =~= Set::empty().insert(id)) by {
                        assert(gone@[0] == id);
                    }
                    use_type_invariant(&watch);
                    leaving_lists_once(watch.subscribers@, gone@.to_set());
                }
                let idle = left.len() == 0;
                watch.subscribers = left;
                let generation: u64 = watch.generation;
                proof {
                    assert(watch_views(known.remove(key@).insert(key@, watch))
                        =~= before.watches.insert(key@, watch@));
                }
                self.watches.insert(key.copy(), watch);
                if idle {
                    Some(generation)
                } else {
                    None
                }
            },
        }
    }

    /// Stops a watch that has lingered, if nobody has come back to it since it
    /// became idle at that generation. Returns whether it was stopped.
    pub fn expire(&mut self, key: &WatchKey, generation: u64) -> (r: bool)
        ensures
            r == idle_since(old(self)@, key@, generation),
            final(self)@ == (if r {
                RegistryView { watches: old(self)@.watches.remove(key@), ..old(self)@ }
            } else {
                old(self)@
            }),
    {
        let ghost before = self@;
        let ghost known = self.watches@;
        let still_idle = match self.watches.get(key) {
            Some(watch) => watch.generation == generation && watch.subscribers.len() == 0,
            None => false,
        };
        if still_idle {
            let _ = self.watches.remove(key);
            assert(watch_views(known.remove(key@)) =~= before.watches.remove(key@));
        }
        still_idle
    }

    /// Who listens to a watch, in the order in which they joined.
    pub fn subscribers(&self, key: &WatchKey) -> (r: Vec<u64>)
        ensures
            r@ == (if self@.watches.dom().contains(key@) {
                self@.watches[key@].subscribers
            } else {
                Seq::empty()
            }),
            r@.no_duplicates(),
    {
        match self.watches.get(key) {
            Some(watch) => {
                let none: Vec<u64> = Vec::new();
                let out = without(&watch.subscribers, &none);
                proof {
                    use_type_invariant(watch);
                    assert(none@.to_set() =~= Set::empty());
                    nobody_leaves(watch.subscribers@, none@.to_set());
                }
                out
            },
            None => Vec::new(),
        }
    }

    /// Whether a watch can take one more subscriber and that many changes.
    pub fn has_room(&self, key: &WatchKey, changes: usize) -> (r: bool)
        ensures
            r == (self@.watches.dom().contains(key@) ==> self@.watches[key@].generation < u64::MAX
                && self@.watches[key@].store.revision + changes <= u64::MAX),
    {
        match self.watches.get(key) {
            Some(watch) => watch.generation < u64::MAX && watch.store.has_room(changes),
            None => true,
        }
    }

    /// Takes in a batch that was sent to the subscribers, of which `gone` do not
    /// listen any more.
    pub fn flush(&mut self, key: &WatchKey, batch: DeltaBatch, gone: &Vec<u64>)
        requires
            old(self)@.watches.dom().contains(key@) ==> old(self)@.watches[key@].store.revision
                + batch@.len() <= u64::MAX,
        ensures
            final(self)@ == (if old(self)@.watches.dom().contains(key@) {
                RegistryView {
                    watches: old(self)@.watches.insert(
                        key@,
                        flushed(
                            old(self)@.watches[key@],
                            delta_views(batch@),
                            gone@.to_set(),
                        ),
                    ),
                    ..old(self)@
                }
            } else {
                old(self)@
            }),
    {
        let ghost before = self@;
        let ghost known = self.watches@;
        let ghost given = delta_views(batch@);
        match self.watches.remove(key) {
            None => {
                assert(known.remove(key@) =~= known);
            },
            Some(watch) => {
                let mut watch = watch;
                if batch.len() > 0 {
                    let mut list = false;
                    let mut i: usize = 0;
                    while i < batch.len()
                        invariant
                            i <= batch.len(),
                            given == delta_views(batch@),
                            list == exists|k: int| 0 <= k < i && (#[trigger] given[k]) is Reset,
                        decreases batch.len() - i,
                    {
                        assert(given[i as int] == batch@[i as int]@);
                        if let Delta::Reset(_) = &batch[i] {
                            list = true;
                        }
                        i += 1;
                    }
                    proof {
                        use_type_invariant(&watch);
                        leaving_lists_once(watch.subscribers@, gone@.to_set());
                    }
                    let mut store = watch.store;
                    let _ = store.apply_batch(batch);
                    watch = Watch {
                        store,
                        listed: watch.listed || list,
                        subscribers: without(&watch.subscribers, gone),
                        generation: watch.generation,
                    };
                }
                proof {
                    assert(watch_views(known.remove(key@).insert(key@, watch))
                        =~= before.watches.insert(key@, watch@));
                }
                self.watches.insert(key.copy(), watch);
            },
        }
    }
}

/// A watch that somebody came back to while it lingered is not stopped.
pub proof fn a_watch_in_use_is_not_stopped(r: RegistryView, key: WatchKeyView, generation: u64)
    requires
        idle_since(r, key, generation),
        generation < u64::MAX,
    ensures
        !idle_since(subscribed(r, key), key, generation),
        !idle_since(released(subscribed(r, key), key, r.next_id), key, generation),
{
    let list = r.watches[key].subscribers;
    assert(joined_by(list, r.next_id).len() > 0);
}

/// A view that joins late holds what the watch holds: what it is caught up with
/// is everything, and every batch after that keeps the two alike.
pub proof fn a_late_subscriber_is_caught_up(
    watch: WatchView,
    own: StoreView,
    snapshot: Seq<ObjectView>,
    batch: Seq<DeltaView>,
    gone: Set<u64>,
)
    requires
        indexed(snapshot) == watch.store.objects,
    ensures
        applied_all(applied(own, DeltaView::Reset(snapshot)), batch).objects == flushed(
            watch,
            batch,
            gone,
        ).store.objects,
{
    copies_stay_alike(applied(own, DeltaView::Reset(snapshot)), watch.store, batch);
}

/// A view that joins before the first list holds what the watch holds once that
/// list has reached both.
pub proof fn the_first_list_is_everything(
    watch: WatchView,
    own: StoreView,
    batch: Seq<DeltaView>,
    gone: Set<u64>,
)
    requires
        holds_list(batch),
    ensures
        flushed(watch, batch, gone).listed,
        applied_all(own, batch).objects == flushed(watch, batch, gone).store.objects,
{
    let at = choose|at: int| 0 <= at < batch.len() && (#[trigger] batch[at]) is Reset;
    a_list_is_everything(own, watch.store, batch, at);
}

/// A second subscriber shares the watch of the first.
pub proof fn subscribers_share_a_watch(r: RegistryView, key: WatchKeyView)
    requires
        r.watches.dom().finite(),
        r.watches.dom().contains(key),
    ensures
        subscribed(r, key).watches.dom() == r.watches.dom(),
        subscribed(r, key).watches[key].store == r.watches[key].store,
{
    assert(subscribed(r, key).watches.dom() =~= r.watches.dom());
}

/// Subscribing and leaving again leaves the listeners as they were.
pub proof fn leaving_undoes_joining(r: RegistryView, key: WatchKeyView)
    requires
        r.watches.dom().contains(key),
        !r.watches[key].subscribers.contains(r.next_id),
    ensures
        released(subscribed(r, key), key, r.next_id).watches[key].subscribers
            == r.watches[key].subscribers,
{
    let list = r.watches[key].subscribers;
    let gone = Set::<u64>::empty().insert(r.next_id);
    assert forall|i: int| 0 <= i < list.len() implies !gone.contains(#[trigger] list[i]) by {
        assert(list.contains(list[i]));
    }
    nobody_leaves(list, gone);
    reveal(Seq::filter);
    assert(list.push(r.next_id).drop_last() =~= list);
}

} // verus!
