//! One connected cluster: everything that happens against a single kubeconfig
//! context.
//!
//! Several sessions run side by side without knowing about each other, and
//! dropping one stops all of its work.
use std::sync::Arc;

use vstd::prelude::*;

use crate::base::json::Json;
use crate::base::list::kept;
use crate::base::text::{held, lent};
use crate::k8s::access::{Access, Rules};
use crate::k8s::discovery::{Discovery, KindView, PrinterColumns};
use crate::k8s::forward::{
    by_number, forward_views, not_to, other_than, recounted, Forward, ForwardId, ForwardView,
    Forwards, ForwardsView,
};
use crate::k8s::resources::{ApiResource, GroupVersionKind, GvkView, ResourceView};
use crate::k8s::session::{after_end, Health, HealthState, HealthView, ReporterView, StateView};
use crate::k8s::store::{delta_views, indexed, object_views, DeltaBatch};
use crate::k8s::watch::{
    flushed, found_watch, idle_since, released, reported, step, stepped, subscribed, Coalescer,
    Registry, RegistryView, Signal, Subscribed, WatchKey, WatchKeyView, WatchView,
};
use crate::k8s::ClusterId;

verus! {

/// One connected cluster.
pub struct ClusterSession {
    id: ClusterId,
    /// The API server URL, which is what distinguishes two contexts that have
    /// confusingly similar names.
    server: String,
    discovery: Discovery,
    /// Filled in one kind at a time, as somebody opens them.
    printer_columns: PrinterColumns,
    access: Access,
    registry: Registry,
    health: HealthState,
    forwards: Forwards,
}

/// One connected cluster, as a mathematical object.
pub struct SessionView {
    pub id: Seq<char>,
    pub server: Seq<char>,
    pub kinds: Seq<KindView>,
    pub columns: Map<GvkView, Option<Arc<Json>>>,
    pub access: Map<Option<Seq<char>>, Arc<Rules>>,
    pub registry: RegistryView,
    pub health: StateView,
    pub forwards: ForwardsView,
}

impl View for ClusterSession {
    type V = SessionView;

    closed spec fn view(&self) -> SessionView {
        SessionView {
            id: self.id@,
            server: self.server@,
            kinds: self.discovery@,
            columns: self.printer_columns@,
            access: self.access@,
            registry: self.registry@,
            health: self.health@,
            forwards: self.forwards@,
        }
    }
}

/// What the columns of a resource are remembered under.
pub open spec fn columns_key(resource: ResourceView) -> GvkView {
    GvkView { group: resource.group, version: resource.version, kind: resource.kind }
}

fn key_of(resource: &ApiResource) -> (r: GroupVersionKind)
    ensures
        r@ == columns_key(resource@),
{
    GroupVersionKind::gvk(
        resource.group.as_str(),
        resource.version.as_str(),
        resource.kind.as_str(),
    )
}

impl ClusterSession {
    /// A cluster that has been reached and has said what it serves.
    pub fn new(id: ClusterId, server: &str, discovery: Discovery) -> (r: ClusterSession)
        ensures
            r@.id == id@,
            r@.server == server@,
            r@.kinds == discovery@,
            r@.columns == Map::<GvkView, Option<Arc<Json>>>::empty(),
            r@.access == Map::<Option<Seq<char>>, Arc<Rules>>::empty(),
            r@.registry.watches == Map::<WatchKeyView, WatchView>::empty(),
            r@.registry.next_id == 0,
            r@.health.health == HealthView::Connected,
            r@.health.reporters.len() == 0,
            r@.forwards.running.len() == 0,
            r@.forwards.next_id == 0,
    {
        ClusterSession {
            id,
            server: server.to_owned(),
            discovery,
            printer_columns: PrinterColumns::new(),
            access: Access::new(),
            registry: Registry::new(),
            health: HealthState::new(Health::Connected),
            forwards: Forwards::new(),
        }
    }

    pub fn id(&self) -> (r: &ClusterId)
        ensures
            r@ == self@.id,
    {
        &self.id
    }

    pub fn server(&self) -> (r: &str)
        ensures
            r@ == self@.server,
    {
        self.server.as_str()
    }

    /// Everything this cluster can show.
    pub fn discovery(&self) -> (r: &Discovery)
        ensures
            r@ == self@.kinds,
    {
        &self.discovery
    }

    /// The columns a kind publishes for itself, as far as they are known. `None`
    /// means that they have to be asked for; an inner `None` that they were, and
    /// that there are none.
    pub fn printer_columns(&self, resource: &ApiResource) -> (r: Option<Option<Arc<Json>>>)
        ensures
            r == (if self@.columns.dom().contains(columns_key(resource@)) {
                Some(self@.columns[columns_key(resource@)])
            } else {
                None
            }),
    {
        match self.printer_columns.get(&key_of(resource)) {
            Some(Some(columns)) => Some(Some(columns.clone())),
            Some(None) => Some(None),
            None => None,
        }
    }

    /// Remembers the columns that a kind turned out to publish. They are not
    /// asked for twice, not even where there are none.
    pub fn learn_columns(&mut self, resource: &ApiResource, columns: Option<Arc<Json>>)
        ensures
            final(self)@ == (SessionView {
                columns: old(self)@.columns.insert(columns_key(resource@), columns),
                ..old(self)@
            }),
    {
        self.printer_columns.insert(key_of(resource), columns);
    }

    /// What this user may do in a namespace, as far as it is known.
    pub fn rules(&self, namespace: Option<&str>) -> (r: Option<Arc<Rules>>)
        ensures
            r == (if self@.access.dom().contains(lent(namespace)) {
                Some(self@.access[lent(namespace)])
            } else {
                None
            }),
    {
        match self.access.get(namespace) {
            Some(rules) => Some(rules.clone()),
            None => None,
        }
    }

    /// Remembers what this user may do in a namespace.
    pub fn learn_rules(&mut self, namespace: Option<String>, rules: Arc<Rules>)
        ensures
            final(self)@ == (SessionView {
                access: old(self)@.access.insert(held(namespace), rules),
                ..old(self)@
            }),
    {
        self.access.insert(namespace, rules);
    }

    /// Starts receiving one kind's objects.
    pub fn subscribe(&mut self, key: &WatchKey) -> (r: Subscribed)
        requires
            old(self)@.registry.watches.dom().contains(key@)
                ==> old(self)@.registry.watches[key@].generation < u64::MAX,
        ensures
            final(self)@ == (SessionView {
                registry: subscribed(old(self)@.registry, key@),
                ..old(self)@
            }),
            r.id == old(self)@.registry.next_id,
            r.started == !old(self)@.registry.watches.dom().contains(key@),
            match r.catch_up {
                Some(list) => found_watch(old(self)@.registry, key@).listed && indexed(
                    object_views(list@),
                ) == found_watch(old(self)@.registry, key@).store.objects && list@.len()
                    == found_watch(old(self)@.registry, key@).store.objects.dom().len(),
                None => !found_watch(old(self)@.registry, key@).listed,
            },
    {
        self.registry.subscribe(key)
    }

    /// Whether a watch can take one more subscriber and that many changes.
    pub fn has_room(&self, key: &WatchKey, changes: usize) -> (r: bool)
        ensures
            r == (self@.registry.watches.dom().contains(key@)
                ==> self@.registry.watches[key@].generation < u64::MAX
                && self@.registry.watches[key@].store.revision + changes <= u64::MAX),
    {
        self.registry.has_room(key, changes)
    }

    /// Drops one subscriber. Returns the watch's generation if it was the last
    /// one, in which case the watch is to be expired after it has lingered.
    pub fn release(&mut self, key: &WatchKey, id: u64) -> (r: Option<u64>)
        ensures
            final(self)@ == (SessionView {
                registry: released(old(self)@.registry, key@, id),
                ..old(self)@
            }),
            match r {
                Some(generation) => idle_since(final(self)@.registry, key@, generation),
                None => !final(self)@.registry.watches.dom().contains(key@)
                    || final(self)@.registry.watches[key@].subscribers.len() > 0,
            },
    {
        self.registry.release(key, id)
    }

    /// Stops a watch that has been idle since a generation. Returns whether it
    /// was.
    pub fn expire(&mut self, key: &WatchKey, generation: u64) -> (r: bool)
        ensures
            r == idle_since(old(self)@.registry, key@, generation),
            final(self)@ == (if r {
                SessionView {
                    registry: RegistryView {
                        watches: old(self)@.registry.watches.remove(key@),
                        ..old(self)@.registry
                    },
                    ..old(self)@
                }
            } else {
                old(self)@
            }),
    {
        self.registry.expire(key, generation)
    }

    /// Who listens to a watch, in the order in which they joined.
    pub fn subscribers(&self, key: &WatchKey) -> (r: Vec<u64>)
        ensures
            r@ == (if self@.registry.watches.dom().contains(key@) {
                self@.registry.watches[key@].subscribers
            } else {
                Seq::empty()
            }),
            r@.no_duplicates(),
    {
        self.registry.subscribers(key)
    }

    /// Takes in a batch that was sent to the subscribers, of which `gone` do not
    /// listen any more.
    pub fn flush(&mut self, key: &WatchKey, batch: DeltaBatch, gone: &Vec<u64>)
        requires
            old(self)@.registry.watches.dom().contains(key@)
                ==> old(self)@.registry.watches[key@].store.revision + batch@.len() <= u64::MAX,
        ensures
            final(self)@ == (if old(self)@.registry.watches.dom().contains(key@) {
                SessionView {
                    registry: RegistryView {
                        watches: old(self)@.registry.watches.insert(
                            key@,
                            flushed(
                                old(self)@.registry.watches[key@],
                                delta_views(batch@),
                                gone@.to_set(),
                            ),
                        ),
                        ..old(self)@.registry
                    },
                    ..old(self)@
                }
            } else {
                old(self)@
            }),
    {
        self.registry.flush(key, batch, gone);
    }

    /// How many watches this session is running.
    pub fn active_watches(&self) -> (r: usize)
        ensures
            r == self@.registry.watches.dom().len(),
    {
        self.registry.active()
    }

    /// The connection's health.
    pub fn health(&self) -> (r: Health)
        ensures
            r@ == self@.health.health,
    {
        self.health.health()
    }

    /// A reporter for one watch, by its number.
    pub fn reporter(&mut self, what: &str) -> (id: u64)
        ensures
            id == old(self)@.health.next_id,
            final(self)@ == (SessionView {
                health: StateView {
                    reporters: old(self)@.health.reporters.push(
                        ReporterView { id, what: what@, failing: false },
                    ),
                    next_id: id.wrapping_add(1),
                    ..old(self)@.health
                },
                ..old(self)@
            }),
    {
        self.health.reporter(what)
    }

    /// One step of a watch's task.
    pub fn step(
        &mut self,
        coalescer: &mut Coalescer,
        id: u64,
        signal: Signal,
    ) -> (r: Option<DeltaBatch>)
        ensures
            final(coalescer)@ == stepped(old(coalescer)@, signal@).0,
            final(self)@ == (SessionView {
                health: reported(old(self)@.health, id, signal@),
                ..old(self)@
            }),
            (match r {
                Some(batch) => Some(delta_views(batch@)),
                None => None,
            }) == stepped(old(coalescer)@, signal@).1,
    {
        step(coalescer, &mut self.health, id, signal)
    }

    /// A watch ended.
    pub fn ended(&mut self, id: u64)
        ensures
            final(self)@ == (SessionView {
                health: after_end(old(self)@.health, id),
                ..old(self)@
            }),
    {
        self.health.ended(id);
    }

    /// Whether one more forward can be numbered.
    pub fn can_forward(&self) -> (r: bool)
        ensures
            r == (self@.forwards.next_id < u64::MAX),
    {
        self.forwards.has_room()
    }

    /// Enters a forward whose listener has been bound to `local_port`.
    pub fn forward(
        &mut self,
        namespace: &str,
        pod: &str,
        remote_port: u16,
        local_port: u16,
    ) -> (r: Forward)
        requires
            old(self)@.forwards.next_id < u64::MAX,
        ensures
            r@ == (ForwardView {
                id: old(self)@.forwards.next_id,
                namespace: namespace@,
                pod: pod@,
                remote_port,
                local_port,
                connections: 0,
                failure: None,
            }),
            final(self)@ == (SessionView {
                forwards: ForwardsView {
                    running: old(self)@.forwards.running.push(r@),
                    next_id: (old(self)@.forwards.next_id + 1) as u64,
                },
                ..old(self)@
            }),
    {
        self.forwards.open(namespace, pod, remote_port, local_port)
    }

    /// Every forward, in the order they were opened.
    pub fn forwards(&self) -> (r: Vec<Forward>)
        ensures
            forward_views(r@) == self@.forwards.running,
            by_number(self@.forwards),
    {
        self.forwards.list()
    }

    /// Stops one forward.
    pub fn close_forward(&mut self, id: ForwardId)
        ensures
            final(self)@ == (SessionView {
                forwards: ForwardsView {
                    running: kept(old(self)@.forwards.running, other_than(id)),
                    ..old(self)@.forwards
                },
                ..old(self)@
            }),
    {
        self.forwards.close(id);
    }

    /// Stops the forwards to a pod that no longer exists.
    pub fn close_forwards_to(&mut self, namespace: &str, pod: &str)
        ensures
            final(self)@ == (SessionView {
                forwards: ForwardsView {
                    running: kept(old(self)@.forwards.running, not_to(namespace@, pod@)),
                    ..old(self)@.forwards
                },
                ..old(self)@
            }),
    {
        self.forwards.close_for_pod(namespace, pod);
    }

    /// Takes in how many connections a forward carries.
    pub fn count_connections(&mut self, id: ForwardId, connections: usize)
        ensures
            final(self)@ == (SessionView {
                forwards: ForwardsView {
                    running: old(self)@.forwards.running.map_values(recounted(id, connections)),
                    ..old(self)@.forwards
                },
                ..old(self)@
            }),
    {
        self.forwards.set_connections(id, connections);
    }
}

} // verus!
