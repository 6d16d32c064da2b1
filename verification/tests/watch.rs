use beacon::base::json::Json;
use beacon::base::meta::ObjectMeta;
use beacon::k8s::resources::{self, DynamicObject};
use beacon::k8s::store::{Delta, DeltaBatch, ResourceStore};
use beacon::k8s::session::{Health, HealthState};
use beacon::k8s::watch::{step, Coalescer, Event, Registry, Signal, WatchKey, BATCH_LIMIT};

fn pod(name: &str) -> DynamicObject {
    DynamicObject {
        types: Some(("v1".into(), "Pod".into())),
        metadata: ObjectMeta {
            name: Some(name.into()),
            namespace: Some("default".into()),
            ..ObjectMeta::default()
        },
        data: Json::Null,
    }
}

fn names(batch: &DeltaBatch) -> Vec<String> {
    batch
        .iter()
        .map(|delta| match delta {
            Delta::Reset(objects) => format!(
                "reset[{}]",
                objects
                    .iter()
                    .filter_map(|o| o.metadata.name.clone())
                    .collect::<Vec<_>>()
                    .join(",")
            ),
            Delta::Upsert(object) => {
                format!(
                    "upsert:{}",
                    object.metadata.name.clone().unwrap_or_default()
                )
            }
            Delta::Remove(key) => format!("remove:{}", key.name),
        })
        .collect()
}

#[test]
fn a_relist_becomes_one_reset() {
    let mut coalescer = Coalescer::new();

    assert!(!coalescer.ingest(Event::Init));
    assert!(!coalescer.ingest(Event::InitApply(pod("api"))));
    assert!(!coalescer.ingest(Event::InitApply(pod("web"))));
    assert!(coalescer.is_empty(), "nothing is emitted mid-relist");

    assert!(coalescer.ingest(Event::InitDone), "flushes immediately");
    assert_eq!(names(&coalescer.take()), ["reset[api,web]"]);
}

/// A watch that desyncs relists from scratch. Deltas buffered against the
/// old contents would be applied on top of the fresh list and resurrect
/// objects that are gone.
#[test]
fn a_relist_discards_what_was_buffered_before_it() {
    let mut coalescer = Coalescer::new();
    coalescer.ingest(Event::Apply(pod("stale")));

    coalescer.ingest(Event::Init);
    coalescer.ingest(Event::InitApply(pod("api")));
    coalescer.ingest(Event::InitDone);

    assert_eq!(names(&coalescer.take()), ["reset[api]"]);
}

#[test]
fn steady_state_events_accumulate_until_a_tick() {
    let mut coalescer = Coalescer::new();

    assert!(!coalescer.ingest(Event::Apply(pod("api"))));
    assert!(!coalescer.ingest(Event::Delete(pod("web"))));

    assert_eq!(names(&coalescer.take()), ["upsert:api", "remove:web"]);
    assert!(coalescer.is_empty());
}

/// A flood must not grow the buffer without bound between ticks.
#[test]
fn a_full_batch_asks_to_be_flushed() {
    let mut coalescer = Coalescer::new();

    for index in 0..BATCH_LIMIT - 1 {
        assert!(!coalescer.ingest(Event::Apply(pod(&format!("pod-{index}")))));
    }
    assert!(coalescer.ingest(Event::Apply(pod("last"))));
}

/// An empty relist is how "the namespace has nothing in it" arrives, and it
/// has to clear the table rather than leave it as it was.
#[test]
fn an_empty_relist_still_resets() {
    let mut coalescer = Coalescer::new();
    coalescer.ingest(Event::Apply(pod("stale")));

    coalescer.ingest(Event::Init);
    assert!(coalescer.ingest(Event::InitDone));

    assert_eq!(names(&coalescer.take()), ["reset[]"]);
}

#[test]
fn watch_keys_describe_their_scope() {
    assert_eq!(WatchKey::all(resources::pod()).describe(), "Pod");
    assert_eq!(
        WatchKey::namespaced(resources::pod(), "kube-system").describe(),
        "Pod in kube-system"
    );
}

/// The registry keys on the whole tuple: the same kind in two namespaces is
/// two watches, and the same kind with two selectors is two watches.
#[test]
fn watch_keys_distinguish_scope_and_selector() {
    let all = WatchKey::all(resources::pod());
    assert_ne!(all, WatchKey::namespaced(resources::pod(), "default"));
    assert_ne!(all, all.copy().with_labels("app=api"));
    assert_ne!(all, all.copy().with_fields("spec.nodeName=node-1"));
    assert_eq!(all, WatchKey::all(resources::pod()));
}

/// A relist lands in a store as exactly what was listed.
#[test]
fn a_relist_reaches_a_store() {
    let mut coalescer = Coalescer::new();
    let mut store = ResourceStore::new();
    coalescer.ingest(Event::Apply(pod("stale")));
    store.apply_batch(coalescer.take());

    for event in [
        Event::Init,
        Event::InitApply(pod("api")),
        Event::InitApply(pod("web")),
        Event::InitDone,
    ] {
        coalescer.ingest(event);
    }
    store.apply_batch(coalescer.take());
    let listed: Vec<String> = store.iter().iter().map(|(key, _)| key.name.clone()).collect();
    assert_eq!(listed, ["api", "web"]);
}

#[test]
fn a_watch_task_reports_and_batches() {
    let mut coalescer = Coalescer::new();
    let mut health = HealthState::new(Health::Connected);
    let id = health.reporter("Pod");
    let mut run = |signal| step(&mut coalescer, &mut health, id, signal);
    assert!(run(Signal::Tick).is_none(), "an empty batch is not sent");
    assert!(run(Signal::Failed("refused".into())).is_none());
    assert!(run(Signal::Event(Event::Apply(pod("api")))).is_none());
    let batch = run(Signal::Tick).expect("the time is up");
    assert_eq!(names(&batch), ["upsert:api"]);
    assert!(run(Signal::Failed("refused".into())).is_none());
    assert_eq!(
        health.health(),
        Health::Degraded {
            reason: "Pod: refused".into()
        }
    );
    step(&mut coalescer, &mut health, id, Signal::Event(Event::Init));
    assert_eq!(health.health(), Health::Connected);
}

#[test]
fn subscribers_of_one_key_share_a_watch() {
    let mut registry = Registry::new();
    let key = WatchKey::all(resources::pod());
    let other = WatchKey::namespaced(resources::pod(), "default");
    let first = registry.subscribe(&key);
    let second = registry.subscribe(&key);
    assert!(first.started && !second.started);
    assert_eq!(registry.active(), 1);
    registry.subscribe(&other);
    assert_eq!(registry.active(), 2);
    assert_eq!(registry.subscribers(&key), [first.id, second.id]);
    let third = registry.subscribe(&key);
    registry.release(&key, second.id);
    assert_eq!(registry.subscribers(&key), [first.id, third.id]);
}

/// The watch of the last subscriber lingers, and comes back into use if
/// somebody subscribes meanwhile.
#[test]
fn an_idle_watch_lingers() {
    let mut registry = Registry::new();
    let key = WatchKey::all(resources::pod());
    let first = registry.subscribe(&key);
    let generation = registry.release(&key, first.id).expect("it is idle now");
    let second = registry.subscribe(&key);
    assert!(!second.started);
    assert!(!registry.expire(&key, generation), "it is in use again");

    let generation = registry.release(&key, second.id).expect("idle again");
    assert!(registry.expire(&key, generation));
    assert_eq!(registry.active(), 0);
    assert!(registry.subscribe(&key).started);
}

/// A batch updates the list that later subscribers start with, and drops the
/// subscribers that are gone.
#[test]
fn a_batch_reaches_later_subscribers() {
    let mut registry = Registry::new();
    let key = WatchKey::all(resources::pod());
    let first = registry.subscribe(&key);
    let second = registry.subscribe(&key);
    let mut coalescer = Coalescer::new();
    coalescer.ingest(Event::Init);
    coalescer.ingest(Event::InitApply(pod("api")));
    coalescer.ingest(Event::InitDone);
    registry.flush(&key, coalescer.take(), &vec![first.id]);
    assert_eq!(registry.subscribers(&key), [second.id]);
    let third = registry.subscribe(&key);
    assert!(matches!(&third.catch_up, Some(objects) if objects.len() == 1));
}
