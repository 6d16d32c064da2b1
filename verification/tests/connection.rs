use std::sync::Arc;

use beacon::base::json::Json;
use beacon::base::meta::ObjectMeta;
use beacon::k8s::access::Rules;
use beacon::k8s::connection::ClusterSession;
use beacon::k8s::discovery::{Discovery, Kind};
use beacon::k8s::resources::{pod, DynamicObject};
use beacon::k8s::session::Health;
use beacon::k8s::watch::{Coalescer, Event, Signal, WatchKey};
use beacon::k8s::ClusterId;

fn session() -> ClusterSession {
    let kinds = Discovery::of(vec![Kind {
        resource: pod(),
        namespaced: true,
        verbs: vec!["list".into(), "watch".into()],
    }]);
    ClusterSession::new(ClusterId::new("prod"), "https://prod.example.com", kinds)
}

#[test]
fn a_session_knows_its_cluster() {
    let session = session();
    assert_eq!(session.id(), &ClusterId::new("prod"));
    assert_eq!(session.server(), "https://prod.example.com");
    assert_eq!(session.discovery().kinds().len(), 1);
    assert_eq!(session.health(), Health::Connected);
    assert_eq!(session.active_watches(), 0);
    assert!(session.forwards().is_empty());
}

/// What a cluster has answered is not asked again, not even that there is
/// nothing.
#[test]
fn answers_are_remembered() {
    let mut session = session();
    assert_eq!(session.printer_columns(&pod()), None);
    session.learn_columns(&pod(), None);
    assert_eq!(session.printer_columns(&pod()), Some(None));
    let columns = Arc::new(Json::Null);
    session.learn_columns(&pod(), Some(columns.clone()));
    assert_eq!(session.printer_columns(&pod()), Some(Some(columns)));

    assert!(session.rules(None).is_none());
    session.learn_rules(Some("default".into()), Arc::new(Rules::unknown()));
    assert!(session.rules(None).is_none());
    assert!(session.rules(Some("default")).is_some_and(|rules| rules.is_incomplete()));
}

/// A view that joins late is handed what the watch holds.
#[test]
fn a_watch_runs_through_a_session() {
    let mut session = session();
    let key = WatchKey::all(pod());
    assert!(session.has_room(&key, 1));
    let first = session.subscribe(&key);
    assert!(first.started && first.catch_up.is_none());
    let id = session.reporter(&key.describe());
    let mut coalescer = Coalescer::new();

    assert!(session
        .step(&mut coalescer, id, Signal::Failed("refused".into()))
        .is_none());
    assert_eq!(session.health().label(), "Degraded");
    let object = DynamicObject {
        types: None,
        metadata: ObjectMeta {
            name: Some("api".into()),
            ..ObjectMeta::default()
        },
        data: Json::Null,
    };
    for event in [Event::Init, Event::InitApply(object), Event::InitDone] {
        if let Some(batch) = session.step(&mut coalescer, id, Signal::Event(event)) {
            assert_eq!(session.subscribers(&key), [first.id]);
            session.flush(&key, batch, &vec![]);
        }
    }
    assert_eq!(session.health(), Health::Connected);

    let second = session.subscribe(&key);
    assert!(!second.started);
    assert_eq!(second.catch_up.map(|objects| objects.len()), Some(1));
    assert_eq!(session.release(&key, first.id), None);
    let generation = session.release(&key, second.id).expect("it is idle");
    assert!(session.expire(&key, generation));
    assert_eq!(session.active_watches(), 0);
    session.ended(id);
}

#[test]
fn forwards_live_in_the_session() {
    let mut session = session();
    assert!(session.can_forward());
    let forward = session.forward("default", "api", 80, 10000);
    session.forward("default", "web", 80, 10001);
    session.count_connections(forward.id, 2);
    assert_eq!(session.forwards()[0].connections, 2);
    session.close_forwards_to("default", "web");
    assert_eq!(session.forwards().len(), 1);
    session.close_forward(forward.id);
    assert!(session.forwards().is_empty());
}
