use std::sync::Arc;

use beacon::base::json::Json;
use beacon::base::meta::{ObjectMeta, OwnerReference};
use beacon::base::time::Timestamp;
use beacon::k8s::discovery::Kind;
use beacon::k8s::resources::{ApiResource, DynamicObject, GroupVersionKind};
use beacon::k8s::store::Delta;
use beacon::ui::detail::{
    ago_note, chip, container_state, container_tone, event_tone, repeat_note, restarts_note, scalars,
    DetailTab, DetailView,
};
use beacon::ui::theme::Tone;

fn now() -> Timestamp {
    Timestamp::parse("2026-09-20T12:00:00Z").expect("fixed clock")
}

fn json(text: &str) -> Json {
    Json::parse(text.as_bytes()).expect("valid JSON")
}

/// `Waiting` is never the useful word; the reason is.
#[test]
fn a_container_state_prefers_its_reason() {
    assert_eq!(
        container_state(&json(r#"{ "state": { "waiting": { "reason": "CrashLoopBackOff" } } }"#), &now()),
        "CrashLoopBackOff"
    );
    assert_eq!(
        container_state(&json(r#"{ "state": { "terminated": { "reason": "Completed" } } }"#), &now()),
        "Completed"
    );
    assert_eq!(
        container_state(&json(r#"{ "state": { "waiting": {} } }"#), &now()),
        "waiting"
    );
}

#[test]
fn a_container_with_no_state_is_unknown() {
    assert_eq!(container_state(&json(r#"{}"#), &now()), "Unknown");
    assert_eq!(container_state(&json(r#"{ "state": {} }"#), &now()), "Unknown");
}

/// The Status section is a glance, not a dump: nested structure belongs to
/// the YAML tab.
#[test]
fn only_scalars_reach_the_status_section() {
    let status = json(r#"{
        "phase": "Running",
        "replicas": 3,
        "paused": true,
        "empty": "",
        "conditions": [{ "type": "Ready" }],
        "loadBalancer": { "ingress": [] }
    }"#);

    let mut found = scalars(Some(&status));
    found.sort();
    assert_eq!(
        found,
        [
            ("paused".to_string(), "true".to_string()),
            ("phase".to_string(), "Running".to_string()),
            ("replicas".to_string(), "3".to_string()),
        ]
    );
}

#[test]
fn a_missing_status_is_no_rows() {
    assert!(scalars(None).is_empty());
    assert!(scalars(Some(&json(r#""not an object""#))).is_empty());
}

fn kind(group: &str, name: &str) -> Arc<Kind> {
    Arc::new(Kind {
        resource: ApiResource::from_gvk_with_plural(
            &GroupVersionKind::gvk(group, "v1", name),
            "things",
        ),
        namespaced: true,
        verbs: vec![],
    })
}

fn object(name: &str, created: Option<&str>, data: &str) -> Arc<DynamicObject> {
    Arc::new(DynamicObject {
        types: None,
        metadata: ObjectMeta {
            name: Some(name.into()),
            namespace: Some("payments".into()),
            uid: Some(format!("uid-{name}")),
            resource_version: Some("1".into()),
            creation_timestamp: created.and_then(Timestamp::parse),
            ..ObjectMeta::default()
        },
        data: json(data),
    })
}

#[test]
fn a_running_container_says_for_how_long() {
    assert_eq!(
        container_state(
            &json(r#"{ "state": { "running": { "startedAt": "2026-09-17T12:00:00Z" } } }"#),
            &now()
        ),
        "Running for 3d"
    );
}

#[test]
fn a_panel_reads_a_pod() {
    let pod = object(
        "api",
        Some("2026-09-17T12:00:00Z"),
        r#"{
            "spec": { "containers": [{ "name": "app", "image": "app:1" }, { "name": "new" }] },
            "status": { "phase": "Running", "containerStatuses": [
                { "name": "app", "ready": true, "restartCount": 2, "state": {} }
            ] }
        }"#,
    );
    let panel = DetailView::new(kind("", "Pod"), pod, now());
    assert_eq!(panel.target().to_text(), "payments/api");
    assert_eq!(panel.subtitle(), "Pod · payments");
    assert_eq!(panel.status(), [("phase".to_string(), "Running".to_string())]);
    assert_eq!(
        panel.metadata()[2],
        (
            "Created".to_string(),
            Some("3d ago (2026-09-17T12:00:00Z)".to_string())
        )
    );
    assert_eq!(panel.metadata()[4], ("Owner".to_string(), None));

    let lines = panel.containers().expect("a pod has containers");
    assert_eq!(lines.len(), 2);
    assert_eq!(lines[0].image, "app:1");
    assert_eq!(restarts_note(&lines[0]).as_deref(), Some("2 restarts"));
    assert_eq!(container_tone(&lines[0]), Tone::Healthy);
    assert_eq!(lines[1].image, "<no image>");
    assert_eq!(lines[1].state, "Pending");
    assert_eq!(restarts_note(&lines[1]), None);
}

#[test]
fn only_pods_have_containers() {
    let object = object("api", None, r#"{ "spec": { "containers": [{}] } }"#);
    assert!(DetailView::new(kind("apps", "Pod"), object, now()).containers().is_none());
}

#[test]
fn an_owner_is_named_by_kind_and_name() {
    let owned = DynamicObject {
        types: None,
        metadata: ObjectMeta {
            name: Some("api-1".into()),
            owner_references: Some(vec![OwnerReference {
                api_version: "apps/v1".into(),
                block_owner_deletion: None,
                controller: Some(true),
                kind: "ReplicaSet".into(),
                name: "api".into(),
                uid: "1".into(),
            }]),
            ..ObjectMeta::default()
        },
        data: Json::Null,
    };
    let panel = DetailView::new(kind("", "Pod"), Arc::new(owned), now());
    assert_eq!(panel.owner().as_deref(), Some("ReplicaSet/api"));
    assert!(panel.events_key().is_none(), "without a UID there is nothing to key on");
}

/// The object is fetched when its tab is first opened, and not again.
#[test]
fn the_object_is_fetched_once() {
    let mut panel = DetailView::new(kind("", "Pod"), object("api", None, "{}"), now());
    assert!(panel.select(DetailTab::Yaml));
    assert_eq!(
        panel.yaml_notice(),
        Some((Tone::Progressing, "Fetching the object…".to_string()))
    );
    assert!(!panel.select(DetailTab::Overview));
    assert!(!panel.select(DetailTab::Yaml));
    panel.loaded(Err("gone".into()));
    assert_eq!(panel.yaml_notice(), Some((Tone::Critical, "gone".to_string())));
    panel.loaded(Ok("kind: Pod".into()));
    assert_eq!(panel.yaml_notice(), None);
}

#[test]
fn events_are_listed_newest_first() {
    let mut panel = DetailView::new(kind("", "Pod"), object("api", None, "{}"), now());
    let key = panel.events_key().expect("it has a UID");
    assert_eq!(key.fields.as_deref(), Some("involvedObject.uid=uid-api"));
    assert_eq!(key.namespace.as_deref(), Some("payments"));
    assert_eq!(
        panel.events_notice(),
        Some((Tone::Progressing, "Looking for events…".to_string()))
    );
    assert!(!panel.take_events(vec![]));
    assert_eq!(
        panel.events_notice().map(|(_, text)| text).as_deref(),
        Some("No events. Kubernetes keeps them for about an hour.")
    );
    assert!(panel.take_events(vec![Delta::Reset(vec![
        object("a", Some("2026-09-20T10:00:00Z"), r#"{ "reason": "Old", "count": 4 }"#),
        object("b", None, r#"{ "reason": "Undated" }"#),
        object("c", Some("2026-09-20T11:00:00Z"), r#"{ "reason": "New", "type": "Warning" }"#),
    ])]));
    assert_eq!(panel.events_notice(), None);
    let events = panel.events();
    let reasons: Vec<&str> = events.iter().map(|e| e.reason.as_str()).collect();
    assert_eq!(reasons, ["New", "Old", "Undated"]);
    assert_eq!(event_tone(&events[0]), Tone::Warning);
    assert_eq!(event_tone(&events[1]), Tone::Unknown);
    assert_eq!(repeat_note(&events[0]), None);
    assert_eq!(ago_note(&events[0]), " ago");
    assert_eq!(repeat_note(&events[1]).as_deref(), Some("×4"));
}

#[test]
fn a_chip_joins_key_and_value() {
    assert_eq!(chip("app", "api"), "app=api");
    assert_eq!(chip("canary", ""), "canary");
}

/// Labels and annotations are shown one by one.
#[test]
fn the_panel_shows_labels_and_annotations() {
    let object = DynamicObject {
        types: None,
        metadata: ObjectMeta {
            name: Some("api".into()),
            labels: Some(vec![("app".into(), "api".into()), ("canary".into(), "".into())]),
            ..ObjectMeta::default()
        },
        data: Json::Null,
    };
    let kind = Kind {
        resource: ApiResource::from_gvk_with_plural(&GroupVersionKind::gvk("", "v1", "Pod"), "pods"),
        namespaced: true,
        verbs: vec![],
    };
    let panel = DetailView::new(Arc::new(kind), Arc::new(object), now());
    assert_eq!(panel.labels(), ["app=api", "canary"]);
    assert!(panel.annotations().is_empty());
    assert_eq!(panel.metadata()[4], ("Owner".to_string(), None));
}
