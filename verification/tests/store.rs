use std::sync::Arc;

use beacon::base::json::Json;
use beacon::base::meta::ObjectMeta;
use beacon::k8s::resources::DynamicObject;
use beacon::k8s::store::{slim, Delta, ObjectRef, ResourceStore};

fn bare(name: &str) -> DynamicObject {
    DynamicObject {
        types: Some(("v1".into(), "Pod".into())),
        metadata: ObjectMeta {
            name: Some(name.into()),
            ..ObjectMeta::default()
        },
        data: Json::Null,
    }
}

fn object(namespace: &str, name: &str, version: &str) -> Arc<DynamicObject> {
    let mut object = bare(name);
    object.metadata.namespace = Some(namespace.to_string());
    object.metadata.resource_version = Some(version.to_string());
    Arc::new(object)
}

fn names(store: &ResourceStore) -> Vec<String> {
    let mut names: Vec<_> = store.iter().iter().map(|(key, _)| key.to_text()).collect();
    names.sort();
    names
}

#[test]
fn upsert_then_remove() {
    let mut store = ResourceStore::new();
    assert!(store.apply(Delta::Upsert(object("default", "api", "1"))));
    assert!(store.apply(Delta::Upsert(object("default", "web", "1"))));
    assert_eq!(names(&store), ["default/api", "default/web"]);

    assert!(store.apply(Delta::Remove(ObjectRef::new(Some("default".into()), "api"))));
    assert_eq!(names(&store), ["default/web"]);
}

#[test]
fn reset_replaces_everything() {
    let mut store = ResourceStore::new();
    store.apply(Delta::Upsert(object("default", "gone", "1")));
    store.apply(Delta::Reset(vec![object("kube-system", "coredns", "1")]));
    assert_eq!(names(&store), ["kube-system/coredns"]);
}

/// A relist re-sends every object unchanged. Reporting those as changes
/// would make the table re-sort and re-render for nothing.
#[test]
fn an_unchanged_object_is_not_a_change() {
    let mut store = ResourceStore::new();
    assert!(store.apply(Delta::Upsert(object("default", "api", "7"))));
    let revision = store.revision();

    assert!(!store.apply(Delta::Upsert(object("default", "api", "7"))));
    assert_eq!(store.revision(), revision);

    assert!(store.apply(Delta::Upsert(object("default", "api", "8"))));
    assert_eq!(store.revision(), revision + 1);
}

#[test]
fn removing_an_absent_object_is_not_a_change() {
    let mut store = ResourceStore::new();
    assert!(!store.apply(Delta::Remove(ObjectRef::new(None, "nothing"))));
    assert_eq!(store.revision(), 0);
}

/// One no-op inside a batch must not hide the changes around it, and every
/// delta in the batch still has to land.
#[test]
fn a_batch_reports_change_if_any_delta_changed() {
    let mut store = ResourceStore::new();
    store.apply(Delta::Upsert(object("default", "api", "1")));

    let changed = store.apply_batch(vec![
        Delta::Upsert(object("default", "api", "1")),
        Delta::Upsert(object("default", "web", "1")),
    ]);

    assert!(changed);
    assert_eq!(names(&store), ["default/api", "default/web"]);
    assert!(!store.apply_batch(vec![Delta::Upsert(object("default", "api", "1"))]));
}

#[test]
fn slim_drops_managed_fields_and_last_applied() {
    let mut object = bare("api");
    object.metadata.managed_fields = Some(vec![Json::Null]);
    object.metadata.annotations = Some(vec![
        (
            "kubectl.kubernetes.io/last-applied-configuration".to_string(),
            "{}".to_string(),
        ),
        ("team".to_string(), "payments".to_string()),
    ]);

    let slimmed = slim(object);
    assert!(slimmed.metadata.managed_fields.is_none());
    let annotations = slimmed.metadata.annotations.expect("team survives");
    assert_eq!(annotations.len(), 1);
    assert!(annotations.iter().any(|(key, _)| key == "team"));
}

/// An object whose only annotation was the one we strip should not be left
/// holding an empty map.
#[test]
fn slim_drops_an_emptied_annotation_map() {
    let mut object = bare("api");
    object.metadata.annotations = Some(vec![(
        "kubectl.kubernetes.io/last-applied-configuration".to_string(),
        "{}".to_string(),
    )]);

    assert!(slim(object).metadata.annotations.is_none());
}

#[test]
fn a_snapshot_is_what_the_store_holds() {
    let mut store = ResourceStore::new();
    assert!(store.is_empty());
    store.apply(Delta::Upsert(object("b", "x", "1")));
    store.apply(Delta::Upsert(object("a", "y", "1")));

    let mut copy = ResourceStore::new();
    copy.apply(Delta::Reset(store.snapshot()));
    assert_eq!(names(&copy), names(&store));
    assert_eq!(store.len(), 2);
    let key = ObjectRef::new(Some("b".into()), "x");
    assert_eq!(store.get(&key), copy.get(&key));
    assert!(store.get(&ObjectRef::new(None, "x")).is_none());
}

/// The list of one namespace says nothing of another.
#[test]
fn namespaces_are_listed_apart() {
    let mut store = ResourceStore::new();
    store.apply_from(
        Some("a"),
        vec![Delta::Reset(vec![object("a", "x", "1"), object("a", "y", "1")])],
    );
    assert!(store.apply_from(Some("b"), vec![Delta::Reset(vec![object("b", "z", "1")])]));
    assert_eq!(names(&store), ["a/x", "a/y", "b/z"]);
    assert!(store.apply_from(Some("a"), vec![Delta::Reset(vec![object("a", "y", "1")])]));
    assert_eq!(names(&store), ["a/y", "b/z"]);
    assert!(!store.apply_from(Some("b"), vec![Delta::Upsert(object("b", "z", "1"))]));
    assert!(store.apply_from(None, vec![Delta::Reset(vec![])]));
    assert!(store.is_empty());
}

/// Without a resource version there is no telling whether it changed.
#[test]
fn an_object_without_a_version_is_always_a_change() {
    let mut store = ResourceStore::new();
    assert!(store.apply(Delta::Upsert(Arc::new(bare("api")))));
    assert!(store.apply(Delta::Upsert(Arc::new(bare("api")))));
}

#[test]
fn a_reference_reads_as_namespace_and_name() {
    assert_eq!(ObjectRef::new(Some("a".into()), "b").to_text(), "a/b");
    assert_eq!(ObjectRef::new(None, "b").to_text(), "b");
    assert_eq!(
        ObjectRef::of(&object("a", "b", "1")),
        ObjectRef::new(Some("a".into()), "b")
    );
}

#[test]
fn slimming_twice_is_slimming_once() {
    let mut object = bare("api");
    object.metadata.annotations = Some(vec![("team".to_string(), "payments".to_string())]);
    let once = slim(object);
    assert_eq!(ObjectRef::of(&once).name, "api");
    let annotations = once.metadata.annotations.as_ref().map(|a| a.len());
    assert_eq!(slim(once).metadata.annotations.map(|a| a.len()), annotations);
}

/// Two stores that start alike stay alike under the same changes.
#[test]
fn copies_of_a_store_stay_alike() {
    let mut one = ResourceStore::new();
    let mut other = ResourceStore::new();
    other.apply(Delta::Upsert(object("a", "gone", "1")));
    let batches = || {
        vec![
            vec![Delta::Reset(vec![object("a", "x", "1")])],
            vec![
                Delta::Upsert(object("a", "y", "1")),
                Delta::Remove(ObjectRef::new(Some("a".into()), "x")),
            ],
        ]
    };
    for (first, second) in batches().into_iter().zip(batches()) {
        one.apply_batch(first);
        other.apply_batch(second);
        assert_eq!(names(&one), names(&other));
    }
    assert_eq!(names(&one), ["a/y"]);
}
