use std::sync::Arc;

use beacon::base::json::Json;
use beacon::k8s::discovery::{
    columns_for_version, crd_name, crd_resource, Discovery, Kind, PrinterColumns,
};
use beacon::k8s::resources::{ApiResource, GroupVersionKind};

fn json(text: &str) -> Json {
    Json::parse(text.as_bytes()).expect("valid JSON")
}

fn kind(group: &str, version: &str, name: &str, verbs: &[&str]) -> Kind {
    Kind {
        resource: ApiResource::from_gvk_with_plural(
            &GroupVersionKind::gvk(group, version, name),
            &format!("{}s", name.to_lowercase()),
        ),
        namespaced: true,
        verbs: verbs.iter().map(|verb| verb.to_string()).collect(),
    }
}

fn discovery(kinds: Vec<Kind>) -> Discovery {
    Discovery::of(kinds)
}

/// Everything is built on watches, so a kind that cannot be watched cannot
/// be shown -- offering it would produce an empty table and no explanation.
#[test]
fn a_kind_that_cannot_be_watched_is_not_listable() {
    assert!(kind("", "v1", "Pod", &["list", "watch", "get"]).is_listable());
    assert!(!kind("", "v1", "Binding", &["create"]).is_listable());
    assert!(
        !kind(
            "authorization.k8s.io",
            "v1",
            "SelfSubjectAccessReview",
            &["create"]
        )
        .is_listable()
    );
    // `list` without `watch` is the shape of an aggregated API that cannot
    // stream, and it is just as unusable here.
    assert!(!kind("metrics.k8s.io", "v1beta1", "PodMetrics", &["list", "get"]).is_listable());
}

/// A name alone is ambiguous on a cluster where a CRD borrowed it. The core
/// group is what the name means.
#[test]
fn a_bare_kind_name_resolves_to_the_core_group() {
    let discovery = discovery(vec![
        kind("example.com", "v1", "Pod", &["list", "watch"]),
        kind("", "v1", "Pod", &["list", "watch"]),
    ]);

    assert_eq!(discovery.find("Pod").unwrap().resource.group, "");
    assert!(discovery.find("Widget").is_none());
}

#[test]
fn a_kind_is_found_by_its_full_group_version_kind() {
    let discovery = discovery(vec![kind("apps", "v1", "Deployment", &["list", "watch"])]);

    let gvk = GroupVersionKind::gvk("apps", "v1", "Deployment");
    assert_eq!(discovery.get(&gvk).unwrap().resource.kind, "Deployment");
    assert!(
        discovery
            .get(&GroupVersionKind::gvk("apps", "v1beta1", "Deployment"))
            .is_none(),
        "a different version is a different kind"
    );
}

/// The group is what tells two same-named kinds apart, and a menu that
/// lists `Application` twice with no way to tell which is which is worse
/// than useless.
#[test]
fn a_grouped_kind_is_named_with_its_group() {
    assert_eq!(kind("", "v1", "Pod", &[]).display_name(), "Pod");
    assert_eq!(
        kind("argoproj.io", "v1alpha1", "Application", &[]).display_name(),
        "Application (argoproj.io)"
    );
}

/// The cache has to distinguish "no columns" from "not asked yet", or every
/// built-in kind re-reads a CRD that does not exist on every visit.
#[test]
fn the_printer_column_cache_remembers_an_absence() {
    let mut cache = PrinterColumns::new();
    let gvk = GroupVersionKind::gvk("", "v1", "Pod");

    assert!(cache.get(&gvk).is_none(), "not asked yet");

    cache.insert(gvk.copy(), None);
    assert!(
        matches!(cache.get(&gvk), Some(None)),
        "asked, and there are none"
    );

    let columns = Arc::new(json(r#"[{ "name": "Source" }]"#));
    cache.insert(gvk.copy(), Some(columns));
    assert!(matches!(cache.get(&gvk), Some(Some(_))));
}

#[test]
fn the_crd_resource_builds_the_right_path() {
    let resource = crd_resource();
    assert_eq!(resource.group, "apiextensions.k8s.io");
    assert_eq!(resource.version, "v1");
    assert_eq!(resource.plural, "customresourcedefinitions");
}

/// What cannot be listed is left out, and the rest is in alphabetical order
/// whatever the server answered in.
#[test]
fn discovery_keeps_what_can_be_listed_in_order() {
    let served = vec![
        kind("example.com", "v1", "Pod", &["list", "watch"]),
        kind("", "v1", "Binding", &["create"]),
        kind("", "v1", "Pod", &["watch", "list"]),
        kind("apps", "v1", "Deployment", &["list", "watch"]),
    ];
    let discovery = Discovery::from_served(&served);
    let names: Vec<String> = discovery.kinds().iter().map(|k| k.display_name()).collect();
    assert_eq!(
        names,
        ["Deployment (apps)", "Pod", "Pod (example.com)"]
    );
    assert!(!discovery.is_empty());
    assert!(Discovery::from_served(&Vec::new()).is_empty());
}

#[test]
fn a_kind_supports_the_verbs_it_lists() {
    let pod = kind("", "v1", "Pod", &["list", "watch", "patch"]);
    assert!(pod.supports("patch"));
    assert!(!pod.supports("delete"));
    assert_eq!(pod.gvk(), GroupVersionKind::gvk("", "v1", "Pod"));
}

#[test]
fn a_crd_is_named_by_its_plural_and_group() {
    let resource = ApiResource::from_gvk_with_plural(
        &GroupVersionKind::gvk("argoproj.io", "v1alpha1", "Application"),
        "applications",
    );
    assert_eq!(crd_name(&resource), "applications.argoproj.io");
    assert_eq!(resource.api_version, "argoproj.io/v1alpha1");
}

#[test]
fn a_crd_publishes_its_columns_by_version() {
    let crd = json(
        r#"{ "spec": { "versions": [
            { "name": "v1alpha1", "additionalPrinterColumns": [{ "name": "Old" }] },
            { "name": "v1", "additionalPrinterColumns": [{ "name": "New" }] },
            { "name": "v2" }
        ] } }"#,
    );
    assert_eq!(columns_for_version(&crd, "v1"), Some(&json(r#"[{ "name": "New" }]"#)));
    assert_eq!(columns_for_version(&crd, "v2"), None);
    assert_eq!(columns_for_version(&crd, "v3"), None);
}
