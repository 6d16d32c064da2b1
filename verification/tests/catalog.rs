use beacon::k8s::discovery::Kind;
use beacon::k8s::resources::{ApiResource, GroupVersionKind};
use beacon::ui::catalog::{matcher, placement, Catalog, Category};

fn kind(group: &str, name: &str) -> Kind {
    Kind {
        resource: ApiResource::from_gvk_with_plural(
            &GroupVersionKind::gvk(group, "v1", name),
            &format!("{}s", name.to_lowercase()),
        ),
        namespaced: true,
        verbs: vec!["list".into(), "watch".into()],
    }
}

fn catalog() -> Catalog {
    Catalog::new(&vec![
        kind("apps", "Deployment"),
        kind("", "Pod"),
        kind("", "ConfigMap"),
        kind("argoproj.io", "Application"),
        kind("", "Node"),
        kind("rbac.authorization.k8s.io", "Role"),
        kind("k3s.cattle.io", "Addon"),
    ])
}

fn section(catalog: &Catalog, category: Category) -> Vec<String> {
    catalog
        .sections()
        .iter()
        .find(|(candidate, _)| *candidate == category)
        .map(|(_, entries)| entries.iter().map(|e| e.label.to_string()).collect())
        .unwrap_or_default()
}

/// Alphabetical order would put Deployment above Pod. Nobody opens this
/// sidebar looking for Deployment first.
#[test]
fn workloads_lead_with_pods() {
    let catalog = catalog();
    assert_eq!(
        section(&catalog, Category::Workloads),
        ["Pod", "Deployment (apps)"]
    );
}

/// Anything the table does not name is a custom resource, which on a real
/// cluster is most of what there is.
#[test]
fn unknown_kinds_are_custom_resources() {
    let catalog = catalog();
    assert_eq!(
        section(&catalog, Category::Custom),
        ["Addon (k3s.cattle.io)", "Application (argoproj.io)"]
    );
}

#[test]
fn known_kinds_land_in_their_section() {
    assert_eq!(placement(&kind("", "Service")).0, Category::Network);
    assert_eq!(placement(&kind("", "Secret")).0, Category::Config);
    assert_eq!(
        placement(&kind("", "PersistentVolumeClaim")).0,
        Category::Storage
    );
    assert_eq!(
        placement(&kind("rbac.authorization.k8s.io", "ClusterRole")).0,
        Category::AccessControl
    );
    assert_eq!(placement(&kind("", "Namespace")).0, Category::Cluster);
}

/// A CRD that borrowed a built-in name is still a custom resource -- the
/// group is what the table is keyed on.
#[test]
fn a_borrowed_name_is_still_a_custom_resource() {
    assert_eq!(
        placement(&kind("example.com", "Service")).0,
        Category::Custom
    );
}

#[test]
fn empty_sections_are_not_shown() {
    let catalog = Catalog::new(&vec![kind("", "Pod")]);
    assert_eq!(catalog.sections().len(), 1);
    assert_eq!(catalog.len(), 1);
}

/// Pods are where a cluster opens, and the fallback only matters on a
/// cluster that does not serve them.
#[test]
fn a_cluster_opens_on_pods() {
    let catalog = catalog();
    let default = catalog.default_kind().expect("a default");
    assert_eq!(default.resource.kind, "Pod");

    let without_pods = Catalog::new(&vec![kind("argoproj.io", "Application")]);
    assert_eq!(
        without_pods
            .default_kind()
            .expect("a default")
            .resource
            .kind,
        "Application"
    );

    assert!(Catalog::new(&vec![]).default_kind().is_none());
}

/// Fuzzy, not substring: nobody types the group, or the capitals.
#[test]
fn search_finds_a_kind_from_an_abbreviation() {
    let catalog = catalog();
    let mut matcher = matcher();

    let found = catalog.search("dep", &mut matcher);
    assert_eq!(
        found.first().map(|entry| entry.label.to_string()),
        Some("Deployment (apps)".to_string())
    );

    let found = catalog.search("cfgmap", &mut matcher);
    assert_eq!(
        found.first().map(|entry| entry.label.to_string()),
        Some("ConfigMap".to_string())
    );
}

#[test]
fn search_matching_nothing_returns_nothing() {
    assert!(catalog().search("zzzz", &mut matcher()).is_empty());
}

/// Every kind is listed once, and no section is empty.
#[test]
fn sections_share_the_kinds_out() {
    let catalog = catalog();
    assert_eq!(catalog.entries().len(), 7);
    assert!(catalog.sections().iter().all(|(_, entries)| !entries.is_empty()));
    let order: Vec<&str> = catalog.sections().iter().map(|(c, _)| c.label()).collect();
    assert_eq!(
        order,
        ["Workloads", "Config", "Access Control", "Cluster", "Custom Resources"]
    );
}

/// The ranking is by score, and by the shorter label among equals.
#[test]
fn entries_are_ranked_by_their_scores() {
    let catalog = catalog();
    let mut scores = vec![None; 7];
    scores[0] = Some(3);
    scores[1] = Some(8);
    scores[2] = Some(3);
    let found: Vec<String> = catalog.ranked(&scores).iter().map(|e| e.label.clone()).collect();
    assert_eq!(found, ["Deployment (apps)", "ConfigMap", "Pod"]);
}
