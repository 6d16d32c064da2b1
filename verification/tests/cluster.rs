use std::sync::Arc;

use beacon::base::json::Json;
use beacon::base::meta::ObjectMeta;
use beacon::base::time::Timestamp;
use beacon::k8s::access::Rules;
use beacon::k8s::discovery::Kind;
use beacon::k8s::forward::Forwards;
use beacon::k8s::helm::Release;
use beacon::k8s::ops::{Conflict, Operation};
use beacon::k8s::resources::{ApiResource, DynamicObject, GroupVersionKind};
use beacon::k8s::session::Health;
use beacon::k8s::store::{Delta, ObjectRef};
use beacon::ui::catalog::matcher;
use beacon::ui::cluster::{
    connections_text, destination, forwards_notice, release_tone, replicas, revision_text,
    watch_keys, ClusterView, Mode, NamespaceScope, Outcome, Releases, Start, Written,
};
use beacon::ui::theme::Tone;

fn now() -> Timestamp {
    Timestamp::parse("2026-09-20T12:00:00Z").expect("fixed clock")
}

fn json(text: &str) -> Json {
    Json::parse(text.as_bytes()).expect("valid JSON")
}

fn kind(group: &str, name: &str, namespaced: bool) -> Kind {
    Kind {
        resource: ApiResource::from_gvk_with_plural(
            &GroupVersionKind::gvk(group, "v1", name),
            &format!("{}s", name.to_lowercase()),
        ),
        namespaced,
        verbs: vec!["list".into(), "watch".into()],
    }
}

fn object(namespace: Option<&str>, name: &str, data: &str) -> Arc<DynamicObject> {
    Arc::new(DynamicObject {
        types: None,
        metadata: ObjectMeta {
            name: Some(name.into()),
            namespace: namespace.map(str::to_string),
            resource_version: Some("1".into()),
            ..ObjectMeta::default()
        },
        data: json(data),
    })
}

fn view() -> ClusterView {
    let kinds = vec![
        kind("", "Pod", true),
        kind("apps", "Deployment", true),
        kind("", "Node", false),
    ];
    ClusterView::new(&kinds, Some("payments".into()), now())
}

fn filled() -> ClusterView {
    let mut view = view();
    view.take_objects(Some("payments"), vec![Delta::Reset(vec![
        object(Some("payments"), "api", "{}"),
        object(
            Some("payments"),
            "web",
            r#"{ "spec": { "containers": [
                { "ports": [{ "containerPort": 8080 }, { "containerPort": 70000 }] },
                {},
                { "ports": [{ "name": "odd" }, { "containerPort": 9090 }] }
            ] } }"#,
        ),
    ])]);
    view
}

fn shared(view: &ClusterView, name: &str) -> Arc<Kind> {
    view.catalog()
        .entries()
        .iter()
        .map(|entry| entry.shared_kind())
        .find(|kind| kind.resource.kind == name)
        .expect("it is served")
}

#[test]
fn a_view_opens_on_pods_in_the_context_namespace() {
    let view = view();
    assert_eq!(view.title(), "Pod");
    assert_eq!(view.scope().names(), ["payments"]);
    assert_eq!(view.table().columns_count(), 5, "one namespace needs no column");
    assert_eq!(view.health(), &Health::Connecting);
    assert_eq!(view.mode(), Mode::Objects);
    assert_eq!(
        ClusterView::new(&vec![], None, now()).scope().names(),
        ["default"]
    );
    assert_eq!(
        ClusterView::new(&vec![], None, now()).toolbar_title(),
        "Nothing selected"
    );
}

#[test]
fn a_scope_is_toggled_a_name_at_a_time() {
    let scope = NamespaceScope::one("b");
    assert_eq!(scope.label(), "b");
    assert_eq!(scope.only_namespace().as_deref(), Some("b"));
    let both = scope.toggle("a");
    assert_eq!(both.names(), ["a", "b"]);
    assert_eq!(both.label(), "2 namespaces");
    assert_eq!(both.only_namespace(), None);
    assert!(both.toggle("a").same(&scope));
    assert_eq!(scope.toggle("b").label(), "All namespaces");
}

/// Several namespaces are several watches; a cluster-scoped kind needs one.
#[test]
fn a_kind_is_watched_in_each_namespace() {
    let both = NamespaceScope::one("b").toggle("a");
    let namespaces = |kind: &Kind, scope: &NamespaceScope| -> Vec<Option<String>> {
        watch_keys(kind, scope).into_iter().map(|key| key.namespace).collect()
    };
    assert_eq!(
        namespaces(&kind("", "Pod", true), &both),
        [Some("a".to_string()), Some("b".to_string())]
    );
    assert_eq!(namespaces(&kind("", "Pod", true), &NamespaceScope::all()), [None]);
    assert_eq!(namespaces(&kind("", "Node", false), &both), [None]);
}

#[test]
fn another_kind_starts_over() {
    let mut view = filled();
    view.select_row(Some(0));
    assert!(view.open_detail(0, now()));
    assert!(!view.show_kind(shared(&view, "Pod")), "it is on screen already");
    assert_eq!(view.counts(), (2, 2));

    let deployment = shared(&view, "Deployment");
    view.show_mode(Mode::Forwards);
    assert!(view.show_kind(deployment));
    assert_eq!(view.counts(), (0, 0));
    assert_eq!(view.mode(), Mode::Objects);
    assert!(view.detail().is_none());
}

#[test]
fn the_namespace_column_appears_with_a_second_namespace() {
    let mut view = filled();
    assert!(view.toggle_namespace("default"));
    assert_eq!(view.table().columns_count(), 6);
    assert_eq!(view.counts(), (0, 0), "the rows start over");
    assert!(view.set_namespace(None));
    assert!(!view.set_namespace(None), "it shows all of them already");
    assert!(view.set_namespace(Some("payments".into())));
    assert_eq!(view.table().columns_count(), 5);
}

#[test]
fn picking_a_namespace_closes_the_menu() {
    let mut view = view();
    let list = vec![Delta::Reset(vec![
        object(None, "payments", "{}"),
        object(None, "default", "{}"),
    ])];
    assert!(view.take_namespaces(list));
    assert!(!view.take_namespaces(vec![]), "nothing new");
    assert_eq!(view.namespace_names(), &["default", "payments"]);
    assert_eq!(
        view.picker(),
        [("default".to_string(), false), ("payments".to_string(), true)]
    );
    assert!(view.offers_picker());
    view.set_menu_open(true);
    view.toggle_namespace("default");
    assert!(view.menu_open());
    view.pick_namespace(Some("default".into()));
    assert!(!view.menu_open());
    assert_eq!(view.scope().names(), ["default"]);
    view.show_kind(shared(&view, "Node"));
    assert!(!view.offers_picker());
}

/// Columns that arrive after the user moved on are not for this table.
#[test]
fn late_columns_are_not_taken() {
    let mut view = view();
    let columns = json(r#"[{ "name": "Source", "jsonPath": ".spec.source" }]"#);
    assert!(!view.take_columns(&GroupVersionKind::gvk("apps", "v1", "Deployment"), &columns));
    assert!(view.take_columns(&GroupVersionKind::gvk("", "v1", "Pod"), &columns));
    assert_eq!(view.table().columns_count(), 5, "a built-in table stays");
}

#[test]
fn the_panel_follows_its_object() {
    let mut view = filled();
    assert!(view.open_detail(1, now()));
    assert!(!view.open_detail(1, now()), "it is open on that object");
    assert!(!view.open_detail(9, now()), "there is no such row");
    let mut changed = object(Some("payments"), "web", r#"{ "status": { "phase": "Running" } }"#);
    Arc::get_mut(&mut changed).expect("not shared").metadata.resource_version = Some("2".into());
    view.take_objects(Some("payments"), vec![Delta::Upsert(changed)]);
    let phase = vec![("phase".to_string(), "Running".to_string())];
    assert_eq!(view.detail().expect("open").status(), phase);

    view.take_objects(Some("payments"), vec![Delta::Remove(ObjectRef::new(Some("payments".into()), "web"))]);
    assert_eq!(view.detail().expect("still open").status(), phase, "it keeps what it had");
    view.close_detail();
    assert!(view.detail().is_none());
}

#[test]
fn the_panel_is_shown_and_hidden() {
    let mut view = filled();
    view.toggle_details(now());
    assert!(view.detail().is_none(), "nothing is selected");
    view.select_row(Some(0));
    view.toggle_details(now());
    assert_eq!(view.detail().expect("open").target().name, "api");
    let panel = view.replace_detail(None);
    assert!(panel.is_some() && view.detail().is_none());
    view.replace_detail(panel);
    view.toggle_details(now());
    assert!(view.detail().is_none());

    let web = ObjectRef::new(Some("payments".into()), "web");
    assert_eq!(view.focus(&web, now()), Some(1));
    assert_eq!(view.selected(), Some(web));
    assert_eq!(view.detail().expect("open").target().name, "web");
    assert_eq!(view.focus(&ObjectRef::new(None, "gone"), now()), None);
}

#[test]
fn an_operation_is_asked_about_unless_it_is_a_restart() {
    let mut view = view();
    assert!(matches!(view.start(Operation::Delete), Start::Nothing));
    assert!(view.operations().is_empty());

    view.show_kind(shared(&view, "Deployment"));
    view.take_objects(Some("payments"), vec![Delta::Upsert(object(
        Some("payments"),
        "api",
        r#"{ "spec": { "replicas": 4 } }"#,
    ))]);
    view.select_row(Some(0));
    let operations: Vec<Operation> = view.operations().iter().map(|c| c.operation).collect();
    assert_eq!(
        operations,
        [Operation::Restart, Operation::Scale { replicas: 4 }, Operation::Delete]
    );
    assert!(view.operations().iter().all(|choice| choice.allowed));
    view.set_rules(Arc::new(Rules::new(vec![], false)));
    assert!(view.operations().iter().all(|choice| !choice.allowed));

    match view.start(Operation::Delete) {
        Start::Ask(ask) => assert_eq!((ask.kind.as_str(), ask.target.name.as_str()), ("Deployment", "api")),
        _ => panic!("deleting has no undo"),
    }
    assert!(view.outcome().is_none());
    assert!(matches!(view.start(Operation::Restart), Start::Run(Operation::Restart, _)));
    assert_eq!(view.outcome(), Some(&Outcome::Running("Restart".into())));
}

#[test]
fn a_write_reports_what_came_back() {
    let mut view = filled();
    assert_eq!(view.run(Operation::Delete), None);
    view.select_row(Some(1));
    assert_eq!(view.run(Operation::Delete).expect("it is selected").name, "web");
    assert_eq!(
        view.outcome().map(|o| o.text()),
        Some((Tone::Progressing, "Delete…".to_string()))
    );
    view.written(Operation::Delete, Written::Done);
    assert_eq!(
        view.outcome().map(|o| o.text()),
        Some((Tone::Healthy, "Delete — done".to_string()))
    );
    view.written(
        Operation::Apply,
        Written::Conflict(Conflict {
            fields: vec![".spec.replicas".into()],
            managers: vec!["argocd".into()],
            message: String::new(),
        }),
    );
    assert_eq!(
        view.outcome().map(|o| o.text()),
        Some((Tone::Critical, "1 field owned by argocd".to_string()))
    );
    view.written(Operation::Apply, Written::Failed("forbidden".into()));
    assert_eq!(view.outcome(), Some(&Outcome::Failed("forbidden".into())));
}

#[test]
fn a_forward_is_opened_to_the_selected_pod() {
    let mut view = filled();
    assert_eq!(view.start_forward(8080), None);
    view.select_row(Some(0));
    assert_eq!(
        view.start_forward(8080),
        Some(("payments".to_string(), "api".to_string()))
    );
    assert_eq!(view.title(), "Port Forwards");
    assert_eq!(
        view.outcome().map(|o| o.text().1).as_deref(),
        Some("Forwarding port 8080…")
    );
    let mut forwards = Forwards::new();
    let forward = forwards.open("payments", "api", 8080, 52310);
    assert_eq!(destination(&forward), "payments/api:8080");
    assert_eq!(connections_text(&forward), "idle");
    view.forwarded(Ok(forward));
    assert_eq!(
        view.outcome(),
        Some(&Outcome::Done("Forwarding 127.0.0.1:52310".into()))
    );
    view.forwarded(Err("refused".into()));
    assert_eq!(view.outcome(), Some(&Outcome::Failed("refused".into())));
    forwards.set_connections(0, 1);
    assert_eq!(connections_text(&forwards.list()[0]), "1 connection");
    forwards.set_connections(0, 2);
    assert_eq!(connections_text(&forwards.list()[0]), "2 connections");
    assert_eq!(forwards_notice(&forwards.list()), None);
    assert!(forwards_notice(&vec![]).is_some());
}

fn release(status: &str) -> Release {
    Release {
        name: "x".into(),
        namespace: "default".into(),
        revision: 13,
        status: status.into(),
        chart: "x-1".into(),
        app_version: String::new(),
        updated: None,
    }
}

#[test]
fn releases_are_listed_when_they_are_looked_at() {
    let mut view = view();
    assert!(view.show_mode(Mode::Releases));
    assert!(!view.show_mode(Mode::Releases), "they are on screen");
    assert_eq!(view.releases(), &Releases::Loading);
    assert_eq!(view.releases_notice().as_deref(), Some("Reading releases…"));
    assert_eq!(view.toolbar_count(2, 2, 0), "");
    view.take_releases(Ok(vec![]));
    assert_eq!(
        view.releases_notice().as_deref(),
        Some("No Helm releases in this scope.")
    );
    view.take_releases(Ok(vec![release("deployed")]));
    assert_eq!(view.releases_notice(), None);
    assert_eq!(view.toolbar_count(2, 2, 0), "1");
    assert_eq!(view.toolbar_title(), "Helm Releases");
    view.take_releases(Err("forbidden".into()));
    assert_eq!(view.releases_notice().as_deref(), Some("forbidden"));
    assert_eq!(revision_text(&release("deployed")), "rev 13");
    assert_eq!(release_tone(&release("deployed")), Tone::Healthy);
    assert_eq!(release_tone(&release("pending-upgrade")), Tone::Progressing);
    assert_eq!(release_tone(&release("failed")), Tone::Warning);
}

#[test]
fn the_toolbar_counts_what_is_hidden() {
    let mut view = filled();
    assert_eq!(view.toolbar_count(2, 2, 5), "2");
    assert_eq!(view.toolbar_count(1, 2, 5), "1 of 2");
    view.show_mode(Mode::Forwards);
    assert_eq!(view.toolbar_count(1, 2, 5), "5");
}

/// The group that holds what is on screen starts open.
#[test]
fn the_sidebar_opens_on_the_selection() {
    let mut view = view();
    let sections = view.sidebar(&mut matcher());
    let open: Vec<(&str, bool)> = sections.iter().map(|s| (s.label.as_str(), s.open)).collect();
    assert_eq!(open, [("Workloads", true), ("Cluster", false)]);
    assert!(sections[0].entries[0].1);

    view.show_kind(shared(&view, "Node"));
    let sections = view.sidebar(&mut matcher());
    assert!(sections[1].open && sections[1].entries[0].1);

    view.set_query("dep");
    let sections = view.sidebar(&mut matcher());
    assert_eq!(sections.len(), 1);
    assert_eq!(sections[0].label, "Matches");
    assert_eq!(sections[0].entries[0].0.label, "Deployment (apps)");
    assert!(view.sidebar_scored(&vec![None; 3])[0].entries.is_empty());
}

#[test]
fn the_palette_gets_what_the_view_has() {
    let mut view = filled();
    view.take_namespaces(vec![Delta::Upsert(object(None, "payments", "{}"))]);
    view.select_row(Some(1));
    let sources = view.sources();
    assert_eq!(sources.kinds.len(), 3);
    assert_eq!(sources.namespaces, ["payments"]);
    assert_eq!(sources.objects.len(), 2);
    assert_eq!(sources.operations.len(), 1);
    assert_eq!(sources.ports, [8080, 9090]);
    assert_eq!(sources.current_kind.as_deref(), Some("Pod"));
    assert_eq!(
        view.selected_pod().and_then(|pod| pod.metadata.name.clone()).as_deref(),
        Some("web")
    );
}

/// An absent count is one, and a large one is cut to its low bits.
#[test]
fn replicas_are_read_from_the_spec() {
    for (text, expected) in [
        ("{}", 1),
        (r#"{ "spec": { "replicas": 0 } }"#, 0),
        (r#"{ "spec": { "replicas": -2 } }"#, -2),
        (r#"{ "spec": { "replicas": 4294967299 } }"#, 3),
        (r#"{ "spec": { "replicas": 2147483648 } }"#, i32::MIN),
    ] {
        assert_eq!(replicas(&json(text)), expected, "{text}");
    }
}

#[test]
fn visibility_and_health_report_changes() {
    let mut view = view();
    assert!(!view.set_visible(true));
    assert!(view.set_visible(false));
    assert!(view.set_health(Health::Connected));
    assert!(!view.set_health(Health::Connected));
    view.tick(Timestamp::parse("2026-09-20T12:00:01Z").expect("later"));
}

/// What the search hides is still offered, and bringing it up clears the search.
#[test]
fn bringing_an_object_up_clears_the_search() {
    let mut view = filled();
    assert!(view.set_filter("api"));
    assert_eq!(view.counts(), (1, 2));
    assert_eq!(view.sources().objects.len(), 2);

    let web = ObjectRef::new(Some("payments".into()), "web");
    assert_eq!(view.focus(&web, now()), Some(1));
    assert_eq!(view.counts(), (2, 2));
    assert!(view.selected().is_some_and(|selected| selected.name == "web"));
    assert!(view.detail().is_some_and(|panel| panel.target().name == "web"));
    assert!(!view.clear_filter());

    let gone = ObjectRef::new(Some("payments".into()), "gone");
    assert_eq!(view.focus(&gone, now()), None);
}

/// Another kind keeps the search.
#[test]
fn a_search_outlives_the_list() {
    let mut view = filled();
    view.set_filter("web");
    let deployments = shared(&view, "Deployment");
    assert!(view.show_kind(deployments));
    view.take_objects(Some("payments"), vec![Delta::Reset(vec![
        object(Some("payments"), "api", "{}"),
        object(Some("payments"), "web", "{}"),
    ])]);
    assert_eq!(view.counts(), (1, 2));
    assert!(view.clear_filter());
    assert_eq!(view.counts(), (2, 2));
}

#[test]
fn a_batch_names_the_pods_it_takes_away() {
    let mut view = filled();
    let web = ObjectRef::new(Some("payments".into()), "web");
    let batch = vec![
        Delta::Upsert(object(Some("payments"), "api", "{}")),
        Delta::Remove(web.copy()),
    ];
    assert_eq!(view.pods_gone(&batch), [web]);
    let deployments = shared(&view, "Deployment");
    view.show_kind(deployments);
    assert!(view.pods_gone(&batch).is_empty());
}
