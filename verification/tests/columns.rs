use beacon::base::json::Json;
use beacon::base::meta::ObjectMeta;
use beacon::base::time::Timestamp;
use beacon::columns::{Cell, CellValue, ColumnDef, ColumnSet, ColumnSource, ColumnWidth, PathKind};

fn now() -> Timestamp {
    Timestamp::parse("2026-09-20T12:00:00Z").expect("fixed clock")
}

fn json(text: &str) -> Json {
    Json::parse(text.as_bytes()).expect("valid JSON")
}

fn metadata() -> ObjectMeta {
    ObjectMeta {
        name: Some("api-7f9".into()),
        namespace: Some("payments".into()),
        creation_timestamp: Timestamp::parse("2026-09-17T12:00:00Z"),
        ..ObjectMeta::default()
    }
}

fn json_path(expression: &str) -> ColumnSource {
    ColumnSource::JsonPath {
        expression: expression.to_string(),
        kind: PathKind::Value,
    }
}

fn resolve(source: ColumnSource, data: &Json) -> CellValue {
    let metadata = metadata();
    ColumnDef::new("c", ColumnWidth::Fixed(100), source).resolve(&Cell {
        metadata: &metadata,
        data,
        now: now(),
    })
}

#[test]
fn missing_values_render_as_none() {
    assert_eq!(CellValue::Missing.display(), "<none>");
    assert_eq!(CellValue::from(None::<String>).display(), "<none>");
    assert_eq!(CellValue::from(None::<&str>).display(), "<none>");
    assert_eq!(
        CellValue::from(Some("kube-system")).display(),
        "kube-system"
    );
}

#[test]
fn metadata_columns_come_from_metadata() {
    let data = json(r#"{}"#);
    assert_eq!(resolve(ColumnSource::Name, &data).display(), "api-7f9");
    assert_eq!(
        resolve(ColumnSource::Namespace, &data).display(),
        "payments"
    );
    assert_eq!(resolve(ColumnSource::Age, &data).display(), "3d");
}

#[test]
fn a_field_path_reads_the_object() {
    let data = json(r#"{ "status": { "phase": "Running" }, "spec": { "replicas": 3 } }"#);
    assert_eq!(
        resolve(json_path(".status.phase"), &data).display(),
        "Running"
    );
    assert_eq!(resolve(json_path(".spec.replicas"), &data).display(), "3");
}

/// `data` holds no metadata, so a path rooted there has to be answered from
/// the typed struct -- CRDs do write `.metadata.labels.*` columns.
#[test]
fn a_field_path_can_still_reach_metadata() {
    let data = json(r#"{}"#);
    assert_eq!(
        resolve(json_path(".metadata.name"), &data).display(),
        "api-7f9"
    );
}

#[test]
fn a_path_that_resolves_to_nothing_renders_as_none() {
    let data = json(r#"{ "status": {} }"#);
    assert!(resolve(json_path(".status.phase"), &data).is_missing());
    assert!(resolve(json_path(".spec.replicas"), &data).is_missing());
}

/// An empty string is a present-but-blank field. kubectl shows `<none>`
/// rather than a cell that looks like a rendering failure.
#[test]
fn an_empty_string_is_a_missing_value() {
    let data = json(r#"{ "status": { "phase": "" } }"#);
    assert!(resolve(json_path(".status.phase"), &data).is_missing());
}

#[test]
fn cluster_scoped_fallback_has_no_namespace_column() {
    assert_eq!(ColumnSet::fallback(false).headers(), ["Name", "Age"]);
}

#[test]
fn namespaced_fallback_has_a_namespace_column() {
    assert_eq!(
        ColumnSet::fallback(true).headers(),
        ["Name", "Namespace", "Age"]
    );
}

/// The resolution order, in one test: a kind we know beats the CRD's own
/// columns, a CRD's columns beat the fallback, and the fallback is what is
/// left.
#[test]
fn columns_resolve_builtin_then_crd_then_fallback() {
    let declared = json(r#"[
        { "name": "Source", "type": "string", "jsonPath": ".spec.source" }
    ]"#);

    assert_eq!(
        ColumnSet::resolve("", "Pod", true, Some(&declared)).headers(),
        ["Name", "Namespace", "Ready", "Status", "Restarts", "Age"],
        "a built-in table wins over whatever else is published"
    );

    assert_eq!(
        ColumnSet::resolve("k3s.cattle.io", "Addon", true, Some(&declared)).headers(),
        ["Name", "Namespace", "Source"],
        "a CRD's own columns beat the fallback"
    );

    assert_eq!(
        ColumnSet::resolve("hub.traefik.io", "ApiAccess", true, None).headers(),
        ["Name", "Namespace", "Age"],
        "and the fallback is what is left"
    );
}

/// A CRD that happens to be called Pod is not a Pod.
#[test]
fn the_builtin_table_is_keyed_on_the_group_too() {
    assert_eq!(
        ColumnSet::for_kind("example.com", "Pod", true).headers(),
        ["Name", "Namespace", "Age"]
    );
}

/// The Pod columns have to agree with `pod::summarize` end to end, since
/// the table renders through these.
#[test]
fn the_pod_columns_compute_what_kubectl_prints() {
    let data = json(r#"{
        "spec": { "containers": [{}, {}] },
        "status": {
            "phase": "Running",
            "conditions": [{ "type": "Ready", "status": "True" }],
            "containerStatuses": [
                { "ready": true, "restartCount": 0, "state": { "running": {} } },
                { "ready": true, "restartCount": 0, "state": { "running": {} } }
            ]
        }
    }"#);

    let metadata = metadata();
    let cell = Cell {
        metadata: &metadata,
        data: &data,
        now: now(),
    };

    let values: Vec<_> = ColumnSet::for_kind("", "Pod", true)
        .columns
        .iter()
        .map(|column| column.resolve(&cell).display().to_string())
        .collect();

    assert_eq!(values, ["api-7f9", "payments", "2/2", "Running", "0", "3d"]);
}

/// What a CRD declares makes no difference to a kind that is known by name.
#[test]
fn a_known_kind_keeps_its_columns() {
    let declared = json(r#"[{ "name": "Source", "jsonPath": ".spec.source" }]"#);
    for (group, kind) in [("", "Pod"), ("batch", "Job"), ("", "Node")] {
        assert_eq!(
            ColumnSet::resolve(group, kind, true, Some(&declared)),
            ColumnSet::for_kind(group, kind, true)
        );
    }
    let nothing = json("[]");
    assert_eq!(
        ColumnSet::resolve("example.com", "Widget", true, Some(&nothing)),
        ColumnSet::fallback(true)
    );
}

#[test]
fn values_are_printed_the_way_kubectl_prints_them() {
    let many = json(r#"["a", 2, null, true]"#);
    let nodes: Vec<&Json> = many.as_array().expect("an array").iter().collect();
    assert_eq!(CellValue::from_nodes(&nodes).display(), "a,2,<none>,true");
    assert_eq!(CellValue::from(&json(r#"{ "a": [1] }"#)).display(), r#"{"a":[1]}"#);
    assert_eq!(CellValue::from(&json("1.50")).display(), "1.5");
    assert_eq!(CellValue::from(&Json::Null), CellValue::default());
}

#[test]
fn a_date_column_shows_how_long_ago_it_was() {
    let at = json(r#""2026-09-20T11:00:00Z""#);
    assert_eq!(CellValue::from_date(&vec![&at], &now()).display(), "60m");
    let odd = json(r#""soon""#);
    assert_eq!(CellValue::from_date(&vec![&odd], &now()).display(), "soon");
    let number = json("5");
    assert_eq!(CellValue::from_date(&vec![&number], &now()).display(), "5");
    assert!(CellValue::from_date(&vec![], &now()).is_missing());
}
