use beacon::base::json::Json;
use beacon::columns::printer::column_set;
use beacon::columns::{ColumnSet, ColumnSource, PathKind};

fn json(text: &str) -> Json {
    Json::parse(text.as_bytes()).expect("valid JSON")
}

/// Taken verbatim from `applications.argoproj.io`, priorities included.
fn argo_application() -> Json {
    json(
        r#"[
            { "name": "Sync Status", "type": "string", "jsonPath": ".status.sync.status" },
            { "name": "Health Status", "type": "string", "jsonPath": ".status.health.status" },
            { "name": "Revision", "type": "string", "jsonPath": ".status.sync.revision",
              "priority": 10 },
            { "name": "Project", "type": "string", "jsonPath": ".spec.project", "priority": 10 }
        ]"#,
    )
}

fn headers(columns: &ColumnSet) -> Vec<String> {
    columns.headers()
}

#[test]
fn a_crds_columns_come_after_name() {
    let columns = column_set(&argo_application(), true).expect("columns");
    assert_eq!(
        headers(&columns),
        ["Name", "Namespace", "Sync Status", "Health Status"]
    );
}

/// `kubectl get applications` shows four columns, not six. Revision and
/// Project are `-o wide` material.
#[test]
fn wide_only_columns_are_hidden() {
    let columns = column_set(&argo_application(), false).expect("columns");
    assert_eq!(headers(&columns), ["Name", "Sync Status", "Health Status"]);
}

#[test]
fn a_cluster_scoped_crd_has_no_namespace_column() {
    let columns = column_set(&argo_application(), false).expect("columns");
    assert!(!headers(&columns).contains(&"Namespace".to_string()));
}

/// A `date` column is a duration on screen, not a timestamp -- the
/// apiextensions server converts it before kubectl sees it, and a CRD's own
/// Age column has to look like everyone else's.
#[test]
fn a_date_column_is_rendered_as_an_age() {
    let columns = column_set(
        &json(r#"[{ "name": "Age", "type": "date",
                  "jsonPath": ".metadata.creationTimestamp" }]"#),
        false,
    )
    .expect("columns");

    let age = columns.columns.last().expect("age column");
    assert!(matches!(
        age.source,
        ColumnSource::JsonPath {
            kind: PathKind::Date,
            ..
        }
    ));
}

/// A CRD that declares nothing gets Beacon's fallback rather than a column
/// set that is only a Name.
#[test]
fn nothing_declared_means_no_column_set() {
    assert!(column_set(&json(r#"[]"#), true).is_none());
    assert!(column_set(&Json::Null, true).is_none());
    assert!(column_set(&json(r#""nonsense""#), true).is_none());
}

/// Every declared column is wide-only: there is nothing to add to Name, so
/// the fallback is a better answer than a one-column table.
#[test]
fn a_crd_whose_columns_are_all_wide_gets_the_fallback() {
    let all_wide = json(r#"[
        { "name": "Revision", "type": "string", "jsonPath": ".status.rev", "priority": 10 }
    ]"#);
    assert!(column_set(&all_wide, true).is_none());
}

/// A malformed entry is skipped rather than taking the whole table down
/// with it. CRDs are written by hand and this happens.
#[test]
fn a_malformed_column_is_skipped() {
    let columns = column_set(
        &json(r#"[
            { "name": "Good", "type": "string", "jsonPath": ".spec.good" },
            { "name": "No path", "type": "string" },
            { "jsonPath": ".spec.nameless" },
            "not an object"
        ]"#),
        false,
    )
    .expect("columns");

    assert_eq!(headers(&columns), ["Name", "Good"]);
}

/// `type` is required by the CRD schema but absent CRDs exist; treating it
/// as a string shows the value rather than nothing.
#[test]
fn a_column_without_a_type_is_text() {
    let columns = column_set(
        &json(r#"[{ "name": "Source", "jsonPath": ".spec.source" }]"#),
        false,
    )
    .expect("columns");
    assert_eq!(headers(&columns), ["Name", "Source"]);
}
