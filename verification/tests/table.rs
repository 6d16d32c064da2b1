use std::sync::Arc;

use beacon::base::json::Json;
use beacon::base::meta::ObjectMeta;
use beacon::base::time::Timestamp;
use beacon::columns::{CellValue, ColumnSet};
use beacon::k8s::resources::DynamicObject;
use beacon::k8s::store::{Delta, ObjectRef};
use beacon::ui::table::{paint, ColumnSort, Paint, ResourceTable, SortKey};
use beacon::ui::theme::Tone;

fn now() -> Timestamp {
    Timestamp::parse("2026-09-20T12:00:00Z").expect("fixed clock")
}

fn json(text: &str) -> Json {
    Json::parse(text.as_bytes()).expect("valid JSON")
}

fn key(value: &str) -> SortKey {
    SortKey::of(&CellValue::text(value))
}

/// One pod per namespace-and-index, with a restart count that is
/// deliberately out of step with the name so that sorting by it has to
/// actually move rows.
fn pod(index: usize) -> Arc<DynamicObject> {
    let namespace = format!("ns-{:02}", index % 20);
    Arc::new(DynamicObject {
        types: Some(("v1".into(), "Pod".into())),
        metadata: ObjectMeta {
            name: Some(format!("pod-{index:05}")),
            namespace: Some(namespace),
            resource_version: Some("1".into()),
            ..ObjectMeta::default()
        },
        data: json(&format!(
            r#"{{
                "spec": {{ "containers": [{{}}] }},
                "status": {{
                    "phase": "Running",
                    "containerStatuses": [{{
                        "ready": true,
                        "restartCount": {},
                        "state": {{ "running": {{}} }}
                    }}]
                }}
            }}"#,
            5000 - index
        )),
    })
}

fn filled(count: usize) -> ResourceTable {
    let mut table = ResourceTable::new(ColumnSet::for_kind("", "Pod", true), now());
    table.apply(vec![Delta::Reset((0..count).map(pod).collect())]);
    table
}

fn shown(table: &ResourceTable) -> Vec<String> {
    (0..table.len())
        .filter_map(|row| table.row(row).map(|key| key.name.clone()))
        .collect()
}

/// `10` after `5`, not before it.
#[test]
fn numbers_in_a_cell_sort_as_numbers() {
    assert!(key("5").below(&key("10")));
    assert!(key("5 (8d ago)").below(&key("10 (2m ago)")));
    assert!(key("0/2").below(&key("2/2")));
}

#[test]
fn text_sorts_case_insensitively() {
    assert!(key("apache").below(&key("Zookeeper")));
    assert_eq!(key("Redis"), key("redis"));
}

/// A cell with nothing in it should not push its way to the top of a sort.
#[test]
fn missing_values_sort_last() {
    assert!(key("anything").below(&SortKey::Missing));
    assert!(key("0").below(&SortKey::Missing));
}

/// The natural order is what `kubectl get -A` prints: namespace, then name.
#[test]
fn the_default_order_is_namespace_then_name() {
    let table = filled(40);
    let first = table.row(0).expect("rows");
    let second = table.row(1).expect("rows");

    assert_eq!(first.namespace.as_deref(), Some("ns-00"));
    assert_eq!(first.name, "pod-00000");
    assert_eq!(second.name, "pod-00020", "same namespace, next name");
}

/// Sorting by a computed column resolves that column for every object, so
/// this is the case that scales worst. M1 targets a 5,000-object list; the
/// order has to be right at that size and the rebuild has to stay a single
/// pass rather than resolving cells inside the comparator.
#[test]
fn a_large_list_sorts_by_a_computed_column() {
    let mut table = filled(5_000);
    assert_eq!(table.len(), 5_000);

    // Column 4 is Restarts, which is `5000 - index`.
    table.sort_by(4, ColumnSort::Ascending);
    assert_eq!(table.row(0).expect("rows").name, "pod-04999");
    assert_eq!(table.row(table.len() - 1).expect("rows").name, "pod-00000");

    table.sort_by(4, ColumnSort::Descending);
    assert_eq!(table.row(0).expect("rows").name, "pod-00000");

    table.sort_by(4, ColumnSort::Default);
    assert_eq!(table.row(0).expect("rows").name, "pod-00000");
    assert_eq!(
        table.row(0).expect("rows").namespace.as_deref(),
        Some("ns-00")
    );
}

#[test]
fn a_sort_key_reads_the_leading_number() {
    assert_eq!(key("5 (8d ago)"), SortKey::Number(5));
    assert_eq!(key("Running"), SortKey::Text("running".into()));
    assert_eq!(SortKey::of(&CellValue::Missing), SortKey::Missing);
}

#[test]
fn cells_are_resolved_by_row_and_column() {
    let mut table = filled(2);
    assert_eq!(table.columns_count(), 6);
    assert_eq!(table.cell_text(1, 0), "pod-00001");
    assert_eq!(table.cell_text(1, 4), "4999");
    assert_eq!(table.cell_text(2, 0), "");
    assert!(table.cell(0, 9).is_none());
    let second = ObjectRef::new(Some("ns-01".into()), "pod-00001");
    assert_eq!(table.row_of(&second), Some(1));
    assert!(table.object(&second).is_some());

    table.set_columns(ColumnSet::fallback(false));
    assert_eq!(table.columns_count(), 2);
    assert_eq!(table.total(), 2);
    table.reset(ColumnSet::fallback(true));
    assert_eq!((table.len(), table.total()), (0, 0));
    assert_eq!(table.row_of(&second), None);
}

#[test]
fn a_status_is_painted_by_its_tone() {
    assert_eq!(
        paint("Status", &CellValue::text("CrashLoopBackOff")),
        Paint::Tone(Tone::Critical)
    );
    assert_eq!(paint("Status", &CellValue::Missing), Paint::Muted);
    assert_eq!(paint("Node", &CellValue::text("Failed")), Paint::Muted);
}

/// Going back to the natural order gives the rows that a new table has.
#[test]
fn the_rows_depend_on_the_sort_alone() {
    let mut table = filled(60);
    let natural = shown(&table);
    table.sort_by(4, ColumnSort::Descending);
    let descending = shown(&table);
    assert_ne!(natural, descending);
    table.sort_by(4, ColumnSort::Ascending);
    let mut reversed = shown(&table);
    reversed.reverse();
    assert_eq!(reversed, descending);
    table.sort_by(4, ColumnSort::Default);
    assert_eq!(shown(&table), natural);
}

/// Rows are searched by namespace and name, and the best match comes first.
#[test]
fn a_search_keeps_the_rows_that_match() {
    let mut table = filled(40);
    assert!(table.set_filter("ns-07/pod-00027"));
    assert_eq!(shown(&table), ["pod-00027"]);
    assert_eq!(table.total(), 40);
    assert!(!table.set_filter("ns-07/pod-00027"), "nothing moves");

    assert!(table.set_filter("ns-03"));
    assert_eq!(shown(&table)[..2], ["pod-00003", "pod-00023"]);
    assert!(table.len() < 40);
    assert!(table.set_filter("nowhere"));
    assert_eq!(table.len(), 0);
    assert_eq!(table.keys().len(), 40);
    assert!(table.set_filter(""));
    assert_eq!(table.len(), 40);
    assert_eq!(table.row(0).expect("rows").name, "pod-00000");
}

/// While no column is sorted, rows come by how well they match; a sorted column
/// decides alone.
#[test]
fn a_search_is_ranked_unless_a_column_is_sorted() {
    let mut table = ResourceTable::new(ColumnSet::for_kind("", "Pod", true), now());
    let named = |name: &str, resource_version: &str| {
        Arc::new(DynamicObject {
            types: None,
            metadata: ObjectMeta {
                name: Some(name.into()),
                namespace: Some("a".into()),
                resource_version: Some(resource_version.into()),
                ..ObjectMeta::default()
            },
            data: json("{}"),
        })
    };
    table.apply(vec![Delta::Reset(vec![
        named("a-x-p-x-i", "1"),
        named("web", "1"),
        named("zz-api", "1"),
    ])]);
    assert!(table.set_filter("api"));
    assert_eq!(shown(&table), ["zz-api", "a-x-p-x-i"]);

    // Column 1 is the name.
    table.sort_by(1, ColumnSort::Ascending);
    assert_eq!(shown(&table), ["a-x-p-x-i", "zz-api"]);
    table.sort_by(1, ColumnSort::Default);
    assert_eq!(shown(&table), ["zz-api", "a-x-p-x-i"]);

    table.apply(vec![Delta::Upsert(named("api", "2")), Delta::Upsert(named("db", "2"))]);
    assert_eq!(shown(&table).len(), 3, "what arrives later is searched too");
    assert!(shown(&table).contains(&"api".to_string()));
}
