use beacon::base::json::Json;
use beacon::base::meta::ObjectMeta;
use beacon::base::time::Timestamp;
use beacon::columns::event::{column_set, EventSummary};
use beacon::columns::Cell;

fn now() -> Timestamp {
    Timestamp::parse("2026-09-23T12:00:00Z").expect("fixed clock")
}

fn json(text: &str) -> Json {
    Json::parse(text.as_bytes()).expect("valid JSON")
}

fn summary(data: Json) -> EventSummary {
    EventSummary::read(&data, &now())
}

#[test]
fn an_event_reads_as_kubectl_prints_it() {
    let summary = summary(json(r#"{
        "type": "Warning",
        "reason": "BackOff",
        "message": "Back-off restarting failed container",
        "involvedObject": { "kind": "Pod", "name": "api-7f9" },
        "lastTimestamp": "2026-09-23T11:55:00Z",
        "count": 12
    }"#));

    assert_eq!(summary.last_seen, "5m");
    assert_eq!(summary.kind, "Warning");
    assert_eq!(summary.reason, "BackOff");
    assert_eq!(summary.object, "pod/api-7f9");
    assert_eq!(summary.count, 12);
    assert!(summary.is_warning());
}

/// A repeating event's `lastTimestamp` can be days behind its series. The
/// series is what "last seen" means.
#[test]
fn a_repeating_event_reports_its_most_recent_occurrence() {
    let summary = summary(json(r#"{
        "firstTimestamp": "2026-09-18T12:00:00Z",
        "lastTimestamp": "2026-09-18T12:00:00Z",
        "series": { "count": 300, "lastObservedTime": "2026-09-23T11:59:00Z" }
    }"#));

    assert_eq!(summary.last_seen, "60s");
    assert_eq!(summary.count, 300);
}

/// The newer API writes `eventTime` and nothing else for a one-off.
#[test]
fn a_new_api_event_has_only_an_event_time() {
    let summary = summary(json(r#"{
        "eventTime": "2026-09-23T09:00:00Z",
        "type": "Normal",
        "reason": "Scheduled"
    }"#));

    assert_eq!(summary.last_seen, "3h");
    assert_eq!(summary.count, 1, "a one-off event has happened once");
}

#[test]
fn an_event_with_no_timestamps_does_not_invent_one() {
    assert_eq!(summary(json(r#"{ "reason": "Started" }"#)).last_seen, "");
}

/// Events are the one table that does not start with Name: an event's name
/// is a hash, and kubectl does not print it either.
#[test]
fn the_event_table_starts_at_last_seen() {
    assert_eq!(
        column_set(true).headers(),
        [
            "Last Seen",
            "Namespace",
            "Type",
            "Reason",
            "Object",
            "Message"
        ]
    );
    assert_eq!(
        column_set(false).headers(),
        ["Last Seen", "Type", "Reason", "Object", "Message"]
    );
}

#[test]
fn the_event_table_renders_a_row() {
    let data = json(r#"{
        "type": "Normal",
        "reason": "Pulled",
        "message": "Container image already present on machine",
        "involvedObject": { "kind": "Pod", "name": "api-7f9" },
        "lastTimestamp": "2026-09-23T11:00:00Z"
    }"#);
    let metadata = ObjectMeta::default();
    let cell = Cell {
        metadata: &metadata,
        data: &data,
        now: now(),
    };

    let values: Vec<String> = column_set(false)
        .columns
        .iter()
        .map(|column| column.resolve(&cell).display().to_string())
        .collect();

    assert_eq!(
        values,
        [
            "60m",
            "Normal",
            "Pulled",
            "pod/api-7f9",
            "Container image already present on machine"
        ]
    );
}
