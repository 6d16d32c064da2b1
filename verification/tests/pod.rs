use beacon::base::json::Json;
use beacon::base::meta::ObjectMeta;
use beacon::base::time::Timestamp;
use beacon::columns::pod::{format_restarts, is_terminal, phase, summarize, PodSummary};

fn now() -> Timestamp {
    Timestamp::parse("2026-09-20T12:00:00Z").expect("fixed clock")
}

fn json(text: &str) -> Json {
    Json::parse(text.as_bytes()).expect("valid JSON")
}

fn summary(data: Json) -> PodSummary {
    summarize(&ObjectMeta::default(), &data, &now())
}

fn terminating(data: Json) -> PodSummary {
    let metadata = ObjectMeta {
        deletion_timestamp: Some(now()),
        ..ObjectMeta::default()
    };
    summarize(&metadata, &data, &now())
}

fn running_pod(containers: usize, ready: usize) -> Json {
    let specs = vec!["{}"; containers].join(", ");
    let statuses: Vec<String> = (0..containers)
        .map(|i| {
            format!(
                r#"{{
                    "ready": {},
                    "restartCount": 0,
                    "state": {{ "running": {{ "startedAt": "2026-09-01T00:00:00Z" }} }}
                }}"#,
                i < ready
            )
        })
        .collect();
    json(&format!(
        r#"{{
            "spec": {{ "containers": [{specs}] }},
            "status": {{
                "phase": "Running",
                "conditions": [{{ "type": "Ready", "status": "True" }}],
                "containerStatuses": [{}]
            }}
        }}"#,
        statuses.join(", ")
    ))
}

#[test]
fn a_healthy_pod() {
    let summary = summary(running_pod(2, 2));
    assert_eq!(summary.ready, "2/2");
    assert_eq!(summary.status, "Running");
    assert_eq!(summary.restarts, "0");
}

/// A container that is running but not ready still counts against READY.
#[test]
fn a_container_that_is_not_ready_is_not_counted() {
    assert_eq!(summary(running_pod(2, 1)).ready, "1/2");
}

#[test]
fn a_crash_looping_container_shows_the_waiting_reason() {
    let summary = summary(json(r#"{
        "spec": { "containers": [{}] },
        "status": {
            "phase": "Running",
            "containerStatuses": [{
                "ready": false,
                "restartCount": 5,
                "state": { "waiting": { "reason": "CrashLoopBackOff" } },
                "lastState": { "terminated": {
                    "exitCode": 1,
                    "finishedAt": "2026-09-12T12:00:00Z"
                }}
            }]
        }
    }"#));

    assert_eq!(summary.ready, "0/1");
    assert_eq!(summary.status, "CrashLoopBackOff");
    assert_eq!(summary.restarts, "5 (8d ago)");
}

/// The exact shape of the local cluster's completed Argo workflow pods.
#[test]
fn a_completed_pod() {
    let summary = summary(json(r#"{
        "spec": { "containers": [{}, {}] },
        "status": {
            "phase": "Succeeded",
            "containerStatuses": [
                { "ready": false, "restartCount": 0,
                  "state": { "terminated": { "exitCode": 0, "reason": "Completed" } } },
                { "ready": false, "restartCount": 0,
                  "state": { "terminated": { "exitCode": 0, "reason": "Completed" } } }
            ]
        }
    }"#));

    assert_eq!(summary.ready, "0/2");
    assert_eq!(summary.status, "Completed");
}

#[test]
fn a_failed_pod_reports_its_exit_code_when_there_is_no_reason() {
    let summary = summary(json(r#"{
        "spec": { "containers": [{}] },
        "status": {
            "phase": "Failed",
            "containerStatuses": [{
                "ready": false, "restartCount": 0,
                "state": { "terminated": { "exitCode": 137 } }
            }]
        }
    }"#));

    assert_eq!(summary.status, "ExitCode:137");
}

#[test]
fn a_pod_killed_by_a_signal_reports_the_signal() {
    let summary = summary(json(r#"{
        "spec": { "containers": [{}] },
        "status": {
            "phase": "Failed",
            "containerStatuses": [{
                "ready": false, "restartCount": 0,
                "state": { "terminated": { "exitCode": 0, "signal": 9 } }
            }]
        }
    }"#));

    assert_eq!(summary.status, "Signal:9");
}

/// Init containers take over the status line, and the index is how far
/// along initialization got.
#[test]
fn an_initializing_pod_counts_its_init_containers() {
    let summary = summary(json(r#"{
        "spec": { "containers": [{}], "initContainers": [{}, {}, {}] },
        "status": {
            "phase": "Pending",
            "initContainerStatuses": [
                { "ready": true, "restartCount": 0,
                  "state": { "terminated": { "exitCode": 0, "reason": "Completed" } } },
                { "ready": false, "restartCount": 0,
                  "state": { "waiting": { "reason": "PodInitializing" } } },
                { "ready": false, "restartCount": 0, "state": {} }
            ]
        }
    }"#));

    assert_eq!(summary.status, "Init:1/3");
    assert_eq!(summary.ready, "0/1");
}

#[test]
fn a_failing_init_container_names_its_reason() {
    let summary = summary(json(r#"{
        "spec": { "containers": [{}], "initContainers": [{}] },
        "status": {
            "phase": "Pending",
            "initContainerStatuses": [{
                "ready": false, "restartCount": 3,
                "state": { "waiting": { "reason": "ImagePullBackOff" } }
            }]
        }
    }"#));

    assert_eq!(summary.status, "Init:ImagePullBackOff");
    assert_eq!(summary.restarts, "3");
}

/// A sidecar keeps running while the pod does, so it neither blocks
/// initialization nor gets left out of READY.
#[test]
fn a_started_sidecar_does_not_block_initialization() {
    let summary = summary(json(r#"{
        "spec": {
            "containers": [{}],
            "initContainers": [{ "restartPolicy": "Always" }]
        },
        "status": {
            "phase": "Running",
            "conditions": [{ "type": "Ready", "status": "True" }],
            "initContainerStatuses": [{
                "ready": true, "started": true, "restartCount": 0,
                "state": { "running": { "startedAt": "2026-09-01T00:00:00Z" } }
            }],
            "containerStatuses": [{
                "ready": true, "restartCount": 0,
                "state": { "running": { "startedAt": "2026-09-01T00:00:00Z" } }
            }]
        }
    }"#));

    assert_eq!(summary.status, "Running");
    // READY counts the sidecar, but the denominator is `spec.containers`,
    // exactly as kubectl reports it.
    assert_eq!(summary.ready, "2/1");
}

#[test]
fn a_deleted_pod_is_terminating() {
    assert_eq!(terminating(running_pod(1, 1)).status, "Terminating");
}

/// A pod on a node that stopped reporting shows Unknown, not Terminating:
/// nothing is actually tearing it down.
#[test]
fn a_pod_on_a_lost_node_is_unknown() {
    let summary = terminating(json(r#"{
        "spec": { "containers": [{}] },
        "status": { "phase": "Running", "reason": "NodeLost" }
    }"#));

    assert_eq!(summary.status, "Unknown");
}

/// A pod that already finished keeps its final status when deleted.
#[test]
fn deleting_a_finished_pod_does_not_say_terminating() {
    let summary = terminating(json(r#"{
        "spec": { "containers": [{}] },
        "status": {
            "phase": "Succeeded",
            "containerStatuses": [{
                "ready": false, "restartCount": 0,
                "state": { "terminated": { "exitCode": 0, "reason": "Completed" } }
            }]
        }
    }"#));

    assert_eq!(summary.status, "Completed");
}

/// One container exiting does not finish a pod whose others still run.
#[test]
fn a_pod_with_one_finished_container_is_still_running() {
    let summary = summary(json(r#"{
        "spec": { "containers": [{}, {}] },
        "status": {
            "phase": "Running",
            "conditions": [{ "type": "Ready", "status": "True" }],
            "containerStatuses": [
                { "ready": true, "restartCount": 0,
                  "state": { "running": { "startedAt": "2026-09-01T00:00:00Z" } } },
                { "ready": false, "restartCount": 0,
                  "state": { "terminated": { "exitCode": 0, "reason": "Completed" } } }
            ]
        }
    }"#));

    assert_eq!(summary.status, "Running");
    assert_eq!(summary.ready, "1/2");
}

#[test]
fn a_scheduling_gate_is_the_reason_a_pod_is_pending() {
    let summary = summary(json(r#"{
        "spec": { "containers": [{}] },
        "status": {
            "phase": "Pending",
            "conditions": [{
                "type": "PodScheduled", "status": "False", "reason": "SchedulingGated"
            }]
        }
    }"#));

    assert_eq!(summary.status, "SchedulingGated");
}

/// An object we cannot parse must still produce a row.
#[test]
fn an_unreadable_pod_renders_as_empty_rather_than_panicking() {
    let summary = summary(json(r#""not a pod""#));
    assert_eq!(summary.ready, "0/0");
    assert_eq!(summary.restarts, "0");
}

#[test]
fn restarts_say_how_long_ago_the_last_one_was() {
    let last = Timestamp::parse("2026-09-12T12:00:00Z");
    assert_eq!(format_restarts(5, last, &now()), "5 (8d ago)");
    assert_eq!(format_restarts(0, last, &now()), "0");
    assert_eq!(format_restarts(5, None, &now()), "5");
}

#[test]
fn a_finished_phase_is_final() {
    assert!(is_terminal(Some("Failed")) && is_terminal(Some("Succeeded")));
    assert!(!is_terminal(Some("Running")) && !is_terminal(None));
    assert_eq!(phase(&running_pod(1, 1)).as_deref(), Some("Running"));
    assert_eq!(phase(&json("{}")), None);
}

/// A pod on a lost node reads as unknown whatever its phase.
#[test]
fn a_lost_node_wins_over_a_finished_phase() {
    let lost = r#"{ "status": { "phase": "Succeeded", "reason": "NodeLost" } }"#;
    assert_eq!(terminating(json(lost)).status, "Unknown");
}

/// One field of the wrong type makes the whole pod unreadable.
#[test]
fn a_malformed_status_is_visible() {
    let odd = json(r#"{ "spec": { "containers": [{}] }, "status": { "phase": 7 } }"#);
    let summary = summary(odd);
    assert_eq!((summary.ready.as_str(), summary.status.as_str()), ("0/0", ""));
}
