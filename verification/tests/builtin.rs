use beacon::base::json::Json;
use beacon::base::meta::ObjectMeta;
use beacon::base::time::Timestamp;
use beacon::columns::builtin::column_set;
use beacon::columns::{Cell, ColumnSource};

fn now() -> Timestamp {
    Timestamp::parse("2026-09-23T12:00:00Z").expect("fixed clock")
}

fn json(text: &str) -> Json {
    Json::parse(text.as_bytes()).expect("valid JSON")
}

/// Every cell of one object, in column order, the way the table renders it.
fn row(group: &str, kind: &str, data: Json) -> Vec<String> {
    row_with(group, kind, ObjectMeta::default(), data)
}

fn row_with(group: &str, kind: &str, metadata: ObjectMeta, data: Json) -> Vec<String> {
    let columns = column_set(group, kind, false).expect("a built-in table");
    let cell = Cell {
        metadata: &metadata,
        data: &data,
        now: now(),
    };
    columns
        .columns
        .iter()
        // Name and Age come from metadata the fixtures do not set.
        .filter(|column| !matches!(column.source, ColumnSource::Name | ColumnSource::Age))
        .map(|column| column.resolve(&cell).display().to_string())
        .collect()
}

fn headers(group: &str, kind: &str, namespaced: bool) -> Vec<String> {
    column_set(group, kind, namespaced)
        .expect("a built-in table")
        .headers()
}

#[test]
fn every_table_starts_with_name_and_ends_with_age() {
    for (group, kind) in [
        ("", "Pod"),
        ("", "Service"),
        ("apps", "Deployment"),
        ("batch", "Job"),
        ("networking.k8s.io", "Ingress"),
    ] {
        let headers = headers(group, kind, true);
        assert_eq!(headers.first().map(String::as_str), Some("Name"), "{kind}");
        assert_eq!(
            headers.get(1).map(String::as_str),
            Some("Namespace"),
            "{kind}"
        );
        assert_eq!(headers.last().map(String::as_str), Some("Age"), "{kind}");
    }
}

/// The exception, and the reason `assemble` does not simply append: a Node
/// table reads `STATUS ROLES AGE VERSION`.
#[test]
fn node_puts_age_before_version() {
    assert_eq!(
        headers("", "Node", false),
        ["Name", "Status", "Roles", "Age", "Version"]
    );
}

/// A cluster-scoped kind has no Namespace column even when one is asked for
/// -- the caller decides, and Node is never namespaced.
#[test]
fn a_kind_we_do_not_know_has_no_built_in_table() {
    assert!(column_set("example.com", "Widget", true).is_none());
    assert!(column_set("example.com", "Pod", true).is_none());
}

#[test]
fn deployment_matches_kubectl() {
    assert_eq!(
        headers("apps", "Deployment", true),
        [
            "Name",
            "Namespace",
            "Ready",
            "Up-to-date",
            "Available",
            "Age"
        ]
    );
    assert_eq!(
        row(
            "apps",
            "Deployment",
            json(r#"{
                "spec": { "replicas": 3 },
                "status": { "readyReplicas": 2, "updatedReplicas": 3, "availableReplicas": 2 }
            }"#)
        ),
        ["2/3", "3", "2"]
    );
}

/// A deployment scaled to zero reports no counters at all. Empty cells
/// there would read as "unknown" when the answer is zero.
#[test]
fn absent_replica_counters_are_zero() {
    assert_eq!(
        row(
            "apps",
            "Deployment",
            json(r#"{ "spec": { "replicas": 0 }, "status": {} }"#)
        ),
        ["0/0", "0", "0"]
    );
}

/// `spec.replicas` defaults to 1 when it is omitted.
#[test]
fn an_omitted_replica_count_is_one() {
    assert_eq!(
        row(
            "apps",
            "StatefulSet",
            json(r#"{ "spec": {}, "status": { "readyReplicas": 1 } }"#)
        ),
        ["1/1"]
    );
}

#[test]
fn service_ports_include_the_node_port() {
    assert_eq!(
        headers("", "Service", false),
        [
            "Name",
            "Type",
            "Cluster-IP",
            "External-IP",
            "Port(s)",
            "Age"
        ]
    );

    assert_eq!(
        row(
            "",
            "Service",
            json(r#"{ "spec": {
                "type": "ClusterIP", "clusterIP": "10.43.36.48",
                "ports": [{ "port": 2746, "protocol": "TCP" }]
            }}"#)
        ),
        ["ClusterIP", "10.43.36.48", "<none>", "2746/TCP"]
    );

    assert_eq!(
        row(
            "",
            "Service",
            json(r#"{ "spec": {
                "type": "NodePort", "clusterIP": "10.43.1.1",
                "ports": [
                    { "port": 80, "nodePort": 31234, "protocol": "TCP" },
                    { "port": 443, "nodePort": 31235, "protocol": "TCP" }
                ]
            }}"#)
        ),
        [
            "NodePort",
            "10.43.1.1",
            "<none>",
            "80:31234/TCP,443:31235/TCP"
        ]
    );
}

/// A load balancer with no address yet is `<pending>`, which is a different
/// statement from having none.
#[test]
fn a_load_balancer_without_an_address_is_pending() {
    assert_eq!(
        row(
            "",
            "Service",
            json(r#"{ "spec": { "type": "LoadBalancer", "clusterIP": "10.43.1.1" } }"#)
        )[2],
        "<pending>"
    );

    assert_eq!(
        row(
            "",
            "Service",
            json(r#"{
                "spec": { "type": "LoadBalancer", "clusterIP": "10.43.1.1" },
                "status": { "loadBalancer": { "ingress": [{ "ip": "203.0.113.5" }] } }
            }"#)
        )[2],
        "203.0.113.5"
    );
}

#[test]
fn an_external_name_service_shows_what_it_points_at() {
    assert_eq!(
        row(
            "",
            "Service",
            json(r#"{ "spec": { "type": "ExternalName", "externalName": "db.example.com" } }"#)
        )[2],
        "db.example.com"
    );
}

#[test]
fn node_matches_kubectl() {
    let metadata = ObjectMeta {
        labels: Some(vec![
            (
                "node-role.kubernetes.io/control-plane".into(),
                "true".into(),
            ),
            ("node-role.kubernetes.io/master".into(), "true".into()),
            ("kubernetes.io/hostname".into(), "k3s".into()),
        ]),
        ..Default::default()
    };

    assert_eq!(
        row_with(
            "",
            "Node",
            metadata,
            json(r#"{
                "status": {
                    "conditions": [{ "type": "Ready", "status": "True" }],
                    "nodeInfo": { "kubeletVersion": "v1.33.3+k3s1" }
                }
            }"#)
        ),
        ["Ready", "control-plane,master", "v1.33.3+k3s1"]
    );
}

/// A cordoned node is still Ready. A column that says only `Ready` hides
/// the reason nothing is being scheduled onto it.
#[test]
fn a_cordoned_node_says_so() {
    assert_eq!(
        row(
            "",
            "Node",
            json(r#"{
                "spec": { "unschedulable": true },
                "status": { "conditions": [{ "type": "Ready", "status": "True" }] }
            }"#)
        )[0],
        "Ready,SchedulingDisabled"
    );
}

/// A node whose kubelet stopped reporting has `status: Unknown`, which is
/// neither Ready nor NotReady.
#[test]
fn a_node_that_stopped_reporting_is_unknown() {
    assert_eq!(
        row(
            "",
            "Node",
            json(r#"{ "status": { "conditions": [{ "type": "Ready", "status": "Unknown" }] } }"#)
        )[0],
        "Unknown"
    );
    assert_eq!(row("", "Node", json(r#"{ "status": {} }"#))[0], "Unknown");
}

#[test]
fn a_node_with_no_role_labels_has_none() {
    assert_eq!(row("", "Node", json(r#"{ "status": {} }"#))[1], "<none>");
}

#[test]
fn job_reads_its_terminal_condition() {
    assert_eq!(
        headers("batch", "Job", true),
        [
            "Name",
            "Namespace",
            "Status",
            "Completions",
            "Duration",
            "Age"
        ]
    );

    assert_eq!(
        row(
            "batch",
            "Job",
            json(r#"{
                "spec": { "completions": 1 },
                "status": {
                    "succeeded": 1,
                    "startTime": "2026-09-23T11:58:51Z",
                    "completionTime": "2026-09-23T12:00:00Z",
                    "conditions": [{ "type": "Complete", "status": "True" }]
                }
            }"#)
        ),
        ["Complete", "1/1", "69s"]
    );
}

/// A running job's duration is measured against now, not left empty.
#[test]
fn a_running_job_has_a_duration_so_far() {
    assert_eq!(
        row(
            "batch",
            "Job",
            json(r#"{
                "spec": { "completions": 1 },
                "status": { "startTime": "2026-09-23T11:50:00Z" }
            }"#)
        ),
        ["Running", "0/1", "10m"]
    );
}

#[test]
fn a_suspended_job_is_neither_running_nor_complete() {
    assert_eq!(
        row(
            "batch",
            "Job",
            json(r#"{ "spec": { "suspend": true, "completions": 1 }, "status": {} }"#)
        )[0],
        "Suspended"
    );
}

#[test]
fn a_pvc_abbreviates_its_access_modes() {
    assert_eq!(
        headers("", "PersistentVolumeClaim", true),
        [
            "Name",
            "Namespace",
            "Status",
            "Volume",
            "Capacity",
            "Access Modes",
            "Storageclass",
            "VolumeAttributesClass",
            "Age"
        ]
    );

    assert_eq!(
        row(
            "",
            "PersistentVolumeClaim",
            json(r#"{
                "spec": { "volumeName": "pvc-abc", "storageClassName": "local-path" },
                "status": {
                    "phase": "Bound",
                    "capacity": { "storage": "10Gi" },
                    "accessModes": ["ReadWriteOnce"]
                }
            }"#)
        ),
        ["Bound", "pvc-abc", "10Gi", "RWO", "local-path", "<unset>"]
    );
}

#[test]
fn an_ingress_without_a_host_matches_everything() {
    assert_eq!(
        row(
            "networking.k8s.io",
            "Ingress",
            json(r#"{ "spec": { "ingressClassName": "traefik", "rules": [{}] } }"#)
        ),
        ["traefik", "*", "<none>", "80"]
    );
}

/// TLS anywhere in the spec adds 443, which is what kubectl reports without
/// looking at the backends at all.
#[test]
fn tls_adds_a_port_to_an_ingress() {
    assert_eq!(
        row(
            "networking.k8s.io",
            "Ingress",
            json(r#"{ "spec": {
                "rules": [{ "host": "app.example.com" }],
                "tls": [{ "hosts": ["app.example.com"] }]
            }}"#)
        )[3],
        "80, 443"
    );
}

/// A RoleBinding may bind a ClusterRole, so the kind is part of the answer
/// rather than something to infer from the binding's own kind.
#[test]
fn a_binding_names_what_it_binds() {
    assert_eq!(
        headers("rbac.authorization.k8s.io", "RoleBinding", true),
        ["Name", "Namespace", "Role", "Age"]
    );

    assert_eq!(
        row(
            "rbac.authorization.k8s.io",
            "RoleBinding",
            json(r#"{ "roleRef": { "kind": "ClusterRole", "name": "admin" } }"#)
        ),
        ["ClusterRole/admin"]
    );

    assert_eq!(
        row(
            "rbac.authorization.k8s.io",
            "ClusterRoleBinding",
            json(r#"{ "roleRef": { "kind": "ClusterRole", "name": "cluster-admin" } }"#)
        ),
        ["ClusterRole/cluster-admin"]
    );
}

#[test]
fn a_config_map_counts_both_of_its_maps() {
    assert_eq!(
        row(
            "",
            "ConfigMap",
            json(r#"{ "data": { "a": "1", "b": "2" }, "binaryData": { "c": "AA==" } }"#)
        ),
        ["3"]
    );
    assert_eq!(row("", "ConfigMap", json(r#"{}"#)), ["0"]);
}

#[test]
fn a_daemon_set_shows_its_node_selector() {
    assert_eq!(
        row(
            "apps",
            "DaemonSet",
            json(r#"{
                "spec": { "template": { "spec": { "nodeSelector": { "disk": "ssd" } } } },
                "status": {
                    "desiredNumberScheduled": 3, "currentNumberScheduled": 3,
                    "numberReady": 2, "updatedNumberScheduled": 3, "numberAvailable": 2
                }
            }"#)
        ),
        ["3", "3", "2", "3", "2", "disk=ssd"]
    );
}

#[test]
fn a_cron_job_reports_when_it_last_ran() {
    assert_eq!(
        headers("batch", "CronJob", true),
        [
            "Name",
            "Namespace",
            "Schedule",
            "Suspend",
            "Active",
            "Last Schedule",
            "Age"
        ]
    );

    assert_eq!(
        row(
            "batch",
            "CronJob",
            json(r#"{
                "spec": { "schedule": "*/5 * * * *" },
                "status": { "lastScheduleTime": "2026-09-23T11:57:00Z", "active": [{}] }
            }"#)
        ),
        ["*/5 * * * *", "False", "1", "3m"]
    );
}

/// An event's name is a hash with a timestamp in it, and kubectl does not print
/// it.
#[test]
fn events_have_no_name_column() {
    assert_eq!(
        headers("", "Event", true),
        ["Last Seen", "Namespace", "Type", "Reason", "Object", "Message"]
    );
    assert_eq!(
        headers("", "Event", false),
        ["Last Seen", "Type", "Reason", "Object", "Message"]
    );
    assert!(column_set("example.com", "Event", true).is_none());
}

#[test]
fn a_cron_job_says_whether_it_is_suspended() {
    for (spec, shown) in [
        (r#"{ "suspend": true }"#, "True"),
        (r#"{ "suspend": false }"#, "False"),
        (r#"{}"#, "False"),
    ] {
        let cells = row("batch", "CronJob", json(&format!(r#"{{ "spec": {spec} }}"#)));
        assert!(cells.contains(&shown.to_string()), "for {spec}: {cells:?}");
    }
}
