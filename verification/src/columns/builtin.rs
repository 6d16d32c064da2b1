//! kubectl's own columns, for the kinds everybody looks at.
//!
//! A CRD describes its own table; a built-in resource does not. Accuracy is the
//! whole point: these columns are read next to a terminal, and a Service whose
//! `PORT(S)` disagrees with `kubectl get svc` is a bug report, not a style
//! difference.
use vstd::prelude::*;

use crate::base::decimal::{decimal, integer, natural, signed};
use crate::base::json::{
    entry_models, field, int_of, integer_at, items_of, json_text, model_of, models, part, string_at,
    text_of, Json, JsonView,
};
use crate::base::list::{kept, kept_bounds, kept_next};
use crate::base::meta::{pairs, MetaView, ObjectMeta};
use crate::base::sort::{ascending, sort_strings};
use crate::base::text::{each, held, join, joined, lent, same, strip_prefix, three, two};
use crate::base::time::{instant_of, Timestamp};
use crate::columns::age::{age_at, format_age};
use crate::columns::event::{self, event_columns, event_of, instant_in, EventSummary};
use crate::columns::pod::{pod_summary, summarize};
use crate::columns::{
    column, column_models, Cell, CellValue, ColumnDef, ColumnSet, ColumnSource, ColumnView,
    ColumnWidth, SourceView,
};
use vstd::string::*;

verus! {

/// A computation that needs more of an object than one field, or a field in a
/// form of its own.
#[derive(Debug, Clone, Copy, PartialEq, Eq, Structural)]
pub enum Computed {
    PodReady,
    PodStatus,
    PodRestarts,
    ReadyRatio,
    UpdatedReplicas,
    AvailableReplicas,
    DesiredReplicas,
    CurrentReplicas,
    ReadyReplicas,
    DesiredScheduled,
    CurrentScheduled,
    ScheduledReady,
    UpdatedScheduled,
    ScheduledAvailable,
    NodeSelector,
    JobStatus,
    JobCompletions,
    JobDuration,
    CronSchedule,
    CronSuspend,
    CronActive,
    CronLastSchedule,
    ServiceType,
    ClusterIp,
    ExternalIps,
    ServicePorts,
    IngressClass,
    IngressHosts,
    IngressAddress,
    IngressPorts,
    NodeStatus,
    NodeRoles,
    KubeletVersion,
    RoleRef,
    Phase,
    ConfigMapData,
    SecretType,
    SecretData,
    Secrets,
    VolumeName,
    Capacity,
    AccessModes,
    StorageClass,
    AttributesClass,
    EventLastSeen,
    EventType,
    EventReason,
    EventObject,
    EventMessage,
}

// Reading the object.

/// A text that is not empty.
pub open spec fn filled(text: Option<Seq<char>>) -> Option<Seq<char>> {
    match text {
        Some(text) => if text.len() > 0 {
            Some(text)
        } else {
            None
        },
        None => None,
    }
}

pub open spec fn at2(j: JsonView, a: Seq<char>, b: Seq<char>) -> Option<JsonView> {
    part(j.get(a), b)
}

pub open spec fn at3(j: JsonView, a: Seq<char>, b: Seq<char>, c: Seq<char>) -> Option<JsonView> {
    part(at2(j, a, b), c)
}

/// A counter. One that is absent is zero: the status omits counters at zero.
pub open spec fn counted(j: Option<JsonView>) -> int {
    match int_of(j) {
        Some(n) => n,
        None => 0,
    }
}

/// `spec.replicas`, which is one where it is not set.
pub open spec fn desired_replicas(data: JsonView) -> int {
    match int_of(at2(data, "spec"@, "replicas"@)) {
        Some(n) => n,
        None => 1,
    }
}

pub open spec fn ratio_text(have: int, want: int) -> Seq<char> {
    signed(have) + "/"@ + signed(want)
}

/// How many elements an array has; none where there is no array.
pub open spec fn length_of(j: Option<JsonView>) -> nat {
    items_of(j).len()
}

/// How many entries an object has; none where there is no object.
pub open spec fn entries_of(j: Option<JsonView>) -> nat {
    match j {
        Some(JsonView::Object(entries)) => entries.len(),
        _ => 0,
    }
}

pub open spec fn text_reader() -> spec_fn(JsonView) -> Option<Seq<char>> {
    |j: JsonView| j.text()
}

/// The texts of an array, without what is none.
pub open spec fn texts_of(j: Option<JsonView>) -> Seq<Seq<char>> {
    kept(items_of(j), text_reader())
}

/// The type and status of a condition.
pub open spec fn condition_of(j: JsonView) -> Option<(Seq<char>, Seq<char>)> {
    match (text_of(j.get("type"@)), text_of(j.get("status"@))) {
        (Some(kind), Some(status)) => Some((kind, status)),
        _ => None,
    }
}

pub open spec fn pair_reader() -> spec_fn(JsonView) -> Option<(Seq<char>, Seq<char>)> {
    |j: JsonView| condition_of(j)
}

/// `status.conditions` as pairs of type and status.
pub open spec fn conditions_of(data: JsonView) -> Seq<(Seq<char>, Seq<char>)> {
    kept(items_of(at2(data, "status"@, "conditions"@)), pair_reader())
}

/// The texts with commas between them, nothing where there is none.
pub open spec fn listed(texts: Seq<Seq<char>>) -> Option<Seq<char>> {
    if texts.len() == 0 {
        None
    } else {
        Some(joined(texts, ","@))
    }
}

// What the columns say.

/// One entry of a node selector.
pub open spec fn selector_entry(e: (Seq<char>, JsonView)) -> Seq<char> {
    e.0 + "="@ + (match e.1 {
        JsonView::Str(text) => text,
        other => json_text(other),
    })
}

pub open spec fn node_selector_text(data: JsonView) -> Option<Seq<char>> {
    match part(at3(data, "spec"@, "template"@, "spec"@), "nodeSelector"@) {
        Some(JsonView::Object(entries)) => listed(
            entries.map_values(|e: (Seq<char>, JsonView)| selector_entry(e)),
        ),
        _ => None,
    }
}

/// The first condition from `k` on that says how a job ended.
pub open spec fn job_outcome(list: Seq<(Seq<char>, Seq<char>)>, k: int) -> Option<Seq<char>>
    decreases list.len() - k,
{
    if k >= list.len() {
        None
    } else if list[k].1 == "True"@ && (list[k].0 == "Complete"@ || list[k].0 == "Failed"@) {
        Some(list[k].0)
    } else {
        job_outcome(list, k + 1)
    }
}

/// The terminal condition first, then whether anything is running. A suspended
/// job is neither.
pub open spec fn job_status_text(data: JsonView) -> Seq<char> {
    match job_outcome(conditions_of(data), 0) {
        Some(outcome) => outcome,
        None => if at2(data, "spec"@, "suspend"@) == Some(JsonView::Bool(true)) {
            "Suspended"@
        } else {
            "Running"@
        },
    }
}

pub open spec fn job_completions_text(data: JsonView) -> Seq<char> {
    let want = match int_of(at2(data, "spec"@, "completions"@)) {
        Some(n) => n,
        None => 1,
    };
    ratio_text(counted(at2(data, "status"@, "succeeded"@)), want)
}

/// The instant at a field, where there is one.
pub open spec fn instant_field(j: Option<JsonView>) -> Option<int> {
    instant_in(filled(text_of(j)))
}

pub open spec fn job_duration_text(data: JsonView, now: int) -> Option<Seq<char>> {
    match instant_field(at2(data, "status"@, "startTime"@)) {
        Some(started) => {
            let finished = match instant_field(at2(data, "status"@, "completionTime"@)) {
                Some(finished) => finished,
                None => now,
            };
            Some(age_at(finished, started))
        },
        None => None,
    }
}

/// Whether a cron job is suspended; one that does not say is not.
pub open spec fn suspend_text(data: JsonView) -> Seq<char> {
    if at2(data, "spec"@, "suspend"@) == Some(JsonView::Bool(true)) {
        "True"@
    } else {
        "False"@
    }
}

pub open spec fn last_schedule_text(data: JsonView, now: int) -> Option<Seq<char>> {
    match instant_field(at2(data, "status"@, "lastScheduleTime"@)) {
        Some(last) => Some(age_at(now, last)),
        None => None,
    }
}

/// The address of a load balancer's entry: its IP, or its host name where it
/// has none.
pub open spec fn address_of(j: JsonView) -> Option<Seq<char>> {
    match j.get("ip"@) {
        Some(ip) => ip.text(),
        None => text_of(j.get("hostname"@)),
    }
}

pub open spec fn address_reader() -> spec_fn(JsonView) -> Option<Seq<char>> {
    |j: JsonView| address_of(j)
}

pub open spec fn balancer_addresses(data: JsonView) -> Seq<Seq<char>> {
    kept(items_of(at3(data, "status"@, "loadBalancer"@, "ingress"@)), address_reader())
}

/// Where a service can be reached from outside. The service types answer this
/// from different places; a load balancer without an address is pending.
pub open spec fn external_ips_text(data: JsonView) -> Option<Seq<char>> {
    let declared = texts_of(at2(data, "spec"@, "externalIPs"@));
    let kind = filled(text_of(at2(data, "spec"@, "type"@)));
    if kind == Some("ExternalName"@) {
        filled(text_of(at2(data, "spec"@, "externalName"@)))
    } else if kind == Some("LoadBalancer"@) {
        let addresses = balancer_addresses(data) + declared;
        if addresses.len() == 0 {
            Some("<pending>"@)
        } else {
            Some(joined(addresses, ","@))
        }
    } else {
        listed(declared)
    }
}

/// `80/TCP`, or `80:31234/TCP` once a node port is allocated.
pub open spec fn port_of(j: JsonView) -> Option<Seq<char>> {
    let protocol = match text_of(j.get("protocol"@)) {
        Some(protocol) => protocol,
        None => "TCP"@,
    };
    match int_of(j.get("port"@)) {
        Some(port) => match int_of(j.get("nodePort"@)) {
            Some(node_port) => Some(
                signed(port) + ":"@ + signed(node_port) + "/"@ + protocol,
            ),
            None => Some(signed(port) + "/"@ + protocol),
        },
        None => None,
    }
}

pub open spec fn port_reader() -> spec_fn(JsonView) -> Option<Seq<char>> {
    |j: JsonView| port_of(j)
}

pub open spec fn service_ports_text(data: JsonView) -> Option<Seq<char>> {
    listed(kept(items_of(at2(data, "spec"@, "ports"@)), port_reader()))
}

/// The host of a rule. One without a host matches everything.
pub open spec fn host_of(j: JsonView) -> Option<Seq<char>> {
    match text_of(j.get("host"@)) {
        Some(host) => Some(host),
        None => Some("*"@),
    }
}

pub open spec fn host_reader() -> spec_fn(JsonView) -> Option<Seq<char>> {
    |j: JsonView| host_of(j)
}

pub open spec fn ingress_hosts_text(data: JsonView) -> Option<Seq<char>> {
    listed(kept(items_of(at2(data, "spec"@, "rules"@)), host_reader()))
}

/// An Ingress serves 80, and 443 as well once it has any TLS configuration.
pub open spec fn ingress_ports_text(data: JsonView) -> Seq<char> {
    if length_of(at2(data, "spec"@, "tls"@)) > 0 {
        "80, 443"@
    } else {
        "80"@
    }
}

/// The status of the first Ready condition from `k` on.
pub open spec fn ready_status(list: Seq<(Seq<char>, Seq<char>)>, k: int) -> Option<Seq<char>>
    decreases list.len() - k,
{
    if k >= list.len() {
        None
    } else if list[k].0 == "Ready"@ {
        Some(list[k].1)
    } else {
        ready_status(list, k + 1)
    }
}

/// `Ready`, `NotReady` or `Unknown`, and whether the node is cordoned: such a
/// node is still ready, and nothing is scheduled on it.
pub open spec fn node_status_text(data: JsonView) -> Seq<char> {
    let ready = ready_status(conditions_of(data), 0);
    let status = if ready == Some("True"@) {
        "Ready"@
    } else if ready == Some("False"@) {
        "NotReady"@
    } else {
        "Unknown"@
    };
    if at2(data, "spec"@, "unschedulable"@) == Some(JsonView::Bool(true)) {
        status + ",SchedulingDisabled"@
    } else {
        status
    }
}

/// The role that a label of a node gives it.
pub open spec fn role_of(label: (Seq<char>, Seq<char>)) -> Option<Seq<char>> {
    let prefix = "node-role.kubernetes.io/"@;
    if prefix.is_prefix_of(label.0) && label.0.len() > prefix.len() {
        Some(label.0.skip(prefix.len() as int))
    } else if label.0 == "kubernetes.io/role"@ && label.1.len() > 0 {
        Some(label.1)
    } else {
        None
    }
}

pub open spec fn role_reader() -> spec_fn((Seq<char>, Seq<char>)) -> Option<Seq<char>> {
    |label: (Seq<char>, Seq<char>)| role_of(label)
}

/// The roles that a node's labels give it, in order.
pub open spec fn node_roles_text(meta: MetaView) -> Option<Seq<char>> {
    match meta.labels {
        Some(labels) => {
            let roles = kept(labels, role_reader());
            if roles.len() == 0 {
                None
            } else {
                Some(joined(ascending(roles), ","@))
            }
        },
        None => None,
    }
}

/// What a binding binds to. The kind matters, because a RoleBinding may point
/// at a ClusterRole.
pub open spec fn role_ref_text(data: JsonView) -> Option<Seq<char>> {
    let role = data.get("roleRef"@);
    match (text_of(part(role, "kind"@)), text_of(part(role, "name"@))) {
        (Some(kind), Some(name)) => Some(kind + "/"@ + name),
        _ => None,
    }
}

/// The abbreviation of an access mode.
pub open spec fn mode_text(mode: Seq<char>) -> Seq<char> {
    if mode == "ReadWriteOnce"@ {
        "RWO"@
    } else if mode == "ReadOnlyMany"@ {
        "ROX"@
    } else if mode == "ReadWriteMany"@ {
        "RWX"@
    } else if mode == "ReadWriteOncePod"@ {
        "RWOP"@
    } else {
        ""@
    }
}

/// The abbreviations of access modes, with nothing between them.
pub open spec fn modes_text(modes: Seq<Seq<char>>) -> Seq<char>
    decreases modes.len(),
{
    if modes.len() == 0 {
        Seq::empty()
    } else {
        modes_text(modes.drop_last()) + mode_text(modes.last())
    }
}

pub open spec fn access_modes_text(data: JsonView) -> Option<Seq<char>> {
    let modes = texts_of(at2(data, "status"@, "accessModes"@));
    if modes.len() == 0 {
        None
    } else {
        Some(modes_text(modes))
    }
}

/// The class in effect, else the one asked for. It is seldom set, so that is
/// not shown as something missing.
pub open spec fn attributes_class_text(data: JsonView) -> Seq<char> {
    match filled(text_of(at2(data, "status"@, "currentVolumeAttributesClassName"@))) {
        Some(class) => class,
        None => match filled(text_of(at2(data, "spec"@, "volumeAttributesClassName"@))) {
            Some(class) => class,
            None => "<unset>"@,
        },
    }
}

/// What a computed column shows of an object.
pub open spec fn shown(c: Computed, meta: MetaView, data: JsonView, now: int) -> Option<Seq<char>> {
    match c {
        Computed::PodReady => Some(pod_summary(meta, data, now).ready),
        Computed::PodStatus => Some(pod_summary(meta, data, now).status),
        Computed::PodRestarts => Some(pod_summary(meta, data, now).restarts),
        Computed::ReadyRatio => Some(
            ratio_text(counted(at2(data, "status"@, "readyReplicas"@)), desired_replicas(data)),
        ),
        Computed::UpdatedReplicas => Some(
            signed(counted(at2(data, "status"@, "updatedReplicas"@))),
        ),
        Computed::AvailableReplicas => Some(
            signed(counted(at2(data, "status"@, "availableReplicas"@))),
        ),
        Computed::DesiredReplicas => Some(signed(desired_replicas(data))),
        Computed::CurrentReplicas => Some(signed(counted(at2(data, "status"@, "replicas"@)))),
        Computed::ReadyReplicas => Some(signed(counted(at2(data, "status"@, "readyReplicas"@)))),
        Computed::DesiredScheduled => Some(
            signed(counted(at2(data, "status"@, "desiredNumberScheduled"@))),
        ),
        Computed::CurrentScheduled => Some(
            signed(counted(at2(data, "status"@, "currentNumberScheduled"@))),
        ),
        Computed::ScheduledReady => Some(signed(counted(at2(data, "status"@, "numberReady"@)))),
        Computed::UpdatedScheduled => Some(
            signed(counted(at2(data, "status"@, "updatedNumberScheduled"@))),
        ),
        Computed::ScheduledAvailable => Some(
            signed(counted(at2(data, "status"@, "numberAvailable"@))),
        ),
        Computed::NodeSelector => node_selector_text(data),
        Computed::JobStatus => Some(job_status_text(data)),
        Computed::JobCompletions => Some(job_completions_text(data)),
        Computed::JobDuration => job_duration_text(data, now),
        Computed::CronSchedule => filled(text_of(at2(data, "spec"@, "schedule"@))),
        Computed::CronSuspend => Some(suspend_text(data)),
        Computed::CronActive => Some(decimal(length_of(at2(data, "status"@, "active"@)))),
        Computed::CronLastSchedule => last_schedule_text(data, now),
        Computed::ServiceType => filled(text_of(at2(data, "spec"@, "type"@))),
        Computed::ClusterIp => filled(text_of(at2(data, "spec"@, "clusterIP"@))),
        Computed::ExternalIps => external_ips_text(data),
        Computed::ServicePorts => service_ports_text(data),
        Computed::IngressClass => filled(text_of(at2(data, "spec"@, "ingressClassName"@))),
        Computed::IngressHosts => ingress_hosts_text(data),
        Computed::IngressAddress => listed(balancer_addresses(data)),
        Computed::IngressPorts => Some(ingress_ports_text(data)),
        Computed::NodeStatus => Some(node_status_text(data)),
        Computed::NodeRoles => node_roles_text(meta),
        Computed::KubeletVersion => filled(
            text_of(at3(data, "status"@, "nodeInfo"@, "kubeletVersion"@)),
        ),
        Computed::RoleRef => role_ref_text(data),
        Computed::Phase => filled(text_of(at2(data, "status"@, "phase"@))),
        // Both maps count, which is how a ConfigMap that holds only a binary
        // blob shows as one that is not empty.
        Computed::ConfigMapData => Some(
            decimal(entries_of(data.get("data"@)) + entries_of(data.get("binaryData"@))),
        ),
        Computed::SecretType => filled(text_of(data.get("type"@))),
        Computed::SecretData => Some(decimal(entries_of(data.get("data"@)))),
        Computed::Secrets => Some(decimal(length_of(data.get("secrets"@)))),
        Computed::VolumeName => filled(text_of(at2(data, "spec"@, "volumeName"@))),
        Computed::Capacity => filled(text_of(at3(data, "status"@, "capacity"@, "storage"@))),
        Computed::AccessModes => access_modes_text(data),
        Computed::StorageClass => filled(text_of(at2(data, "spec"@, "storageClassName"@))),
        Computed::AttributesClass => Some(attributes_class_text(data)),
        Computed::EventLastSeen => Some(event_of(data, now).last_seen),
        Computed::EventType => Some(event_of(data, now).kind),
        Computed::EventReason => Some(event_of(data, now).reason),
        Computed::EventObject => Some(event_of(data, now).object),
        Computed::EventMessage => Some(event_of(data, now).message),
    }
}

// The tables.

pub open spec fn age_column() -> ColumnView {
    column("Age"@, ColumnWidth::Fixed(720), SourceView::Age)
}

pub open spec fn computed_column(
    header: Seq<char>,
    width: ColumnWidth,
    computed: Computed,
) -> ColumnView {
    column(header, width, SourceView::Computed(computed))
}

pub open spec fn pod_table() -> Seq<ColumnView> {
    seq![
        computed_column("Ready"@, ColumnWidth::Fixed(680), Computed::PodReady),
        computed_column("Status"@, ColumnWidth::Fixed(1700), Computed::PodStatus),
        computed_column("Restarts"@, ColumnWidth::Fixed(1200), Computed::PodRestarts),
    ]
}

pub open spec fn deployment_table() -> Seq<ColumnView> {
    seq![
        computed_column("Ready"@, ColumnWidth::Fixed(720), Computed::ReadyRatio),
        computed_column("Up-to-date"@, ColumnWidth::Fixed(960), Computed::UpdatedReplicas),
        computed_column("Available"@, ColumnWidth::Fixed(880), Computed::AvailableReplicas),
    ]
}

pub open spec fn stateful_set_table() -> Seq<ColumnView> {
    seq![
        computed_column("Ready"@, ColumnWidth::Fixed(720), Computed::ReadyRatio),
    ]
}

pub open spec fn replica_set_table() -> Seq<ColumnView> {
    seq![
        computed_column("Desired"@, ColumnWidth::Fixed(760), Computed::DesiredReplicas),
        computed_column("Current"@, ColumnWidth::Fixed(760), Computed::CurrentReplicas),
        computed_column("Ready"@, ColumnWidth::Fixed(680), Computed::ReadyReplicas),
    ]
}

pub open spec fn daemon_set_table() -> Seq<ColumnView> {
    seq![
        computed_column("Desired"@, ColumnWidth::Fixed(760), Computed::DesiredScheduled),
        computed_column("Current"@, ColumnWidth::Fixed(760), Computed::CurrentScheduled),
        computed_column("Ready"@, ColumnWidth::Fixed(680), Computed::ScheduledReady),
        computed_column("Up-to-date"@, ColumnWidth::Fixed(960), Computed::UpdatedScheduled),
        computed_column("Available"@, ColumnWidth::Fixed(880), Computed::ScheduledAvailable),
        computed_column("Node Selector"@, ColumnWidth::Flex(10), Computed::NodeSelector),
    ]
}

pub open spec fn job_table() -> Seq<ColumnView> {
    seq![
        computed_column("Status"@, ColumnWidth::Fixed(1040), Computed::JobStatus),
        computed_column("Completions"@, ColumnWidth::Fixed(1040), Computed::JobCompletions),
        computed_column("Duration"@, ColumnWidth::Fixed(880), Computed::JobDuration),
    ]
}

pub open spec fn cron_job_table() -> Seq<ColumnView> {
    seq![
        computed_column("Schedule"@, ColumnWidth::Flex(10), Computed::CronSchedule),
        computed_column("Suspend"@, ColumnWidth::Fixed(800), Computed::CronSuspend),
        computed_column("Active"@, ColumnWidth::Fixed(720), Computed::CronActive),
        computed_column("Last Schedule"@, ColumnWidth::Fixed(1040), Computed::CronLastSchedule),
    ]
}

pub open spec fn service_table() -> Seq<ColumnView> {
    seq![
        computed_column("Type"@, ColumnWidth::Fixed(1120), Computed::ServiceType),
        computed_column("Cluster-IP"@, ColumnWidth::Fixed(1200), Computed::ClusterIp),
        computed_column("External-IP"@, ColumnWidth::Flex(10), Computed::ExternalIps),
        computed_column("Port(s)"@, ColumnWidth::Flex(12), Computed::ServicePorts),
    ]
}

pub open spec fn ingress_table() -> Seq<ColumnView> {
    seq![
        computed_column("Class"@, ColumnWidth::Fixed(1040), Computed::IngressClass),
        computed_column("Hosts"@, ColumnWidth::Flex(12), Computed::IngressHosts),
        computed_column("Address"@, ColumnWidth::Flex(10), Computed::IngressAddress),
        computed_column("Ports"@, ColumnWidth::Fixed(800), Computed::IngressPorts),
    ]
}

pub open spec fn node_table() -> Seq<ColumnView> {
    seq![
        computed_column("Status"@, ColumnWidth::Fixed(1520), Computed::NodeStatus),
        computed_column("Roles"@, ColumnWidth::Flex(10), Computed::NodeRoles),
        age_column(),
        computed_column("Version"@, ColumnWidth::Fixed(1200), Computed::KubeletVersion),
    ]
}

pub open spec fn role_binding_table() -> Seq<ColumnView> {
    seq![
        computed_column("Role"@, ColumnWidth::Flex(20), Computed::RoleRef),
    ]
}

pub open spec fn namespace_table() -> Seq<ColumnView> {
    seq![
        computed_column("Status"@, ColumnWidth::Fixed(960), Computed::Phase),
    ]
}

pub open spec fn config_map_table() -> Seq<ColumnView> {
    seq![
        computed_column("Data"@, ColumnWidth::Fixed(680), Computed::ConfigMapData),
    ]
}

pub open spec fn secret_table() -> Seq<ColumnView> {
    seq![
        computed_column("Type"@, ColumnWidth::Flex(12), Computed::SecretType),
        computed_column("Data"@, ColumnWidth::Fixed(680), Computed::SecretData),
    ]
}

pub open spec fn service_account_table() -> Seq<ColumnView> {
    seq![
        computed_column("Secrets"@, ColumnWidth::Fixed(800), Computed::Secrets),
    ]
}

pub open spec fn persistent_volume_claim_table() -> Seq<ColumnView> {
    seq![
        computed_column("Status"@, ColumnWidth::Fixed(960), Computed::Phase),
        computed_column("Volume"@, ColumnWidth::Flex(15), Computed::VolumeName),
        computed_column("Capacity"@, ColumnWidth::Fixed(880), Computed::Capacity),
        computed_column("Access Modes"@, ColumnWidth::Fixed(1120), Computed::AccessModes),
        computed_column("Storageclass"@, ColumnWidth::Flex(10), Computed::StorageClass),
        computed_column("VolumeAttributesClass"@, ColumnWidth::Fixed(1680), Computed::AttributesClass),
    ]
}

/// Whether a table says itself where its Age goes.
pub open spec fn places_age(rest: Seq<ColumnView>) -> bool {
    exists|i: int| 0 <= i < rest.len() && (#[trigger] rest[i]).source == SourceView::Age
}

/// Name, then Namespace where the list spans namespaces, then the kind's own
/// columns, then Age unless the kind placed it itself.
pub open spec fn assembled(namespaced: bool, rest: Seq<ColumnView>) -> Seq<ColumnView> {
    let name = seq![column("Name"@, ColumnWidth::Flex(30), SourceView::Name)];
    let namespace = if namespaced {
        seq![column("Namespace"@, ColumnWidth::Flex(15), SourceView::Namespace)]
    } else {
        Seq::empty()
    };
    let age = if places_age(rest) {
        Seq::empty()
    } else {
        seq![age_column()]
    };
    name + namespace + rest + age
}

/// The kind's own columns, for a resource known by group and kind: a `Pod` in a
/// third-party group is somebody else's resource that shares the name.
pub open spec fn own_columns(group: Seq<char>, kind: Seq<char>) -> Option<Seq<ColumnView>> {
    if group == ""@ {
        if kind == "Pod"@ {
            Some(pod_table())
        } else if kind == "Service"@ {
            Some(service_table())
        } else if kind == "Node"@ {
            Some(node_table())
        } else if kind == "Namespace"@ {
            Some(namespace_table())
        } else if kind == "ConfigMap"@ {
            Some(config_map_table())
        } else if kind == "Secret"@ {
            Some(secret_table())
        } else if kind == "PersistentVolumeClaim"@ {
            Some(persistent_volume_claim_table())
        } else if kind == "ServiceAccount"@ {
            Some(service_account_table())
        } else {
            None
        }
    } else if group == "apps"@ {
        if kind == "Deployment"@ {
            Some(deployment_table())
        } else if kind == "StatefulSet"@ {
            Some(stateful_set_table())
        } else if kind == "DaemonSet"@ {
            Some(daemon_set_table())
        } else if kind == "ReplicaSet"@ {
            Some(replica_set_table())
        } else {
            None
        }
    } else if group == "batch"@ {
        if kind == "Job"@ {
            Some(job_table())
        } else if kind == "CronJob"@ {
            Some(cron_job_table())
        } else {
            None
        }
    } else if group == "networking.k8s.io"@ && kind == "Ingress"@ {
        Some(ingress_table())
    } else if group == "rbac.authorization.k8s.io"@ && (kind == "RoleBinding"@ || kind
        == "ClusterRoleBinding"@) {
        Some(role_binding_table())
    } else {
        None
    }
}

/// Whether a kind is the core Event, the one with a table of another shape.
pub open spec fn is_event(group: Seq<char>, kind: Seq<char>) -> bool {
    group == ""@ && kind == "Event"@
}

/// kubectl's columns for a resource known by name.
pub open spec fn table(group: Seq<char>, kind: Seq<char>, namespaced: bool) -> Option<
    Seq<ColumnView>,
> {
    if is_event(group, kind) {
        Some(event_columns(namespaced))
    } else {
        match own_columns(group, kind) {
            Some(rest) => Some(assembled(namespaced, rest)),
            None => None,
        }
    }
}

/// The columns of a table that show an age.
pub open spec fn ages(columns: Seq<ColumnView>) -> Set<int> {
    Set::new(|i: int| 0 <= i < columns.len() && columns[i].source == SourceView::Age)
}

/// Every table but that of events starts with the name, then the namespace where
/// the list spans namespaces. It has one age, which comes last but for a Node,
/// whose version comes behind it.
pub proof fn tables_have_one_shape(group: Seq<char>, kind: Seq<char>, namespaced: bool)
    requires
        table(group, kind, namespaced) is Some,
        !is_event(group, kind),
    ensures
        ({
            let columns = table(group, kind, namespaced)->0;
            let age = if group == ""@ && kind == "Node"@ {
                columns.len() - 2
            } else {
                columns.len() - 1
            };
            &&& columns.len() >= 3
            &&& columns[0].source == SourceView::Name
            &&& namespaced <==> columns[1].source == SourceView::Namespace
            &&& ages(columns) == Set::<int>::empty().insert(age as int)
        }),
{
    let rest = own_columns(group, kind)->0;
    let columns = table(group, kind, namespaced)->0;
    let lead: int = if namespaced {
        2
    } else {
        1
    };
    if group == ""@ && kind == "Node"@ {
        reveal_strlit("Pod");
        reveal_strlit("Service");
        reveal_strlit("Node");
        assert(kind.len() == 4 && "Pod"@.len() == 3 && "Service"@.len() == 7);
        assert(rest == node_table());
        assert(rest[2].source == SourceView::Age);
        assert(places_age(rest));
        assert(columns.len() == lead + rest.len());
        assert(ages(columns) =~= Set::<int>::empty().insert(columns.len() - 2));
    } else {
        assert forall|i: int| 0 <= i < rest.len() implies (#[trigger] rest[i]).source
            != SourceView::Age by {}
        assert(!places_age(rest));
        assert(columns.len() == lead + rest.len() + 1);
        assert forall|i: int| 0 <= i < columns.len() implies ((#[trigger] columns[i]).source
            == SourceView::Age <==> i == columns.len() - 1) by {
            if lead <= i < lead + rest.len() {
                assert(columns[i] == rest[i - lead]);
            }
        }
        assert(ages(columns) =~= Set::<int>::empty().insert(columns.len() - 1));
    }
}

/// The table of events is the one without a name.
pub proof fn only_events_have_no_name(group: Seq<char>, kind: Seq<char>, namespaced: bool)
    requires
        table(group, kind, namespaced) is Some,
    ensures
        is_event(group, kind) <==> forall|i: int|
            0 <= i < table(group, kind, namespaced)->0.len() ==> (#[trigger] table(
                group,
                kind,
                namespaced,
            )->0[i]).source != SourceView::Name,
{
    if !is_event(group, kind) {
        tables_have_one_shape(group, kind, namespaced);
        assert(table(group, kind, namespaced)->0[0].source == SourceView::Name);
    }
}

fn age() -> (r: ColumnDef)
    ensures
        r@ == age_column(),
{
    ColumnDef::new("Age", ColumnWidth::Fixed(720), ColumnSource::Age)
}

fn computed(header: &str, width: ColumnWidth, what: Computed) -> (r: ColumnDef)
    ensures
        r@ == computed_column(header@, width, what),
{
    ColumnDef::new(header, width, ColumnSource::Computed(what))
}

fn pod() -> (r: Vec<ColumnDef>)
    ensures
        column_models(r@) == pod_table(),
{
    let mut r: Vec<ColumnDef> = Vec::new();
    r.push(computed("Ready", ColumnWidth::Fixed(680), Computed::PodReady));
    r.push(computed("Status", ColumnWidth::Fixed(1700), Computed::PodStatus));
    r.push(computed("Restarts", ColumnWidth::Fixed(1200), Computed::PodRestarts));
    assert(column_models(r@) =~= pod_table());
    r
}

fn deployment() -> (r: Vec<ColumnDef>)
    ensures
        column_models(r@) == deployment_table(),
{
    let mut r: Vec<ColumnDef> = Vec::new();
    r.push(computed("Ready", ColumnWidth::Fixed(720), Computed::ReadyRatio));
    r.push(computed("Up-to-date", ColumnWidth::Fixed(960), Computed::UpdatedReplicas));
    r.push(computed("Available", ColumnWidth::Fixed(880), Computed::AvailableReplicas));
    assert(column_models(r@) =~= deployment_table());
    r
}

fn stateful_set() -> (r: Vec<ColumnDef>)
    ensures
        column_models(r@) == stateful_set_table(),
{
    let mut r: Vec<ColumnDef> = Vec::new();
    r.push(computed("Ready", ColumnWidth::Fixed(720), Computed::ReadyRatio));
    assert(column_models(r@) =~= stateful_set_table());
    r
}

fn replica_set() -> (r: Vec<ColumnDef>)
    ensures
        column_models(r@) == replica_set_table(),
{
    let mut r: Vec<ColumnDef> = Vec::new();
    r.push(computed("Desired", ColumnWidth::Fixed(760), Computed::DesiredReplicas));
    r.push(computed("Current", ColumnWidth::Fixed(760), Computed::CurrentReplicas));
    r.push(computed("Ready", ColumnWidth::Fixed(680), Computed::ReadyReplicas));
    assert(column_models(r@) =~= replica_set_table());
    r
}

fn daemon_set() -> (r: Vec<ColumnDef>)
    ensures
        column_models(r@) == daemon_set_table(),
{
    let mut r: Vec<ColumnDef> = Vec::new();
    r.push(computed("Desired", ColumnWidth::Fixed(760), Computed::DesiredScheduled));
    r.push(computed("Current", ColumnWidth::Fixed(760), Computed::CurrentScheduled));
    r.push(computed("Ready", ColumnWidth::Fixed(680), Computed::ScheduledReady));
    r.push(computed("Up-to-date", ColumnWidth::Fixed(960), Computed::UpdatedScheduled));
    r.push(computed("Available", ColumnWidth::Fixed(880), Computed::ScheduledAvailable));
    r.push(computed("Node Selector", ColumnWidth::Flex(10), Computed::NodeSelector));
    assert(column_models(r@) =~= daemon_set_table());
    r
}

fn job() -> (r: Vec<ColumnDef>)
    ensures
        column_models(r@) == job_table(),
{
    let mut r: Vec<ColumnDef> = Vec::new();
    r.push(computed("Status", ColumnWidth::Fixed(1040), Computed::JobStatus));
    r.push(computed("Completions", ColumnWidth::Fixed(1040), Computed::JobCompletions));
    r.push(computed("Duration", ColumnWidth::Fixed(880), Computed::JobDuration));
    assert(column_models(r@) =~= job_table());
    r
}

fn cron_job() -> (r: Vec<ColumnDef>)
    ensures
        column_models(r@) == cron_job_table(),
{
    let mut r: Vec<ColumnDef> = Vec::new();
    r.push(computed("Schedule", ColumnWidth::Flex(10), Computed::CronSchedule));
    r.push(computed("Suspend", ColumnWidth::Fixed(800), Computed::CronSuspend));
    r.push(computed("Active", ColumnWidth::Fixed(720), Computed::CronActive));
    r.push(computed("Last Schedule", ColumnWidth::Fixed(1040), Computed::CronLastSchedule));
    assert(column_models(r@) =~= cron_job_table());
    r
}

fn service() -> (r: Vec<ColumnDef>)
    ensures
        column_models(r@) == service_table(),
{
    let mut r: Vec<ColumnDef> = Vec::new();
    r.push(computed("Type", ColumnWidth::Fixed(1120), Computed::ServiceType));
    r.push(computed("Cluster-IP", ColumnWidth::Fixed(1200), Computed::ClusterIp));
    r.push(computed("External-IP", ColumnWidth::Flex(10), Computed::ExternalIps));
    r.push(computed("Port(s)", ColumnWidth::Flex(12), Computed::ServicePorts));
    assert(column_models(r@) =~= service_table());
    r
}

fn ingress() -> (r: Vec<ColumnDef>)
    ensures
        column_models(r@) == ingress_table(),
{
    let mut r: Vec<ColumnDef> = Vec::new();
    r.push(computed("Class", ColumnWidth::Fixed(1040), Computed::IngressClass));
    r.push(computed("Hosts", ColumnWidth::Flex(12), Computed::IngressHosts));
    r.push(computed("Address", ColumnWidth::Flex(10), Computed::IngressAddress));
    r.push(computed("Ports", ColumnWidth::Fixed(800), Computed::IngressPorts));
    assert(column_models(r@) =~= ingress_table());
    r
}

fn node() -> (r: Vec<ColumnDef>)
    ensures
        column_models(r@) == node_table(),
{
    let mut r: Vec<ColumnDef> = Vec::new();
    r.push(computed("Status", ColumnWidth::Fixed(1520), Computed::NodeStatus));
    r.push(computed("Roles", ColumnWidth::Flex(10), Computed::NodeRoles));
    r.push(age());
    r.push(computed("Version", ColumnWidth::Fixed(1200), Computed::KubeletVersion));
    assert(column_models(r@) =~= node_table());
    r
}

fn role_binding() -> (r: Vec<ColumnDef>)
    ensures
        column_models(r@) == role_binding_table(),
{
    let mut r: Vec<ColumnDef> = Vec::new();
    r.push(computed("Role", ColumnWidth::Flex(20), Computed::RoleRef));
    assert(column_models(r@) =~= role_binding_table());
    r
}

fn namespace() -> (r: Vec<ColumnDef>)
    ensures
        column_models(r@) == namespace_table(),
{
    let mut r: Vec<ColumnDef> = Vec::new();
    r.push(computed("Status", ColumnWidth::Fixed(960), Computed::Phase));
    assert(column_models(r@) =~= namespace_table());
    r
}

fn config_map() -> (r: Vec<ColumnDef>)
    ensures
        column_models(r@) == config_map_table(),
{
    let mut r: Vec<ColumnDef> = Vec::new();
    r.push(computed("Data", ColumnWidth::Fixed(680), Computed::ConfigMapData));
    assert(column_models(r@) =~= config_map_table());
    r
}

fn secret() -> (r: Vec<ColumnDef>)
    ensures
        column_models(r@) == secret_table(),
{
    let mut r: Vec<ColumnDef> = Vec::new();
    r.push(computed("Type", ColumnWidth::Flex(12), Computed::SecretType));
    r.push(computed("Data", ColumnWidth::Fixed(680), Computed::SecretData));
    assert(column_models(r@) =~= secret_table());
    r
}

fn service_account() -> (r: Vec<ColumnDef>)
    ensures
        column_models(r@) == service_account_table(),
{
    let mut r: Vec<ColumnDef> = Vec::new();
    r.push(computed("Secrets", ColumnWidth::Fixed(800), Computed::Secrets));
    assert(column_models(r@) =~= service_account_table());
    r
}

fn persistent_volume_claim() -> (r: Vec<ColumnDef>)
    ensures
        column_models(r@) == persistent_volume_claim_table(),
{
    let mut r: Vec<ColumnDef> = Vec::new();
    r.push(computed("Status", ColumnWidth::Fixed(960), Computed::Phase));
    r.push(computed("Volume", ColumnWidth::Flex(15), Computed::VolumeName));
    r.push(computed("Capacity", ColumnWidth::Fixed(880), Computed::Capacity));
    r.push(computed("Access Modes", ColumnWidth::Fixed(1120), Computed::AccessModes));
    r.push(computed("Storageclass", ColumnWidth::Flex(10), Computed::StorageClass));
    r.push(computed("VolumeAttributesClass", ColumnWidth::Fixed(1680), Computed::AttributesClass));
    assert(column_models(r@) =~= persistent_volume_claim_table());
    r
}

fn assemble(namespaced: bool, rest: Vec<ColumnDef>) -> (r: ColumnSet)
    ensures
        r@ == assembled(namespaced, column_models(rest@)),
{
    let ghost own = column_models(rest@);
    let mut columns: Vec<ColumnDef> = Vec::new();
    columns.push(ColumnDef::new("Name", ColumnWidth::Flex(30), ColumnSource::Name));
    if namespaced {
        columns.push(ColumnDef::new("Namespace", ColumnWidth::Flex(15), ColumnSource::Namespace));
    }
    let mut places_its_own_age = false;
    let mut i: usize = 0;
    while i < rest.len()
        invariant
            i <= rest.len(),
            own == column_models(rest@),
            places_its_own_age == (exists|k: int|
                0 <= k < i && (#[trigger] own[k]).source == SourceView::Age),
        decreases rest.len() - i,
    {
        assert(own[i as int] == rest@[i as int]@);
        if matches!(rest[i].source, ColumnSource::Age) {
            places_its_own_age = true;
        }
        i += 1;
    }
    let mut rest = rest;
    let ghost lead = columns@;
    let ghost given = rest@;
    columns.append(&mut rest);
    assert(column_models(columns@) =~= column_models(lead) + own);
    let ghost most = columns@;
    if !places_its_own_age {
        columns.push(age());
        assert(column_models(columns@) =~= column_models(most).push(age_column()));
    }
    assert(places_its_own_age == places_age(own));
    assert(column_models(columns@) =~= assembled(namespaced, own));
    ColumnSet { columns }
}

/// The kind's own columns.
fn own(group: &str, kind: &str) -> (r: Option<Vec<ColumnDef>>)
    ensures
        (match r {
            Some(columns) => Some(column_models(columns@)),
            None => None,
        }) == own_columns(group@, kind@),
{
    if same(group, "") {
        if same(kind, "Pod") {
            Some(pod())
        } else if same(kind, "Service") {
            Some(service())
        } else if same(kind, "Node") {
            Some(node())
        } else if same(kind, "Namespace") {
            Some(namespace())
        } else if same(kind, "ConfigMap") {
            Some(config_map())
        } else if same(kind, "Secret") {
            Some(secret())
        } else if same(kind, "PersistentVolumeClaim") {
            Some(persistent_volume_claim())
        } else if same(kind, "ServiceAccount") {
            Some(service_account())
        } else {
            None
        }
    } else if same(group, "apps") {
        if same(kind, "Deployment") {
            Some(deployment())
        } else if same(kind, "StatefulSet") {
            Some(stateful_set())
        } else if same(kind, "DaemonSet") {
            Some(daemon_set())
        } else if same(kind, "ReplicaSet") {
            Some(replica_set())
        } else {
            None
        }
    } else if same(group, "batch") {
        if same(kind, "Job") {
            Some(job())
        } else if same(kind, "CronJob") {
            Some(cron_job())
        } else {
            None
        }
    } else if same(group, "networking.k8s.io") && same(kind, "Ingress") {
        Some(ingress())
    } else if same(group, "rbac.authorization.k8s.io") && (same(kind, "RoleBinding") || same(
        kind,
        "ClusterRoleBinding",
    )) {
        Some(role_binding())
    } else {
        None
    }
}

/// kubectl's columns for a resource we know by name.
pub fn column_set(group: &str, kind: &str, namespaced: bool) -> (r: Option<ColumnSet>)
    ensures
        (match r {
            Some(columns) => Some(columns@),
            None => None,
        }) == table(group@, kind@, namespaced),
{
    if same(group, "") && same(kind, "Event") {
        return Some(event::column_set(namespaced));
    }
    match own(group, kind) {
        Some(rest) => Some(assemble(namespaced, rest)),
        None => None,
    }
}

// The columns, computed.

fn path2<'a>(data: &'a Json, a: &str, b: &str) -> (r: Option<&'a Json>)
    ensures
        model_of(r) == at2(data@, a@, b@),
{
    field(data.get(a), b)
}

fn path3<'a>(data: &'a Json, a: &str, b: &str, c: &str) -> (r: Option<&'a Json>)
    ensures
        model_of(r) == at3(data@, a@, b@, c@),
{
    field(path2(data, a, b), c)
}

fn string<'a>(j: Option<&'a Json>) -> (r: Option<&'a str>)
    ensures
        lent(r) == filled(text_of(model_of(j))),
{
    match string_at(j) {
        Some(text) => if text.is_empty() {
            None
        } else {
            Some(text)
        },
        None => None,
    }
}

/// A text at a field, as a cell.
fn string_cell(j: Option<&Json>) -> (r: CellValue)
    ensures
        r@ == filled(text_of(model_of(j))),
{
    match string(j) {
        Some(text) => CellValue::text(text),
        None => CellValue::Missing,
    }
}

fn number(j: Option<&Json>) -> (r: i64)
    ensures
        r == counted(model_of(j)),
{
    match integer_at(j) {
        Some(n) => n,
        None => 0,
    }
}

fn count(j: Option<&Json>) -> (r: CellValue)
    ensures
        r@ == Some(signed(counted(model_of(j)))),
{
    CellValue::Text(integer(number(j)))
}

fn desired(data: &Json) -> (r: i64)
    ensures
        r == desired_replicas(data@),
{
    match integer_at(path2(data, "spec", "replicas")) {
        Some(n) => n,
        None => 1,
    }
}

/// `have/want`, where nothing counts as zero.
pub fn ratio(have: Option<i64>, want: i64) -> (r: CellValue)
    ensures
        r@ == Some(
            ratio_text(
                match have {
                    Some(n) => n as int,
                    None => 0,
                },
                want as int,
            ),
        ),
{
    let have: i64 = match have {
        Some(n) => n,
        None => 0,
    };
    CellValue::Text(three(integer(have).as_str(), "/", integer(want).as_str()))
}

fn length(j: Option<&Json>) -> (r: CellValue)
    ensures
        r@ == Some(decimal(length_of(model_of(j)))),
{
    let n: usize = match j {
        Some(j) => match j.as_array() {
            Some(items) => {
                assert(models(items@).len() == items@.len());
                items.len()
            },
            None => 0,
        },
        None => 0,
    };
    CellValue::Text(natural(n as u128))
}

fn entries(j: Option<&Json>) -> (r: usize)
    ensures
        r == entries_of(model_of(j)),
{
    match j {
        Some(j) => match j.as_object() {
            Some(entries) => {
                assert(entry_models(entries@).len() == entries@.len());
                entries.len()
            },
            None => 0,
        },
        None => 0,
    }
}

fn timestamp(j: Option<&Json>) -> (r: Option<Timestamp>)
    ensures
        instant_of(r) == instant_field(model_of(j)),
{
    match string(j) {
        Some(text) => Timestamp::parse(text),
        None => None,
    }
}

/// The elements of an array; none where there is no array.
fn list_at<'a>(j: Option<&'a Json>) -> (r: Option<&'a Vec<Json>>)
    ensures
        match r {
            Some(items) => models(items@) == items_of(model_of(j)),
            None => items_of(model_of(j)) == Seq::<JsonView>::empty(),
        },
{
    match j {
        Some(j) => j.as_array(),
        None => None,
    }
}

/// The texts of an array, without what is none.
fn strings(j: Option<&Json>) -> (out: Vec<String>)
    ensures
        each(out@) == texts_of(model_of(j)),
{
    let mut out: Vec<String> = Vec::new();
    assert(each(out@) =~= Seq::empty());
    if let Some(items) = list_at(j) {
        let ghost all = models(items@);
        let mut i: usize = 0;
        proof {
            kept_bounds(all, text_reader());
        }
        while i < items.len()
            invariant
                i <= items.len(),
                all == models(items@),
                each(out@) == kept(all.take(i as int), text_reader()),
            decreases items.len() - i,
        {
            proof {
                kept_next(all, i as int, text_reader());
                assert(all[i as int] == items@[i as int]@);
            }
            if let Some(text) = items[i].as_str() {
                let ghost before = out@;
                out.push(text.to_owned());
                assert(each(out@) =~= each(before).push(text@));
            }
            i += 1;
        }
    }
    out
}

/// `status.conditions` as pairs of type and status.
pub fn conditions(data: &Json) -> (out: Vec<(String, String)>)
    ensures
        pairs(out@) == conditions_of(data@),
{
    let mut out: Vec<(String, String)> = Vec::new();
    assert(pairs(out@) =~= Seq::empty());
    if let Some(items) = list_at(path2(data, "status", "conditions")) {
        let ghost all = models(items@);
        let mut i: usize = 0;
        proof {
            kept_bounds(all, pair_reader());
        }
        while i < items.len()
            invariant
                i <= items.len(),
                all == models(items@),
                pairs(out@) == kept(all.take(i as int), pair_reader()),
            decreases items.len() - i,
        {
            proof {
                kept_next(all, i as int, pair_reader());
                assert(all[i as int] == items@[i as int]@);
            }
            match (string_at(items[i].get("type")), string_at(items[i].get("status"))) {
                (Some(kind), Some(status)) => {
                    let ghost before = out@;
                    out.push((kind.to_owned(), status.to_owned()));
                    assert(pairs(out@) =~= pairs(before).push((kind@, status@)));
                },
                _ => {},
            }
            i += 1;
        }
    }
    out
}

/// The texts with commas between them, as a cell.
fn list_cell(texts: &Vec<String>) -> (r: CellValue)
    ensures
        r@ == listed(each(texts@)),
{
    assert(each(texts@).len() == texts@.len());
    if texts.len() == 0 {
        CellValue::Missing
    } else {
        CellValue::Text(join(texts, ","))
    }
}

/// Whether a value is the flag `true`.
fn is_true(j: Option<&Json>) -> (r: bool)
    ensures
        r == (model_of(j) == Some(JsonView::Bool(true))),
{
    match j {
        Some(Json::Bool(b)) => *b,
        _ => false,
    }
}

fn node_selector_cell(data: &Json) -> (r: CellValue)
    ensures
        r@ == node_selector_text(data@),
{
    let selector = match field(path3(data, "spec", "template", "spec"), "nodeSelector") {
        Some(selector) => selector,
        None => return CellValue::Missing,
    };
    let list = match selector.as_object() {
        Some(list) => list,
        None => return CellValue::Missing,
    };
    let ghost all = entry_models(list@).map_values(
        |e: (Seq<char>, JsonView)| selector_entry(e),
    );
    let mut out: Vec<String> = Vec::new();
    let mut i: usize = 0;
    while i < list.len()
        invariant
            i <= list.len(),
            out@.len() == i,
            all == entry_models(list@).map_values(|e: (Seq<char>, JsonView)| selector_entry(e)),
            forall|k: int| 0 <= k < i ==> (#[trigger] out@[k])@ == all[k],
        decreases list.len() - i,
    {
        assert(entry_models(list@)[i as int] == (list@[i as int].0@, list@[i as int].1@));
        let value = match &list[i].1 {
            Json::Str(text) => text.clone(),
            other => other.to_text(),
        };
        out.push(three(list[i].0.as_str(), "=", value.as_str()));
        i += 1;
    }
    assert(each(out@) =~= all);
    list_cell(&out)
}

fn job_status_cell(data: &Json) -> (r: CellValue)
    ensures
        r@ == Some(job_status_text(data@)),
{
    let list = conditions(data);
    let ghost all = conditions_of(data@);
    let mut i: usize = 0;
    while i < list.len()
        invariant
            i <= list.len(),
            all == conditions_of(data@),
            all == pairs(list@),
            job_outcome(all, 0) == job_outcome(all, i as int),
        decreases list.len() - i,
    {
        assert(all[i as int] == (list@[i as int].0@, list@[i as int].1@));
        let kind = list[i].0.as_str();
        if same(list[i].1.as_str(), "True") && (same(kind, "Complete") || same(kind, "Failed")) {
            return CellValue::text(kind);
        }
        i += 1;
    }
    if is_true(path2(data, "spec", "suspend")) {
        CellValue::text("Suspended")
    } else {
        CellValue::text("Running")
    }
}

fn job_completions_cell(data: &Json) -> (r: CellValue)
    ensures
        r@ == Some(job_completions_text(data@)),
{
    let succeeded = integer_at(path2(data, "status", "succeeded"));
    let want: i64 = match integer_at(path2(data, "spec", "completions")) {
        Some(n) => n,
        None => 1,
    };
    ratio(succeeded, want)
}

fn job_duration_cell(data: &Json, now: &Timestamp) -> (r: CellValue)
    ensures
        r@ == job_duration_text(data@, now@),
{
    match timestamp(path2(data, "status", "startTime")) {
        Some(started) => {
            let finished = match timestamp(path2(data, "status", "completionTime")) {
                Some(finished) => finished,
                None => *now,
            };
            CellValue::Text(format_age(&started, &finished))
        },
        None => CellValue::Missing,
    }
}

fn suspend_cell(data: &Json) -> (r: CellValue)
    ensures
        r@ == Some(suspend_text(data@)),
{
    if is_true(path2(data, "spec", "suspend")) {
        CellValue::text("True")
    } else {
        CellValue::text("False")
    }
}

fn last_schedule_cell(data: &Json, now: &Timestamp) -> (r: CellValue)
    ensures
        r@ == last_schedule_text(data@, now@),
{
    match timestamp(path2(data, "status", "lastScheduleTime")) {
        Some(last) => CellValue::Text(format_age(&last, now)),
        None => CellValue::Missing,
    }
}

fn addresses(data: &Json) -> (out: Vec<String>)
    ensures
        each(out@) == balancer_addresses(data@),
{
    let mut out: Vec<String> = Vec::new();
    assert(each(out@) =~= Seq::empty());
    if let Some(items) = list_at(path3(data, "status", "loadBalancer", "ingress")) {
        let ghost all = models(items@);
        let mut i: usize = 0;
        proof {
            kept_bounds(all, address_reader());
        }
        while i < items.len()
            invariant
                i <= items.len(),
                all == models(items@),
                each(out@) == kept(all.take(i as int), address_reader()),
            decreases items.len() - i,
        {
            proof {
                kept_next(all, i as int, address_reader());
                assert(all[i as int] == items@[i as int]@);
            }
            let address = match items[i].get("ip") {
                Some(ip) => ip.as_str(),
                None => string_at(items[i].get("hostname")),
            };
            if let Some(address) = address {
                let ghost before = out@;
                out.push(address.to_owned());
                assert(each(out@) =~= each(before).push(address@));
            }
            i += 1;
        }
    }
    out
}

/// Where a service can be reached from outside.
fn external_ips(data: &Json) -> (r: CellValue)
    ensures
        r@ == external_ips_text(data@),
{
    let mut declared = strings(path2(data, "spec", "externalIPs"));
    match string(path2(data, "spec", "type")) {
        Some(kind) => {
            if same(kind, "ExternalName") {
                return string_cell(path2(data, "spec", "externalName"));
            }
            if same(kind, "LoadBalancer") {
                let mut all = addresses(data);
                let ghost first = all@;
                let ghost second = declared@;
                all.append(&mut declared);
                assert(each(all@) =~= each(first) + each(second));
                if all.len() == 0 {
                    // A load balancer that has not been given an address yet.
                    return CellValue::text("<pending>");
                }
                return CellValue::Text(join(&all, ","));
            }
        },
        None => {},
    }
    list_cell(&declared)
}

/// `80/TCP`, or `80:31234/TCP` once a node port is allocated.
fn port(j: &Json) -> (r: Option<String>)
    ensures
        held(r) == port_of(j@),
{
    let number: i64 = match integer_at(j.get("port")) {
        Some(number) => number,
        None => return None,
    };
    let protocol: &str = match string_at(j.get("protocol")) {
        Some(protocol) => protocol,
        None => "TCP",
    };
    let mut out = integer(number);
    if let Some(node_port) = integer_at(j.get("nodePort")) {
        out.append(":");
        out.append(integer(node_port).as_str());
    }
    out.append("/");
    out.append(protocol);
    Some(out)
}

fn service_ports(data: &Json) -> (r: CellValue)
    ensures
        r@ == service_ports_text(data@),
{
    let mut out: Vec<String> = Vec::new();
    assert(each(out@) =~= Seq::empty());
    if let Some(items) = list_at(path2(data, "spec", "ports")) {
        let ghost all = models(items@);
        let mut i: usize = 0;
        proof {
            kept_bounds(all, port_reader());
        }
        while i < items.len()
            invariant
                i <= items.len(),
                all == models(items@),
                each(out@) == kept(all.take(i as int), port_reader()),
            decreases items.len() - i,
        {
            proof {
                kept_next(all, i as int, port_reader());
                assert(all[i as int] == items@[i as int]@);
            }
            if let Some(text) = port(&items[i]) {
                let ghost before = out@;
                let ghost added = text@;
                out.push(text);
                assert(each(out@) =~= each(before).push(added));
            }
            i += 1;
        }
    }
    list_cell(&out)
}

fn ingress_hosts(data: &Json) -> (r: CellValue)
    ensures
        r@ == ingress_hosts_text(data@),
{
    let mut out: Vec<String> = Vec::new();
    assert(each(out@) =~= Seq::empty());
    if let Some(items) = list_at(path2(data, "spec", "rules")) {
        let ghost all = models(items@);
        let mut i: usize = 0;
        proof {
            kept_bounds(all, host_reader());
        }
        while i < items.len()
            invariant
                i <= items.len(),
                all == models(items@),
                each(out@) == kept(all.take(i as int), host_reader()),
            decreases items.len() - i,
        {
            proof {
                kept_next(all, i as int, host_reader());
                assert(all[i as int] == items@[i as int]@);
            }
            let host: &str = match string_at(items[i].get("host")) {
                Some(host) => host,
                None => "*",
            };
            let ghost before = out@;
            out.push(host.to_owned());
            assert(each(out@) =~= each(before).push(host@));
            i += 1;
        }
    }
    list_cell(&out)
}

fn ingress_ports(data: &Json) -> (r: CellValue)
    ensures
        r@ == Some(ingress_ports_text(data@)),
{
    match list_at(path2(data, "spec", "tls")) {
        Some(items) => {
            assert(models(items@).len() == items@.len());
            if items.len() > 0 {
                CellValue::text("80, 443")
            } else {
                CellValue::text("80")
            }
        },
        None => CellValue::text("80"),
    }
}

/// `Ready`, `NotReady`, or either of those with `,SchedulingDisabled`.
fn node_status(data: &Json) -> (r: CellValue)
    ensures
        r@ == Some(node_status_text(data@)),
{
    let list = conditions(data);
    let ghost all = conditions_of(data@);
    let mut ready: Option<&str> = None;
    let mut i: usize = 0;
    while i < list.len() && ready.is_none()
        invariant
            i <= list.len(),
            all == conditions_of(data@),
            all == pairs(list@),
            match ready {
                Some(status) => ready_status(all, 0) == Some(status@),
                None => ready_status(all, 0) == ready_status(all, i as int),
            },
        decreases list.len() - i,
    {
        assert(all[i as int] == (list@[i as int].0@, list@[i as int].1@));
        if same(list[i].0.as_str(), "Ready") {
            ready = Some(list[i].1.as_str());
        }
        i += 1;
    }
    assert(lent(ready) == ready_status(all, 0));
    let status: &str = match ready {
        Some(status) => if same(status, "True") {
            "Ready"
        } else if same(status, "False") {
            "NotReady"
        } else {
            "Unknown"
        },
        None => "Unknown",
    };
    if is_true(path2(data, "spec", "unschedulable")) {
        CellValue::Text(two(status, ",SchedulingDisabled"))
    } else {
        CellValue::text(status)
    }
}

/// The role that a label gives.
fn role(key: &str, value: &str) -> (r: Option<String>)
    ensures
        held(r) == role_of((key@, value@)),
{
    if let Some(role) = strip_prefix(key, "node-role.kubernetes.io/") {
        if !role.as_str().is_empty() {
            return Some(role);
        }
    }
    if same(key, "kubernetes.io/role") && !value.is_empty() {
        return Some(value.to_owned());
    }
    None
}

/// The roles a node advertises, which live in its labels.
fn node_roles(metadata: &ObjectMeta) -> (r: CellValue)
    ensures
        r@ == node_roles_text(metadata@),
{
    let labels = match &metadata.labels {
        Some(labels) => labels,
        None => return CellValue::Missing,
    };
    let ghost all = pairs(labels@);
    let mut roles: Vec<String> = Vec::new();
    let mut i: usize = 0;
    assert(each(roles@) =~= Seq::empty());
    proof {
        kept_bounds(all, role_reader());
    }
    while i < labels.len()
        invariant
            i <= labels.len(),
            all == pairs(labels@),
            each(roles@) == kept(all.take(i as int), role_reader()),
        decreases labels.len() - i,
    {
        proof {
            kept_next(all, i as int, role_reader());
            assert(all[i as int] == (labels@[i as int].0@, labels@[i as int].1@));
        }
        if let Some(role) = role(labels[i].0.as_str(), labels[i].1.as_str()) {
            let ghost before = roles@;
            let ghost added = role@;
            roles.push(role);
            assert(each(roles@) =~= each(before).push(added));
        }
        i += 1;
    }
    assert(each(roles@).len() == roles@.len());
    if roles.len() == 0 {
        return CellValue::Missing;
    }
    CellValue::Text(join(&sort_strings(&roles), ","))
}

fn role_ref(data: &Json) -> (r: CellValue)
    ensures
        r@ == role_ref_text(data@),
{
    let role = data.get("roleRef");
    match (string_at(field(role, "kind")), string_at(field(role, "name"))) {
        (Some(kind), Some(name)) => CellValue::Text(three(kind, "/", name)),
        _ => CellValue::Missing,
    }
}

/// The abbreviations kubectl prints.
pub fn access_mode(mode: &str) -> (r: &'static str)
    ensures
        r@ == mode_text(mode@),
{
    if same(mode, "ReadWriteOnce") {
        "RWO"
    } else if same(mode, "ReadOnlyMany") {
        "ROX"
    } else if same(mode, "ReadWriteMany") {
        "RWX"
    } else if same(mode, "ReadWriteOncePod") {
        "RWOP"
    } else {
        ""
    }
}

fn access_modes(data: &Json) -> (r: CellValue)
    ensures
        r@ == access_modes_text(data@),
{
    let modes = strings(path2(data, "status", "accessModes"));
    let ghost all = each(modes@);
    if modes.len() == 0 {
        return CellValue::Missing;
    }
    let mut out = String::new();
    let mut i: usize = 0;
    while i < modes.len()
        invariant
            i <= modes.len(),
            all == each(modes@),
            out@ == modes_text(all.take(i as int)),
        decreases modes.len() - i,
    {
        assert(all.take(i + 1).drop_last() =~= all.take(i as int));
        assert(all.take(i + 1).last() == modes@[i as int]@);
        out.append(access_mode(modes[i].as_str()));
        i += 1;
    }
    assert(all.take(i as int) =~= all);
    CellValue::Text(out)
}

fn attributes_class(data: &Json) -> (r: CellValue)
    ensures
        r@ == Some(attributes_class_text(data@)),
{
    match string(path2(data, "status", "currentVolumeAttributesClassName")) {
        Some(class) => CellValue::text(class),
        None => match string(path2(data, "spec", "volumeAttributesClassName")) {
            Some(class) => CellValue::text(class),
            None => CellValue::text("<unset>"),
        },
    }
}

/// Computes a column for one object.
pub fn compute(c: Computed, cell: &Cell) -> (r: CellValue)
    ensures
        r@ == shown(c, cell.metadata@, cell.data@, cell.now@),
{
    let data = cell.data;
    match c {
        Computed::PodReady => CellValue::Text(summarize(cell.metadata, data, &cell.now).ready),
        Computed::PodStatus => CellValue::Text(summarize(cell.metadata, data, &cell.now).status),
        Computed::PodRestarts => CellValue::Text(
            summarize(cell.metadata, data, &cell.now).restarts,
        ),
        Computed::ReadyRatio => ratio(
            Some(number(path2(data, "status", "readyReplicas"))),
            desired(data),
        ),
        Computed::UpdatedReplicas => count(path2(data, "status", "updatedReplicas")),
        Computed::AvailableReplicas => count(path2(data, "status", "availableReplicas")),
        Computed::DesiredReplicas => CellValue::Text(integer(desired(data))),
        Computed::CurrentReplicas => count(path2(data, "status", "replicas")),
        Computed::ReadyReplicas => count(path2(data, "status", "readyReplicas")),
        Computed::DesiredScheduled => count(path2(data, "status", "desiredNumberScheduled")),
        Computed::CurrentScheduled => count(path2(data, "status", "currentNumberScheduled")),
        Computed::ScheduledReady => count(path2(data, "status", "numberReady")),
        Computed::UpdatedScheduled => count(path2(data, "status", "updatedNumberScheduled")),
        Computed::ScheduledAvailable => count(path2(data, "status", "numberAvailable")),
        Computed::NodeSelector => node_selector_cell(data),
        Computed::JobStatus => job_status_cell(data),
        Computed::JobCompletions => job_completions_cell(data),
        Computed::JobDuration => job_duration_cell(data, &cell.now),
        Computed::CronSchedule => string_cell(path2(data, "spec", "schedule")),
        Computed::CronSuspend => suspend_cell(data),
        Computed::CronActive => length(path2(data, "status", "active")),
        Computed::CronLastSchedule => last_schedule_cell(data, &cell.now),
        Computed::ServiceType => string_cell(path2(data, "spec", "type")),
        Computed::ClusterIp => string_cell(path2(data, "spec", "clusterIP")),
        Computed::ExternalIps => external_ips(data),
        Computed::ServicePorts => service_ports(data),
        Computed::IngressClass => string_cell(path2(data, "spec", "ingressClassName")),
        Computed::IngressHosts => ingress_hosts(data),
        Computed::IngressAddress => list_cell(&addresses(data)),
        Computed::IngressPorts => ingress_ports(data),
        Computed::NodeStatus => node_status(data),
        Computed::NodeRoles => node_roles(cell.metadata),
        Computed::KubeletVersion => string_cell(
            path3(data, "status", "nodeInfo", "kubeletVersion"),
        ),
        Computed::RoleRef => role_ref(data),
        Computed::Phase => string_cell(path2(data, "status", "phase")),
        Computed::ConfigMapData => CellValue::Text(
            natural(entries(data.get("data")) as u128 + entries(data.get("binaryData")) as u128),
        ),
        Computed::SecretType => string_cell(data.get("type")),
        Computed::SecretData => CellValue::Text(natural(entries(data.get("data")) as u128)),
        Computed::Secrets => length(data.get("secrets")),
        Computed::VolumeName => string_cell(path2(data, "spec", "volumeName")),
        Computed::Capacity => string_cell(path3(data, "status", "capacity", "storage")),
        Computed::AccessModes => access_modes(data),
        Computed::StorageClass => string_cell(path2(data, "spec", "storageClassName")),
        Computed::AttributesClass => attributes_class(data),
        Computed::EventLastSeen => CellValue::Text(EventSummary::read(data, &cell.now).last_seen),
        Computed::EventType => CellValue::Text(EventSummary::read(data, &cell.now).kind),
        Computed::EventReason => CellValue::Text(EventSummary::read(data, &cell.now).reason),
        Computed::EventObject => CellValue::Text(EventSummary::read(data, &cell.now).object),
        Computed::EventMessage => CellValue::Text(EventSummary::read(data, &cell.now).message),
    }
}

} // verus!
