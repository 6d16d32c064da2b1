//! What cells and tables promise, from an object to what is printed of it.
use vstd::prelude::*;

use crate::base::decimal::{decimal, decimal_round_trip, signed};
use crate::base::json::{int_of, json_text, part, text_of, JsonView};
use crate::base::laws::a_cut_is_at_the_first_mark;
use crate::base::list::kept;
use crate::base::meta::MetaView;
use crate::base::text::{cut, lower_case, occurs, pieces, stands_at, white_space};
use crate::base::time::parsed_timestamp;
use crate::columns::age::{age_at, human};
use crate::columns::builtin::{own_columns, table, Computed};
use crate::columns::event::{event_columns, event_of};
use crate::columns::path::{
    bare, declined, index_of, part_steps, parts_steps, path_steps, plain, root_of, selected, walked,
    Step,
};
use crate::columns::printer::{column_reader, declared_columns};
use crate::columns::{
    displayed, fallback_columns, resolved, ColumnView, ColumnWidth, PathKind, SourceView,
};

verus! {

/// The columns of the metadata show the object's own name, namespace and age, and
/// what is missing is shown as such.
pub proof fn metadata_is_shown_as_it_is(meta: MetaView, data: JsonView, now: int)
    ensures
        resolved(SourceView::Name, meta, data, now) == meta.name,
        resolved(SourceView::Namespace, meta, data, now) == meta.namespace,
        meta.creation_timestamp matches Some(at) ==> resolved(SourceView::Age, meta, data, now)
            == Some(age_at(now, at)),
        meta.creation_timestamp is None ==> resolved(SourceView::Age, meta, data, now) is None,
        displayed(None) == "<none>"@,
        meta.name matches Some(name) ==> displayed(meta.name) == name,
{
}

/// What a field path selects is printed as it is: a text, a number, a flag by
/// name. An empty text, a null and what is not there are missing. A date is
/// printed as its age, and a text that is no date as it is.
pub proof fn what_a_path_selects_is_printed(
    expression: Seq<char>,
    meta: MetaView,
    data: JsonView,
    now: int,
)
    requires
        root_of(expression) != Some("metadata"@),
    ensures
        ({
            let value = SourceView::JsonPath { expression, kind: PathKind::Value };
            let date = SourceView::JsonPath { expression, kind: PathKind::Date };
            let printed = resolved(value, meta, data, now);
            let dated = resolved(date, meta, data, now);
            match selected(expression, data) {
                None => printed is None && dated is None,
                Some(JsonView::Null) => printed is None && dated is None,
                Some(JsonView::Bool(true)) => printed == Some("true"@) && dated == printed,
                Some(JsonView::Bool(false)) => printed == Some("false"@) && dated == printed,
                Some(JsonView::Int(n)) => printed == Some(signed(n)) && dated == printed,
                Some(JsonView::Decimal(text)) => printed == Some(text) && dated == printed,
                Some(JsonView::Str(text)) => {
                    &&& text.len() == 0 ==> printed is None
                    &&& text.len() > 0 ==> printed == Some(text)
                    &&& dated == Some(
                        match parsed_timestamp(text) {
                            Some(then) => age_at(now, then),
                            None => text,
                        },
                    )
                },
                Some(other) => printed == Some(json_text(other)) && dated == printed,
            }
        }),
{
}

/// Whether a text is a bare name: nothing in it means anything in a path.
pub open spec fn bare_name(name: Seq<char>) -> bool {
    &&& name.len() > 0
    &&& forall|i: int|
        0 <= i < name.len() ==> !white_space(#[trigger] name[i]) && name[i] != '.' && name[i] != '['
            && name[i] != ']' && name[i] != '*' && name[i] != '?' && name[i] != '@' && name[i]
            != '\'' && name[i] != '{' && name[i] != '}' && name[i] != '$'
}

proof fn single_piece(s: Seq<char>, separator: char)
    requires
        !s.contains(separator),
    ensures
        pieces(s, separator) == seq![s],
    decreases s.len(),
{
    if s.len() == 0 {
        assert(s =~= Seq::empty());
    } else {
        let front = s.drop_last();
        assert(!front.contains(separator)) by {
            if front.contains(separator) {
                let k = choose|k: int| 0 <= k < front.len() && front[k] == separator;
                assert(s[k] == separator);
            }
        }
        single_piece(front, separator);
        assert(s[s.len() - 1] == s.last());
        assert(s.contains(s.last()));
        assert(front.push(s.last()) =~= s);
        assert(pieces(s, separator) =~= seq![s]);
    }
}

/// A bare name selects the field of that name.
pub proof fn a_name_selects_its_field(name: Seq<char>, j: JsonView)
    requires
        bare_name(name),
    ensures
        selected(name, j) == j.get(name),
        root_of(name) == Some(name),
{
    assert(plain(name)) by {
        assert(name[0] == name[0] && name[name.len() - 1] == name.last());
        assert(!white_space(name[0]) && !white_space(name[name.len() - 1]));
    }
    assert(bare(name) == name);
    assert(!declined(name));
    single_piece(name, '.');
    let parts = seq![name];
    a_cut_is_at_the_first_mark(name, "["@);
    reveal_strlit("[");
    if let Some((front, back)) = cut(name, "["@) {
        assert(name == front + "["@ + back);
        assert(name[front.len() as int] == '[');
    }
    assert(!name.contains(']'));
    assert(part_steps(name) == Some(seq![Step::Field(name)]));
    assert(parts.drop_last() =~= Seq::empty());
    reveal_with_fuel(parts_steps, 2);
    assert(parts_steps(parts) =~= Some(seq![Step::Field(name)])) by {
        assert(Seq::<Step>::empty() + seq![Step::Field(name)] =~= seq![Step::Field(name)]);
    }
    let path = seq![Step::Field(name)];
    assert(path.drop_first() =~= Seq::empty());
    reveal_with_fuel(walked, 2);
}

proof fn written_in_digits(n: nat)
    ensures
        decimal(n).len() > 0,
        forall|i: int| 0 <= i < decimal(n).len() ==> '0' <= #[trigger] decimal(n)[i] <= '9',
    decreases n,
{
    if n >= 10 {
        written_in_digits(n / 10);
    }
}

/// A bare name with an index behind it selects that element of the field.
pub proof fn an_index_selects_an_element(name: Seq<char>, n: nat, j: JsonView)
    requires
        bare_name(name),
        n <= u32::MAX,
    ensures
        selected(name + "["@ + decimal(n) + "]"@, j) == (match j.get(name) {
            Some(list) => list.nth(n as int),
            None => None,
        }),
        j matches JsonView::Array(items) ==> n < items.len() ==> j.nth(n as int) == Some(
            items[n as int],
        ),
        j matches JsonView::Array(items) ==> n >= items.len() ==> j.nth(n as int) is None,
        !(j is Array) ==> j.nth(n as int) is None,
{
    let path = name + "["@ + decimal(n) + "]"@;
    written_in_digits(n);
    reveal_strlit("[");
    reveal_strlit("]");
    assert forall|i: int| 0 <= i < path.len() implies !white_space(#[trigger] path[i]) && path[i]
        != '.' && path[i] != '*' && path[i] != '?' && path[i] != '@' && path[i] != '\'' && path[i]
        != '{' && path[i] != '}' && path[i] != '$' by {
        if i < name.len() {
            assert(path[i] == name[i]);
        } else if i == name.len() {
            assert(path[i] == '[');
        } else if i < path.len() - 1 {
            assert(path[i] == decimal(n)[i - name.len() - 1]);
        } else {
            assert(path[i] == ']');
        }
    }
    assert(plain(path)) by {
        assert(!white_space(path[0]) && !white_space(path[path.len() - 1]));
        assert(path[path.len() - 1] == path.last());
    }
    assert(bare(path) == path);
    assert(!declined(path));
    single_piece(path, '.');
    a_cut_is_at_the_first_mark(path, "["@);
    assert(stands_at("["@, path, name.len() as int)) by {
        assert(path.subrange(name.len() as int, name.len() as int + 1) =~= "["@);
    }
    assert(occurs("["@, path));
    let (front, back) = cut(path, "["@)->0;
    assert(front.len() <= name.len());
    if front.len() < name.len() {
        assert(path[front.len() as int] == (front + "["@ + back)[front.len() as int]);
        assert(path[front.len() as int] == '[');
        assert(name[front.len() as int] == '[');
    }
    let rest = decimal(n) + "]"@;
    assert(front =~= name) by {
        assert forall|i: int| 0 <= i < name.len() implies front[i] == name[i] by {
            assert((front + "["@ + back)[i] == front[i]);
            assert(path[i] == name[i]);
        }
    }
    assert(back =~= rest) by {
        assert(path =~= name + "["@ + rest);
        assert(back =~= path.skip(name.len() as int + 1));
    }
    assert(rest.drop_last() =~= decimal(n));
    assert("]"@.is_suffix_of(rest));
    decimal_round_trip(n);
    assert(decimal(n)[0] != '+');
    assert(index_of(rest) == Some(n as int));
    assert(!name.contains(']'));
    let steps = seq![Step::Field(name)].push(Step::Index(n as int));
    assert(part_steps(path) == Some(steps));
    let parts = seq![path];
    assert(parts.drop_last() =~= Seq::empty());
    reveal_with_fuel(parts_steps, 2);
    assert(Seq::<Step>::empty() + steps =~= steps);
    assert(path_steps(path) == Some(steps));
    assert(steps.drop_first() =~= seq![Step::Index(n as int)]);
    assert(steps.drop_first().drop_first() =~= Seq::empty());
    reveal_with_fuel(walked, 3);
}

/// Every column that a kind declares is shown under its name, unless it is of
/// less than normal priority. A date is shown as one, and the width goes by the
/// type.
pub proof fn declared_columns_are_shown(
    list: Seq<JsonView>,
    extra: JsonView,
    namespaced: bool,
    name: Seq<char>,
    expression: Seq<char>,
)
    requires
        extra.get("name"@) == Some(JsonView::Str(name)),
        extra.get("jsonPath"@) == Some(JsonView::Str(expression)),
    ensures
        ({
            let before = kept(list, column_reader());
            let after = declared_columns(JsonView::Array(list.push(extra)), namespaced);
            let lead: int = if namespaced {
                2
            } else {
                1
            };
            let declared = text_of(extra.get("type"@));
            let date = declared == Some("date"@);
            let hidden = int_of(extra.get("priority"@)) matches Some(p) && p > 0;
            &&& hidden ==> after == declared_columns(JsonView::Array(list), namespaced)
            &&& !hidden ==> after is Some && {
                let columns = after->0;
                let shown = columns.last();
                &&& columns.len() == lead + before.len() + 1
                &&& forall|i: int|
                    0 <= i < before.len() ==> #[trigger] columns[lead + i] == before[i]
                &&& shown.header == name
                &&& shown.source == (SourceView::JsonPath {
                    expression,
                    kind: if date {
                        PathKind::Date
                    } else {
                        PathKind::Value
                    },
                })
                &&& shown.width == (if declared == Some("integer"@) || declared == Some(
                    "number"@,
                ) {
                    ColumnWidth::Fixed(900)
                } else if declared == Some("boolean"@) || date {
                    ColumnWidth::Fixed(800)
                } else {
                    ColumnWidth::Flex(10)
                })
                &&& columns[0].header == "Name"@ && columns[0].source == SourceView::Name
                &&& namespaced ==> columns[1].header == "Namespace"@ && columns[1].source
                    == SourceView::Namespace
            }
        }),
        declared_columns(JsonView::Array(Seq::empty()), namespaced) is None,
        declared_columns(JsonView::Null, namespaced) is None,
{
    let before = kept(list, column_reader());
    let more = list.push(extra);
    assert(more.drop_last() =~= list);
    reveal_strlit("string");
    reveal_strlit("date");
    reveal_strlit("integer");
    reveal_strlit("number");
    reveal_strlit("boolean");
    assert("string"@.len() == 6 && "date"@.len() == 4 && "integer"@.len() == 7 && "number"@.len()
        == 6 && "boolean"@.len() == 7);
    assert("string"@[0] == 's' && "number"@[0] == 'n' && "integer"@[0] == 'i' && "boolean"@[0]
        == 'b');
    if let Some(columns) = declared_columns(JsonView::Array(more), namespaced) {
        let lead: int = if namespaced {
            2
        } else {
            1
        };
        if !(int_of(extra.get("priority"@)) matches Some(p) && p > 0) {
            assert forall|i: int| 0 <= i < before.len() implies #[trigger] columns[lead + i]
                == before[i] by {}
        }
    }
}

/// Whether a column stands at a place.
pub open spec fn stands(columns: Seq<ColumnView>, at: int, header: Seq<char>, c: Computed) -> bool {
    0 <= at < columns.len() && columns[at].header == header && columns[at].source
        == SourceView::Computed(c)
}

/// Whether a table is that of a kind: the name, the namespace where it is shown,
/// the kind's own columns, and the age.
pub open spec fn framed(columns: Option<Seq<ColumnView>>, namespaced: bool, own: int) -> bool {
    let lead: int = if namespaced {
        2
    } else {
        1
    };
    columns matches Some(columns) && {
        &&& columns.len() == lead + own + 1
        &&& columns[0].header == "Name"@ && columns[0].source == SourceView::Name
        &&& namespaced ==> columns[1].header == "Namespace"@ && columns[1].source
            == SourceView::Namespace
        &&& columns.last().header == "Age"@ && columns.last().source == SourceView::Age
    }
}

/// The workloads have kubectl's columns.
pub proof fn workloads_have_their_columns(namespaced: bool)
    ensures
        ({
            let at: int = if namespaced {
                2
            } else {
                1
            };
            let pod = table(""@, "Pod"@, namespaced);
            let deployment = table("apps"@, "Deployment"@, namespaced);
            let stateful = table("apps"@, "StatefulSet"@, namespaced);
            let replica = table("apps"@, "ReplicaSet"@, namespaced);
            let daemon = table("apps"@, "DaemonSet"@, namespaced);
            let job = table("batch"@, "Job"@, namespaced);
            let cron = table("batch"@, "CronJob"@, namespaced);
            &&& framed(pod, namespaced, 3)
            &&& stands(pod->0, at, "Ready"@, Computed::PodReady)
            &&& stands(pod->0, at + 1, "Status"@, Computed::PodStatus)
            &&& stands(pod->0, at + 2, "Restarts"@, Computed::PodRestarts)
            &&& framed(deployment, namespaced, 3)
            &&& stands(deployment->0, at, "Ready"@, Computed::ReadyRatio)
            &&& stands(deployment->0, at + 1, "Up-to-date"@, Computed::UpdatedReplicas)
            &&& stands(deployment->0, at + 2, "Available"@, Computed::AvailableReplicas)
            &&& framed(stateful, namespaced, 1)
            &&& stands(stateful->0, at, "Ready"@, Computed::ReadyRatio)
            &&& framed(replica, namespaced, 3)
            &&& stands(replica->0, at, "Desired"@, Computed::DesiredReplicas)
            &&& stands(replica->0, at + 1, "Current"@, Computed::CurrentReplicas)
            &&& stands(replica->0, at + 2, "Ready"@, Computed::ReadyReplicas)
            &&& framed(daemon, namespaced, 6)
            &&& stands(daemon->0, at, "Desired"@, Computed::DesiredScheduled)
            &&& stands(daemon->0, at + 1, "Current"@, Computed::CurrentScheduled)
            &&& stands(daemon->0, at + 2, "Ready"@, Computed::ScheduledReady)
            &&& stands(daemon->0, at + 3, "Up-to-date"@, Computed::UpdatedScheduled)
            &&& stands(daemon->0, at + 4, "Available"@, Computed::ScheduledAvailable)
            &&& stands(daemon->0, at + 5, "Node Selector"@, Computed::NodeSelector)
            &&& framed(job, namespaced, 3)
            &&& stands(job->0, at, "Status"@, Computed::JobStatus)
            &&& stands(job->0, at + 1, "Completions"@, Computed::JobCompletions)
            &&& stands(job->0, at + 2, "Duration"@, Computed::JobDuration)
            &&& framed(cron, namespaced, 4)
            &&& stands(cron->0, at, "Schedule"@, Computed::CronSchedule)
            &&& stands(cron->0, at + 1, "Suspend"@, Computed::CronSuspend)
            &&& stands(cron->0, at + 2, "Active"@, Computed::CronActive)
            &&& stands(cron->0, at + 3, "Last Schedule"@, Computed::CronLastSchedule)
        }),
{
    names_differ();
    own_table_assembled(""@, "Pod"@, namespaced);
    own_table_assembled("apps"@, "Deployment"@, namespaced);
    own_table_assembled("apps"@, "StatefulSet"@, namespaced);
    own_table_assembled("apps"@, "ReplicaSet"@, namespaced);
    own_table_assembled("apps"@, "DaemonSet"@, namespaced);
    own_table_assembled("batch"@, "Job"@, namespaced);
    own_table_assembled("batch"@, "CronJob"@, namespaced);
}

proof fn own_table_assembled(group: Seq<char>, kind: Seq<char>, namespaced: bool)
    requires
        own_columns(group, kind) is Some,
        !(group == ""@ && kind == "Event"@),
        forall|i: int|
            0 <= i < own_columns(group, kind)->0.len() ==> !((#[trigger] own_columns(
                group,
                kind,
            )->0[i]).source is Age),
    ensures
        framed(table(group, kind, namespaced), namespaced, own_columns(group, kind)->0.len() as int),
        ({
            let at: int = if namespaced {
                2
            } else {
                1
            };
            let own = own_columns(group, kind)->0;
            forall|i: int|
                at <= i < at + own.len() ==> #[trigger] table(group, kind, namespaced)->0[i]
                    == own[i - at]
        }),
{
}

/// The names by which kinds are told apart.
proof fn names_differ()
    ensures
        "Pod"@ != "Event"@,
        "Service"@ != "Event"@,
        "Node"@ != "Event"@,
        "Namespace"@ != "Event"@,
        "ConfigMap"@ != "Event"@,
        "Secret"@ != "Event"@,
        "PersistentVolumeClaim"@ != "Event"@,
        "ServiceAccount"@ != "Event"@,
        "apps"@ != ""@,
        "batch"@ != ""@,
        "batch"@ != "apps"@,
        "networking.k8s.io"@ != ""@,
        "networking.k8s.io"@ != "apps"@,
        "networking.k8s.io"@ != "batch"@,
        "rbac.authorization.k8s.io"@ != ""@,
        "rbac.authorization.k8s.io"@ != "apps"@,
        "rbac.authorization.k8s.io"@ != "batch"@,
        "rbac.authorization.k8s.io"@ != "networking.k8s.io"@,
        "StatefulSet"@ != "Deployment"@,
        "DaemonSet"@ != "Deployment"@,
        "DaemonSet"@ != "StatefulSet"@,
        "ReplicaSet"@ != "Deployment"@,
        "ReplicaSet"@ != "StatefulSet"@,
        "ReplicaSet"@ != "DaemonSet"@,
        "CronJob"@ != "Job"@,
        "Service"@ != "Pod"@,
        "Node"@ != "Pod"@,
        "Node"@ != "Service"@,
        "Namespace"@ != "Pod"@,
        "Namespace"@ != "Service"@,
        "Namespace"@ != "Node"@,
        "ConfigMap"@ != "Pod"@,
        "ConfigMap"@ != "Service"@,
        "ConfigMap"@ != "Node"@,
        "ConfigMap"@ != "Namespace"@,
        "Secret"@ != "Pod"@,
        "Secret"@ != "Service"@,
        "Secret"@ != "Node"@,
        "Secret"@ != "Namespace"@,
        "Secret"@ != "ConfigMap"@,
        "PersistentVolumeClaim"@ != "Pod"@,
        "PersistentVolumeClaim"@ != "Service"@,
        "PersistentVolumeClaim"@ != "Node"@,
        "PersistentVolumeClaim"@ != "Namespace"@,
        "PersistentVolumeClaim"@ != "ConfigMap"@,
        "PersistentVolumeClaim"@ != "Secret"@,
        "ServiceAccount"@ != "Pod"@,
        "ServiceAccount"@ != "Service"@,
        "ServiceAccount"@ != "Node"@,
        "ServiceAccount"@ != "Namespace"@,
        "ServiceAccount"@ != "ConfigMap"@,
        "ServiceAccount"@ != "Secret"@,
        "ServiceAccount"@ != "PersistentVolumeClaim"@,
{
    reveal_strlit("");
    reveal_strlit("apps");
    reveal_strlit("batch");
    reveal_strlit("networking.k8s.io");
    reveal_strlit("rbac.authorization.k8s.io");
    reveal_strlit("Pod");
    reveal_strlit("Service");
    reveal_strlit("Node");
    reveal_strlit("Namespace");
    reveal_strlit("ConfigMap");
    reveal_strlit("Secret");
    reveal_strlit("PersistentVolumeClaim");
    reveal_strlit("ServiceAccount");
    reveal_strlit("Event");
    reveal_strlit("Deployment");
    reveal_strlit("StatefulSet");
    reveal_strlit("DaemonSet");
    reveal_strlit("ReplicaSet");
    reveal_strlit("Job");
    reveal_strlit("CronJob");
    assert(""@.len() == 0 && "apps"@.len() == 4 && "batch"@.len() == 5);
    assert("networking.k8s.io"@.len() == 17 && "rbac.authorization.k8s.io"@.len() == 25);
    assert("Pod"@.len() == 3 && "Service"@.len() == 7 && "Node"@.len() == 4 && "Namespace"@.len()
        == 9 && "ConfigMap"@.len() == 9 && "Secret"@.len() == 6 && "PersistentVolumeClaim"@.len()
        == 21 && "ServiceAccount"@.len() == 14 && "Event"@.len() == 5);
    assert("Namespace"@[0] == 'N' && "ConfigMap"@[0] == 'C');
    assert("Deployment"@.len() == 10 && "StatefulSet"@.len() == 11 && "DaemonSet"@.len() == 9
        && "ReplicaSet"@.len() == 10);
    assert("Deployment"@[0] == 'D' && "ReplicaSet"@[0] == 'R');
    assert("Job"@.len() == 3 && "CronJob"@.len() == 7);
}

/// The other kinds have kubectl's columns. A node's age stands in front of its
/// version.
pub proof fn other_kinds_have_their_columns(namespaced: bool)
    ensures
        ({
            let at: int = if namespaced {
                2
            } else {
                1
            };
            let service = table(""@, "Service"@, namespaced);
            let ingress = table("networking.k8s.io"@, "Ingress"@, namespaced);
            let node = table(""@, "Node"@, namespaced);
            let namespace = table(""@, "Namespace"@, namespaced);
            let config = table(""@, "ConfigMap"@, namespaced);
            let secret = table(""@, "Secret"@, namespaced);
            let account = table(""@, "ServiceAccount"@, namespaced);
            let claim = table(""@, "PersistentVolumeClaim"@, namespaced);
            let binding = table("rbac.authorization.k8s.io"@, "RoleBinding"@, namespaced);
            let wide = table("rbac.authorization.k8s.io"@, "ClusterRoleBinding"@, namespaced);
            &&& framed(service, namespaced, 4)
            &&& stands(service->0, at, "Type"@, Computed::ServiceType)
            &&& stands(service->0, at + 1, "Cluster-IP"@, Computed::ClusterIp)
            &&& stands(service->0, at + 2, "External-IP"@, Computed::ExternalIps)
            &&& stands(service->0, at + 3, "Port(s)"@, Computed::ServicePorts)
            &&& framed(ingress, namespaced, 4)
            &&& stands(ingress->0, at, "Class"@, Computed::IngressClass)
            &&& stands(ingress->0, at + 1, "Hosts"@, Computed::IngressHosts)
            &&& stands(ingress->0, at + 2, "Address"@, Computed::IngressAddress)
            &&& stands(ingress->0, at + 3, "Ports"@, Computed::IngressPorts)
            &&& framed(namespace, namespaced, 1)
            &&& stands(namespace->0, at, "Status"@, Computed::Phase)
            &&& framed(config, namespaced, 1)
            &&& stands(config->0, at, "Data"@, Computed::ConfigMapData)
            &&& framed(secret, namespaced, 2)
            &&& stands(secret->0, at, "Type"@, Computed::SecretType)
            &&& stands(secret->0, at + 1, "Data"@, Computed::SecretData)
            &&& framed(account, namespaced, 1)
            &&& stands(account->0, at, "Secrets"@, Computed::Secrets)
            &&& framed(claim, namespaced, 6)
            &&& stands(claim->0, at, "Status"@, Computed::Phase)
            &&& stands(claim->0, at + 1, "Volume"@, Computed::VolumeName)
            &&& stands(claim->0, at + 2, "Capacity"@, Computed::Capacity)
            &&& stands(claim->0, at + 3, "Access Modes"@, Computed::AccessModes)
            &&& stands(claim->0, at + 4, "Storageclass"@, Computed::StorageClass)
            &&& stands(claim->0, at + 5, "VolumeAttributesClass"@, Computed::AttributesClass)
            &&& framed(binding, namespaced, 1)
            &&& stands(binding->0, at, "Role"@, Computed::RoleRef)
            &&& wide == binding
            &&& node matches Some(columns) && {
                &&& columns.len() == at + 4
                &&& columns[0].source == SourceView::Name
                &&& stands(columns, at, "Status"@, Computed::NodeStatus)
                &&& stands(columns, at + 1, "Roles"@, Computed::NodeRoles)
                &&& columns[at + 2].source == SourceView::Age
                &&& stands(columns, at + 3, "Version"@, Computed::KubeletVersion)
            }
        }),
{
    names_differ();
    own_table_assembled(""@, "Service"@, namespaced);
    own_table_assembled("networking.k8s.io"@, "Ingress"@, namespaced);
    own_table_assembled(""@, "Namespace"@, namespaced);
    own_table_assembled(""@, "ConfigMap"@, namespaced);
    own_table_assembled(""@, "Secret"@, namespaced);
    own_table_assembled(""@, "ServiceAccount"@, namespaced);
    own_table_assembled(""@, "PersistentVolumeClaim"@, namespaced);
    own_table_assembled("rbac.authorization.k8s.io"@, "RoleBinding"@, namespaced);
    own_table_assembled("rbac.authorization.k8s.io"@, "ClusterRoleBinding"@, namespaced);
    let rest = own_columns(""@, "Node"@)->0;
    assert(rest[2].source == SourceView::Age);
}

/// Events start at when they were last seen, and a kind that nothing is known of
/// shows its name and its age.
pub proof fn events_and_unknown_kinds_have_their_columns(namespaced: bool)
    ensures
        ({
            let lead: int = if namespaced {
                1
            } else {
                0
            };
            let columns = event_columns(namespaced);
            &&& table(""@, "Event"@, namespaced) == Some(columns)
            &&& columns.len() == 5 + lead
            &&& stands(columns, 0, "Last Seen"@, Computed::EventLastSeen)
            &&& namespaced ==> columns[1].source == SourceView::Namespace
            &&& stands(columns, lead + 1, "Type"@, Computed::EventType)
            &&& stands(columns, lead + 2, "Reason"@, Computed::EventReason)
            &&& stands(columns, lead + 3, "Object"@, Computed::EventObject)
            &&& stands(columns, lead + 4, "Message"@, Computed::EventMessage)
        }),
        framed(Some(fallback_columns(namespaced)), namespaced, 0),
{
}

/// An event is about a kind and a name, written the way they are typed, and about
/// the kind alone where it names no object.
pub proof fn an_event_says_what_it_is_about(event: JsonView, now: int)
    ensures
        ({
            let kind = part(event.get("involvedObject"@), "kind"@);
            let name = part(event.get("involvedObject"@), "name"@);
            let about = event_of(event, now).object;
            &&& kind matches Some(JsonView::Str(kind)) ==> (name matches Some(JsonView::Str(name))
                ==> about == lower_case(kind) + "/"@ + name)
            &&& kind matches Some(JsonView::Str(kind)) ==> name is None ==> about == lower_case(
                kind,
            )
            &&& kind is None ==> about.len() == 0
        }),
{
}

/// An event happened as often as its series says, else as it says itself, and
/// once where neither does.
pub proof fn an_event_says_how_often(event: JsonView, now: int)
    ensures
        ({
            let series = part(event.get("series"@), "count"@);
            let own = event.get("count"@);
            let count = event_of(event, now).count;
            &&& series matches Some(JsonView::Int(n)) ==> count == n
            &&& series is None ==> (own matches Some(JsonView::Int(n)) ==> count == n)
            &&& series is None && own is None ==> count == 1
        }),
{
}

/// An age is written in at most two units, the smaller of which is left out
/// where it is zero: seconds below two minutes, minutes and seconds below ten,
/// minutes below three hours, hours and minutes below eight, hours below two
/// days, days and hours below eight, days below two years, years and days below
/// eight, and then years.
pub proof fn ages_are_written_in_their_units(s: int)
    requires
        s >= 0,
    ensures
        s < 120 ==> human(s) == signed(s) + "s"@,
        120 <= s < 600 ==> human(s) == signed(s / 60) + "m"@ + (if s % 60 == 0 {
            Seq::empty()
        } else {
            signed(s % 60) + "s"@
        }),
        600 <= s < 10_800 ==> human(s) == signed(s / 60) + "m"@,
        10_800 <= s < 28_800 ==> human(s) == signed(s / 3600) + "h"@ + (if s % 3600 < 60 {
            Seq::empty()
        } else {
            signed((s % 3600) / 60) + "m"@
        }),
        28_800 <= s < 172_800 ==> human(s) == signed(s / 3600) + "h"@,
        172_800 <= s < 691_200 ==> human(s) == signed(s / 86_400) + "d"@ + (if s % 86_400 < 3600 {
            Seq::empty()
        } else {
            signed((s % 86_400) / 3600) + "h"@
        }),
        691_200 <= s < 63_072_000 ==> human(s) == signed(s / 86_400) + "d"@,
        63_072_000 <= s < 252_288_000 ==> human(s) == signed(s / 31_536_000) + "y"@ + (if s
            % 31_536_000 < 86_400 {
            Seq::empty()
        } else {
            signed((s % 31_536_000) / 86_400) + "d"@
        }),
        s >= 252_288_000 ==> human(s) == signed(s / 31_536_000) + "y"@,
{
    let text = human(s);
    assert(text + Seq::<char>::empty() =~= text);
    assert(s / 3600 == (s / 60) / 60);
    assert((s / 60) % 60 == (s % 3600) / 60);
    assert((s / 3600) / 24 == s / 86_400);
    assert((s / 3600) % 24 == (s % 86_400) / 3600);
    assert((s / 86_400) / 365 == s / 31_536_000);
    assert((s / 86_400) % 365 == (s % 31_536_000) / 86_400);
}

/// An event says its type, its reason and its message as they are written, and
/// nothing where they are not.
pub proof fn an_event_says_what_happened(event: JsonView, now: int, text: Seq<char>)
    ensures
        event.get("type"@) == Some(JsonView::Str(text)) ==> event_of(event, now).kind == text,
        event.get("reason"@) == Some(JsonView::Str(text)) ==> event_of(event, now).reason == text,
        event.get("message"@) == Some(JsonView::Str(text)) ==> event_of(event, now).message == text,
        event.get("type"@) is None ==> event_of(event, now).kind.len() == 0,
        event.get("reason"@) is None ==> event_of(event, now).reason.len() == 0,
        event.get("message"@) is None ==> event_of(event, now).message.len() == 0,
{
}

} // verus!
