//! What the columns of the built-in kinds promise, from what the API says to
//! what is printed.
use vstd::prelude::*;

use crate::base::decimal::{decimal, signed};
use crate::base::json::{part, JsonView};
use crate::base::list::{kept, kept_from, kept_holds};
use crate::base::meta::MetaView;
use crate::base::sort::{ascending, text_order, text_order_total};
use crate::base::text::{joined, precedes};
use crate::columns::age::age_at;
use crate::columns::builtin::{
    address_reader, host_reader, job_outcome, listed, mode_text, modes_text, pair_reader,
    port_reader, role_reader, selector_entry, shown, text_reader, Computed,
};
use crate::columns::event::event_of;
use crate::columns::laws::{kept_at, names, says};

verus! {

/// What a column shows.
pub open spec fn cell(c: Computed, meta: MetaView, data: JsonView, now: int) -> Option<Seq<char>> {
    shown(c, meta, data, now)
}

/// A field of a part of an object.
pub open spec fn field_at(data: JsonView, a: Seq<char>, b: Seq<char>) -> Option<JsonView> {
    part(data.get(a), b)
}

/// Whether a column shows a field as it is where that holds a number, and a
/// default where the field is missing.
pub open spec fn counts(
    c: Computed,
    meta: MetaView,
    data: JsonView,
    now: int,
    field: Option<JsonView>,
    default: int,
) -> bool {
    &&& field matches Some(JsonView::Int(n)) ==> shown(c, meta, data, now) == Some(signed(n))
    &&& field is None ==> shown(c, meta, data, now) == Some(signed(default))
}

/// Each column of replicas shows the number of its own field. A number that is
/// missing is zero, but for the replicas that are wanted: that is one.
pub proof fn counters_show_their_field(meta: MetaView, data: JsonView, now: int)
    ensures
        counts(
            Computed::UpdatedReplicas,
            meta,
            data,
            now,
            field_at(data, "status"@, "updatedReplicas"@),
            0,
        ),
        counts(
            Computed::AvailableReplicas,
            meta,
            data,
            now,
            field_at(data, "status"@, "availableReplicas"@),
            0,
        ),
        counts(
            Computed::DesiredReplicas,
            meta,
            data,
            now,
            field_at(data, "spec"@, "replicas"@),
            1,
        ),
        counts(
            Computed::CurrentReplicas,
            meta,
            data,
            now,
            field_at(data, "status"@, "replicas"@),
            0,
        ),
        counts(
            Computed::ReadyReplicas,
            meta,
            data,
            now,
            field_at(data, "status"@, "readyReplicas"@),
            0,
        ),
        counts(
            Computed::DesiredScheduled,
            meta,
            data,
            now,
            field_at(data, "status"@, "desiredNumberScheduled"@),
            0,
        ),
        counts(
            Computed::CurrentScheduled,
            meta,
            data,
            now,
            field_at(data, "status"@, "currentNumberScheduled"@),
            0,
        ),
        counts(
            Computed::ScheduledReady,
            meta,
            data,
            now,
            field_at(data, "status"@, "numberReady"@),
            0,
        ),
        counts(
            Computed::UpdatedScheduled,
            meta,
            data,
            now,
            field_at(data, "status"@, "updatedNumberScheduled"@),
            0,
        ),
        counts(
            Computed::ScheduledAvailable,
            meta,
            data,
            now,
            field_at(data, "status"@, "numberAvailable"@),
            0,
        ),
{
}

/// What is ready stands in front of what is wanted: of replicas, and of the
/// completions of a job.
pub proof fn ratios_say_how_many_of_how_many(
    meta: MetaView,
    data: JsonView,
    now: int,
    have: int,
    want: int,
)
    ensures
        ({
            let ready = field_at(data, "status"@, "readyReplicas"@);
            let wanted = field_at(data, "spec"@, "replicas"@);
            ((ready == Some(JsonView::Int(have)) || (ready is None && have == 0)) && (wanted
                == Some(JsonView::Int(want)) || (wanted is None && want == 1))) ==> cell(
                Computed::ReadyRatio,
                meta,
                data,
                now,
            ) == Some(signed(have) + "/"@ + signed(want))
        }),
        ({
            let succeeded = field_at(data, "status"@, "succeeded"@);
            let completions = field_at(data, "spec"@, "completions"@);
            ((succeeded == Some(JsonView::Int(have)) || (succeeded is None && have == 0)) && (
            completions == Some(JsonView::Int(want)) || (completions is None && want == 1)))
                ==> cell(Computed::JobCompletions, meta, data, now) == Some(
                signed(have) + "/"@ + signed(want),
            )
        }),
{
}

/// Whether a column shows the text of a field, and nothing where that is empty
/// or missing.
pub open spec fn shows_text(
    c: Computed,
    meta: MetaView,
    data: JsonView,
    now: int,
    field: Option<JsonView>,
) -> bool {
    &&& field matches Some(JsonView::Str(text)) ==> shown(c, meta, data, now) == (if text.len()
        > 0 {
        Some(text)
    } else {
        None
    })
    &&& field is None ==> shown(c, meta, data, now) is None
}

/// Each column that shows a field shows the text of its own.
pub proof fn texts_show_their_field(meta: MetaView, data: JsonView, now: int)
    ensures
        shows_text(
            Computed::CronSchedule,
            meta,
            data,
            now,
            field_at(data, "spec"@, "schedule"@),
        ),
        shows_text(Computed::ServiceType, meta, data, now, field_at(data, "spec"@, "type"@)),
        shows_text(Computed::ClusterIp, meta, data, now, field_at(data, "spec"@, "clusterIP"@)),
        shows_text(
            Computed::IngressClass,
            meta,
            data,
            now,
            field_at(data, "spec"@, "ingressClassName"@),
        ),
        shows_text(
            Computed::KubeletVersion,
            meta,
            data,
            now,
            part(field_at(data, "status"@, "nodeInfo"@), "kubeletVersion"@),
        ),
        shows_text(Computed::Phase, meta, data, now, field_at(data, "status"@, "phase"@)),
        shows_text(Computed::SecretType, meta, data, now, data.get("type"@)),
        shows_text(Computed::VolumeName, meta, data, now, field_at(data, "spec"@, "volumeName"@)),
        shows_text(
            Computed::Capacity,
            meta,
            data,
            now,
            part(field_at(data, "status"@, "capacity"@), "storage"@),
        ),
        shows_text(
            Computed::StorageClass,
            meta,
            data,
            now,
            field_at(data, "spec"@, "storageClassName"@),
        ),
        ({
            let event = event_of(data, now);
            &&& cell(Computed::EventType, meta, data, now) == Some(event.kind)
            &&& cell(Computed::EventReason, meta, data, now) == Some(event.reason)
            &&& cell(Computed::EventObject, meta, data, now) == Some(event.object)
            &&& cell(Computed::EventMessage, meta, data, now) == Some(event.message)
            &&& data.get("type"@) matches Some(JsonView::Str(text)) ==> event.kind == text
            &&& data.get("reason"@) matches Some(JsonView::Str(text)) ==> event.reason == text
            &&& data.get("message"@) matches Some(JsonView::Str(text)) ==> event.message == text
            &&& data.get("type"@) is None ==> event.kind.len() == 0
            &&& data.get("reason"@) is None ==> event.reason.len() == 0
            &&& data.get("message"@) is None ==> event.message.len() == 0
        }),
{
}

/// How many entries a map has; none where there is no map.
pub open spec fn map_size(j: Option<JsonView>) -> nat {
    match j {
        Some(JsonView::Object(entries)) => entries.len(),
        _ => 0,
    }
}

/// How many elements a list has; none where there is no list.
pub open spec fn list_size(j: Option<JsonView>) -> nat {
    match j {
        Some(JsonView::Array(items)) => items.len(),
        _ => 0,
    }
}

/// What a column counts it counts in full: a ConfigMap both of its maps.
pub proof fn sizes_are_counted(meta: MetaView, data: JsonView, now: int)
    ensures
        cell(Computed::ConfigMapData, meta, data, now) == Some(
            decimal(map_size(data.get("data"@)) + map_size(data.get("binaryData"@))),
        ),
        cell(Computed::SecretData, meta, data, now) == Some(decimal(map_size(data.get("data"@)))),
        cell(Computed::Secrets, meta, data, now) == Some(decimal(list_size(data.get("secrets"@)))),
        cell(Computed::CronActive, meta, data, now) == Some(
            decimal(list_size(field_at(data, "status"@, "active"@))),
        ),
{
}

proof fn outcome_found(list: Seq<(Seq<char>, Seq<char>)>, from: int, n: int)
    requires
        0 <= from <= n < list.len(),
        list[n].1 == "True"@,
        list[n].0 == "Complete"@ || list[n].0 == "Failed"@,
        forall|m: int|
            from <= m < n ==> !((#[trigger] list[m]).1 == "True"@ && (list[m].0 == "Complete"@
                || list[m].0 == "Failed"@)),
    ensures
        job_outcome(list, from) == Some(list[n].0),
    decreases n - from,
{
    if from < n {
        outcome_found(list, from + 1, n);
    }
}

proof fn outcome_absent(list: Seq<(Seq<char>, Seq<char>)>, from: int)
    requires
        0 <= from <= list.len(),
        forall|m: int|
            from <= m < list.len() ==> !((#[trigger] list[m]).1 == "True"@ && (list[m].0
                == "Complete"@ || list[m].0 == "Failed"@)),
    ensures
        job_outcome(list, from) is None,
    decreases list.len() - from,
{
    if from < list.len() {
        outcome_absent(list, from + 1);
    }
}

/// Whether a condition says how a job ended.
pub open spec fn ends_job(condition: JsonView) -> bool {
    says(condition, "Complete"@, "True"@) || says(condition, "Failed"@, "True"@)
}

/// A job is what the first of its conditions says that is true and says how it
/// ended. Without one it is suspended where it says so, and running otherwise.
pub proof fn a_job_is_as_its_conditions_say(
    meta: MetaView,
    data: JsonView,
    now: int,
    conditions: Seq<JsonView>,
    k: int,
)
    requires
        field_at(data, "status"@, "conditions"@) == Some(JsonView::Array(conditions)) || (field_at(
            data,
            "status"@,
            "conditions"@,
        ) is None && conditions.len() == 0),
        0 <= k <= conditions.len(),
        k < conditions.len() ==> ends_job(conditions[k]),
        forall|i: int| 0 <= i < k ==> !ends_job(#[trigger] conditions[i]),
    ensures
        cell(Computed::JobStatus, meta, data, now) == Some(
            if k < conditions.len() && says(conditions[k], "Complete"@, "True"@) {
                "Complete"@
            } else if k < conditions.len() {
                "Failed"@
            } else if field_at(data, "spec"@, "suspend"@) == Some(JsonView::Bool(true)) {
                "Suspended"@
            } else {
                "Running"@
            },
        ),
{
    let list = kept(conditions, pair_reader());
    let front = kept(conditions.take(k), pair_reader());
    assert forall|m: int| 0 <= m < front.len() implies !((#[trigger] front[m]).1 == "True"@ && (
    front[m].0 == "Complete"@ || front[m].0 == "Failed"@)) by {
        assert(front.contains(front[m]));
        kept_from(conditions.take(k), pair_reader(), front[m]);
        let i = choose|i: int|
            0 <= i < conditions.take(k).len() && pair_reader()(#[trigger] conditions.take(k)[i])
                == Some(front[m]);
        assert(conditions.take(k)[i] == conditions[i]);
        assert(!ends_job(conditions[i]));
    }
    if k < conditions.len() {
        let n = kept_at(conditions, pair_reader(), k);
        outcome_found(list, 0, n);
    } else {
        assert(conditions.take(k) =~= conditions);
        outcome_absent(list, 0);
    }
}

/// A job has taken from its start to its completion, and until now while it has
/// not completed. A cron job last ran when it was last scheduled.
pub proof fn jobs_tell_time(meta: MetaView, data: JsonView, now: int, start: int, end: int)
    ensures
        ({
            let started = field_at(data, "status"@, "startTime"@);
            let completed = field_at(data, "status"@, "completionTime"@);
            let duration = cell(Computed::JobDuration, meta, data, now);
            &&& names(started, start) && names(completed, end) ==> duration == Some(
                age_at(end, start),
            )
            &&& names(started, start) && completed is None ==> duration == Some(age_at(now, start))
            &&& started is None ==> duration is None
        }),
        ({
            let last = field_at(data, "status"@, "lastScheduleTime"@);
            let shown = cell(Computed::CronLastSchedule, meta, data, now);
            &&& names(last, start) ==> shown == Some(age_at(now, start))
            &&& last is None ==> shown is None
        }),
        cell(Computed::CronSuspend, meta, data, now) == Some(
            if field_at(data, "spec"@, "suspend"@) == Some(JsonView::Bool(true)) {
                "True"@
            } else {
                "False"@
            },
        ),
{
}

/// Whether two objects differ in a list alone, which has one more element in the
/// second.
pub open spec fn one_more(
    a: Option<JsonView>,
    b: Option<JsonView>,
    list: Seq<JsonView>,
    extra: JsonView,
) -> bool {
    a == Some(JsonView::Array(list)) && b == Some(JsonView::Array(list.push(extra)))
}

/// Whether a list of texts grows by one: the text alone where there was none,
/// and else with a comma in front of it.
pub open spec fn grows(before: Option<Seq<char>>, after: Option<Seq<char>>, text: Seq<char>) -> bool {
    match before {
        None => after == Some(text),
        Some(shown) => after == Some(shown + ","@ + text),
    }
}

proof fn listed_grows(list: Seq<JsonView>, extra: JsonView, pick: spec_fn(JsonView) -> Option<Seq<char>>)
    requires
        pick(extra) is Some,
    ensures
        grows(
            listed(kept(list, pick)),
            listed(kept(list.push(extra), pick)),
            pick(extra)->0,
        ),
{
    let before = kept(list, pick);
    assert(list.push(extra).drop_last() =~= list);
    assert(before.push(pick(extra)->0).drop_last() =~= before);
    reveal_with_fuel(joined, 2);
}

/// What a port reads as: its number, its node port where it has one, and its
/// protocol, which is TCP where it does not say.
pub open spec fn port_text(port: int, node_port: Option<int>, protocol: Option<Seq<char>>) -> Seq<char> {
    let shown = match protocol {
        Some(protocol) => protocol,
        None => "TCP"@,
    };
    match node_port {
        Some(node_port) => signed(port) + ":"@ + signed(node_port) + "/"@ + shown,
        None => signed(port) + "/"@ + shown,
    }
}

/// Every port of a service is listed, in their order.
pub proof fn every_port_is_listed(
    meta: MetaView,
    a: JsonView,
    b: JsonView,
    now: int,
    list: Seq<JsonView>,
    extra: JsonView,
    port: int,
)
    requires
        one_more(field_at(a, "spec"@, "ports"@), field_at(b, "spec"@, "ports"@), list, extra),
        extra.get("port"@) == Some(JsonView::Int(port)),
    ensures
        ({
            let before = cell(Computed::ServicePorts, meta, a, now);
            let after = cell(Computed::ServicePorts, meta, b, now);
            let plain = extra.get("nodePort"@) is None;
            let unsaid = extra.get("protocol"@) is None;
            &&& plain && unsaid ==> grows(before, after, port_text(port, None, None))
            &&& extra.get("nodePort"@) matches Some(JsonView::Int(n)) ==> unsaid ==> grows(
                before,
                after,
                port_text(port, Some(n), None),
            )
            &&& extra.get("protocol"@) matches Some(JsonView::Str(p)) ==> plain ==> grows(
                before,
                after,
                port_text(port, None, Some(p)),
            )
            &&& extra.get("protocol"@) matches Some(JsonView::Str(p)) ==> (extra.get("nodePort"@)
                matches Some(JsonView::Int(n)) ==> grows(
                before,
                after,
                port_text(port, Some(n), Some(p)),
            ))
            &&& list.len() == 0 ==> before is None
        }),
{
    listed_grows(list, extra, port_reader());
}

/// Every rule of an ingress shows its host, and a star where it has none. It
/// serves 443 as well exactly if it has TLS.
pub proof fn every_host_is_listed(
    meta: MetaView,
    a: JsonView,
    b: JsonView,
    now: int,
    list: Seq<JsonView>,
    extra: JsonView,
)
    ensures
        one_more(field_at(a, "spec"@, "rules"@), field_at(b, "spec"@, "rules"@), list, extra) ==> ({
            let before = cell(Computed::IngressHosts, meta, a, now);
            let after = cell(Computed::IngressHosts, meta, b, now);
            &&& extra.get("host"@) matches Some(JsonView::Str(host)) ==> grows(before, after, host)
            &&& extra.get("host"@) is None ==> grows(before, after, "*"@)
            &&& list.len() == 0 ==> before is None
        }),
        cell(Computed::IngressPorts, meta, a, now) == Some(
            if list_size(field_at(a, "spec"@, "tls"@)) > 0 {
                "80, 443"@
            } else {
                "80"@
            },
        ),
{
    if one_more(field_at(a, "spec"@, "rules"@), field_at(b, "spec"@, "rules"@), list, extra) {
        listed_grows(list, extra, host_reader());
    }
}

/// Every address of a load balancer is listed: its IP, and its host name where
/// it has none. So it is for an ingress; a service of another type shows the IPs
/// it declares.
pub proof fn every_address_is_listed(
    meta: MetaView,
    a: JsonView,
    b: JsonView,
    now: int,
    list: Seq<JsonView>,
    extra: JsonView,
)
    ensures
        one_more(
            part(field_at(a, "status"@, "loadBalancer"@), "ingress"@),
            part(field_at(b, "status"@, "loadBalancer"@), "ingress"@),
            list,
            extra,
        ) ==> ({
            let before = cell(Computed::IngressAddress, meta, a, now);
            let after = cell(Computed::IngressAddress, meta, b, now);
            &&& extra.get("ip"@) matches Some(JsonView::Str(ip)) ==> grows(before, after, ip)
            &&& extra.get("ip"@) is None ==> (extra.get("hostname"@) matches Some(
                JsonView::Str(name),
            ) ==> grows(before, after, name))
            &&& list.len() == 0 ==> before is None
        }),
        one_more(
            field_at(a, "spec"@, "externalIPs"@),
            field_at(b, "spec"@, "externalIPs"@),
            list,
            extra,
        ) && field_at(a, "spec"@, "type"@) == Some(JsonView::Str("ClusterIP"@)) && field_at(
            b,
            "spec"@,
            "type"@,
        ) == Some(JsonView::Str("ClusterIP"@)) ==> ({
            let before = cell(Computed::ExternalIps, meta, a, now);
            let after = cell(Computed::ExternalIps, meta, b, now);
            &&& extra matches JsonView::Str(ip) ==> grows(before, after, ip)
            &&& list.len() == 0 ==> before is None
        }),
{
    reveal_strlit("ClusterIP");
    reveal_strlit("LoadBalancer");
    reveal_strlit("ExternalName");
    assert("ClusterIP"@.len() == 9 && "LoadBalancer"@.len() == 12 && "ExternalName"@.len() == 12);
    if extra.get("ip"@) matches Some(JsonView::Str(ip)) {
        listed_grows(list, extra, address_reader());
    }
    if extra.get("ip"@) is None && extra.get("hostname"@) is Some && extra.get("hostname"@)->0
        is Str {
        listed_grows(list, extra, address_reader());
    }
    if extra is Str {
        listed_grows(list, extra, text_reader());
    }
}

/// A service that is another name shows that name. One with a load balancer
/// shows the balancer's addresses and then the IPs it declares, and is pending
/// while it has neither.
pub proof fn a_service_shows_where_it_is_reached(
    meta: MetaView,
    data: JsonView,
    now: int,
    balanced: Seq<JsonView>,
    declared: Seq<JsonView>,
    texts: Seq<Seq<char>>,
)
    ensures
        field_at(data, "spec"@, "type"@) == Some(JsonView::Str("ExternalName"@)) ==> shows_text(
            Computed::ExternalIps,
            meta,
            data,
            now,
            field_at(data, "spec"@, "externalName"@),
        ),
        field_at(data, "spec"@, "type"@) == Some(JsonView::Str("LoadBalancer"@)) && part(
            field_at(data, "status"@, "loadBalancer"@),
            "ingress"@,
        ) is None && field_at(data, "spec"@, "externalIPs"@) is None ==> cell(
            Computed::ExternalIps,
            meta,
            data,
            now,
        ) == Some("<pending>"@),
        field_at(data, "spec"@, "type"@) == Some(JsonView::Str("LoadBalancer"@)) && part(
            field_at(data, "status"@, "loadBalancer"@),
            "ingress"@,
        ) == Some(JsonView::Array(balanced)) && field_at(data, "spec"@, "externalIPs"@) == Some(
            JsonView::Array(declared),
        ) && texts.len() == balanced.len() + declared.len() && texts.len() > 0 && (forall|i: int|
            0 <= i < balanced.len() ==> (#[trigger] balanced[i]).get("ip"@) == Some(
                JsonView::Str(texts[i]),
            )) && (forall|i: int|
            0 <= i < declared.len() ==> #[trigger] declared[i] == JsonView::Str(
                texts[balanced.len() + i],
            )) ==> cell(Computed::ExternalIps, meta, data, now) == Some(joined(texts, ","@)),
{
    reveal_strlit("LoadBalancer");
    reveal_strlit("ExternalName");
    assert("LoadBalancer"@.len() == 12 && "ExternalName"@.len() == 12);
    assert("LoadBalancer"@[0] == 'L' && "ExternalName"@[0] == 'E');
    let a = kept(balanced, address_reader());
    let b = kept(declared, text_reader());
    if texts.len() == balanced.len() + declared.len() && (forall|i: int|
        0 <= i < balanced.len() ==> (#[trigger] balanced[i]).get("ip"@) == Some(
            JsonView::Str(texts[i]),
        )) && (forall|i: int|
        0 <= i < declared.len() ==> #[trigger] declared[i] == JsonView::Str(
            texts[balanced.len() + i],
        )) {
        assert forall|i: int| 0 <= i < balanced.len() implies address_reader()(
            #[trigger] balanced[i],
        ) == Some(texts.take(balanced.len() as int)[i]) by {}
        all_kept(balanced, address_reader(), texts.take(balanced.len() as int));
        assert forall|i: int| 0 <= i < declared.len() implies text_reader()(#[trigger] declared[i])
            == Some(texts.skip(balanced.len() as int)[i]) by {}
        all_kept(declared, text_reader(), texts.skip(balanced.len() as int));
        assert(a + b =~= texts);
    }
}

proof fn all_kept<A, B>(list: Seq<A>, pick: spec_fn(A) -> Option<B>, made: Seq<B>)
    requires
        made.len() == list.len(),
        forall|i: int| 0 <= i < list.len() ==> pick(#[trigger] list[i]) == Some(made[i]),
    ensures
        kept(list, pick) == made,
    decreases list.len(),
{
    if list.len() == 0 {
        assert(made =~= Seq::empty());
    } else {
        assert forall|i: int| 0 <= i < list.drop_last().len() implies pick(
            #[trigger] list.drop_last()[i],
        ) == Some(made.drop_last()[i]) by {
            assert(list.drop_last()[i] == list[i]);
        }
        all_kept(list.drop_last(), pick, made.drop_last());
        assert(pick(list[list.len() - 1]) == Some(made[list.len() - 1]));
        assert(made.drop_last().push(made.last()) =~= made);
    }
}

/// Whether a label gives a node a role: the rest of a role label, or the value of
/// the older one.
pub open spec fn gives_role(label: (Seq<char>, Seq<char>), role: Seq<char>) -> bool {
    ||| label.0 == "node-role.kubernetes.io/"@ + role && role.len() > 0
    ||| label.0 == "kubernetes.io/role"@ && label.1 == role && role.len() > 0
}

/// A node shows exactly the roles that its labels give it, in order, and nothing
/// where they give none.
pub proof fn a_node_shows_its_roles(
    meta: MetaView,
    data: JsonView,
    now: int,
    labels: Seq<(Seq<char>, Seq<char>)>,
    role: Seq<char>,
) -> (roles: Seq<Seq<char>>)
    requires
        meta.labels == Some(labels),
    ensures
        roles.contains(role) <==> exists|i: int|
            0 <= i < labels.len() && gives_role(#[trigger] labels[i], role),
        forall|i: int, j: int| 0 <= i < j < roles.len() ==> !precedes(#[trigger] roles[j], #[trigger] roles[i]),
        cell(Computed::NodeRoles, meta, data, now) == (if roles.len() == 0 {
            None
        } else {
            Some(joined(roles, ","@))
        }),
{
    let found = kept(labels, role_reader());
    let roles = ascending(found);
    text_order_total();
    found.lemma_sort_by_ensures(text_order());
    assert(found.to_multiset() == roles.to_multiset());
    assert(found.len() == roles.len()) by {
        found.to_multiset_ensures();
        roles.to_multiset_ensures();
    }
    found.to_multiset_ensures();
    roles.to_multiset_ensures();
    let prefix = "node-role.kubernetes.io/"@;
    let old_label = "kubernetes.io/role"@;
    reveal_strlit("node-role.kubernetes.io/");
    reveal_strlit("kubernetes.io/role");
    assert(prefix[0] == 'n' && old_label[0] == 'k');
    assert forall|label: (Seq<char>, Seq<char>)| gives_role(label, role) == (#[trigger] role_reader()(label)
        == Some(role)) by {
        if label.0 == prefix + role {
            assert(label.0.skip(prefix.len() as int) =~= role);
        }
        if prefix.is_prefix_of(label.0) {
            assert(label.0 =~= prefix + label.0.skip(prefix.len() as int));
        }
    }
    if roles.contains(role) {
        assert(roles.to_multiset().count(role) > 0);
        assert(found.contains(role));
        kept_from(labels, role_reader(), role);
        let i = choose|i: int|
            0 <= i < labels.len() && role_reader()(#[trigger] labels[i]) == Some(role);
        assert(gives_role(labels[i], role));
    }
    if exists|i: int| 0 <= i < labels.len() && gives_role(#[trigger] labels[i], role) {
        let i = choose|i: int| 0 <= i < labels.len() && gives_role(#[trigger] labels[i], role);
        assert(role_reader()(labels[i]) == Some(role));
        kept_holds(labels, role_reader(), i);
        assert(found.to_multiset().count(role) > 0);
        assert(roles.contains(role));
    }
    assert forall|i: int, j: int| 0 <= i < j < roles.len() implies !precedes(
        #[trigger] roles[j],
        #[trigger] roles[i],
    ) by {
        assert(text_order()(roles[i], roles[j]));
    }
    roles
}

/// A binding shows the kind and the name of what it binds.
pub proof fn a_binding_shows_what_it_binds(meta: MetaView, data: JsonView, now: int)
    ensures
        part(data.get("roleRef"@), "kind"@) matches Some(JsonView::Str(kind)) ==> (part(
            data.get("roleRef"@),
            "name"@,
        ) matches Some(JsonView::Str(name)) ==> cell(Computed::RoleRef, meta, data, now) == Some(
            kind + "/"@ + name,
        )),
        data.get("roleRef"@) is None ==> cell(Computed::RoleRef, meta, data, now) is None,
{
}

/// Every access mode of a claim is shown by its abbreviation, in their order and
/// with nothing between them; one that has none is left out.
pub proof fn every_access_mode_is_shown(
    meta: MetaView,
    a: JsonView,
    b: JsonView,
    now: int,
    list: Seq<JsonView>,
    mode: Seq<char>,
)
    requires
        one_more(
            field_at(a, "status"@, "accessModes"@),
            field_at(b, "status"@, "accessModes"@),
            list,
            JsonView::Str(mode),
        ),
    ensures
        ({
            let before = match cell(Computed::AccessModes, meta, a, now) {
                Some(shown) => shown,
                None => Seq::empty(),
            };
            let after = cell(Computed::AccessModes, meta, b, now);
            &&& mode == "ReadWriteOnce"@ ==> after == Some(before + "RWO"@)
            &&& mode == "ReadOnlyMany"@ ==> after == Some(before + "ROX"@)
            &&& mode == "ReadWriteMany"@ ==> after == Some(before + "RWX"@)
            &&& mode == "ReadWriteOncePod"@ ==> after == Some(before + "RWOP"@)
            &&& (mode != "ReadWriteOnce"@ && mode != "ReadOnlyMany"@ && mode != "ReadWriteMany"@
                && mode != "ReadWriteOncePod"@) ==> after == Some(before)
            &&& list.len() == 0 ==> cell(Computed::AccessModes, meta, a, now) is None
        }),
{
    reveal_strlit("ReadWriteOnce");
    reveal_strlit("ReadOnlyMany");
    reveal_strlit("ReadWriteMany");
    reveal_strlit("ReadWriteOncePod");
    assert("ReadWriteOnce"@.len() == 13 && "ReadOnlyMany"@.len() == 12 && "ReadWriteMany"@.len()
        == 13 && "ReadWriteOncePod"@.len() == 16);
    assert("ReadWriteOnce"@[9] == 'O' && "ReadWriteMany"@[9] == 'M');
    let modes = kept(list, text_reader());
    assert(list.push(JsonView::Str(mode)).drop_last() =~= list);
    assert(modes.push(mode).drop_last() =~= modes);
    reveal_strlit("");
    assert(modes_text(modes) + ""@ =~= modes_text(modes));
    assert(kept(list.push(JsonView::Str(mode)), text_reader()) == modes.push(mode));
    assert(modes_text(modes.push(mode)) == modes_text(modes) + mode_text(mode));
}

/// The class in effect is shown, else the one that is asked for, else that none
/// is set.
pub proof fn the_class_in_effect_is_shown(meta: MetaView, data: JsonView, now: int)
    ensures
        ({
            let current = field_at(data, "status"@, "currentVolumeAttributesClassName"@);
            let wanted = field_at(data, "spec"@, "volumeAttributesClassName"@);
            let shown = cell(Computed::AttributesClass, meta, data, now);
            &&& current matches Some(JsonView::Str(class)) ==> class.len() > 0 ==> shown == Some(
                class,
            )
            &&& current is None ==> (wanted matches Some(JsonView::Str(class)) ==> class.len() > 0
                ==> shown == Some(class))
            &&& current is None && wanted is None ==> shown == Some("<unset>"@)
        }),
{
}

/// Every entry of a node selector is listed with its value.
pub proof fn every_selector_is_listed(
    meta: MetaView,
    a: JsonView,
    b: JsonView,
    now: int,
    entries: Seq<(Seq<char>, JsonView)>,
    key: Seq<char>,
    value: Seq<char>,
)
    requires
        part(part(field_at(a, "spec"@, "template"@), "spec"@), "nodeSelector"@) == Some(
            JsonView::Object(entries),
        ),
        part(part(field_at(b, "spec"@, "template"@), "spec"@), "nodeSelector"@) == Some(
            JsonView::Object(entries.push((key, JsonView::Str(value)))),
        ),
    ensures
        grows(
            cell(Computed::NodeSelector, meta, a, now),
            cell(Computed::NodeSelector, meta, b, now),
            key + "="@ + value,
        ),
        entries.len() == 0 ==> cell(Computed::NodeSelector, meta, a, now) is None,
{
    let show = |e: (Seq<char>, JsonView)| selector_entry(e);
    let more = entries.push((key, JsonView::Str(value)));
    let before = entries.map_values(show);
    let after = more.map_values(show);
    assert(after =~= before.push(key + "="@ + value));
    assert(after.drop_last() =~= before);
    reveal_with_fuel(joined, 2);
}

} // verus!
