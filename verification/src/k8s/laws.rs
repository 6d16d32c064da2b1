//! What is promised of permissions, of a session's health, of its watches and
//! forwards, and of what a cluster serves.
use vstd::prelude::*;

use crate::base::decimal::{decimal, signed};
use crate::base::dict::row_below;
use crate::base::json::{part, JsonView};
use crate::base::laws::a_cut_is_at_the_first_mark;
use crate::base::list::{kept, kept_from, kept_holds};
use crate::base::meta::MetaView;
use crate::base::text::{byte_length, cut, occurs, precedes, precedes_irreflexive, stands_at};
use crate::k8s::access::{any_reaches, grants, permits, reaches, RuleView, RulesView};
use crate::k8s::config::{entry_of, NamedView};
use crate::k8s::connection::columns_key;
use crate::k8s::discovery::{
    crd_view, declared_for, gvk_of, kind_order, kind_row, listable, means, named, version_named,
    KindView,
};
use crate::k8s::forward::{address_of, not_to, other_than, recounted, ForwardView};
use crate::k8s::ops::{applies, description, resource_of, summary_of, verb_of, Operation};
use crate::k8s::resources::{api_version_of, core_resource, GvkView, ObjectView, ResourceView};
use crate::k8s::session::{
    after_end, after_failure, after_success, place_of, HealthView, ReporterView, StateView,
};
use crate::k8s::store::{
    applied_all_in, applied_in, indexed, other_annotations, ref_of, ref_text, slimmed, DeltaView,
    RefView, StoreView,
};
use crate::k8s::watch::{
    flushed, found_watch, holds_list, left_by, released, reported, stepped, subscribed,
    CoalescerView, EventView, RegistryView, SignalView, WatchKeyView, WatchView,
};

verus! {

/// Whether a text is plain: no star in it.
pub open spec fn starless(text: Seq<char>) -> bool {
    !text.contains('*')
}

/// A rule without stars grants exactly the verbs on exactly the resources of
/// exactly the groups that it names. One that is limited to some objects by name
/// grants nothing here.
pub proof fn a_rule_grants_what_it_names(
    rule: RuleView,
    verb: Seq<char>,
    group: Seq<char>,
    resource: Seq<char>,
)
    requires
        forall|i: int| 0 <= i < rule.verbs.len() ==> starless(#[trigger] rule.verbs[i]),
        forall|i: int| 0 <= i < rule.api_groups.len() ==> starless(#[trigger] rule.api_groups[i]),
        forall|i: int| 0 <= i < rule.resources.len() ==> starless(#[trigger] rule.resources[i]),
    ensures
        grants(rule, verb, group, resource) <==> {
            &&& rule.verbs.contains(verb)
            &&& rule.api_groups.contains(group)
            &&& rule.resources.contains(resource)
            &&& rule.resource_names.len() == 0
        },
{
    reveal_strlit("*");
    assert("*"@[0] == '*');
    assert("*"@.contains('*'));
    assert forall|pattern: Seq<char>| starless(pattern) implies #[trigger] reaches(pattern, resource)
        == (pattern == resource) by {
        a_cut_is_at_the_first_mark(pattern, "/"@);
        if let Some((front, back)) = cut(pattern, "/"@) {
            if front == "*"@ {
                assert(pattern == front + "/"@ + back);
                assert(pattern[0] == '*');
            }
        }
    }
    if rule.resources.contains(resource) {
        let i = choose|i: int| 0 <= i < rule.resources.len() && rule.resources[i] == resource;
        assert(reaches(rule.resources[i], resource));
    }
    if any_reaches(rule.resources, resource) {
        let i = choose|i: int|
            0 <= i < rule.resources.len() && reaches(#[trigger] rule.resources[i], resource);
        assert(starless(rule.resources[i]));
        assert(rule.resources[i] == resource);
    }
}

/// A star for any name, with a subresource behind it, reaches that subresource
/// of everything, and nothing else: neither another subresource nor a resource
/// itself.
pub proof fn a_star_reaches_one_subresource(sub: Seq<char>, name: Seq<char>, wanted: Seq<char>)
    requires
        !name.contains('/'),
    ensures
        reaches("*/"@ + sub, name + "/"@ + wanted) <==> wanted == sub,
        !reaches("*/"@ + sub, name),
{
    reveal_strlit("*");
    reveal_strlit("/");
    reveal_strlit("*/");
    let pattern = "*/"@ + sub;
    let whole = name + "/"@ + wanted;
    a_cut_is_at_the_first_mark(pattern, "/"@);
    a_cut_is_at_the_first_mark(whole, "/"@);
    a_cut_is_at_the_first_mark(name, "/"@);
    assert(pattern.subrange(1, 2) =~= "/"@);
    assert(stands_at("/"@, pattern, 1));
    assert(occurs("/"@, pattern));
    let (front, back) = cut(pattern, "/"@)->0;
    assert(front.len() <= 1);
    assert(pattern[front.len() as int] == (front + "/"@ + back)[front.len() as int]);
    assert(front.len() == 1) by {
        if front.len() == 0 {
            assert(pattern[0] == '/');
            assert(pattern[0] == '*');
        }
    }
    assert(front =~= "*"@) by {
        assert((front + "/"@ + back)[0] == front[0]);
        assert(pattern[0] == '*');
    }
    assert(back =~= sub) by {
        assert(back =~= pattern.skip(2));
        assert(pattern.skip(2) =~= sub);
    }
    let at = name.len() as int;
    assert(whole.subrange(at, at + 1) =~= "/"@);
    assert(stands_at("/"@, whole, at));
    assert(occurs("/"@, whole));
    let (one, two) = cut(whole, "/"@)->0;
    assert(one.len() <= at);
    assert(whole[one.len() as int] == (one + "/"@ + two)[one.len() as int]);
    if one.len() < at {
        assert(name[one.len() as int] == '/');
    }
    assert(two =~= wanted) by {
        assert(two =~= whole.skip(at + 1));
        assert(whole.skip(at + 1) =~= wanted);
    }
    if let Some((x, y)) = cut(name, "/"@) {
        assert(name == x + "/"@ + y);
        assert(name[x.len() as int] == '/');
    }
}

/// Rules add up: one more permits what it grants itself, and takes nothing away.
pub proof fn rules_add_up(
    rules: RulesView,
    rule: RuleView,
    verb: Seq<char>,
    group: Seq<char>,
    resource: Seq<char>,
)
    ensures
        permits(RulesView { rules: rules.rules.push(rule), ..rules }, verb, group, resource) <==> (
        permits(rules, verb, group, resource) || grants(rule, verb, group, resource)),
        rules.rules.len() == 0 && !rules.incomplete ==> !permits(rules, verb, group, resource),
{
    let all = RulesView { rules: rules.rules.push(rule), ..rules };
    let more = all.rules;
    let n = rules.rules.len() as int;
    assert(more[n] == rule);
    assert(grants(rule, verb, group, resource) ==> grants(more[n], verb, group, resource));
    if exists|i: int| 0 <= i < n && grants(#[trigger] rules.rules[i], verb, group, resource) {
        let i = choose|i: int|
            0 <= i < n && grants(#[trigger] rules.rules[i], verb, group, resource);
        assert(more[i] == rules.rules[i]);
        assert(grants(more[i], verb, group, resource));
    }
    if exists|i: int| 0 <= i < more.len() && grants(#[trigger] more[i], verb, group, resource) {
        let i = choose|i: int|
            0 <= i < more.len() && grants(#[trigger] more[i], verb, group, resource);
        if i < n {
            assert(more[i] == rules.rules[i]);
            assert(grants(rules.rules[i], verb, group, resource));
        }
    }
    assert(all.incomplete == rules.incomplete);
}

proof fn reporter_found(list: Seq<ReporterView>, id: u64, from: int, k: int)
    requires
        0 <= from <= k < list.len(),
        list[k].id == id,
        forall|i: int| from <= i < k ==> (#[trigger] list[i]).id != id,
    ensures
        place_of(list, id, from) == k,
    decreases k - from,
{
    if from < k {
        reporter_found(list, id, from + 1, k);
    }
}

/// A watch that fails makes the session look broken and says which one and why.
/// A watch that works again, or ends, makes it look well exactly if no other one
/// fails, and touches no other one.
pub proof fn a_failure_says_what_and_why(
    s: StateView,
    id: u64,
    error: Seq<char>,
    k: int,
    other: int,
)
    requires
        0 <= k < s.reporters.len(),
        s.reporters[k].id == id,
        forall|i: int| 0 <= i < k ==> (#[trigger] s.reporters[i]).id != id,
        0 <= other < s.reporters.len(),
        other != k,
    ensures
        ({
            let failed = after_failure(s, id, error);
            &&& !s.reporters[k].failing ==> failed.health == (HealthView::Degraded {
                reason: s.reporters[k].what + ": "@ + error,
            })
            &&& failed.reporters.len() == s.reporters.len()
            &&& failed.reporters[k].failing
            &&& failed.reporters[other] == s.reporters[other]
        }),
        ({
            let well = after_success(s, id);
            &&& well.reporters.len() == s.reporters.len()
            &&& !well.reporters[k].failing
            &&& well.reporters[other] == s.reporters[other]
            &&& s.reporters[other].failing ==> well.health == s.health
            &&& s.reporters[k].failing && (forall|i: int|
                0 <= i < s.reporters.len() && i != k ==> !(#[trigger] s.reporters[i]).failing)
                ==> well.health == HealthView::Connected
        }),
        ({
            let gone = after_end(s, id);
            &&& gone.reporters.len() == s.reporters.len() - 1
            &&& gone.reporters == s.reporters.remove(k)
            &&& s.reporters[other].failing ==> gone.health == s.health
            &&& s.reporters[k].failing && (forall|i: int|
                0 <= i < s.reporters.len() && i != k ==> !(#[trigger] s.reporters[i]).failing)
                ==> gone.health == HealthView::Connected
        }),
{
    reporter_found(s.reporters, id, 0, k);
    let well = s.reporters.update(k, ReporterView { failing: false, ..s.reporters[k] });
    let gone = s.reporters.remove(k);
    if s.reporters[other].failing {
        assert(well[other].failing);
        let at = if other < k {
            other
        } else {
            other - 1
        };
        assert(gone[at].failing);
    }
    if forall|i: int|
        0 <= i < s.reporters.len() && i != k ==> !(#[trigger] s.reporters[i]).failing {
        assert forall|i: int| 0 <= i < well.len() implies !(#[trigger] well[i]).failing by {
            if i != k {
                assert(well[i] == s.reporters[i]);
            }
        }
        assert forall|i: int| 0 <= i < gone.len() implies !(#[trigger] gone[i]).failing by {
            if i < k {
                assert(gone[i] == s.reporters[i]);
            } else {
                assert(gone[i] == s.reporters[i + 1]);
            }
        }
    }
}

/// What the API server is asked for: a delete for a delete, a patch for the rest,
/// and for a scale on the subresource.
pub proof fn operations_ask_for_their_verb(op: Operation, plural: Seq<char>)
    ensures
        verb_of(op) == (if op is Delete {
            "delete"@
        } else {
            "patch"@
        }),
        resource_of(op, plural) == (if op is Scale {
            plural + "/scale"@
        } else {
            plural
        }),
        op is Delete ==> description(op) == "Delete"@,
        op is Restart ==> description(op) == "Restart"@,
        op is Apply ==> description(op) == "Apply"@,
        op matches Operation::Scale { replicas } ==> description(op) == "Scale to "@ + signed(
            replicas as int,
        ),
{
}

/// Anything can be deleted and applied; only what rolls out can be restarted, and
/// only what has replicas can be scaled.
pub proof fn operations_apply_where_they_mean_something(
    group: Seq<char>,
    kind: Seq<char>,
    replicas: i32,
)
    ensures
        applies(Operation::Delete, group, kind),
        applies(Operation::Apply, group, kind),
        applies(Operation::Restart, group, kind) <==> group == "apps"@ && (kind == "Deployment"@
            || kind == "StatefulSet"@ || kind == "DaemonSet"@),
        applies(Operation::Scale { replicas }, group, kind) <==> (group == "apps"@ && (kind
            == "Deployment"@ || kind == "StatefulSet"@ || kind == "ReplicaSet"@)) || (group == ""@
            && kind == "ReplicationController"@),
{
}

/// A conflict is summed up by how many fields it is about and who owns them.
pub proof fn a_conflict_says_how_many_and_whose(
    fields: Seq<Seq<char>>,
    managers: Seq<Seq<char>>,
)
    ensures
        ({
            let text = summary_of(fields, managers);
            let count = decimal(fields.len()) + (if fields.len() == 1 {
                " field"@
            } else {
                " fields"@
            });
            &&& fields.len() == 0 ==> text == "This apply conflicts with another field manager."@
            &&& fields.len() > 0 && managers.len() == 0 ==> text == count
                + " owned by another manager"@
            &&& fields.len() > 0 && managers.len() == 1 ==> text == count + " owned by "@
                + managers[0]
            &&& fields.len() > 0 && managers.len() > 1 ==> text == count + " owned by "@ + (decimal(
                managers.len(),
            ) + " managers"@)
        }),
{
}

/// A kind is written with its group, unless that is the core one; its version
/// likewise. It can be shown exactly if it can be listed and watched.
pub proof fn kinds_are_written_with_their_group(kind: KindView, version: Seq<char>)
    ensures
        ({
            let group = kind.resource.group;
            let name = kind.resource.kind;
            &&& group.len() == 0 ==> named(kind) == name
            &&& group.len() > 0 ==> named(kind) == name + " ("@ + (group + ")"@)
            &&& group.len() == 0 ==> api_version_of(group, version) == version
            &&& group.len() > 0 ==> api_version_of(group, version) == group + "/"@ + version
            &&& listable(kind) <==> kind.verbs.contains("list"@) && kind.verbs.contains("watch"@)
            &&& gvk_of(kind) == (GvkView { group, version: kind.resource.version, kind: name })
        }),
{
}

/// Kinds come by their name, and those of one name by their group.
pub proof fn kinds_come_by_name(a: KindView, b: KindView)
    ensures
        precedes(a.resource.kind, b.resource.kind) ==> kind_order()(a, b),
        a.resource.kind == b.resource.kind ==> (kind_order()(a, b) <==> precedes(
            a.resource.group,
            b.resource.group,
        )),
{
    let x = kind_row(a);
    let y = kind_row(b);
    precedes_irreflexive(a.resource.kind);
    precedes_irreflexive(a.resource.group);
    assert(x.drop_first() =~= seq![Some(a.resource.group)]);
    assert(y.drop_first() =~= seq![Some(b.resource.group)]);
    assert(x.drop_first().drop_first() =~= Seq::empty());
    assert(y.drop_first().drop_first() =~= Seq::empty());
    reveal_with_fuel(row_below, 3);
}

proof fn version_found(versions: Seq<JsonView>, name: Seq<char>, from: int, k: int)
    requires
        0 <= from <= k < versions.len(),
        versions[k].get("name"@) == Some(JsonView::Str(name)),
        forall|i: int|
            from <= i < k ==> (#[trigger] versions[i]).get("name"@) != Some(JsonView::Str(name)),
    ensures
        version_named(versions, name, from) == Some(versions[k]),
    decreases k - from,
{
    if from < k {
        version_found(versions, name, from + 1, k);
    }
}

/// The columns of a kind are those that its definition declares for the version
/// that is served.
pub proof fn columns_are_those_of_the_version(
    crd: JsonView,
    versions: Seq<JsonView>,
    name: Seq<char>,
    k: int,
)
    requires
        part(crd.get("spec"@), "versions"@) == Some(JsonView::Array(versions)),
        0 <= k < versions.len(),
        versions[k].get("name"@) == Some(JsonView::Str(name)),
        forall|i: int|
            0 <= i < k ==> (#[trigger] versions[i]).get("name"@) != Some(JsonView::Str(name)),
    ensures
        declared_for(crd, name) == versions[k].get("additionalPrinterColumns"@),
{
    version_found(versions, name, 0, k);
}

/// A context is listed with what it names, unless it names nothing, and is the
/// current one exactly if the configuration says so.
pub proof fn a_context_is_listed_with_what_it_names(named: NamedView, current: Option<Seq<char>>)
    ensures
        named.context is None ==> entry_of(named, current) is None,
        named.context matches Some((cluster, user, namespace)) ==> {
            let entry = entry_of(named, current)->0;
            &&& entry_of(named, current) is Some
            &&& entry.id == named.name
            &&& entry.cluster == cluster
            &&& entry.user == user
            &&& entry.namespace == namespace
            &&& entry.is_current <==> current == Some(named.name)
        },
{
}

/// Closing takes away the forward of that number, or those to that pod, and no
/// other; counting changes the one that is counted. A forward is reached on this
/// machine alone, at its local port.
pub proof fn closing_takes_only_what_is_closed(
    list: Seq<ForwardView>,
    f: ForwardView,
    id: u64,
    namespace: Seq<char>,
    pod: Seq<char>,
    connections: usize,
)
    ensures
        kept(list, other_than(id)).contains(f) <==> list.contains(f) && f.id != id,
        kept(list, not_to(namespace, pod)).contains(f) <==> list.contains(f) && !(f.namespace
            == namespace && f.pod == pod),
        recounted(id, connections)(f) == (if f.id == id {
            ForwardView { connections, ..f }
        } else {
            f
        }),
        address_of(f) == "127.0.0.1:"@ + decimal(f.local_port as nat),
{
    if list.contains(f) {
        let i = choose|i: int| 0 <= i < list.len() && list[i] == f;
        if f.id != id {
            kept_holds(list, other_than(id), i);
        }
        if !(f.namespace == namespace && f.pod == pod) {
            kept_holds(list, not_to(namespace, pod), i);
        }
    }
    if kept(list, other_than(id)).contains(f) {
        kept_from(list, other_than(id), f);
        let i = choose|i: int|
            0 <= i < list.len() && other_than(id)(#[trigger] list[i]) == Some(f);
        assert(list[i] == f);
    }
    if kept(list, not_to(namespace, pod)).contains(f) {
        kept_from(list, not_to(namespace, pod), f);
        let i = choose|i: int|
            0 <= i < list.len() && not_to(namespace, pod)(#[trigger] list[i]) == Some(f);
        assert(list[i] == f);
    }
}

/// An object is known by its namespace and its name, and written so.
pub proof fn an_object_is_known_by_namespace_and_name(object: ObjectView, r: RefView)
    ensures
        ref_of(object).namespace == object.metadata.namespace,
        object.metadata.name matches Some(name) ==> ref_of(object).name == name,
        object.metadata.name is None ==> ref_of(object).name.len() == 0,
        r.namespace matches Some(namespace) ==> ref_text(r) == namespace + "/"@ + r.name,
        r.namespace is None ==> ref_text(r) == r.name,
{
}

/// A list makes each of its objects known, the last where several are the same,
/// and nothing else.
pub proof fn a_list_makes_its_objects_known(list: Seq<ObjectView>, key: RefView, k: int)
    ensures
        indexed(list).dom().contains(key) <==> exists|i: int|
            0 <= i < list.len() && ref_of(#[trigger] list[i]) == key,
        0 <= k < list.len() && (forall|i: int|
            k < i < list.len() ==> ref_of(#[trigger] list[i]) != ref_of(list[k])) ==> indexed(
            list,
        )[ref_of(list[k])] == list[k],
    decreases list.len(),
{
    if list.len() > 0 {
        let front = list.drop_last();
        let n = list.len() - 1;
        a_list_makes_its_objects_known(front, key, k);
        assert(list[n] == list.last());
        if indexed(front).dom().contains(key) {
            let i = choose|i: int| 0 <= i < front.len() && ref_of(#[trigger] front[i]) == key;
            assert(ref_of(list[i]) == key);
        }
        if exists|i: int| 0 <= i < list.len() && ref_of(#[trigger] list[i]) == key {
            let i = choose|i: int| 0 <= i < list.len() && ref_of(#[trigger] list[i]) == key;
            if i < n {
                assert(ref_of(front[i]) == key);
            }
        }
        if 0 <= k < n && (forall|i: int|
            k < i < list.len() ==> ref_of(#[trigger] list[i]) != ref_of(list[k])) {
            assert(ref_of(list[n]) != ref_of(list[k]));
            assert forall|i: int| k < i < front.len() implies ref_of(#[trigger] front[i]) != ref_of(
                front[k],
            ) by {
                assert(front[i] == list[i]);
            }
        }
    }
}

/// A list of one namespace replaces what is known of that namespace: afterwards
/// exactly the objects of the list are known there.
pub proof fn a_list_replaces_its_namespace(
    store: StoreView,
    namespace: Seq<char>,
    list: Seq<ObjectView>,
    key: RefView,
)
    requires
        key.namespace == Some(namespace),
    ensures
        ({
            let after = applied_in(store, Some(namespace), DeltaView::Reset(list));
            &&& after.objects.dom().contains(key) <==> exists|i: int|
                0 <= i < list.len() && ref_of(#[trigger] list[i]) == key
            &&& after.objects.dom().contains(key) ==> after.objects[key] == indexed(list)[key]
            &&& after.revision == store.revision + 1
        }),
{
    a_list_makes_its_objects_known(list, key, 0);
}

/// Slimming an object takes away its managed fields and the annotation of what was
/// last applied, and nothing else.
pub proof fn slimming_takes_only_bulk(object: ObjectView, entry: (Seq<char>, Seq<char>))
    ensures
        ({
            let slim = slimmed(object).metadata;
            let meta = object.metadata;
            let before = meta.annotations matches Some(list) && list.contains(entry);
            let after = slim.annotations matches Some(list) && list.contains(entry);
            &&& slim.managed_fields is None
            &&& after <==> before && entry.0 != "kubectl.kubernetes.io/last-applied-configuration"@
            &&& slim.annotations matches Some(list) ==> list.len() > 0
            &&& slimmed(object) == (ObjectView {
                metadata: MetaView {
                    managed_fields: None,
                    annotations: slim.annotations,
                    ..meta
                },
                ..object
            })
        }),
{
    if let Some(list) = object.metadata.annotations {
        let rest = kept(list, other_annotations());
        if list.contains(entry) && entry.0 != "kubectl.kubernetes.io/last-applied-configuration"@ {
            let i = choose|i: int| 0 <= i < list.len() && list[i] == entry;
            kept_holds(list, other_annotations(), i);
        }
        if rest.contains(entry) {
            kept_from(list, other_annotations(), entry);
            let i = choose|i: int|
                0 <= i < list.len() && other_annotations()(#[trigger] list[i]) == Some(entry);
            assert(list[i] == entry);
        }
    }
}

/// What a watch reports waits in its order: what changed is put in, what is gone
/// is taken out. It is sent when the time is up, when a list is complete and when
/// there is a batch of it, and all of it; a failure neither sends nor drops
/// anything.
pub proof fn what_is_reported_is_passed_on(
    c: CoalescerView,
    object: ObjectView,
    error: Seq<char>,
)
    ensures
        ({
            let changed = stepped(c, SignalView::Event(EventView::Apply(object)));
            let all = c.pending.push(DeltaView::Upsert(slimmed(object)));
            if c.pending.len() + 1 >= 512 {
                changed.1 == Some(all) && changed.0.pending.len() == 0
            } else {
                changed.1 is None && changed.0.pending == all
            }
        }),
        ({
            let gone = stepped(c, SignalView::Event(EventView::Delete(object)));
            let all = c.pending.push(DeltaView::Remove(ref_of(object)));
            if c.pending.len() + 1 >= 512 {
                gone.1 == Some(all) && gone.0.pending.len() == 0
            } else {
                gone.1 is None && gone.0.pending == all
            }
        }),
        stepped(c, SignalView::Event(EventView::InitDone)).1 is Some,
        stepped(c, SignalView::Event(EventView::InitDone)).0.relisting is None,
        ({
            let ticked = stepped(c, SignalView::Tick);
            &&& c.pending.len() > 0 ==> ticked.1 == Some(c.pending) && ticked.0.pending.len() == 0
            &&& c.pending.len() == 0 ==> ticked.1 is None && ticked.0 == c
            &&& ticked.0.relisting == c.relisting
        }),
        stepped(c, SignalView::Failed(error)) == (c, None::<Seq<DeltaView>>),
{
}

/// Somebody who subscribes is one more on that watch, and nobody else is touched;
/// a watch that nobody had starts empty. Somebody who leaves is one less there.
pub proof fn subscribing_touches_one_watch(
    r: RegistryView,
    key: WatchKeyView,
    other: WatchKeyView,
    id: u64,
    who: u64,
)
    requires
        other != key,
    ensures
        ({
            let after = subscribed(r, key);
            let watch = after.watches[key];
            &&& after.watches.dom().contains(key)
            &&& watch.subscribers.contains(r.next_id)
            &&& who != r.next_id ==> (watch.subscribers.contains(who) <==> r.watches.dom().contains(
                key,
            ) && r.watches[key].subscribers.contains(who))
            &&& r.watches.dom().contains(key) ==> watch.store == r.watches[key].store
                && watch.listed == r.watches[key].listed
            &&& !r.watches.dom().contains(key) ==> watch.store.objects.dom()
                =~= Set::<RefView>::empty() && !watch.listed && watch.subscribers.len() == 1
            &&& after.watches.dom().contains(other) == r.watches.dom().contains(other)
            &&& after.watches[other] == r.watches[other]
            &&& r.next_id < u64::MAX ==> after.next_id == r.next_id + 1
        }),
        ({
            let after = released(r, key, id);
            &&& after.watches.dom() =~= r.watches.dom()
            &&& after.watches[other] == r.watches[other]
            &&& after.next_id == r.next_id
            &&& r.watches.dom().contains(key) ==> (after.watches[key].subscribers.contains(who)
                <==> r.watches[key].subscribers.contains(who) && who != id)
            &&& r.watches.dom().contains(key) ==> after.watches[key].store == r.watches[key].store
        }),
{
    let list = found_watch(r, key).subscribers;
    let more = list.push(r.next_id);
    assert(more[list.len() as int] == r.next_id);
    if list.contains(who) {
        let i = choose|i: int| 0 <= i < list.len() && list[i] == who;
        assert(more[i] == who);
    }
    if who != r.next_id && more.contains(who) {
        let i = choose|i: int| 0 <= i < more.len() && more[i] == who;
        assert(list[i] == who);
    }
    if r.watches.dom().contains(key) {
        leaving_takes_only_who_left(r.watches[key].subscribers, Set::empty().insert(id), who);
    }
}

/// Those who leave are no longer listed, and everybody else is.
proof fn leaving_takes_only_who_left(list: Seq<u64>, gone: Set<u64>, who: u64)
    ensures
        left_by(list, gone).contains(who) <==> list.contains(who) && !gone.contains(who),
{
    let stays = |id: u64| !gone.contains(id);
    if list.contains(who) && !gone.contains(who) {
        let i = choose|i: int| 0 <= i < list.len() && list[i] == who;
        list.lemma_filter_contains(stays, i);
    }
    if left_by(list, gone).contains(who) {
        list.lemma_filter_contains_rev(stays, who);
        list.lemma_filter_pred(stays, list.filter(stays).index_of(who));
    }
}

/// A batch that was sent changes the watch's own copy as it changes everybody's,
/// and those whom it did not reach are no longer listed. The watch is listed from
/// the first batch on that holds a list.
pub proof fn a_batch_reaches_the_watch(
    watch: WatchView,
    batch: Seq<DeltaView>,
    gone: Set<u64>,
    who: u64,
    k: int,
)
    requires
        batch.len() > 0,
    ensures
        flushed(watch, batch, gone).subscribers.contains(who) <==> watch.subscribers.contains(who)
            && !gone.contains(who),
        watch.listed ==> flushed(watch, batch, gone).listed,
        0 <= k < batch.len() && batch[k] is Reset ==> flushed(watch, batch, gone).listed,
        !watch.listed && (forall|i: int| 0 <= i < batch.len() ==> !((#[trigger] batch[i]) is Reset))
            ==> !flushed(watch, batch, gone).listed,
        flushed(watch, batch, gone).generation == watch.generation,
{
    leaving_takes_only_who_left(watch.subscribers, gone, who);
    if 0 <= k < batch.len() && batch[k] is Reset {
        assert(holds_list(batch));
    }
}

/// A batch is applied one change after the other, the last one last: what came
/// last of an object is what is held of it.
pub proof fn a_batch_is_applied_in_order(
    store: StoreView,
    namespace: Option<Seq<char>>,
    batch: Seq<DeltaView>,
    rest: Seq<DeltaView>,
    object: ObjectView,
    key: RefView,
)
    ensures
        applied_all_in(store, namespace, Seq::empty()) == store,
        applied_all_in(store, namespace, batch + rest) == applied_all_in(
            applied_all_in(store, namespace, batch),
            namespace,
            rest,
        ),
        object.metadata.resource_version is None ==> ({
            let after = applied_all_in(store, namespace, batch.push(DeltaView::Upsert(object)));
            after.objects.dom().contains(ref_of(object)) && after.objects[ref_of(object)] == object
        }),
        !applied_all_in(
            store,
            namespace,
            batch.push(DeltaView::Remove(key)),
        ).objects.dom().contains(key),
    decreases rest.len(),
{
    assert(batch.push(DeltaView::Upsert(object)).drop_last() =~= batch);
    assert(batch.push(DeltaView::Remove(key)).drop_last() =~= batch);
    if rest.len() == 0 {
        assert(batch + rest =~= batch);
    } else {
        let front = rest.drop_last();
        a_batch_is_applied_in_order(store, namespace, batch, front, object, key);
        assert((batch + rest).drop_last() =~= batch + front);
        assert((batch + rest).last() == rest.last());
    }
}

/// What a watch hears of goes into the health of its session: a failure with what
/// it is about, anything that arrives as a recovery, and the clock not at all. No
/// other watch is touched.
pub proof fn a_watch_reports_what_it_hears(
    s: StateView,
    id: u64,
    k: int,
    other: int,
    error: Seq<char>,
    event: EventView,
)
    requires
        0 <= k < s.reporters.len(),
        s.reporters[k].id == id,
        forall|i: int| 0 <= i < k ==> (#[trigger] s.reporters[i]).id != id,
    ensures
        reported(s, id, SignalView::Tick) == s,
        reported(s, id, SignalView::Failed(error)).reporters[k].failing,
        !s.reporters[k].failing ==> reported(s, id, SignalView::Failed(error)).health == (
        HealthView::Degraded { reason: s.reporters[k].what + ": "@ + error }),
        !reported(s, id, SignalView::Event(event)).reporters[k].failing,
        !s.reporters[k].failing ==> reported(s, id, SignalView::Event(event)) == s,
        0 <= other < s.reporters.len() && other != k ==> {
            &&& reported(s, id, SignalView::Failed(error)).reporters[other] == s.reporters[other]
            &&& reported(s, id, SignalView::Event(event)).reporters[other] == s.reporters[other]
        },
{
    reporter_found(s.reporters, id, 0, k);
}

/// A name that several groups use means the kind with the shortest group, so that
/// a kind of the core is meant before any other; among equals the first is meant,
/// and there is never more than one.
pub proof fn a_name_means_the_shortest_group(
    kinds: Seq<KindView>,
    name: Seq<char>,
    i: int,
    k: int,
)
    requires
        means(kinds, name, i),
        0 <= k < kinds.len(),
    ensures
        0 <= i < kinds.len(),
        kinds[i].resource.kind == name,
        kinds[k].resource.kind == name ==> byte_length(kinds[i].resource.group) <= byte_length(
            kinds[k].resource.group,
        ),
        kinds[k].resource.kind == name && k < i ==> byte_length(kinds[i].resource.group)
            < byte_length(kinds[k].resource.group),
        means(kinds, name, k) ==> k == i,
{
}

/// A kind's own columns are kept by its group, its version and its name, and the
/// kinds that are always there are asked for under theirs.
pub proof fn kinds_are_asked_for_by_name(resource: ResourceView, kind: Seq<char>, plural: Seq<char>)
    ensures
        columns_key(resource).group == resource.group,
        columns_key(resource).version == resource.version,
        columns_key(resource).kind == resource.kind,
        core_resource(kind, plural).group == ""@,
        core_resource(kind, plural).version == "v1"@,
        core_resource(kind, plural).api_version == "v1"@,
        core_resource(kind, plural).kind == kind,
        core_resource(kind, plural).plural == plural,
        crd_view().group == "apiextensions.k8s.io"@,
        crd_view().version == "v1"@,
        crd_view().kind == "CustomResourceDefinition"@,
        crd_view().plural == "customresourcedefinitions"@,
        crd_view().api_version == "apiextensions.k8s.io"@ + "/"@ + "v1"@,
{
    reveal_strlit("apiextensions.k8s.io");
}

/// A name that any kind has means a kind.
pub proof fn a_name_that_is_there_means_a_kind(kinds: Seq<KindView>, name: Seq<char>, k: int)
    requires
        0 <= k < kinds.len(),
        kinds[k].resource.kind == name,
    ensures
        exists|i: int| means(kinds, name, i),
    decreases kinds.len(),
{
    let front = kinds.drop_last();
    let last = kinds.len() - 1;
    if exists|j: int| 0 <= j < front.len() && (#[trigger] front[j]).resource.kind == name {
        let j = choose|j: int| 0 <= j < front.len() && (#[trigger] front[j]).resource.kind == name;
        a_name_that_is_there_means_a_kind(front, name, j);
        let i = choose|i: int| means(front, name, i);
        assert(front[i] == kinds[i]);
        if kinds[last].resource.kind == name && byte_length(kinds[last].resource.group)
            < byte_length(kinds[i].resource.group) {
            assert forall|m: int|
                0 <= m < kinds.len() && (#[trigger] kinds[m]).resource.kind
                    == name implies byte_length(kinds[last].resource.group) <= byte_length(
                kinds[m].resource.group,
            ) && (m < last ==> byte_length(kinds[last].resource.group) < byte_length(
                kinds[m].resource.group,
            )) by {
                if m < last {
                    assert(front[m] == kinds[m]);
                }
            }
            assert(means(kinds, name, last));
        } else {
            assert forall|m: int|
                0 <= m < kinds.len() && (#[trigger] kinds[m]).resource.kind
                    == name implies byte_length(kinds[i].resource.group) <= byte_length(
                kinds[m].resource.group,
            ) && (m < i ==> byte_length(kinds[i].resource.group) < byte_length(
                kinds[m].resource.group,
            )) by {
                if m < last {
                    assert(front[m] == kinds[m]);
                }
            }
            assert(means(kinds, name, i));
        }
    } else {
        if k < last {
            assert(front[k] == kinds[k]);
        }
        assert forall|m: int| 0 <= m < last implies (#[trigger] kinds[m]).resource.kind != name by {
            assert(front[m] == kinds[m]);
        }
        assert(means(kinds, name, last));
    }
}

} // verus!
