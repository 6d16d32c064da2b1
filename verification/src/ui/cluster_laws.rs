//! What is promised of the cluster on screen: its scope, what can be done with
//! what is selected, and what its panel lists.
use vstd::prelude::*;

use crate::base::json::{items_of, part, JsonView};
use crate::base::list::{kept_from, kept_holds};
use crate::base::sort::{ascending, text_order, text_order_total};
use crate::base::text::precedes;
use crate::columns::columns_for;
use crate::k8s::discovery::{gvk_of, KindView};
use crate::k8s::resources::ObjectView;
use crate::k8s::store::{DeltaView, RefView};
use crate::ui::actions::{menu, ports_of};
use crate::ui::app::{needed_for_another, well_formed, AppView};
use crate::ui::catalog::EntryView;
use crate::ui::cluster::{
    gone_pods, is_on_screen, mode_label, names_listed, offered_ports, operations_of, removed_reader,
    replicas_of, rescoped, scope_named, sidebar_of, ClusterModel, Mode,
};
use crate::ui::detail::{chip_texts, container_of, containers_of, is_pod};
use crate::ui::table::Sort;

verus! {

/// Another scope starts over: what the old one allowed is forgotten and the table
/// is emptied, with the columns of the kind in the new scope. A namespace column
/// is shown unless there is just one. What was searched for stays, and so does
/// everything else; the same scope changes nothing.
pub proof fn another_scope_starts_over(
    before: ClusterModel,
    scope: Set<Seq<char>>,
    after: ClusterModel,
)
    requires
        rescoped(before, scope, after),
    ensures
        after.scope == scope,
        scope == before.scope ==> after == before,
        scope != before.scope ==> {
            &&& after.rules is None
            &&& after.kind == before.kind
            &&& after.mode == before.mode
            &&& after.selected_row == before.selected_row
            &&& after.detail == before.detail
            &&& before.kind is None ==> after.table == before.table
        },
        scope != before.scope && before.kind is Some ==> {
            let kind = before.kind->0;
            &&& after.table.rows.len() == 0
            &&& after.table.store.objects.dom() == Set::<RefView>::empty()
            &&& after.table.sort == Sort::Natural
            &&& after.table.filter == before.table.filter
            &&& after.table.now == before.table.now
            &&& after.table.columns == columns_for(
                kind.resource.group,
                kind.resource.kind,
                kind.namespaced && scope.len() != 1,
                None,
            )
        },
{
}

/// A name scopes to that namespace alone, and no name to all of them.
pub proof fn a_name_scopes_to_itself(name: Seq<char>, other: Seq<char>)
    ensures
        scope_named(Some(name)).contains(other) <==> other == name,
        scope_named(Some(name)).len() == 1,
        scope_named(None).len() == 0,
        !scope_named(None).contains(other),
{
}

/// What can be done is what the menu has for the selected object, with as many
/// replicas as it asks for. With nothing selected there is nothing to do, and only
/// a pod has ports to forward.
pub proof fn actions_are_those_of_the_selection(m: ClusterModel, row: usize)
    requires
        m.selected_row is Some ==> m.selected_row == Some(row),
    ensures
        m.selected_row is None || row >= m.table.rows.len() || m.kind is None ==> operations_of(
            m,
        ).len() == 0 && offered_ports(m).len() == 0,
        m.selected_row is Some && row < m.table.rows.len() && m.kind is Some ==> {
            let kind = m.kind->0;
            let key = m.table.rows[row as int];
            let known = m.table.store.objects.dom().contains(key);
            let data = m.table.store.objects[key].data;
            &&& known ==> operations_of(m) == menu(kind, m.rules, replicas_of(data))
            &&& !known ==> operations_of(m) == menu(kind, m.rules, 1) && offered_ports(m).len() == 0
            &&& known && kind.resource.kind == "Pod"@ && kind.resource.group.len() == 0
                ==> offered_ports(m) == ports_of(data)
            &&& kind.resource.kind != "Pod"@ || kind.resource.group.len() > 0 ==> offered_ports(
                m,
            ).len() == 0
        },
{
}

/// The pods that are gone are those that a batch removes, while pods are shown.
pub proof fn removed_pods_are_gone(kind: Option<KindView>, batch: Seq<DeltaView>, key: RefView)
    ensures
        kind is None ==> gone_pods(kind, batch).len() == 0,
        kind is Some && (kind->0.resource.kind != "Pod"@ || kind->0.resource.group.len() > 0)
            ==> gone_pods(kind, batch).len() == 0,
        kind is Some && kind->0.resource.kind == "Pod"@ && kind->0.resource.group.len() == 0 ==> (
        gone_pods(kind, batch).contains(key) <==> batch.contains(DeltaView::Remove(key))),
{
    let pick = removed_reader();
    if kind is Some && is_pod(kind->0) {
        if gone_pods(kind, batch).contains(key) {
            kept_from(batch, pick, key);
            let i = choose|i: int| 0 <= i < batch.len() && pick(#[trigger] batch[i]) == Some(key);
            assert(batch[i] == DeltaView::Remove(key));
        }
        if batch.contains(DeltaView::Remove(key)) {
            let i = choose|i: int| 0 <= i < batch.len() && batch[i] == DeltaView::Remove(key);
            assert(pick(batch[i]) == Some(key));
            kept_holds(batch, pick, i);
        }
    }
}

/// The namespaces that can be picked are those there are, by name.
pub proof fn namespaces_are_listed_by_name(
    names: Seq<Seq<char>>,
    objects: Map<RefView, ObjectView>,
    i: int,
    j: int,
    key: RefView,
)
    requires
        names_listed(names, objects),
    ensures
        0 <= i < j < names.len() ==> !precedes(names[j], names[i]),
        objects.dom().contains(key) ==> names.contains(key.name),
        0 <= i < names.len() ==> exists|k: RefView| #[trigger]
            objects.dom().contains(k) && k.name == names[i],
{
    let keys = choose|keys: Seq<RefView>|
        #![trigger keys.len()]
        {
            &&& forall|i: int| 0 <= i < keys.len() ==> objects.dom().contains(#[trigger] keys[i])
            &&& forall|k: RefView| #[trigger]
                objects.dom().contains(k) ==> exists|i: int|
                    0 <= i < keys.len() && #[trigger] keys[i] == k
            &&& forall|i: int, j: int|
                0 <= i < j < keys.len() ==> (#[trigger] keys[i]) != (#[trigger] keys[j])
            &&& names == ascending(keys.map_values(|k: RefView| k.name))
        };
    let found = keys.map_values(|k: RefView| k.name);
    text_order_total();
    found.lemma_sort_by_ensures(text_order());
    assert(names.to_multiset() == found.to_multiset());
    if 0 <= i < j < names.len() {
        assert(text_order()(names[i], names[j]));
    }
    broadcast use vstd::seq_lib::group_to_multiset_ensures;

    if objects.dom().contains(key) {
        let k = choose|k: int| 0 <= k < keys.len() && #[trigger] keys[k] == key;
        assert(found[k] == key.name);
        assert(found.contains(key.name));
        assert(found.to_multiset().contains(key.name));
    }
    if 0 <= i < names.len() {
        assert(names.contains(names[i]));
        assert(names.to_multiset().contains(names[i]));
        assert(found.contains(names[i]));
        let k = choose|k: int| 0 <= k < found.len() && found[k] == names[i];
        assert(objects.dom().contains(keys[k]));
    }
}

/// A pod's panel has a line for each container of its spec, in that order; no
/// other kind's has any.
pub proof fn a_pod_lists_its_containers(
    kind: KindView,
    data: JsonView,
    now: int,
    specs: Seq<JsonView>,
    i: int,
)
    requires
        part(data.get("spec"@), "containers"@) == Some(JsonView::Array(specs)),
    ensures
        kind.resource.kind != "Pod"@ || kind.resource.group.len() > 0 ==> containers_of(
            kind,
            data,
            now,
        ) is None,
        kind.resource.kind == "Pod"@ && kind.resource.group.len() == 0 ==> {
            &&& containers_of(kind, data, now) is Some
            &&& containers_of(kind, data, now)->0.len() == specs.len()
            &&& 0 <= i < specs.len() ==> containers_of(kind, data, now)->0[i] == container_of(
                specs[i],
                items_of(part(data.get("status"@), "containerStatuses"@)),
                now,
            )
        },
{
}

/// A panel has a chip for each label, with its value where it has one.
pub proof fn labels_are_listed_one_by_one(map: Seq<(Seq<char>, Seq<char>)>, i: int)
    ensures
        chip_texts(None).len() == 0,
        chip_texts(Some(map)).len() == map.len(),
        0 <= i < map.len() && map[i].1.len() > 0 ==> chip_texts(Some(map))[i] == map[i].0 + "="@
            + map[i].1,
        0 <= i < map.len() && map[i].1.len() == 0 ==> chip_texts(Some(map))[i] == map[i].0,
{
}

/// Another tab needs a connection exactly if there is no session on the cluster in
/// front, and then to that cluster.
pub proof fn another_tab_connects_where_needed(a: AppView)
    requires
        well_formed(a),
        a.tabs.len() > 0,
        a.next_tab < u64::MAX,
    ensures
        a.sessions.contains(a.tabs[a.active].cluster) ==> needed_for_another(a) is None,
        !a.sessions.contains(a.tabs[a.active].cluster) ==> needed_for_another(a) == Some(
            (a.next_tab, a.tabs[a.active].cluster),
        ),
{
}

/// What a mode is called.
pub proof fn modes_are_called_what_they_show()
    ensures
        mode_label(Mode::Objects) == "Objects"@,
        mode_label(Mode::Releases) == "Helm Releases"@,
        mode_label(Mode::Forwards) == "Port Forwards"@,
{
}

/// A section is open where it holds the kind on screen, and the workloads always
/// are. The entry on screen is marked, and no other one.
pub proof fn the_section_on_screen_is_open(
    m: ClusterModel,
    scores: Seq<Option<u32>>,
    section: int,
    k: int,
)
    requires
        m.query.len() == 0,
        0 <= section < m.catalog.len(),
        0 <= k < m.catalog[section].1.len(),
    ensures
        ({
            let shown = sidebar_of(m, scores)[section];
            let list = m.catalog[section].1;
            let here = |e: EntryView|
                m.kind is Some && m.kind->0.resource.group == e.kind.resource.group
                    && m.kind->0.resource.version == e.kind.resource.version
                    && m.kind->0.resource.kind == e.kind.resource.kind;
            &&& shown.entries[k] == (list[k], here(list[k]))
            &&& here(list[k]) ==> shown.open
            &&& m.catalog[section].0 is Workloads ==> shown.open
            &&& !(m.catalog[section].0 is Workloads) && (forall|i: int|
                0 <= i < list.len() ==> !here(#[trigger] list[i])) ==> !shown.open
        }),
{
    let list = m.catalog[section].1;
    if m.kind is Some && gvk_of(m.kind->0) == gvk_of(list[k].kind) {
        assert(is_on_screen(list[k], m.kind));
    }
}

} // verus!
