//! The sidebar: every kind a cluster serves, in sections.
use std::sync::Arc;

use vstd::multiset::Multiset;
use vstd::prelude::*;

use crate::base::list::{kept, kept_bounds, kept_next, kept_no_more};
use crate::base::sort::{
    arranged, by_position, positions_weak, sort, sorted_list, sorted_list_sorts, sorting_arranges,
    weak_order, Ranking,
};
use crate::base::text::{
    each, less, precedes, precedes_irreflexive, precedes_total, precedes_transitive, same,
};
use crate::k8s::discovery::{kind_views, named, Kind, KindView};
use crate::k8s::store::share;
use crate::ui::fuzzy::{best_places, rank_scores, score_all, scores_of, Searcher};

verus! {

/// The sections of the sidebar, in the order they appear.
#[derive(Debug, Clone, Copy, PartialEq, Eq, PartialOrd, Ord, Structural)]
pub enum Category {
    Workloads,
    Config,
    Network,
    Storage,
    AccessControl,
    Cluster,
    /// Everything the table below does not name.
    Custom,
}

/// The sections of the sidebar, in the order they appear.
pub open spec fn all_categories() -> Seq<Category> {
    seq![
        Category::Workloads,
        Category::Config,
        Category::Network,
        Category::Storage,
        Category::AccessControl,
        Category::Cluster,
        Category::Custom,
    ]
}

/// What a section is called.
pub open spec fn category_label(category: Category) -> Seq<char> {
    match category {
        Category::Workloads => "Workloads"@,
        Category::Config => "Config"@,
        Category::Network => "Network"@,
        Category::Storage => "Storage"@,
        Category::AccessControl => "Access Control"@,
        Category::Cluster => "Cluster"@,
        Category::Custom => "Custom Resources"@,
    }
}

impl Category {
    pub const ALL: [Category; 7] = [
        Category::Workloads,
        Category::Config,
        Category::Network,
        Category::Storage,
        Category::AccessControl,
        Category::Cluster,
        Category::Custom,
    ];

    pub fn label(&self) -> (r: &'static str)
        ensures
            r@ == category_label(*self),
    {
        match self {
            Category::Workloads => "Workloads",
            Category::Config => "Config",
            Category::Network => "Network",
            Category::Storage => "Storage",
            Category::AccessControl => "Access Control",
            Category::Cluster => "Cluster",
            Category::Custom => "Custom Resources",
        }
    }

    /// Whether the section starts expanded. Only the one people open first.
    pub fn starts_open(&self) -> (r: bool)
        ensures
            r == (*self == Category::Workloads),
    {
        matches!(self, Category::Workloads)
    }
}

/// Where a kind belongs, and how high up its section it sits.
///
/// The rank is what stops `Pod` appearing below `ReplicationController`
/// alphabetically. A kind of another group with a borrowed name is a custom
/// resource.
pub open spec fn place_of(group: Seq<char>, name: Seq<char>) -> (Category, u8) {
    if group == ""@ {
        if name == "Pod"@ {
            (Category::Workloads, 0)
        } else if name == "ReplicationController"@ {
            (Category::Workloads, 6)
        } else if name == "ConfigMap"@ {
            (Category::Config, 0)
        } else if name == "Secret"@ {
            (Category::Config, 1)
        } else if name == "ResourceQuota"@ || name == "LimitRange"@ {
            (Category::Config, 2)
        } else if name == "Service"@ {
            (Category::Network, 0)
        } else if name == "Endpoints"@ {
            (Category::Network, 4)
        } else if name == "PersistentVolumeClaim"@ {
            (Category::Storage, 0)
        } else if name == "PersistentVolume"@ {
            (Category::Storage, 1)
        } else if name == "ServiceAccount"@ {
            (Category::AccessControl, 0)
        } else if name == "Node"@ {
            (Category::Cluster, 0)
        } else if name == "Namespace"@ {
            (Category::Cluster, 1)
        } else if name == "Event"@ {
            (Category::Cluster, 2)
        } else if name == "ComponentStatus"@ {
            (Category::Cluster, 6)
        } else {
            (Category::Custom, 0)
        }
    } else if group == "apps"@ {
        if name == "Deployment"@ {
            (Category::Workloads, 1)
        } else if name == "StatefulSet"@ {
            (Category::Workloads, 2)
        } else if name == "DaemonSet"@ {
            (Category::Workloads, 3)
        } else if name == "ReplicaSet"@ {
            (Category::Workloads, 4)
        } else if name == "ControllerRevision"@ {
            (Category::Workloads, 6)
        } else {
            (Category::Custom, 0)
        }
    } else if group == "batch"@ {
        if name == "Job"@ {
            (Category::Workloads, 5)
        } else if name == "CronJob"@ {
            (Category::Workloads, 5)
        } else {
            (Category::Custom, 0)
        }
    } else if group == "autoscaling"@ {
        if name == "HorizontalPodAutoscaler"@ {
            (Category::Config, 2)
        } else {
            (Category::Custom, 0)
        }
    } else if group == "policy"@ {
        if name == "PodDisruptionBudget"@ {
            (Category::Config, 2)
        } else {
            (Category::Custom, 0)
        }
    } else if group == "scheduling.k8s.io"@ {
        if name == "PriorityClass"@ {
            (Category::Config, 3)
        } else {
            (Category::Custom, 0)
        }
    } else if group == "node.k8s.io"@ {
        if name == "RuntimeClass"@ {
            (Category::Config, 3)
        } else {
            (Category::Custom, 0)
        }
    } else if group == "coordination.k8s.io"@ {
        if name == "Lease"@ {
            (Category::Config, 4)
        } else {
            (Category::Custom, 0)
        }
    } else if group == "admissionregistration.k8s.io"@ {
        if name == "MutatingWebhookConfiguration"@ || name == "ValidatingWebhookConfiguration"@ {
            (Category::Config, 4)
        } else {
            (Category::Custom, 0)
        }
    } else if group == "networking.k8s.io"@ {
        if name == "Ingress"@ {
            (Category::Network, 1)
        } else if name == "NetworkPolicy"@ {
            (Category::Network, 2)
        } else if name == "IngressClass"@ {
            (Category::Network, 3)
        } else {
            (Category::Custom, 0)
        }
    } else if group == "discovery.k8s.io"@ {
        if name == "EndpointSlice"@ {
            (Category::Network, 4)
        } else {
            (Category::Custom, 0)
        }
    } else if group == "storage.k8s.io"@ {
        if name == "StorageClass"@ {
            (Category::Storage, 2)
        } else {
            (Category::Storage, 3)
        }
    } else if group == "rbac.authorization.k8s.io"@ {
        if name == "Role"@ {
            (Category::AccessControl, 1)
        } else if name == "RoleBinding"@ {
            (Category::AccessControl, 2)
        } else if name == "ClusterRole"@ {
            (Category::AccessControl, 3)
        } else if name == "ClusterRoleBinding"@ {
            (Category::AccessControl, 4)
        } else {
            (Category::Custom, 0)
        }
    } else if group == "certificates.k8s.io"@ {
        (Category::AccessControl, 5)
    } else if group == "events.k8s.io"@ {
        if name == "Event"@ {
            (Category::Cluster, 3)
        } else {
            (Category::Custom, 0)
        }
    } else if group == "apiextensions.k8s.io"@ {
        if name == "CustomResourceDefinition"@ {
            (Category::Cluster, 4)
        } else {
            (Category::Custom, 0)
        }
    } else if group == "apiregistration.k8s.io"@ {
        if name == "APIService"@ {
            (Category::Cluster, 5)
        } else {
            (Category::Custom, 0)
        }
    } else {
        (Category::Custom, 0)
    }
}

/// Where a kind belongs, and how high up its section it sits.
pub fn placement(kind: &Kind) -> (r: (Category, u8))
    ensures
        r == place_of(kind@.resource.group, kind@.resource.kind),
{
    place(kind.resource.group.as_str(), kind.resource.kind.as_str())
}

fn place(group: &str, name: &str) -> (r: (Category, u8))
    ensures
        r == place_of(group@, name@),
{
    if same(group, "") {
        if same(name, "Pod") {
            (Category::Workloads, 0)
        } else if same(name, "ReplicationController") {
            (Category::Workloads, 6)
        } else if same(name, "ConfigMap") {
            (Category::Config, 0)
        } else if same(name, "Secret") {
            (Category::Config, 1)
        } else if same(name, "ResourceQuota") || same(name, "LimitRange") {
            (Category::Config, 2)
        } else if same(name, "Service") {
            (Category::Network, 0)
        } else if same(name, "Endpoints") {
            (Category::Network, 4)
        } else if same(name, "PersistentVolumeClaim") {
            (Category::Storage, 0)
        } else if same(name, "PersistentVolume") {
            (Category::Storage, 1)
        } else if same(name, "ServiceAccount") {
            (Category::AccessControl, 0)
        } else if same(name, "Node") {
            (Category::Cluster, 0)
        } else if same(name, "Namespace") {
            (Category::Cluster, 1)
        } else if same(name, "Event") {
            (Category::Cluster, 2)
        } else if same(name, "ComponentStatus") {
            (Category::Cluster, 6)
        } else {
            (Category::Custom, 0)
        }
    } else if same(group, "apps") {
        if same(name, "Deployment") {
            (Category::Workloads, 1)
        } else if same(name, "StatefulSet") {
            (Category::Workloads, 2)
        } else if same(name, "DaemonSet") {
            (Category::Workloads, 3)
        } else if same(name, "ReplicaSet") {
            (Category::Workloads, 4)
        } else if same(name, "ControllerRevision") {
            (Category::Workloads, 6)
        } else {
            (Category::Custom, 0)
        }
    } else if same(group, "batch") {
        if same(name, "Job") {
            (Category::Workloads, 5)
        } else if same(name, "CronJob") {
            (Category::Workloads, 5)
        } else {
            (Category::Custom, 0)
        }
    } else if same(group, "autoscaling") {
        if same(name, "HorizontalPodAutoscaler") {
            (Category::Config, 2)
        } else {
            (Category::Custom, 0)
        }
    } else if same(group, "policy") {
        if same(name, "PodDisruptionBudget") {
            (Category::Config, 2)
        } else {
            (Category::Custom, 0)
        }
    } else if same(group, "scheduling.k8s.io") {
        if same(name, "PriorityClass") {
            (Category::Config, 3)
        } else {
            (Category::Custom, 0)
        }
    } else if same(group, "node.k8s.io") {
        if same(name, "RuntimeClass") {
            (Category::Config, 3)
        } else {
            (Category::Custom, 0)
        }
    } else if same(group, "coordination.k8s.io") {
        if same(name, "Lease") {
            (Category::Config, 4)
        } else {
            (Category::Custom, 0)
        }
    } else if same(group, "admissionregistration.k8s.io") {
        if same(name, "MutatingWebhookConfiguration") || same(name, "ValidatingWebhookConfiguration") {
            (Category::Config, 4)
        } else {
            (Category::Custom, 0)
        }
    } else if same(group, "networking.k8s.io") {
        if same(name, "Ingress") {
            (Category::Network, 1)
        } else if same(name, "NetworkPolicy") {
            (Category::Network, 2)
        } else if same(name, "IngressClass") {
            (Category::Network, 3)
        } else {
            (Category::Custom, 0)
        }
    } else if same(group, "discovery.k8s.io") {
        if same(name, "EndpointSlice") {
            (Category::Network, 4)
        } else {
            (Category::Custom, 0)
        }
    } else if same(group, "storage.k8s.io") {
        if same(name, "StorageClass") {
            (Category::Storage, 2)
        } else {
            (Category::Storage, 3)
        }
    } else if same(group, "rbac.authorization.k8s.io") {
        if same(name, "Role") {
            (Category::AccessControl, 1)
        } else if same(name, "RoleBinding") {
            (Category::AccessControl, 2)
        } else if same(name, "ClusterRole") {
            (Category::AccessControl, 3)
        } else if same(name, "ClusterRoleBinding") {
            (Category::AccessControl, 4)
        } else {
            (Category::Custom, 0)
        }
    } else if same(group, "certificates.k8s.io") {
        (Category::AccessControl, 5)
    } else if same(group, "events.k8s.io") {
        if same(name, "Event") {
            (Category::Cluster, 3)
        } else {
            (Category::Custom, 0)
        }
    } else if same(group, "apiextensions.k8s.io") {
        if same(name, "CustomResourceDefinition") {
            (Category::Cluster, 4)
        } else {
            (Category::Custom, 0)
        }
    } else if same(group, "apiregistration.k8s.io") {
        if same(name, "APIService") {
            (Category::Cluster, 5)
        } else {
            (Category::Custom, 0)
        }
    } else {
        (Category::Custom, 0)
    }
}

/// One entry in the sidebar.
#[derive(Debug, PartialEq, Eq)]
pub struct Entry {
    pub kind: Arc<Kind>,
    /// What the sidebar shows: the bare kind for a built-in, the kind and its
    /// group for anything else, because two CRDs sharing a name is common.
    pub label: String,
    rank: u8,
}

/// One entry in the sidebar, as a mathematical object.
pub struct EntryView {
    pub kind: KindView,
    pub label: Seq<char>,
    pub rank: u8,
}

impl View for Entry {
    type V = EntryView;

    closed spec fn view(&self) -> EntryView {
        EntryView { kind: self.kind@, label: self.label@, rank: self.rank }
    }
}

/// What a list of entries stands for.
pub open spec fn entry_views(list: Seq<Entry>) -> Seq<EntryView> {
    list.map_values(|e: Entry| e@)
}

impl Entry {
    /// A copy that shares the kind.
    pub fn copy(&self) -> (r: Entry)
        ensures
            r@ == self@,
    {
        Entry { kind: share(&self.kind), label: self.label.clone(), rank: self.rank }
    }

    /// The kind of an entry.
    pub fn shared_kind(&self) -> (r: Arc<Kind>)
        ensures
            r@ == self@.kind,
    {
        share(&self.kind)
    }

    /// The label of an entry.
    pub fn text(&self) -> (r: &str)
        ensures
            r@ == self@.label,
    {
        self.label.as_str()
    }
}

/// The entry of a kind.
pub open spec fn entry_of(kind: KindView) -> EntryView {
    EntryView {
        kind,
        label: named(kind),
        rank: place_of(kind.resource.group, kind.resource.kind).1,
    }
}

/// The section that a kind belongs to.
pub open spec fn category_of(kind: KindView) -> Category {
    place_of(kind.resource.group, kind.resource.kind).0
}

pub open spec fn entries_in(category: Category) -> spec_fn(KindView) -> Option<EntryView> {
    |kind: KindView|
        if category_of(kind) == category {
            Some(entry_of(kind))
        } else {
            None
        }
}

/// By rank, then by label.
pub open spec fn entry_order() -> spec_fn(EntryView, EntryView) -> bool {
    |a: EntryView, b: EntryView|
        a.rank < b.rank || (a.rank == b.rank && precedes(a.label, b.label))
}

/// The entries of a section.
pub open spec fn section_of(kinds: Seq<KindView>, category: Category) -> Seq<EntryView> {
    sorted_list(kept(kinds, entries_in(category)), entry_order())
}

pub open spec fn filled_section(kinds: Seq<KindView>) -> spec_fn(Category) -> Option<
    (Category, Seq<EntryView>),
> {
    |category: Category|
        if section_of(kinds, category).len() > 0 {
            Some((category, section_of(kinds, category)))
        } else {
            None
        }
}

/// The sections of the sidebar, without empty ones.
pub open spec fn sections_of(kinds: Seq<KindView>) -> Seq<(Category, Seq<EntryView>)> {
    kept(all_categories(), filled_section(kinds))
}

/// The entries of all sections, one section after the other.
pub open spec fn flat(sections: Seq<(Category, Seq<EntryView>)>) -> Seq<EntryView>
    decreases sections.len(),
{
    if sections.len() == 0 {
        Seq::empty()
    } else {
        flat(sections.drop_last()) + sections.last().1
    }
}

/// The order of entries is one that a sort takes.
pub proof fn entry_order_weak()
    ensures
        weak_order(entry_order()),
{
    let before = entry_order();
    assert forall|a: EntryView| !#[trigger] before(a, a) by {
        precedes_irreflexive(a.label);
    }
    assert forall|a: EntryView, b: EntryView, c: EntryView| #[trigger]
        before(a, b) && #[trigger] before(b, c) implies before(a, c) by {
        if a.rank == b.rank && b.rank == c.rank {
            precedes_transitive(a.label, b.label, c.label);
        }
    }
    assert forall|a: EntryView, b: EntryView, c: EntryView| #[trigger] before(a, c) implies before(
        a,
        b,
    ) || #[trigger] before(b, c) by {
        if a.rank == b.rank && b.rank == c.rank {
            precedes_total(a.label, b.label);
            if !precedes(a.label, b.label) && a.label != b.label {
                precedes_transitive(b.label, a.label, c.label);
            }
        }
    }
}

/// The place of a section in the sidebar.
spec fn place_in(category: Category) -> int {
    match category {
        Category::Workloads => 0,
        Category::Config => 1,
        Category::Network => 2,
        Category::Storage => 3,
        Category::AccessControl => 4,
        Category::Cluster => 5,
        Category::Custom => 6,
    }
}

/// The entries of the first `n` sections.
spec fn gathered(kinds: Seq<KindView>, n: int) -> Multiset<EntryView>
    decreases n,
{
    if n <= 0 {
        Multiset::empty()
    } else {
        gathered(kinds, n - 1).add(kept(kinds, entries_in(all_categories()[n - 1])).to_multiset())
    }
}

/// One kind more is one entry more, in the section that it belongs to.
proof fn one_more(kinds: Seq<KindView>, n: int)
    requires
        kinds.len() > 0,
        0 <= n <= 7,
    ensures
        gathered(kinds, n) == (if place_in(category_of(kinds.last())) < n {
            gathered(kinds.drop_last(), n).insert(entry_of(kinds.last()))
        } else {
            gathered(kinds.drop_last(), n)
        }),
    decreases n,
{
    broadcast use vstd::seq_lib::group_to_multiset_ensures;
    broadcast use vstd::multiset::group_multiset_axioms;

    if n > 0 {
        one_more(kinds, n - 1);
        let category = all_categories()[n - 1];
        assert(place_in(category) == n - 1);
        let own = category_of(kinds.last());
        assert(all_categories()[place_in(own)] == own);
        assert((own == category) == (place_in(own) == n - 1));
        let front = kept(kinds.drop_last(), entries_in(category));
        let all = kept(kinds, entries_in(category));
        if own == category {
            assert(all == front.push(entry_of(kinds.last())));
            assert(all.to_multiset() =~= front.to_multiset().insert(entry_of(kinds.last())));
        } else {
            assert(all == front);
        }
        assert(gathered(kinds, n) =~= (if place_in(own) < n {
            gathered(kinds.drop_last(), n).insert(entry_of(kinds.last()))
        } else {
            gathered(kinds.drop_last(), n)
        }));
    }
}

/// All sections together hold every kind once.
proof fn all_gathered(kinds: Seq<KindView>)
    ensures
        gathered(kinds, 7) == kinds.map_values(|k: KindView| entry_of(k)).to_multiset(),
    decreases kinds.len(),
{
    broadcast use vstd::seq_lib::group_to_multiset_ensures;
    broadcast use vstd::multiset::group_multiset_axioms;

    let entries = kinds.map_values(|k: KindView| entry_of(k));
    if kinds.len() == 0 {
        nothing_gathered(kinds, 7);
        assert(entries =~= Seq::empty());
        assert(entries.to_multiset() =~= Multiset::empty());
    } else {
        let front = kinds.drop_last();
        all_gathered(front);
        one_more(kinds, 7);
        assert(entries =~= front.map_values(|k: KindView| entry_of(k)).push(
            entry_of(kinds.last()),
        ));
        assert(entries.to_multiset() =~= gathered(kinds, 7));
    }
}

proof fn nothing_gathered(kinds: Seq<KindView>, n: int)
    requires
        kinds.len() == 0,
        0 <= n <= 7,
    ensures
        gathered(kinds, n) == Multiset::<EntryView>::empty(),
    decreases n,
{
    broadcast use vstd::seq_lib::group_to_multiset_ensures;
    broadcast use vstd::multiset::group_multiset_axioms;

    if n > 0 {
        nothing_gathered(kinds, n - 1);
        assert(kept(kinds, entries_in(all_categories()[n - 1])) =~= Seq::empty());
        assert(gathered(kinds, n) =~= Multiset::<EntryView>::empty());
    }
}

/// The first `n` sections list what belongs to them.
proof fn sections_gather(kinds: Seq<KindView>, n: int)
    requires
        0 <= n <= 7,
        kinds.len() <= usize::MAX,
    ensures
        flat(kept(all_categories().take(n), filled_section(kinds))).to_multiset() == gathered(
            kinds,
            n,
        ),
    decreases n,
{
    broadcast use vstd::seq_lib::group_to_multiset_ensures;
    broadcast use vstd::multiset::group_multiset_axioms;

    let reader = filled_section(kinds);
    if n == 0 {
        kept_bounds(all_categories(), reader);
        assert(flat(kept(all_categories().take(0), reader)).to_multiset() =~= Multiset::empty());
    } else {
        sections_gather(kinds, n - 1);
        kept_next(all_categories(), n - 1, reader);
        let category = all_categories()[n - 1];
        let front = kept(all_categories().take(n - 1), reader);
        let own = kept(kinds, entries_in(category));
        let section = section_of(kinds, category);
        entry_order_weak();
        kept_no_more(kinds, entries_in(category));
        sorted_list_sorts(own, entry_order());
        if section.len() > 0 {
            let all = front.push((category, section));
            assert(all.drop_last() =~= front);
            vstd::seq_lib::lemma_multiset_commutative(flat(front), section);
            assert(flat(all).to_multiset() =~= gathered(kinds, n));
        } else {
            assert(own =~= Seq::empty());
            assert(gathered(kinds, n) =~= gathered(kinds, n - 1));
        }
    }
}

/// The sidebar lists every kind that the cluster serves, each once: no kind is
/// lost, and none is in two sections.
pub proof fn every_kind_is_listed_once(kinds: Seq<KindView>)
    requires
        kinds.len() <= usize::MAX,
    ensures
        flat(sections_of(kinds)).to_multiset() == kinds.map_values(
            |k: KindView| entry_of(k),
        ).to_multiset(),
        flat(sections_of(kinds)).len() == kinds.len(),
{
    broadcast use vstd::seq_lib::group_to_multiset_ensures;

    sections_gather(kinds, 7);
    all_gathered(kinds);
    assert(all_categories().take(7) =~= all_categories());
    let entries = kinds.map_values(|k: KindView| entry_of(k));
    assert(flat(sections_of(kinds)).to_multiset().len() == flat(sections_of(kinds)).len());
    assert(entries.to_multiset().len() == entries.len());
}

/// No section is shown empty.
pub proof fn no_section_is_empty(kinds: Seq<KindView>, i: int)
    requires
        0 <= i < sections_of(kinds).len(),
    ensures
        sections_of(kinds)[i].1.len() > 0,
{
    let sections = sections_of(kinds);
    assert(sections.contains(sections[i]));
    crate::base::list::kept_from(all_categories(), filled_section(kinds), sections[i]);
}

/// The positions of a list of entries.
struct Entries<'a> {
    list: &'a Vec<Entry>,
}

impl<'a> Ranking for Entries<'a> {
    closed spec fn count(&self) -> nat {
        self.list@.len()
    }

    closed spec fn order(&self) -> spec_fn(int, int) -> bool {
        by_position(entry_views(self.list@), entry_order())
    }

    fn precedes(&self, i: usize, j: usize) -> (r: bool) {
        let a = &self.list[i];
        let b = &self.list[j];
        assert(entry_views(self.list@)[i as int] == a@);
        assert(entry_views(self.list@)[j as int] == b@);
        a.rank < b.rank || (a.rank == b.rank && less(a.label.as_str(), b.label.as_str()))
    }
}

/// The discovered kinds, grouped and ordered.
pub struct Catalog {
    sections: Vec<(Category, Vec<Entry>)>,
}

/// What a list of sections stands for.
pub open spec fn section_views(list: Seq<(Category, Vec<Entry>)>) -> Seq<
    (Category, Seq<EntryView>),
> {
    list.map_values(|s: (Category, Vec<Entry>)| (s.0, entry_views(s.1@)))
}

impl View for Catalog {
    type V = Seq<(Category, Seq<EntryView>)>;

    closed spec fn view(&self) -> Seq<(Category, Seq<EntryView>)> {
        section_views(self.sections@)
    }
}

/// The entry that a cluster opens on: Pods, unless it does not serve them.
pub open spec fn first_pod(entries: Seq<EntryView>, k: int) -> Option<EntryView>
    decreases entries.len() - k,
{
    if k >= entries.len() {
        None
    } else if entries[k].kind.resource.kind == "Pod"@ && entries[k].kind.resource.group.len() == 0 {
        Some(entries[k])
    } else {
        first_pod(entries, k + 1)
    }
}

/// The kind to show when a cluster connects.
pub open spec fn opening_kind(sections: Seq<(Category, Seq<EntryView>)>) -> Option<KindView> {
    match first_pod(flat(sections), 0) {
        Some(entry) => Some(entry.kind),
        None => if sections.len() > 0 && sections[0].1.len() > 0 {
            Some(sections[0].1[0].kind)
        } else {
            None
        },
    }
}

/// The labels of entries.
pub open spec fn labels_of(entries: Seq<EntryView>) -> Seq<Seq<char>> {
    entries.map_values(|e: EntryView| e.label)
}

/// The entries at the places of the best matches.
pub open spec fn best_entries(entries: Seq<EntryView>, scores: Seq<Option<u32>>) -> Seq<EntryView> {
    best_places(labels_of(entries), scores).map_values(|p: int| entries[p])
}

/// The entries of one section.
fn make_section(kinds: &Vec<Kind>, category: Category) -> (out: Vec<Entry>)
    ensures
        entry_views(out@) == section_of(kind_views(kinds@), category),
{
    let ghost all = kind_views(kinds@);
    let mut found: Vec<Entry> = Vec::new();
    let mut i: usize = 0;
    assert(entry_views(found@) =~= Seq::empty());
    proof {
        kept_bounds(all, entries_in(category));
    }
    while i < kinds.len()
        invariant
            i <= kinds.len(),
            all == kind_views(kinds@),
            entry_views(found@) == kept(all.take(i as int), entries_in(category)),
        decreases kinds.len() - i,
    {
        let kind = &kinds[i];
        proof {
            kept_next(all, i as int, entries_in(category));
            assert(all[i as int] == kind@);
        }
        let (own, rank) = place(kind.resource.group.as_str(), kind.resource.kind.as_str());
        if own == category {
            let entry = Entry { kind: Arc::new(kind.copy()), label: kind.display_name(), rank };
            let ghost before = found@;
            let ghost added = entry@;
            found.push(entry);
            assert(entry_views(found@) =~= entry_views(before).push(added));
        }
        i += 1;
    }
    proof {
        entry_order_weak();
        positions_weak(entry_views(found@), entry_order());
    }
    let order = sort(found.len(), &Entries { list: &found });
    let mut out: Vec<Entry> = Vec::new();
    let mut k: usize = 0;
    while k < order.len()
        invariant
            k <= order@.len(),
            out@.len() == k,
            order@.len() == found@.len(),
            forall|m: int| 0 <= m < order@.len() ==> (#[trigger] order@[m]) < found@.len(),
            forall|m: int| 0 <= m < k ==> (#[trigger] out@[m])@ == found@[order@[m] as int]@,
        decreases order.len() - k,
    {
        out.push(found[order[k]].copy());
        k += 1;
    }
    proof {
        sorting_arranges(entry_views(found@), order@, entry_order());
        assert(entry_views(out@) =~= arranged(entry_views(found@), order@));
    }
    out
}

impl Catalog {
    pub fn new(kinds: &Vec<Kind>) -> (r: Catalog)
        ensures
            r@ == sections_of(kind_views(kinds@)),
    {
        let ghost all = kind_views(kinds@);
        let ghost reader = filled_section(all);
        let categories: Vec<Category> = vec![
            Category::Workloads,
            Category::Config,
            Category::Network,
            Category::Storage,
            Category::AccessControl,
            Category::Cluster,
            Category::Custom,
        ];
        assert(categories@ =~= all_categories());
        let mut sections: Vec<(Category, Vec<Entry>)> = Vec::new();
        let mut i: usize = 0;
        assert(section_views(sections@) =~= Seq::empty());
        proof {
            kept_bounds(all_categories(), reader);
        }
        while i < categories.len()
            invariant
                i <= categories.len(),
                categories@ == all_categories(),
                all == kind_views(kinds@),
                reader == filled_section(all),
                section_views(sections@) == kept(all_categories().take(i as int), reader),
            decreases categories.len() - i,
        {
            proof {
                kept_next(all_categories(), i as int, reader);
            }
            let entries = make_section(kinds, categories[i]);
            assert(entry_views(entries@).len() == entries@.len());
            if entries.len() > 0 {
                let ghost before = sections@;
                let ghost added = (categories@[i as int], entry_views(entries@));
                sections.push((categories[i], entries));
                assert(section_views(sections@) =~= section_views(before).push(added));
            }
            i += 1;
        }
        Catalog { sections }
    }

    pub fn sections(&self) -> (r: &Vec<(Category, Vec<Entry>)>)
        ensures
            section_views(r@) == self@,
    {
        &self.sections
    }

    pub fn is_empty(&self) -> (r: bool)
        ensures
            r == (self@.len() == 0),
    {
        self.sections.len() == 0
    }

    /// Every entry, one section after the other.
    pub fn entries(&self) -> (out: Vec<&Entry>)
        ensures
            out@.map_values(|e: &Entry| e@) == flat(self@),
    {
        let ghost all = self@;
        let mut out: Vec<&Entry> = Vec::new();
        let mut i: usize = 0;
        assert(all.take(0) =~= Seq::empty());
        assert(out@.map_values(|e: &Entry| e@) =~= Seq::empty());
        while i < self.sections.len()
            invariant
                i <= self.sections.len(),
                all == section_views(self.sections@),
                out@.map_values(|e: &Entry| e@) == flat(all.take(i as int)),
            decreases self.sections.len() - i,
        {
            let section = &self.sections[i].1;
            let ghost start = out@.map_values(|e: &Entry| e@);
            assert(all.take(i + 1).drop_last() =~= all.take(i as int));
            assert(all.take(i + 1).last() == (
                self.sections@[i as int].0,
                entry_views(section@),
            ));
            let mut k: usize = 0;
            assert(start + entry_views(section@).take(0) =~= start);
            while k < section.len()
                invariant
                    k <= section.len(),
                    out@.map_values(|e: &Entry| e@) == start + entry_views(section@).take(
                        k as int,
                    ),
                decreases section.len() - k,
            {
                let ghost before = out@;
                out.push(&section[k]);
                assert(out@.map_values(|e: &Entry| e@) =~= before.map_values(|e: &Entry| e@).push(
                    section@[k as int]@,
                ));
                assert(entry_views(section@).take(k + 1) =~= entry_views(section@).take(
                    k as int,
                ).push(section@[k as int]@));
                k += 1;
                assert(out@.map_values(|e: &Entry| e@) =~= start + entry_views(section@).take(
                    k as int,
                ));
            }
            assert(entry_views(section@).take(k as int) =~= entry_views(section@));
            i += 1;
        }
        assert(all.take(i as int) =~= all);
        out
    }

    /// How many entries there are.
    pub fn len(&self) -> (r: usize)
        ensures
            r == flat(self@).len(),
    {
        let all = self.entries();
        assert(all@.map_values(|e: &Entry| e@).len() == all@.len());
        all.len()
    }

    /// The first kind to show when a cluster connects.
    ///
    /// Pods, unless this cluster somehow does not serve them.
    pub fn default_kind(&self) -> (r: Option<Arc<Kind>>)
        ensures
            (match r {
                Some(kind) => Some(kind@),
                None => None,
            }) == opening_kind(self@),
    {
        let all = self.entries();
        let ghost views = flat(self@);
        let mut i: usize = 0;
        while i < all.len()
            invariant
                i <= all.len(),
                views == flat(self@),
                all@.map_values(|e: &Entry| e@) == views,
                first_pod(views, 0) == first_pod(views, i as int),
            decreases all.len() - i,
        {
            let entry = all[i];
            assert(all@.map_values(|e: &Entry| e@)[i as int] == entry@);
            if same(entry.kind.resource.kind.as_str(), "Pod")
                && entry.kind.resource.group.as_str().is_empty() {
                return Some(entry.shared_kind());
            }
            i += 1;
        }
        assert(views.len() == all@.len());
        if self.sections.len() > 0 {
            assert(self@[0] == (self.sections@[0].0, entry_views(self.sections@[0].1@)));
            assert(self@[0].1.len() == self.sections@[0].1@.len());
            if self.sections[0].1.len() > 0 {
                assert(self@[0].1[0] == self.sections@[0].1@[0]@);
                return Some(self.sections[0].1[0].shared_kind());
            }
        }
        None
    }

    /// The entries with the given scores, best first. Equal scores go by name,
    /// so that they do not reorder themselves between keystrokes.
    pub fn ranked(&self, scores: &Vec<Option<u32>>) -> (out: Vec<Entry>)
        requires
            scores@.len() == flat(self@).len(),
        ensures
            entry_views(out@) == best_entries(flat(self@), scores@),
    {
        let all = self.entries();
        let labels = self.labels();
        let ghost views = flat(self@);
        assert(all@.map_values(|e: &Entry| e@).len() == all@.len());
        assert(each(labels@).len() == labels@.len());
        let places = rank_scores(&labels, scores);
        let mut out: Vec<Entry> = Vec::new();
        let mut i: usize = 0;
        while i < places.len()
            invariant
                i <= places@.len(),
                out@.len() == i,
                all@.map_values(|e: &Entry| e@) == views,
                forall|k: int| 0 <= k < places@.len() ==> (#[trigger] places@[k]) < all@.len(),
                forall|k: int| 0 <= k < i ==> (#[trigger] out@[k])@ == views[places@[k] as int],
            decreases places.len() - i,
        {
            assert(all@.map_values(|e: &Entry| e@)[places@[i as int] as int] == all@[places@[
                i as int
            ] as int]@);
            out.push(all[places[i]].copy());
            i += 1;
        }
        assert(entry_views(out@) =~= best_entries(views, scores@));
        out
    }

    /// The label of every entry.
    fn labels(&self) -> (out: Vec<String>)
        ensures
            each(out@) == labels_of(flat(self@)),
    {
        let all = self.entries();
        let ghost views = flat(self@);
        let mut out: Vec<String> = Vec::new();
        let mut i: usize = 0;
        while i < all.len()
            invariant
                i <= all.len(),
                out@.len() == i,
                all@.map_values(|e: &Entry| e@) == views,
                forall|k: int| 0 <= k < i ==> (#[trigger] out@[k])@ == views[k].label,
            decreases all.len() - i,
        {
            assert(all@.map_values(|e: &Entry| e@)[i as int] == all@[i as int]@);
            out.push(all[i].text().to_owned());
            i += 1;
        }
        assert(all@.map_values(|e: &Entry| e@).len() == all@.len());
        assert(each(out@) =~= labels_of(views));
        out
    }

    /// The entries matching a query, best first.
    ///
    /// Fuzzy rather than substring: `dep` should find Deployment, and `rolebind`
    /// should find RoleBinding without the exact casing.
    pub fn search(&self, query: &str, matcher: &mut Searcher) -> (out: Vec<Entry>)
        ensures
            entry_views(out@) == best_entries(
                flat(self@),
                scores_of(query@, labels_of(flat(self@))),
            ),
    {
        let scores = self.scores(query, matcher);
        self.ranked(&scores)
    }

    /// How well each entry scores against a query.
    pub fn scores(&self, query: &str, matcher: &mut Searcher) -> (out: Vec<Option<u32>>)
        ensures
            out@ == scores_of(query@, labels_of(flat(self@))),
            out@.len() == flat(self@).len(),
    {
        let labels = self.labels();
        score_all(query, &labels, matcher)
    }
}

/// A matcher: one per view, reused across keystrokes because it owns reusable
/// scratch buffers.
pub fn matcher() -> (r: Searcher) {
    Searcher::new()
}

} // verus!
