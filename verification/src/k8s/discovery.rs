//! What a cluster can show us.
//!
//! There is no compiled-in list of resource kinds: the cluster is asked, which
//! is the only way a client can list a CRD that was installed after it shipped.
use std::sync::Arc;

use vstd::prelude::*;

use crate::base::dict::{
    row_below, row_below_total, row_below_transitive, row_less, row_of, Dict, Row,
};
use crate::base::json::{
    field, items_of, model_of, models, part, string_at, text_of, Json, JsonView,
};
use crate::base::list::{kept, kept_bounds, kept_from, kept_holds, kept_next, kept_no_more};
use crate::base::sort::{
    arranged, by_position, positions_weak, sort, sorted_list, sorted_list_sorts, sorting_arranges,
    weak_order, Ranking,
};
use crate::base::text::{among, byte_length, bytes, copies, each, same, three, two};
use crate::k8s::resources::{
    resource_of, ApiResource, GroupVersionKind, GvkView, ResourceView,
};

verus! {

/// One kind the cluster serves, and what can be done with it.
#[derive(Debug, PartialEq, Eq)]
pub struct Kind {
    pub resource: ApiResource,
    /// Whether objects of this kind live in a namespace.
    pub namespaced: bool,
    /// The verbs the API server advertises: what it supports, not what this
    /// user is allowed to do.
    pub verbs: Vec<String>,
}

/// One kind, as a mathematical object.
pub struct KindView {
    pub resource: ResourceView,
    pub namespaced: bool,
    pub verbs: Seq<Seq<char>>,
}

impl View for Kind {
    type V = KindView;

    open spec fn view(&self) -> KindView {
        KindView {
            resource: self.resource@,
            namespaced: self.namespaced,
            verbs: each(self.verbs@),
        }
    }
}

/// What a list of kinds stands for.
pub open spec fn kind_views(list: Seq<Kind>) -> Seq<KindView> {
    list.map_values(|k: Kind| k@)
}

/// The group, version and kind of a kind.
pub open spec fn gvk_of(kind: KindView) -> GvkView {
    GvkView {
        group: kind.resource.group,
        version: kind.resource.version,
        kind: kind.resource.kind,
    }
}

/// Whether a kind can be put in a table. Everything is built on watches, so one
/// that cannot be watched cannot be shown.
pub open spec fn listable(kind: KindView) -> bool {
    kind.verbs.contains("list"@) && kind.verbs.contains("watch"@)
}

/// `Pod`, or `Application (argoproj.io)`.
pub open spec fn named(kind: KindView) -> Seq<char> {
    if kind.resource.group.len() == 0 {
        kind.resource.kind
    } else {
        kind.resource.kind + " ("@ + (kind.resource.group + ")"@)
    }
}

impl Kind {
    pub fn gvk(&self) -> (r: GroupVersionKind)
        ensures
            r@ == gvk_of(self@),
    {
        GroupVersionKind::gvk(
            self.resource.group.as_str(),
            self.resource.version.as_str(),
            self.resource.kind.as_str(),
        )
    }

    /// Whether this kind can be put in a table at all.
    pub fn is_listable(&self) -> (r: bool)
        ensures
            r == listable(self@),
    {
        self.supports("list") && self.supports("watch")
    }

    pub fn supports(&self, verb: &str) -> (r: bool)
        ensures
            r == self@.verbs.contains(verb@),
    {
        among(&self.verbs, verb)
    }

    /// `Pod`, or `Application (argoproj.io)`: the group is what separates two
    /// kinds that share a name.
    pub fn display_name(&self) -> (r: String)
        ensures
            r@ == named(self@),
    {
        if self.resource.group.as_str().is_empty() {
            self.resource.kind.clone()
        } else {
            three(
                self.resource.kind.as_str(),
                " (",
                two(self.resource.group.as_str(), ")").as_str(),
            )
        }
    }

    /// A copy.
    pub fn copy(&self) -> (r: Kind)
        ensures
            r@ == self@,
    {
        Kind {
            resource: self.resource.copy(),
            namespaced: self.namespaced,
            verbs: copies(&self.verbs),
        }
    }
}

/// What kinds are ordered by: the kind's name, then the group.
pub open spec fn kind_row(kind: KindView) -> Row {
    seq![Some(kind.resource.kind), Some(kind.resource.group)]
}

pub open spec fn kind_order() -> spec_fn(KindView, KindView) -> bool {
    |a: KindView, b: KindView| row_below(kind_row(a), kind_row(b))
}

pub open spec fn listable_reader() -> spec_fn(KindView) -> Option<KindView> {
    |kind: KindView|
        if listable(kind) {
            Some(kind)
        } else {
            None
        }
}

/// The kinds of a cluster that can be shown, by name and then by group.
pub open spec fn discovered(served: Seq<KindView>) -> Seq<KindView> {
    sorted_list(kept(served, listable_reader()), kind_order())
}

/// The order of kinds is one that a sort takes.
pub proof fn kind_order_weak()
    ensures
        weak_order(kind_order()),
{
    let before = kind_order();
    assert forall|a: KindView| !#[trigger] before(a, a) by {
        row_below_total(kind_row(a), kind_row(a));
    }
    assert forall|a: KindView, b: KindView, c: KindView| #[trigger]
        before(a, b) && #[trigger] before(b, c) implies before(a, c) by {
        row_below_transitive(kind_row(a), kind_row(b), kind_row(c));
    }
    assert forall|a: KindView, b: KindView, c: KindView| #[trigger] before(a, c) implies before(
        a,
        b,
    ) || #[trigger] before(b, c) by {
        row_below_total(kind_row(a), kind_row(b));
        if !before(a, b) && kind_row(a) != kind_row(b) {
            row_below_transitive(kind_row(b), kind_row(a), kind_row(c));
        }
    }
}

/// Discovery keeps every kind that can be listed and watched, and no other, and
/// leaves none behind one that comes after it by name and group.
pub proof fn discovery_keeps_what_can_be_listed(served: Seq<KindView>)
    requires
        served.len() <= usize::MAX,
    ensures
        discovered(served).to_multiset() == kept(served, listable_reader()).to_multiset(),
        forall|i: int|
            0 <= i < discovered(served).len() ==> listable(#[trigger] discovered(served)[i])
                && served.contains(discovered(served)[i]),
        forall|i: int|
            0 <= i < served.len() && listable(#[trigger] served[i]) ==> discovered(
                served,
            ).contains(served[i]),
        forall|a: int, b: int|
            0 <= a < b < discovered(served).len() ==> !row_below(
                kind_row(#[trigger] discovered(served)[b]),
                kind_row(#[trigger] discovered(served)[a]),
            ),
{
    broadcast use vstd::seq_lib::group_to_multiset_ensures;
    broadcast use vstd::multiset::group_multiset_axioms;

    let shown = kept(served, listable_reader());
    let list = discovered(served);
    kept_no_more(served, listable_reader());
    kind_order_weak();
    sorted_list_sorts(shown, kind_order());
    assert forall|k: KindView| #[trigger] list.contains(k) <==> shown.contains(k) by {
        assert(list.to_multiset().count(k) == shown.to_multiset().count(k));
    }
    assert forall|i: int| 0 <= i < list.len() implies listable(#[trigger] list[i])
        && served.contains(list[i]) by {
        assert(list.contains(list[i]));
        kept_from(served, listable_reader(), list[i]);
    }
    assert forall|i: int| 0 <= i < served.len() && listable(#[trigger] served[i]) implies list.contains(
        served[i],
    ) by {
        kept_holds(served, listable_reader(), i);
    }
    assert forall|a: int, b: int| 0 <= a < b < list.len() implies !row_below(
        kind_row(#[trigger] list[b]),
        kind_row(#[trigger] list[a]),
    ) by {
        let before = kind_order();
        assert(!before(list[b], list[a]));
    }
}

/// The positions of a list of kinds.
struct Kinds<'a> {
    list: &'a Vec<Kind>,
}

impl<'a> Ranking for Kinds<'a> {
    closed spec fn count(&self) -> nat {
        self.list@.len()
    }

    closed spec fn order(&self) -> spec_fn(int, int) -> bool {
        by_position(kind_views(self.list@), kind_order())
    }

    fn precedes(&self, i: usize, j: usize) -> (r: bool) {
        let x = &self.list[i];
        let y = &self.list[j];
        let a: Vec<Option<&str>> = vec![
            Some(x.resource.kind.as_str()),
            Some(x.resource.group.as_str()),
        ];
        let b: Vec<Option<&str>> = vec![
            Some(y.resource.kind.as_str()),
            Some(y.resource.group.as_str()),
        ];
        assert(row_of(a@) =~= kind_row(x@));
        assert(row_of(b@) =~= kind_row(y@));
        assert(kind_views(self.list@)[i as int] == x@);
        assert(kind_views(self.list@)[j as int] == y@);
        row_less(&a, &b)
    }
}

/// Every kind a cluster serves, at the version the server recommends.
pub struct Discovery {
    kinds: Vec<Kind>,
}

impl View for Discovery {
    type V = Seq<KindView>;

    closed spec fn view(&self) -> Seq<KindView> {
        kind_views(self.kinds@)
    }
}

/// Whether the kind at `i` is the one that a name means: of those with the
/// name, the first with the shortest group.
pub open spec fn means(kinds: Seq<KindView>, name: Seq<char>, i: int) -> bool {
    &&& 0 <= i < kinds.len()
    &&& kinds[i].resource.kind == name
    &&& forall|k: int|
        0 <= k < kinds.len() && (#[trigger] kinds[k]).resource.kind == name ==> byte_length(
            kinds[i].resource.group,
        ) <= byte_length(kinds[k].resource.group) && (k < i ==> byte_length(
            kinds[i].resource.group,
        ) < byte_length(kinds[k].resource.group))
}

impl Discovery {
    /// What a cluster serves, of what it answered: only listable kinds are
    /// kept, alphabetically by kind and then by group, rather than in the order
    /// the API server happened to answer in.
    pub fn from_served(served: &Vec<Kind>) -> (r: Discovery)
        ensures
            r@ == discovered(kind_views(served@)),
    {
        let ghost all = kind_views(served@);
        let mut shown: Vec<Kind> = Vec::new();
        let mut i: usize = 0;
        assert(kind_views(shown@) =~= Seq::empty());
        proof {
            kept_bounds(all, listable_reader());
        }
        while i < served.len()
            invariant
                i <= served.len(),
                all == kind_views(served@),
                kind_views(shown@) == kept(all.take(i as int), listable_reader()),
            decreases served.len() - i,
        {
            proof {
                kept_next(all, i as int, listable_reader());
                assert(all[i as int] == served@[i as int]@);
            }
            if served[i].is_listable() {
                let ghost before = shown@;
                shown.push(served[i].copy());
                assert(kind_views(shown@) =~= kind_views(before).push(served@[i as int]@));
            }
            i += 1;
        }
        let ranking = Kinds { list: &shown };
        proof {
            kind_order_weak();
            positions_weak(kind_views(shown@), kind_order());
        }
        let order = sort(shown.len(), &ranking);
        let mut kinds: Vec<Kind> = Vec::new();
        let mut k: usize = 0;
        while k < order.len()
            invariant
                k <= order.len(),
                kinds@.len() == k,
                order@.len() == shown@.len(),
                forall|m: int| 0 <= m < order@.len() ==> (#[trigger] order@[m]) < shown@.len(),
                forall|m: int| 0 <= m < k ==> (#[trigger] kinds@[m])@ == shown@[order@[m] as int]@,
            decreases order.len() - k,
        {
            kinds.push(shown[order[k]].copy());
            k += 1;
        }
        proof {
            sorting_arranges(kind_views(shown@), order@, kind_order());
            assert(kind_views(kinds@) =~= arranged(kind_views(shown@), order@));
        }
        Discovery { kinds }
    }

    /// The given kinds as they stand.
    pub fn of(kinds: Vec<Kind>) -> (r: Discovery)
        ensures
            r@ == kind_views(kinds@),
    {
        Discovery { kinds }
    }

    pub fn kinds(&self) -> (r: &Vec<Kind>)
        ensures
            kind_views(r@) == self@,
    {
        &self.kinds
    }

    pub fn is_empty(&self) -> (r: bool)
        ensures
            r == (self@.len() == 0),
    {
        self.kinds.len() == 0
    }

    /// The first kind of that group, version and name.
    pub fn get(&self, gvk: &GroupVersionKind) -> (r: Option<&Kind>)
        ensures
            match r {
                Some(kind) => exists|i: int|
                    0 <= i < self@.len() && self@[i] == kind@ && gvk_of(self@[i]) == gvk@
                        && forall|k: int| 0 <= k < i ==> gvk_of(#[trigger] self@[k]) != gvk@,
                None => forall|k: int|
                    0 <= k < self@.len() ==> gvk_of(#[trigger] self@[k]) != gvk@,
            },
    {
        let mut i: usize = 0;
        while i < self.kinds.len()
            invariant
                i <= self.kinds.len(),
                self@.len() == self.kinds@.len(),
                forall|k: int| 0 <= k < i ==> gvk_of(#[trigger] self@[k]) != gvk@,
            decreases self.kinds.len() - i,
        {
            assert(self@[i as int] == self.kinds@[i as int]@);
            if self.kinds[i].gvk().same(gvk) {
                return Some(&self.kinds[i]);
            }
            i += 1;
        }
        None
    }

    /// The kind a given `kind` name refers to, preferring the core group.
    ///
    /// `Pod` should mean the Pod everybody means, even on a cluster where
    /// something else also calls itself one.
    pub fn find(&self, kind: &str) -> (r: Option<&Kind>)
        ensures
            match r {
                Some(found) => exists|i: int| means(self@, kind@, i) && self@[i] == found@,
                None => forall|k: int|
                    0 <= k < self@.len() ==> (#[trigger] self@[k]).resource.kind != kind@,
            },
    {
        let mut best: Option<usize> = None;
        let mut i: usize = 0;
        while i < self.kinds.len()
            invariant
                i <= self.kinds.len(),
                self@.len() == self.kinds@.len(),
                match best {
                    Some(b) => b < i && means(self@.take(i as int), kind@, b as int),
                    None => forall|k: int|
                        0 <= k < i ==> (#[trigger] self@[k]).resource.kind != kind@,
                },
            decreases self.kinds.len() - i,
        {
            assert(self@[i as int] == self.kinds@[i as int]@);
            let ghost now = self@.take(i as int);
            let ghost next = self@.take(i + 1);
            assert forall|k: int| 0 <= k < i implies now[k] == next[k] by {}
            if same(self.kinds[i].resource.kind.as_str(), kind) {
                let shorter = match best {
                    Some(b) => {
                        assert(self@[b as int] == self.kinds@[b as int]@);
                        bytes(self.kinds[i].resource.group.as_str()) < bytes(
                            self.kinds[b].resource.group.as_str(),
                        )
                    },
                    None => true,
                };
                if shorter {
                    let ghost was = best;
                    best = Some(i);
                    proof {
                        assert forall|k: int|
                            0 <= k < next.len() && (#[trigger] next[k]).resource.kind
                                == kind@ implies byte_length(next[i as int].resource.group)
                            <= byte_length(next[k].resource.group) && (k < i ==> byte_length(
                            next[i as int].resource.group,
                        ) < byte_length(next[k].resource.group)) by {
                            if k < i {
                                assert(next[k] == self@[k]);
                                assert(now[k] == self@[k]);
                                assert(was is Some);
                                assert(now[was->0 as int] == self@[was->0 as int]);
                            }
                        }
                    }
                } else {
                    proof {
                        let b = best->0 as int;
                        assert(means(now, kind@, b));
                        assert(now[b] == next[b]);
                        assert forall|k: int|
                            0 <= k < next.len() && (#[trigger] next[k]).resource.kind
                                == kind@ implies byte_length(next[b].resource.group)
                            <= byte_length(next[k].resource.group) && (k < b ==> byte_length(
                            next[b].resource.group,
                        ) < byte_length(next[k].resource.group)) by {
                            if k < i {
                                assert(now[k] == next[k]);
                            }
                        }
                    }
                }
            } else {
                proof {
                    if best is Some {
                        let b = best->0 as int;
                        assert(means(now, kind@, b));
                        assert(now[b] == next[b]);
                        assert forall|k: int|
                            0 <= k < next.len() && (#[trigger] next[k]).resource.kind
                                == kind@ implies byte_length(next[b].resource.group)
                            <= byte_length(next[k].resource.group) && (k < b ==> byte_length(
                            next[b].resource.group,
                        ) < byte_length(next[k].resource.group)) by {
                            assert(k < i);
                            assert(now[k] == next[k]);
                        }
                    }
                }
            }
            i += 1;
        }
        assert(self@.take(i as int) =~= self@);
        match best {
            Some(b) => {
                assert(self@[b as int] == self.kinds@[b as int]@);
                Some(&self.kinds[b])
            },
            None => None,
        }
    }
}

/// The `additionalPrinterColumns` of CRDs, remembered per cluster.
///
/// `None` under a kind means asked and there are none: a built-in kind, a CRD
/// without columns, or a cluster that will not let us read CRDs. None of them
/// is worth asking twice.
pub struct PrinterColumns {
    known: Dict<GroupVersionKind, Option<Arc<Json>>>,
}

impl View for PrinterColumns {
    type V = Map<GvkView, Option<Arc<Json>>>;

    closed spec fn view(&self) -> Map<GvkView, Option<Arc<Json>>> {
        self.known@
    }
}

impl PrinterColumns {
    pub fn new() -> (r: PrinterColumns)
        ensures
            r@ == Map::<GvkView, Option<Arc<Json>>>::empty(),
    {
        PrinterColumns { known: Dict::new() }
    }

    pub fn get(&self, gvk: &GroupVersionKind) -> (r: Option<Option<&Arc<Json>>>)
        ensures
            match r {
                Some(Some(columns)) => self@.dom().contains(gvk@) && self@[gvk@] == Some(*columns),
                Some(None) => self@.dom().contains(gvk@) && self@[gvk@] is None,
                None => !self@.dom().contains(gvk@),
            },
    {
        match self.known.get(gvk) {
            Some(known) => match known {
                Some(columns) => Some(Some(columns)),
                None => Some(None),
            },
            None => None,
        }
    }

    pub fn insert(&mut self, gvk: GroupVersionKind, columns: Option<Arc<Json>>)
        ensures
            final(self)@ == old(self)@.insert(gvk@, columns),
    {
        self.known.insert(gvk, columns);
    }
}

/// The resource of CRDs themselves.
pub open spec fn crd_view() -> ResourceView {
    resource_of(
        GvkView {
            group: "apiextensions.k8s.io"@,
            version: "v1"@,
            kind: "CustomResourceDefinition"@,
        },
        "customresourcedefinitions"@,
    )
}

/// The resource of CRDs themselves.
pub fn crd_resource() -> (r: ApiResource)
    ensures
        r@ == crd_view(),
{
    ApiResource::from_gvk_with_plural(
        &GroupVersionKind::gvk("apiextensions.k8s.io", "v1", "CustomResourceDefinition"),
        "customresourcedefinitions",
    )
}

/// A CRD's own name is always `<plural>.<group>`.
pub fn crd_name(resource: &ApiResource) -> (r: String)
    ensures
        r@ == resource@.plural + "."@ + resource@.group,
{
    three(resource.plural.as_str(), ".", resource.group.as_str())
}

/// The first version of a CRD from `k` on with that name.
pub open spec fn version_named(versions: Seq<JsonView>, name: Seq<char>, k: int) -> Option<JsonView>
    decreases versions.len() - k,
{
    if k >= versions.len() {
        None
    } else if text_of(versions[k].get("name"@)) == Some(name) {
        Some(versions[k])
    } else {
        version_named(versions, name, k + 1)
    }
}

/// The columns that a CRD declares for a version.
pub open spec fn declared_for(crd: JsonView, version: Seq<char>) -> Option<JsonView> {
    part(
        version_named(items_of(part(crd.get("spec"@), "versions"@)), version, 0),
        "additionalPrinterColumns"@,
    )
}

/// The columns that a CRD declares for a version, read out of the CRD.
pub fn columns_for_version<'a>(crd: &'a Json, version: &str) -> (r: Option<&'a Json>)
    ensures
        model_of(r) == declared_for(crd@, version@),
{
    let versions = match field(crd.get("spec"), "versions") {
        Some(versions) => match versions.as_array() {
            Some(versions) => versions,
            None => return None,
        },
        None => return None,
    };
    let ghost all = models(versions@);
    let mut i: usize = 0;
    while i < versions.len()
        invariant
            i <= versions.len(),
            all == models(versions@),
            all == items_of(part(crd@.get("spec"@), "versions"@)),
            version_named(all, version@, 0) == version_named(all, version@, i as int),
        decreases versions.len() - i,
    {
        assert(all[i as int] == versions@[i as int]@);
        let found = match string_at(versions[i].get("name")) {
            Some(name) => same(name, version),
            None => false,
        };
        if found {
            return versions[i].get("additionalPrinterColumns");
        }
        i += 1;
    }
    None
}

} // verus!
