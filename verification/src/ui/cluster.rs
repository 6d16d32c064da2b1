//! One cluster on screen: which kind, which namespaces, which row, and what the
//! last thing done to it said.
use std::sync::Arc;

use vstd::prelude::*;
use vstd::string::*;

use crate::base::decimal::{decimal, integer, natural, signed};
use crate::base::dict::{map_of_keys, map_of_value, row_below, Dict, Key, Text};
use crate::base::json::{field, int_of, integer_at, model_of, part, Json, JsonView};
use crate::base::list::{kept, kept_bounds, kept_next, ordered_lists_agree};
use crate::base::sort::{ascending, sort_strings};
use crate::base::text::{
    each, held, lent, precedes, precedes_irreflexive, precedes_transitive, same, starts_with, three,
    two,
};
use crate::base::time::Timestamp;
use crate::columns::{columns_for, fallback_columns, ColumnSet};
use crate::k8s::access::{Rules, RulesView};
use crate::k8s::discovery::{gvk_of, kind_views, Kind, KindView};
use crate::k8s::forward::{address_of, Forward};
use crate::k8s::helm::Release;
use crate::k8s::ops::{description, summary_of, Conflict, Operation};
use crate::k8s::resources::{DynamicObject, GroupVersionKind, ObjectView};
use crate::k8s::session::{Health, HealthView};
use crate::k8s::store::{
    applied_all, applied_all_in, delta_views, ref_of, share, Delta, DeltaBatch, DeltaView,
    ObjectRef, RefView, ResourceStore, StoreView,
};
use crate::k8s::watch::{WatchKey, WatchKeyView};
use crate::ui::actions::{available, choice_views, menu, ports, ports_of, ChoiceView};
use crate::ui::catalog::{
    best_entries, category_label, entry_views, flat, labels_of, opening_kind, section_views,
    sections_of, Catalog, Category, Entry, EntryView,
};
use crate::ui::detail::{DetailTab, DetailView, PanelView, Yaml};
use crate::ui::fuzzy::{scores_of, Searcher};
use crate::ui::palette::Sources;
use crate::ui::prompt::Ask;
use crate::ui::table::{
    an_empty_search_hides_nothing, in_display_order, listed_naturally, ref_views, rows_complete,
    ColumnSort, ResourceTable, Sort, TableView,
};
use crate::ui::theme::Tone;

verus! {

/// The namespace picker's entry for "do not scope at all". A namespace cannot
/// contain a space, so this can never collide with a real one.
pub const ALL_NAMESPACES: &'static str = "All namespaces";

/// Where a cluster opens when its context does not name a namespace. The same
/// one `kubectl` falls back to.
pub const DEFAULT_NAMESPACE: &'static str = "default";

/// How often the Age column is repainted, in seconds.
pub const CLOCK: u64 = 1;

/// How often usage is re-read, in seconds.
pub const METRICS_INTERVAL: u64 = 10;

/// What the main area is showing.
#[derive(Debug, Clone, Copy, PartialEq, Eq, Structural)]
pub enum Mode {
    Objects,
    Releases,
    Forwards,
}

/// What a mode is called.
pub open spec fn mode_label(mode: Mode) -> Seq<char> {
    match mode {
        Mode::Objects => "Objects"@,
        Mode::Releases => "Helm Releases"@,
        Mode::Forwards => "Port Forwards"@,
    }
}

impl Mode {
    pub fn label(&self) -> (r: &'static str)
        ensures
            r@ == mode_label(*self),
    {
        match self {
            Mode::Objects => "Objects",
            Mode::Releases => "Helm Releases",
            Mode::Forwards => "Port Forwards",
        }
    }
}

/// What the Helm list has to show.
#[derive(Debug, PartialEq, Eq)]
pub enum Releases {
    Unopened,
    Loading,
    Ready(Vec<Release>),
    Failed(String),
}

/// What the last write operation said, for the toolbar.
#[derive(Debug, PartialEq, Eq)]
pub enum Outcome {
    Running(String),
    Done(String),
    Failed(String),
}

/// What the last write operation said, as a mathematical object.
pub enum OutcomeView {
    Running(Seq<char>),
    Done(Seq<char>),
    Failed(Seq<char>),
}

impl View for Outcome {
    type V = OutcomeView;

    open spec fn view(&self) -> OutcomeView {
        match self {
            Outcome::Running(what) => OutcomeView::Running(what@),
            Outcome::Done(what) => OutcomeView::Done(what@),
            Outcome::Failed(why) => OutcomeView::Failed(why@),
        }
    }
}

/// What an optional outcome stands for.
pub open spec fn outcome_view(outcome: Option<Outcome>) -> Option<OutcomeView> {
    match outcome {
        Some(outcome) => Some(outcome@),
        None => None,
    }
}

impl Outcome {
    /// How the toolbar says it.
    pub fn text(&self) -> (r: (Tone, String))
        ensures
            match self@ {
                OutcomeView::Running(what) => r.0 == Tone::Progressing && r.1@ == what + "…"@,
                OutcomeView::Done(what) => r.0 == Tone::Healthy && r.1@ == what + " — done"@,
                OutcomeView::Failed(why) => r.0 == Tone::Critical && r.1@ == why,
            },
    {
        match self {
            Outcome::Running(what) => (Tone::Progressing, two(what.as_str(), "…")),
            Outcome::Done(what) => (Tone::Healthy, two(what.as_str(), " — done")),
            Outcome::Failed(why) => (Tone::Critical, why.clone()),
        }
    }
}

/// The namespaces on screen. None of them means every namespace, which is the
/// one case that is a single cluster-wide watch rather than a watch each.
pub struct NamespaceScope {
    names: Dict<Text, ()>,
}

impl View for NamespaceScope {
    type V = Set<Seq<char>>;

    closed spec fn view(&self) -> Set<Seq<char>> {
        self.names@.dom()
    }
}

/// Whether a list holds the names of a set in order, each once.
pub open spec fn lists_names(list: Seq<Seq<char>>, names: Set<Seq<char>>) -> bool {
    &&& forall|i: int| 0 <= i < list.len() ==> names.contains(#[trigger] list[i])
    &&& forall|n: Seq<char>| #[trigger]
        names.contains(n) ==> exists|i: int| 0 <= i < list.len() && #[trigger] list[i] == n
    &&& forall|i: int, j: int|
        0 <= i < j < list.len() ==> precedes(#[trigger] list[i], #[trigger] list[j])
}

/// There is one way to list the names of a set.
pub proof fn names_are_listed_one_way(
    one: Seq<Seq<char>>,
    other: Seq<Seq<char>>,
    names: Set<Seq<char>>,
)
    requires
        lists_names(one, names),
        lists_names(other, names),
    ensures
        one == other,
{
    let before = |a: Seq<char>, b: Seq<char>| precedes(a, b);
    assert forall|a: Seq<char>, b: Seq<char>| #[trigger] before(a, b) implies !before(b, a) by {
        if precedes(b, a) {
            precedes_transitive(a, b, a);
            precedes_irreflexive(a);
        }
    }
    assert forall|n: Seq<char>| #[trigger] one.contains(n) <==> other.contains(n) by {
        if one.contains(n) {
            let i = choose|i: int| 0 <= i < one.len() && one[i] == n;
            assert(names.contains(one[i]));
        }
        if other.contains(n) {
            let i = choose|i: int| 0 <= i < other.len() && other[i] == n;
            assert(names.contains(other[i]));
        }
    }
    ordered_lists_agree(one, other, before);
}

/// A set with one name more or one less.
pub open spec fn toggled(names: Set<Seq<char>>, name: Seq<char>) -> Set<Seq<char>> {
    if names.contains(name) {
        names.remove(name)
    } else {
        names.insert(name)
    }
}

/// Ticking a namespace twice leaves the selection as it was.
pub proof fn toggling_twice_restores(names: Set<Seq<char>>, name: Seq<char>)
    ensures
        toggled(toggled(names, name), name) == names,
{
    assert(toggled(toggled(names, name), name) =~= names);
}

/// Ticking a namespace leaves the others alone.
pub proof fn toggling_leaves_the_others(names: Set<Seq<char>>, name: Seq<char>, other: Seq<char>)
    requires
        other != name,
    ensures
        toggled(names, name).contains(other) == names.contains(other),
{
}

/// The one namespace of a scope, where there is exactly one.
pub open spec fn only(names: Set<Seq<char>>) -> Option<Seq<char>> {
    if names.len() == 1 {
        Some(names.choose())
    } else {
        None
    }
}

impl NamespaceScope {
    /// Every namespace.
    pub fn all() -> (r: NamespaceScope)
        ensures
            r@ == Set::<Seq<char>>::empty(),
    {
        let names: Dict<Text, ()> = Dict::new();
        assert(names@.dom() =~= Set::empty());
        NamespaceScope { names }
    }

    /// One namespace.
    pub fn one(name: &str) -> (r: NamespaceScope)
        ensures
            r@ == Set::<Seq<char>>::empty().insert(name@),
    {
        let mut names: Dict<Text, ()> = Dict::new();
        names.insert(Text { text: name.to_owned() }, ());
        assert(names@.dom() =~= Set::empty().insert(name@));
        NamespaceScope { names }
    }

    /// The names, in order.
    pub fn names(&self) -> (out: Vec<String>)
        ensures
            lists_names(each(out@), self@),
            out@.len() == self@.len(),
            self@.finite(),
    {
        let n: usize = self.names.len();
        let ghost list = self.names.entries();
        let mut out: Vec<String> = Vec::new();
        let mut i: usize = 0;
        while i < n
            invariant
                i <= n,
                n == list.len(),
                list == self.names.entries(),
                out@.len() == i,
                forall|k: int| 0 <= k < i ==> (#[trigger] out@[k])@ == list[k].0@,
            decreases n - i,
        {
            out.push(self.names.key(i).text.clone());
            i += 1;
        }
        proof {
            let texts = each(out@);
            assert forall|i: int| 0 <= i < texts.len() implies self@.contains(
                #[trigger] texts[i],
            ) && texts[i] == list[i].0@ by {
                assert(out@[i]@ == list[i].0@);
                map_of_value(list, i);
            }
            assert forall|n: Seq<char>| #[trigger] self@.contains(n) implies exists|i: int|
                0 <= i < texts.len() && #[trigger] texts[i] == n by {
                map_of_keys(list, n);
                let i = choose|i: int| 0 <= i < list.len() && (#[trigger] list[i]).0@ == n;
                assert(texts[i] == n);
            }
            assert forall|i: int, j: int| 0 <= i < j < texts.len() implies
                crate::base::text::precedes(#[trigger] texts[i], #[trigger] texts[j]) by {
                assert(texts[i] == list[i].0@ && texts[j] == list[j].0@);
                assert(row_below(Text::row(list[i].0@), Text::row(list[j].0@)));
                reveal_with_fuel(row_below, 2);
            }
        }
        out
    }

    pub fn len(&self) -> (r: usize)
        ensures
            r == self@.len(),
            self@.finite(),
    {
        self.names.len()
    }

    pub fn contains(&self, name: &str) -> (r: bool)
        ensures
            r == self@.contains(name@),
    {
        self.names.get(&Text { text: name.to_owned() }).is_some()
    }

    /// The scope with one namespace more or one less.
    pub fn toggle(&self, name: &str) -> (r: NamespaceScope)
        ensures
            r@ == toggled(self@, name@),
    {
        let list = self.names();
        let ghost texts = each(list@);
        let mut names: Dict<Text, ()> = Dict::new();
        let mut i: usize = 0;
        assert(names@.dom() =~= texts.take(0).to_set());
        while i < list.len()
            invariant
                i <= list.len(),
                texts == each(list@),
                names@.dom() == texts.take(i as int).to_set(),
            decreases list.len() - i,
        {
            let ghost before = names@.dom();
            names.insert(Text { text: list[i].clone() }, ());
            proof {
                assert(texts.take(i + 1) =~= texts.take(i as int).push(texts[i as int]));
                texts.take(i as int).lemma_push_to_set_commute(texts[i as int]);
                assert(texts[i as int] == list@[i as int]@);
                assert(names@.dom() =~= before.insert(texts[i as int]));
            }
            i += 1;
        }
        proof {
            assert(texts.take(i as int) =~= texts);
            assert(texts.to_set() =~= self@) by {
                assert forall|n: Seq<char>| texts.to_set().contains(n) <==> self@.contains(n) by {
                    if self@.contains(n) {
                        let k = choose|k: int| 0 <= k < texts.len() && #[trigger] texts[k] == n;
                        assert(texts.contains(n));
                    }
                    if texts.contains(n) {
                        let k = choose|k: int| 0 <= k < texts.len() && texts[k] == n;
                        assert(self@.contains(texts[k]));
                    }
                }
            }
        }
        let ghost before = names@.dom();
        let key = Text { text: name.to_owned() };
        if names.remove(&key).is_none() {
            names.insert(key, ());
            assert(names@.dom() =~= before.insert(name@));
        } else {
            assert(names@.dom() =~= before.remove(name@));
        }
        NamespaceScope { names }
    }

    /// Whether two scopes are the same.
    pub fn same(&self, other: &NamespaceScope) -> (r: bool)
        ensures
            r == (self@ == other@),
    {
        let mine = self.names();
        let theirs = other.names();
        let ghost a = each(mine@);
        let ghost b = each(theirs@);
        if mine.len() != theirs.len() {
            return false;
        }
        let mut i: usize = 0;
        while i < mine.len()
            invariant
                i <= mine@.len(),
                a == each(mine@),
                lists_names(a, self@),
                self@.finite(),
                other@.finite(),
                mine@.len() == self@.len(),
                self@.len() == other@.len(),
                forall|k: int| 0 <= k < i ==> other@.contains(#[trigger] a[k]),
            decreases mine@.len() - i,
        {
            assert(a[i as int] == mine@[i as int]@);
            if !other.contains(mine[i].as_str()) {
                assert(self@.contains(a[i as int]));
                return false;
            }
            i += 1;
        }
        proof {
            assert forall|n: Seq<char>| self@.contains(n) implies other@.contains(n) by {
                let k = choose|k: int| 0 <= k < a.len() && #[trigger] a[k] == n;
            }
            vstd::set_lib::lemma_subset_equality(self@, other@);
        }
        true
    }

    /// The one namespace everything is scoped to, if there is exactly one.
    ///
    /// The requests that take a single namespace use this and fall back to
    /// cluster-wide.
    pub fn only_namespace(&self) -> (r: Option<String>)
        ensures
            held(r) == only(self@),
    {
        let list = self.names();
        if list.len() == 1 {
            proof {
                let name = list@[0]@;
                assert(each(list@)[0] == name);
                assert(self@.contains(name));
                Set::lemma_is_singleton(self@);
                assert(self@.contains(self@.choose()));
            }
            Some(list[0].clone())
        } else {
            None
        }
    }

    /// What the picker's button says.
    pub fn label(&self) -> (r: String)
        ensures
            r@ == (if self@.len() == 0 {
                "All namespaces"@
            } else if self@.len() == 1 {
                only(self@)->0
            } else {
                decimal(self@.len()) + " namespaces"@
            }),
    {
        let n: usize = self.len();
        if n == 0 {
            return "All namespaces".to_owned();
        }
        match self.only_namespace() {
            Some(name) => name,
            None => two(natural(n as u128).as_str(), " namespaces"),
        }
    }
}

/// The watches that a kind needs. `None` is a cluster-wide watch, and is the
/// only option for a cluster-scoped kind. Several namespaces are several
/// watches: for people whose permissions are namespaced a cluster-wide list
/// would be refused outright.
pub open spec fn scopes_of(namespaced: bool, names: Seq<Seq<char>>) -> Seq<Option<Seq<char>>> {
    if !namespaced || names.len() == 0 {
        seq![None]
    } else {
        names.map_values(|n: Seq<char>| Some(n))
    }
}

/// What a watch of a kind in one scope watches.
pub open spec fn scoped_key(kind: KindView, namespace: Option<Seq<char>>) -> WatchKeyView {
    WatchKeyView { resource: kind.resource, namespace, labels: None, fields: None }
}

/// What a list of watch keys stands for.
pub open spec fn key_views(list: Seq<WatchKey>) -> Seq<WatchKeyView> {
    list.map_values(|k: WatchKey| k@)
}

/// The watches that a kind needs in a scope.
pub fn watch_keys(kind: &Kind, scope: &NamespaceScope) -> (out: Vec<WatchKey>)
    ensures
        exists|names: Seq<Seq<char>>| #[trigger]
            lists_names(names, scope@) && key_views(out@) == scopes_of(
                kind@.namespaced,
                names,
            ).map_values(|n: Option<Seq<char>>| scoped_key(kind@, n)),
{
    let list = scope.names();
    let ghost names = each(list@);
    let ghost expected = scopes_of(kind@.namespaced, names).map_values(
        |n: Option<Seq<char>>| scoped_key(kind@, n),
    );
    let mut out: Vec<WatchKey> = Vec::new();
    if !kind.namespaced || list.len() == 0 {
        out.push(WatchKey::all(kind.resource.copy()));
        assert(key_views(out@) =~= expected);
        return out;
    }
    let mut i: usize = 0;
    while i < list.len()
        invariant
            i <= list@.len(),
            out@.len() == i,
            forall|k: int|
                0 <= k < i ==> (#[trigger] out@[k])@ == scoped_key(kind@, Some(list@[k]@)),
        decreases list@.len() - i,
    {
        out.push(WatchKey::namespaced(kind.resource.copy(), list[i].as_str()));
        i += 1;
    }
    assert(key_views(out@) =~= expected);
    out
}

/// The columns of a kind in a scope. The Namespace column earns its place as
/// soon as the rows can come from more than one.
pub fn scoped_columns(kind: &Kind, scope: &NamespaceScope, printer_columns: Option<&Json>) -> (r:
    ColumnSet)
    ensures
        r@ == columns_for(
            kind@.resource.group,
            kind@.resource.kind,
            kind@.namespaced && scope@.len() != 1,
            model_of(printer_columns),
        ),
{
    let mixed = kind.namespaced && scope.len() != 1;
    ColumnSet::resolve(
        kind.resource.group.as_str(),
        kind.resource.kind.as_str(),
        mixed,
        printer_columns,
    )
}

/// An integer as 32 bits of it.
pub open spec fn low_bits(i: int) -> i32 {
    let rest = i % 0x1_0000_0000;
    if rest >= 0x8000_0000 {
        (rest - 0x1_0000_0000) as i32
    } else {
        rest as i32
    }
}

/// The replicas that an object asks for, one where it does not say.
pub open spec fn replicas_of(data: JsonView) -> i32 {
    match int_of(part(data.get("spec"@), "replicas"@)) {
        Some(n) => low_bits(n),
        None => 1,
    }
}

/// The replicas that an object asks for.
pub fn replicas(data: &Json) -> (r: i32)
    ensures
        r == replicas_of(data@),
{
    match integer_at(field(data.get("spec"), "replicas")) {
        Some(n) => {
            let wide: i128 = n as i128;
            let rest: i128 = if wide >= 0 {
                wide % 0x1_0000_0000
            } else {
                let back: i128 = (-wide) % 0x1_0000_0000;
                if back == 0 {
                    0
                } else {
                    0x1_0000_0000 - back
                }
            };
            proof {
                if wide < 0 {
                    vstd::arithmetic::div_mod::lemma_fundamental_div_mod(
                        -wide as int,
                        0x1_0000_0000,
                    );
                    vstd::arithmetic::div_mod::lemma_fundamental_div_mod(
                        wide as int,
                        0x1_0000_0000,
                    );
                }
                assert(rest == (wide as int) % 0x1_0000_0000);
            }
            if rest >= 0x8000_0000 {
                (rest - 0x1_0000_0000) as i32
            } else {
                rest as i32
            }
        },
        None => 1,
    }
}

/// What a pick of the actions menu leads to.
pub enum Start {
    /// Nothing: there is no kind or no selected object to do it to.
    Nothing,
    /// It is done right away.
    Run(Operation, ObjectRef),
    /// It is asked about first.
    Ask(Ask),
}

/// What came back from a write.
pub enum Written {
    Done,
    /// Somebody else owns fields that it would change.
    Conflict(Conflict),
    Failed(String),
}

/// One cluster on screen.
pub struct ClusterView {
    health: Health,
    /// The kinds this cluster serves, grouped for the sidebar.
    catalog: Catalog,
    /// The kind currently on screen.
    kind: Option<Arc<Kind>>,
    scope: NamespaceScope,
    /// The namespaces that exist, kept live by their own watch.
    namespaces: ResourceStore,
    /// The names the picker offers, sorted.
    namespace_names: Vec<String>,
    table: ResourceTable,
    /// The row that is selected.
    selected_row: Option<usize>,
    /// Whether the namespace menu is open. Picking one namespace has to close it.
    menu_open: bool,
    /// What is typed into the sidebar's search box.
    query: String,
    /// The panel for the selected object. `None` means that nothing is selected,
    /// or that the user closed it.
    detail: Option<DetailView>,
    /// What this user may do in the current namespace. `None` until the answer
    /// arrives.
    rules: Option<Arc<Rules>>,
    outcome: Option<Outcome>,
    mode: Mode,
    releases: Releases,
    /// Whether this view's tab is the one on screen.
    visible: bool,
}

/// One cluster on screen, as a mathematical object.
pub struct ClusterModel {
    pub health: HealthView,
    pub catalog: Seq<(Category, Seq<EntryView>)>,
    pub kind: Option<KindView>,
    pub scope: Set<Seq<char>>,
    pub namespaces: StoreView,
    pub names: Seq<Seq<char>>,
    pub table: TableView,
    pub selected_row: Option<usize>,
    pub menu_open: bool,
    pub query: Seq<char>,
    pub detail: Option<PanelView>,
    pub rules: Option<RulesView>,
    pub outcome: Option<OutcomeView>,
    pub mode: Mode,
    pub releases: Releases,
    pub visible: bool,
}

/// What an optional shared kind stands for.
pub open spec fn kind_of(kind: Option<Arc<Kind>>) -> Option<KindView> {
    match kind {
        Some(kind) => Some(kind@),
        None => None,
    }
}

/// What an optional reference stands for.
pub open spec fn target_of(target: Option<ObjectRef>) -> Option<RefView> {
    match target {
        Some(target) => Some(target@),
        None => None,
    }
}

/// What an optional panel stands for.
pub open spec fn panel_of(panel: Option<DetailView>) -> Option<PanelView> {
    match panel {
        Some(panel) => Some(panel@),
        None => None,
    }
}

/// A panel that was just opened on an object.
pub open spec fn opened(kind: KindView, object: ObjectView, now: int) -> PanelView {
    PanelView {
        kind,
        target: ref_of(object),
        object,
        tab: DetailTab::Overview,
        yaml: Yaml::Unopened,
        events: StoreView { objects: Map::empty(), revision: 0 },
        events_listed: false,
        now,
    }
}

/// Whether a row can be opened and is not what the panel shows already.
pub open spec fn opens(m: ClusterModel, row: int) -> bool {
    &&& m.kind is Some
    &&& 0 <= row < m.table.rows.len()
    &&& !(m.detail matches Some(panel) && panel.target == m.table.rows[row])
}

/// The panel after a request to open a row. One that shows that object already
/// is kept.
pub open spec fn panel_after(m: ClusterModel, row: int, now: int) -> Option<PanelView> {
    if opens(m, row) {
        Some(opened(m.kind->0, m.table.store.objects[m.table.rows[row]], now))
    } else {
        m.detail
    }
}

/// The panel once it has been handed the object that the table now holds. One
/// whose object was deleted keeps showing what it had.
pub open spec fn refreshed(
    detail: Option<PanelView>,
    objects: Map<RefView, ObjectView>,
) -> Option<PanelView> {
    match detail {
        Some(panel) => if objects.dom().contains(panel.target) {
            Some(PanelView { object: objects[panel.target], ..panel })
        } else {
            Some(panel)
        },
        None => None,
    }
}

/// What optional shared rules stand for.
pub open spec fn shared_rules(rules: Option<Arc<Rules>>) -> Option<RulesView> {
    match rules {
        Some(rules) => Some(rules@),
        None => None,
    }
}

impl View for ClusterView {
    type V = ClusterModel;

    closed spec fn view(&self) -> ClusterModel {
        ClusterModel {
            health: self.health@,
            catalog: self.catalog@,
            kind: kind_of(self.kind),
            scope: self.scope@,
            namespaces: self.namespaces@,
            names: each(self.namespace_names@),
            table: self.table@,
            selected_row: self.selected_row,
            menu_open: self.menu_open,
            query: self.query@,
            detail: panel_of(self.detail),
            rules: shared_rules(self.rules),
            outcome: outcome_view(self.outcome),
            mode: self.mode,
            releases: self.releases,
            visible: self.visible,
        }
    }
}

/// Whether a table has been pointed at a kind: its columns, and nothing in it.
pub open spec fn points_at(t: TableView, kind: KindView, scope: Set<Seq<char>>) -> bool {
    &&& t.columns == columns_for(
        kind.resource.group,
        kind.resource.kind,
        kind.namespaced && scope.len() != 1,
        None,
    )
    &&& t.store.objects == Map::<RefView, ObjectView>::empty()
    &&& t.store.revision == 0
    &&& t.rows.len() == 0
    &&& t.sort == Sort::Natural
}

/// One namespace, or all of them.
pub open spec fn scope_named(namespace: Option<Seq<char>>) -> Set<Seq<char>> {
    match namespace {
        Some(name) => Set::<Seq<char>>::empty().insert(name),
        None => Set::empty(),
    }
}

/// What pointing a view at a set of namespaces makes of it: nothing where it is
/// there already; else the table starts over, and what the user may do has to be
/// asked again.
pub open spec fn rescoped(
    before: ClusterModel,
    scope: Set<Seq<char>>,
    after: ClusterModel,
) -> bool {
    if before.scope == scope {
        after == before
    } else {
        &&& after == (ClusterModel { scope, rules: None, table: after.table, ..before })
        &&& match before.kind {
            Some(kind) => points_at(after.table, kind, scope) && after.table.now
                == before.table.now && after.table.filter == before.table.filter,
            None => after.table == before.table,
        }
    }
}

/// The object in the selected row.
pub open spec fn selected_ref(m: ClusterModel) -> Option<RefView> {
    match m.selected_row {
        Some(row) => if row < m.table.rows.len() {
            Some(m.table.rows[row as int])
        } else {
            None
        },
        None => None,
    }
}

/// What can be done to the selected object. An action with no target is a menu
/// item that cannot mean anything.
pub open spec fn operations_of(m: ClusterModel) -> Seq<ChoiceView> {
    match (m.kind, selected_ref(m)) {
        (Some(kind), Some(selected)) => menu(
            kind,
            m.rules,
            if m.table.store.objects.dom().contains(selected) {
                replicas_of(m.table.store.objects[selected].data)
            } else {
                1
            },
        ),
        _ => Seq::empty(),
    }
}

/// The ports that the palette offers to forward: those that the selected pod
/// declares.
pub open spec fn offered_ports(m: ClusterModel) -> Seq<u16> {
    match (m.kind, selected_ref(m)) {
        (Some(kind), Some(key)) => if crate::ui::detail::is_pod(kind)
            && m.table.store.objects.dom().contains(key) {
            ports_of(m.table.store.objects[key].data)
        } else {
            Seq::empty()
        },
        _ => Seq::empty(),
    }
}

/// A view while an operation is under way.
pub open spec fn sent(m: ClusterModel, operation: Operation) -> ClusterModel {
    ClusterModel { outcome: Some(OutcomeView::Running(description(operation))), ..m }
}

/// What the view is showing, for its tab's label.
pub open spec fn title_of(m: ClusterModel) -> Seq<char> {
    match (m.mode, m.kind) {
        (Mode::Objects, Some(kind)) => kind.resource.kind,
        (mode, _) => mode_label(mode),
    }
}

/// What the toolbar counts. The fraction is only information when something is
/// being hidden; the other modes count their own rows.
pub open spec fn count_text(
    mode: Mode,
    shown: nat,
    total: nat,
    releases: Option<nat>,
    forwards: nat,
) -> Seq<char> {
    match mode {
        Mode::Objects => if shown == total {
            decimal(total)
        } else {
            decimal(shown) + " of "@ + decimal(total)
        },
        Mode::Releases => match releases {
            Some(n) => decimal(n),
            None => Seq::empty(),
        },
        Mode::Forwards => decimal(forwards),
    }
}

/// Reads what a change takes away.
pub open spec fn removed_reader() -> spec_fn(DeltaView) -> Option<RefView> {
    |d: DeltaView|
        match d {
            DeltaView::Remove(key) => Some(key),
            _ => None,
        }
}

/// The pods that changes take away, where pods are on screen.
pub open spec fn gone_pods(kind: Option<KindView>, batch: Seq<DeltaView>) -> Seq<RefView> {
    match kind {
        Some(kind) => if crate::ui::detail::is_pod(kind) {
            kept(batch, removed_reader())
        } else {
            Seq::empty()
        },
        None => Seq::empty(),
    }
}

impl ClusterView {
    /// A view of a cluster that serves the given kinds, on the namespace that
    /// its context names.
    ///
    /// Opening on every namespace of a busy cluster is thousands of rows nobody
    /// asked for.
    pub fn new(kinds: &Vec<Kind>, namespace: Option<String>, now: Timestamp) -> (r: ClusterView)
        ensures
            r@.catalog == sections_of(kind_views(kinds@)),
            r@.kind == opening_kind(r@.catalog),
            r@.scope == Set::<Seq<char>>::empty().insert(
                match namespace {
                    Some(namespace) => namespace@,
                    None => "default"@,
                },
            ),
            match r@.kind {
                Some(kind) => points_at(r@.table, kind, r@.scope),
                None => r@.table.columns == fallback_columns(true) && r@.table.rows.len() == 0,
            },
            r@.table.now == now@,
            r@.table.filter.len() == 0,
            r@.health == HealthView::Connecting,
            r@.mode == Mode::Objects,
            r@.visible,
            !r@.menu_open,
            r@.query.len() == 0,
            r@.detail is None,
            r@.rules is None,
            r@.outcome is None,
            r@.releases is Unopened,
            r@.names.len() == 0,
            r@.namespaces.objects == Map::<RefView, ObjectView>::empty(),
            r@.namespaces.revision == 0,
            r@.selected_row is None,
    {
        let catalog = Catalog::new(kinds);
        let kind = catalog.default_kind();
        let name = match namespace {
            Some(namespace) => namespace,
            None => "default".to_owned(),
        };
        let mut view = ClusterView {
            health: Health::Connecting,
            catalog,
            kind: None,
            scope: NamespaceScope::one(name.as_str()),
            namespaces: ResourceStore::new(),
            namespace_names: Vec::new(),
            table: ResourceTable::new(ColumnSet::fallback(true), now),
            selected_row: None,
            menu_open: false,
            query: String::new(),
            detail: None,
            rules: None,
            outcome: None,
            mode: Mode::Objects,
            releases: Releases::Unopened,
            visible: true,
        };
        if let Some(kind) = kind {
            let _ = view.show_kind(kind);
        }
        view
    }

    pub fn health(&self) -> (r: &Health)
        ensures
            r@ == self@.health,
    {
        &self.health
    }

    /// Takes in the session's health. Returns whether it changed.
    pub fn set_health(&mut self, health: Health) -> (changed: bool)
        ensures
            changed == (old(self)@.health != health@),
            final(self)@ == (ClusterModel { health: health@, ..old(self)@ }),
    {
        let changed = !same_health(&self.health, &health);
        self.health = health;
        changed
    }

    /// What this view is showing, for its tab's label.
    pub fn title(&self) -> (r: String)
        ensures
            r@ == title_of(self@),
    {
        match self.mode {
            Mode::Objects => match &self.kind {
                Some(kind) => kind.resource.kind.clone(),
                None => Mode::Objects.label().to_owned(),
            },
            mode => mode.label().to_owned(),
        }
    }

    /// Tells the view whether its tab is the one on screen. Returns whether that
    /// is new, in which case the timers that only repaint have to be started or
    /// stopped. The watches keep running either way.
    pub fn set_visible(&mut self, visible: bool) -> (changed: bool)
        ensures
            changed == (old(self)@.visible != visible),
            final(self)@ == (ClusterModel { visible, ..old(self)@ }),
    {
        let changed = self.visible != visible;
        self.visible = visible;
        changed
    }

    pub fn kind(&self) -> (r: Option<&Kind>)
        ensures
            (match r {
                Some(kind) => Some(kind@),
                None => None,
            }) == self@.kind,
    {
        match &self.kind {
            Some(kind) => Some(kind),
            None => None,
        }
    }

    /// The namespaces on screen.
    pub fn scope(&self) -> (r: &NamespaceScope)
        ensures
            r@ == self@.scope,
    {
        &self.scope
    }

    /// The table.
    pub fn table(&self) -> (r: &ResourceTable)
        ensures
            r@ == self@.table,
    {
        &self.table
    }

    /// The sidebar's kinds.
    pub fn catalog(&self) -> (r: &Catalog)
        ensures
            r@ == self@.catalog,
    {
        &self.catalog
    }

    /// The names that the picker offers.
    pub fn namespace_names(&self) -> (r: &Vec<String>)
        ensures
            each(r@) == self@.names,
    {
        &self.namespace_names
    }

    /// The detail panel.
    pub fn detail(&self) -> (r: Option<&DetailView>)
        ensures
            (match r {
                Some(panel) => Some(panel@),
                None => None,
            }) == self@.detail,
    {
        match &self.detail {
            Some(panel) => Some(panel),
            None => None,
        }
    }

    /// Puts another detail panel in place, or none, and hands out the one that
    /// was there.
    pub fn replace_detail(&mut self, panel: Option<DetailView>) -> (r: Option<DetailView>)
        ensures
            panel_of(r) == old(self)@.detail,
            final(self)@ == (ClusterModel { detail: panel_of(panel), ..old(self)@ }),
    {
        let mut other = panel;
        core::mem::swap(&mut other, &mut self.detail);
        other
    }

    /// What the last write said.
    pub fn outcome(&self) -> (r: Option<&Outcome>)
        ensures
            (match r {
                Some(outcome) => Some(outcome@),
                None => None,
            }) == self@.outcome,
    {
        match &self.outcome {
            Some(outcome) => Some(outcome),
            None => None,
        }
    }

    /// What the main area is showing.
    pub fn mode(&self) -> (r: Mode)
        ensures
            r == self@.mode,
    {
        self.mode
    }

    /// What the Helm list has to show.
    pub fn releases(&self) -> (r: &Releases)
        ensures
            *r == self@.releases,
    {
        &self.releases
    }

    /// Whether a kind is the one on screen.
    fn shows(&self, gvk: &GroupVersionKind) -> (r: bool)
        ensures
            r == (match self@.kind {
                Some(kind) => gvk_of(kind) == gvk@,
                None => false,
            }),
    {
        match &self.kind {
            Some(kind) => kind.gvk().same(gvk),
            None => false,
        }
    }

    /// Switches the table to another kind. Returns whether it is another: the
    /// watches of [`watch_keys`] then have to be started and the kind's own
    /// columns asked for.
    pub fn show_kind(&mut self, kind: Arc<Kind>) -> (changed: bool)
        ensures
            changed == (match old(self)@.kind {
                Some(current) => gvk_of(current) != gvk_of(kind@),
                None => true,
            }),
            if changed {
                &&& points_at(final(self)@.table, kind@, old(self)@.scope)
                &&& final(self)@.table.now == old(self)@.table.now
                &&& final(self)@.table.filter == old(self)@.table.filter
                &&& final(self)@ == (ClusterModel {
                    kind: Some(kind@),
                    mode: Mode::Objects,
                    detail: None,
                    table: final(self)@.table,
                    ..old(self)@
                })
            } else {
                final(self)@ == old(self)@
            },
    {
        if self.shows(&kind.gvk()) {
            return false;
        }
        let columns = scoped_columns(&kind, &self.scope, None);
        self.mode = Mode::Objects;
        self.kind = Some(kind);
        // The panel is about an object of the previous kind.
        self.detail = None;
        self.table.reset(columns);
        true
    }

    /// Points the view at a set of namespaces. Returns whether it is another: the
    /// watches have to be restarted, and columns and permissions asked for
    /// again, since both depend on the namespace.
    fn rescope(&mut self, scope: NamespaceScope) -> (changed: bool)
        ensures
            changed == (old(self)@.scope != scope@),
            rescoped(old(self)@, scope@, final(self)@),
    {
        if self.scope.same(&scope) {
            return false;
        }
        self.scope = scope;
        self.rules = None;
        if let Some(kind) = &self.kind {
            let columns = scoped_columns(kind, &self.scope, None);
            self.table.reset(columns);
        }
        true
    }

    /// Scopes to a namespace, or to all of them with `None`.
    pub fn set_namespace(&mut self, namespace: Option<String>) -> (changed: bool)
        ensures
            changed == (old(self)@.scope != scope_named(held(namespace))),
            rescoped(old(self)@, scope_named(held(namespace)), final(self)@),
    {
        let scope = match namespace {
            Some(name) => NamespaceScope::one(name.as_str()),
            None => NamespaceScope::all(),
        };
        self.rescope(scope)
    }

    /// Adds or removes one namespace, leaving the rest of the selection alone.
    ///
    /// Unticking the last one lands on every namespace rather than on nothing: a
    /// table that can only be empty is not a state worth being able to reach.
    pub fn toggle_namespace(&mut self, namespace: &str) -> (changed: bool)
        ensures
            changed,
            rescoped(old(self)@, toggled(old(self)@.scope, namespace@), final(self)@),
    {
        let scope = self.scope.toggle(namespace);
        proof {
            assert(scope@.contains(namespace@) != self@.scope.contains(namespace@));
        }
        self.rescope(scope)
    }

    /// Opens or closes the namespace menu.
    pub fn set_menu_open(&mut self, open: bool)
        ensures
            final(self)@ == (ClusterModel { menu_open: open, ..old(self)@ }),
    {
        self.menu_open = open;
    }

    /// Whether the namespace menu is open.
    pub fn menu_open(&self) -> (r: bool)
        ensures
            r == self@.menu_open,
    {
        self.menu_open
    }

    /// Picks one namespace by its name, or all of them, which also closes the
    /// menu. The tick box beside a name is [`ClusterView::toggle_namespace`].
    pub fn pick_namespace(&mut self, namespace: Option<String>) -> (changed: bool)
        ensures
            changed == (old(self)@.scope != scope_named(held(namespace))),
            rescoped(
                (ClusterModel { menu_open: false, ..old(self)@ }),
                scope_named(held(namespace)),
                final(self)@,
            ),
    {
        self.menu_open = false;
        self.set_namespace(namespace)
    }

    /// The rows of the namespace menu: each name, and whether it is ticked.
    pub fn picker(&self) -> (out: Vec<(String, bool)>)
        ensures
            out@.len() == self@.names.len(),
            forall|i: int|
                0 <= i < out@.len() ==> (#[trigger] out@[i]).0@ == self@.names[i] && out@[i].1
                    == self@.scope.contains(self@.names[i]),
    {
        let mut out: Vec<(String, bool)> = Vec::new();
        let mut i: usize = 0;
        while i < self.namespace_names.len()
            invariant
                i <= self.namespace_names@.len(),
                out@.len() == i,
                forall|k: int|
                    0 <= k < i ==> (#[trigger] out@[k]).0@ == self@.names[k] && out@[k].1
                        == self@.scope.contains(self@.names[k]),
            decreases self.namespace_names@.len() - i,
        {
            assert(self@.names[i as int] == self.namespace_names@[i as int]@);
            let name = self.namespace_names[i].as_str();
            out.push((name.to_owned(), self.scope.contains(name)));
            i += 1;
        }
        out
    }

    /// Whether the toolbar offers the namespace menu.
    pub fn offers_picker(&self) -> (r: bool)
        ensures
            r == (match self@.kind {
                Some(kind) => kind.namespaced,
                None => false,
            }),
    {
        match &self.kind {
            Some(kind) => kind.namespaced,
            None => false,
        }
    }

    /// Takes in the columns that a kind publishes for itself. The user may have
    /// moved on to another kind while they were in flight. Returns whether they
    /// were taken.
    pub fn take_columns(
        &mut self,
        wanted: &GroupVersionKind,
        printer_columns: &Json,
    ) -> (taken: bool)
        ensures
            taken == (match old(self)@.kind {
                Some(kind) => gvk_of(kind) == wanted@,
                None => false,
            }),
            final(self)@ == (ClusterModel { table: final(self)@.table, ..old(self)@ }),
            if taken {
                &&& final(self)@.table == (TableView {
                    columns: columns_for(
                        old(self)@.kind->0.resource.group,
                        old(self)@.kind->0.resource.kind,
                        old(self)@.kind->0.namespaced && old(self)@.scope.len() != 1,
                        Some(printer_columns@),
                    ),
                    rows: final(self)@.table.rows,
                    ..old(self)@.table
                })
                &&& in_display_order(final(self)@.table)
            } else {
                final(self)@.table == old(self)@.table
            },
    {
        if !self.shows(wanted) {
            return false;
        }
        if let Some(kind) = &self.kind {
            let columns = scoped_columns(kind, &self.scope, Some(printer_columns));
            self.table.set_columns(columns);
        }
        true
    }

    /// Whether a batch of that many changes can be taken in, of the objects on
    /// screen and of the namespaces.
    pub fn has_room(&self, changes: usize) -> (r: bool)
        ensures
            r == (self@.table.store.revision + changes <= u64::MAX
                && self@.namespaces.revision + changes <= u64::MAX),
    {
        self.table.has_room(changes) && self.namespaces.has_room(changes)
    }

    /// Takes in a batch of the objects on screen, and hands the detail panel the
    /// object that the table now holds, so that it tracks a changing pod rather
    /// than freezing at the moment it was opened.
    ///
    /// `namespace` is that of the watch which the batch came from: with several
    /// of them on screen, each lists only its own.
    pub fn take_objects(&mut self, namespace: Option<&str>, batch: DeltaBatch)
        requires
            old(self)@.table.store.revision + batch@.len() <= u64::MAX,
        ensures
            ({
                let store = applied_all_in(
                    old(self)@.table.store,
                    lent(namespace),
                    delta_views(batch@),
                );
                let table = final(self)@.table;
                &&& final(self)@ == (ClusterModel {
                    table,
                    detail: refreshed(old(self)@.detail, store.objects),
                    ..old(self)@
                })
                &&& table == (TableView { store, rows: table.rows, ..old(self)@.table })
                &&& rows_complete(table)
                &&& if store.revision == old(self)@.table.store.revision {
                    table.rows == old(self)@.table.rows
                } else {
                    in_display_order(table)
                }
            }),
    {
        self.table.apply_from(namespace, batch);
        self.refresh_detail();
    }

    /// Hands the detail panel the object that the table now holds.
    fn refresh_detail(&mut self)
        ensures
            final(self)@ == (ClusterModel {
                detail: refreshed(old(self)@.detail, old(self)@.table.store.objects),
                ..old(self)@
            }),
    {
        let mut panel: Option<DetailView> = None;
        core::mem::swap(&mut panel, &mut self.detail);
        self.detail = match panel {
            Some(mut panel) => {
                if let Some(object) = self.table.object(panel.target()) {
                    panel.refresh(share(object));
                }
                Some(panel)
            },
            None => None,
        };
    }

    /// Takes in a batch of namespaces. Returns whether the names changed, so that
    /// a namespace merely being updated does not repaint a menu the user has
    /// open.
    pub fn take_namespaces(&mut self, batch: DeltaBatch) -> (changed: bool)
        requires
            old(self)@.namespaces.revision + batch@.len() <= u64::MAX,
        ensures
            final(self)@ == (ClusterModel {
                namespaces: applied_all(old(self)@.namespaces, delta_views(batch@)),
                names: final(self)@.names,
                ..old(self)@
            }),
            changed == (final(self)@.names != old(self)@.names),
            final(self)@.namespaces.revision > old(self)@.namespaces.revision ==> names_listed(
                final(self)@.names,
                final(self)@.namespaces.objects,
            ),
            final(self)@.namespaces.revision == old(self)@.namespaces.revision ==> !changed,
    {
        if !self.namespaces.apply_batch(batch) {
            return false;
        }
        let names = sorted_names(&self.namespaces);
        let equal = same_list(&names, &self.namespace_names);
        self.namespace_names = names;
        !equal
    }

    /// Reorders the rows by a column, or back to their natural order.
    pub fn sort_by(&mut self, index: usize, sort: ColumnSort)
        ensures
            final(self)@ == (ClusterModel { table: final(self)@.table, ..old(self)@ }),
            final(self)@.table == (TableView {
                sort: match sort {
                    ColumnSort::Ascending => Sort::ByColumn { index, descending: false },
                    ColumnSort::Descending => Sort::ByColumn { index, descending: true },
                    ColumnSort::Default => Sort::Natural,
                },
                rows: final(self)@.table.rows,
                ..old(self)@.table
            }),
            in_display_order(final(self)@.table),
    {
        self.table.sort_by(index, sort);
    }

    /// Selects a row.
    pub fn select_row(&mut self, row: Option<usize>)
        ensures
            final(self)@ == (ClusterModel { selected_row: row, ..old(self)@ }),
    {
        self.selected_row = row;
    }

    /// The selected object.
    pub fn selected(&self) -> (r: Option<ObjectRef>)
        ensures
            target_of(r) == selected_ref(self@),
    {
        match self.selected_row {
            Some(row) => match self.table.row(row) {
                Some(key) => Some(key.copy()),
                None => None,
            },
            None => None,
        }
    }

    /// Opens the detail panel on a row. Returns whether it is a new panel: the one
    /// that is there is kept when it is already showing that object.
    pub fn open_detail(&mut self, row: usize, now: Timestamp) -> (new: bool)
        ensures
            new == opens(old(self)@, row as int),
            final(self)@ == (ClusterModel {
                detail: panel_after(old(self)@, row as int, now@),
                ..old(self)@
            }),
    {
        let kind = match &self.kind {
            Some(kind) => kind.clone(),
            None => return false,
        };
        let key = match self.table.row(row) {
            Some(key) => key,
            None => return false,
        };
        let object = match self.table.object(key) {
            Some(object) => share(object),
            None => return false,
        };
        if let Some(panel) = &self.detail {
            if panel.target().same(key) {
                return false;
            }
        }
        self.detail = Some(DetailView::new(kind, object, now));
        true
    }

    /// Closes the detail panel.
    pub fn close_detail(&mut self)
        ensures
            final(self)@ == (ClusterModel { detail: None, ..old(self)@ }),
    {
        self.detail = None;
    }

    /// Shows or hides the detail panel without changing the selection.
    pub fn toggle_details(&mut self, now: Timestamp)
        ensures
            final(self)@ == (ClusterModel {
                detail: match (old(self)@.detail, old(self)@.selected_row) {
                    (None, Some(row)) => panel_after(old(self)@, row as int, now@),
                    _ => None,
                },
                ..old(self)@
            }),
    {
        if self.detail.is_some() {
            self.detail = None;
        } else if let Some(row) = self.selected_row {
            let _ = self.open_detail(row, now);
        }
    }

    /// Searches the rows. Returns whether other rows are on screen, or in another
    /// order: the list is then scrolled to its top.
    pub fn set_filter(&mut self, query: &str) -> (changed: bool)
        ensures
            final(self)@ == (ClusterModel {
                table: TableView {
                    filter: query@,
                    rows: final(self)@.table.rows,
                    ..old(self)@.table
                },
                ..old(self)@
            }),
            in_display_order(final(self)@.table),
            changed == (final(self)@.table.rows != old(self)@.table.rows),
    {
        self.table.set_filter(query)
    }

    /// Empties the search box. Returns whether other rows are on screen.
    pub fn clear_filter(&mut self) -> (changed: bool)
        ensures
            final(self)@ == (ClusterModel {
                table: TableView {
                    filter: Seq::empty(),
                    rows: final(self)@.table.rows,
                    ..old(self)@.table
                },
                ..old(self)@
            }),
            in_display_order(final(self)@.table),
            changed == (final(self)@.table.rows != old(self)@.table.rows),
    {
        proof {
            reveal_strlit("");
            assert(""@ =~= Seq::empty());
        }
        self.table.set_filter("")
    }

    /// Brings one object up: clears the search that may hide it, selects its row
    /// and opens the detail panel on it. Returns the row to scroll to; nothing
    /// where the object disappeared meanwhile.
    pub fn focus(&mut self, key: &ObjectRef, now: Timestamp) -> (r: Option<usize>)
        ensures
            ({
                let cleared = ClusterModel {
                    table: TableView {
                        filter: Seq::empty(),
                        rows: final(self)@.table.rows,
                        ..old(self)@.table
                    },
                    ..old(self)@
                };
                &&& in_display_order(cleared.table)
                &&& match r {
                    Some(row) => row < cleared.table.rows.len() && cleared.table.rows[row as int]
                        == key@ && final(self)@ == (ClusterModel {
                        selected_row: Some(row),
                        detail: panel_after(cleared, row as int, now@),
                        ..cleared
                    }),
                    None => !cleared.table.store.objects.dom().contains(key@) && final(self)@
                        == cleared,
                }
            }),
    {
        let _ = self.clear_filter();
        let ghost cleared = self@;
        proof {
            an_empty_search_hides_nothing(cleared.table, key@);
        }
        match self.table.row_of(key) {
            Some(row) => {
                self.selected_row = Some(row);
                let _ = self.open_detail(row, now);
                Some(row)
            },
            None => None,
        }
    }

    /// Takes in what this user may do in the namespace on screen.
    pub fn set_rules(&mut self, rules: Arc<Rules>)
        ensures
            final(self)@ == (ClusterModel { rules: Some(rules@), ..old(self)@ }),
    {
        self.rules = Some(rules);
    }

    /// What can be done to the selected object right now.
    pub fn operations(&self) -> (out: Vec<crate::ui::actions::Choice>)
        ensures
            choice_views(out@) == operations_of(self@),
    {
        let (kind, selected) = match (&self.kind, self.selected()) {
            (Some(kind), Some(selected)) => (kind, selected),
            _ => {
                let none: Vec<crate::ui::actions::Choice> = Vec::new();
                assert(choice_views(none@) =~= Seq::empty());
                return none;
            },
        };
        let count: i32 = match self.table.object(&selected) {
            Some(object) => replicas(&object.data),
            None => 1,
        };
        match &self.rules {
            Some(rules) => available(kind, Some(rules), count),
            None => available(kind, None, count),
        }
    }

    /// The pods that a batch takes away. Nothing where another kind is on screen.
    pub fn pods_gone(&self, batch: &DeltaBatch) -> (out: Vec<ObjectRef>)
        ensures
            ref_views(out@) == gone_pods(self@.kind, delta_views(batch@)),
    {
        let mut out: Vec<ObjectRef> = Vec::new();
        assert(ref_views(out@) =~= Seq::empty());
        let kind = match &self.kind {
            Some(kind) => kind,
            None => return out,
        };
        if !crate::ui::detail::shows_containers(kind) {
            return out;
        }
        let ghost all = delta_views(batch@);
        let mut i: usize = 0;
        proof {
            kept_bounds(all, removed_reader());
        }
        while i < batch.len()
            invariant
                i <= batch.len(),
                all == delta_views(batch@),
                ref_views(out@) == kept(all.take(i as int), removed_reader()),
            decreases batch.len() - i,
        {
            proof {
                kept_next(all, i as int, removed_reader());
                assert(all[i as int] == batch@[i as int]@);
            }
            match &batch[i] {
                Delta::Remove(key) => {
                    let ghost before = out@;
                    out.push(key.copy());
                    assert(ref_views(out@) =~= ref_views(before).push(key@));
                },
                _ => {},
            }
            i += 1;
        }
        out
    }

    /// The selected pod. Nothing where another kind is on screen.
    pub fn selected_pod(&self) -> (r: Option<Arc<DynamicObject>>)
        ensures
            ({
                let pod = self@.kind matches Some(kind) && crate::ui::detail::is_pod(kind);
                match (pod, selected_ref(self@)) {
                    (true, Some(key)) => if self@.table.store.objects.dom().contains(key) {
                        r matches Some(object) && object@ == self@.table.store.objects[key]
                    } else {
                        r is None
                    },
                    _ => r is None,
                }
            }),
    {
        let kind = match &self.kind {
            Some(kind) => kind,
            None => return None,
        };
        if !crate::ui::detail::shows_containers(kind) {
            return None;
        }
        match self.selected() {
            Some(key) => match self.table.object(&key) {
                Some(object) => Some(share(object)),
                None => None,
            },
            None => None,
        }
    }

    /// Starts an operation, asking first when it needs asking. Restarting is
    /// disruptive but not destructive, and it is exactly what the menu item
    /// says; deleting has no undo, and scaling needs a number.
    pub fn start(&mut self, operation: Operation) -> (r: Start)
        ensures
            match (old(self)@.kind, selected_ref(old(self)@)) {
                (Some(kind), Some(target)) => if operation == Operation::Restart {
                    (r matches Start::Run(op, key) && op == operation && key@ == target)
                        && final(self)@ == sent(old(self)@, operation)
                } else {
                    (r matches Start::Ask(ask) && ask.operation == operation && ask.target@
                        == target && ask.kind@ == kind.resource.kind) && final(self)@ == old(
                        self,
                    )@
                },
                _ => r is Nothing && final(self)@ == old(self)@,
            },
    {
        match (&self.kind, self.selected()) {
            (Some(kind), Some(target)) => {
                if operation == Operation::Restart {
                    match self.run(operation) {
                        Some(target) => Start::Run(operation, target),
                        None => Start::Nothing,
                    }
                } else {
                    Start::Ask(Ask { operation, target, kind: kind.resource.kind.clone() })
                }
            },
            _ => Start::Nothing,
        }
    }

    /// An operation is sent: returns the object it is to be done to, which is the
    /// one selected now. Nothing where there is no kind or no such object.
    pub fn run(&mut self, operation: Operation) -> (r: Option<ObjectRef>)
        ensures
            match (old(self)@.kind, selected_ref(old(self)@)) {
                (Some(_), Some(target)) => target_of(r) == Some(target) && final(self)@ == sent(
                    old(self)@,
                    operation,
                ),
                _ => r is None && final(self)@ == old(self)@,
            },
    {
        if self.kind.is_none() {
            return None;
        }
        let target = match self.selected() {
            Some(target) => target,
            None => return None,
        };
        self.outcome = Some(Outcome::Running(operation.describe()));
        Some(target)
    }

    /// Takes in what an operation came back with.
    pub fn written(&mut self, operation: Operation, result: Written)
        ensures
            final(self)@ == (ClusterModel {
                outcome: Some(
                    match result {
                        Written::Done => OutcomeView::Done(description(operation)),
                        Written::Conflict(conflict) => OutcomeView::Failed(
                            summary_of(each(conflict.fields@), each(conflict.managers@)),
                        ),
                        Written::Failed(error) => OutcomeView::Failed(error@),
                    },
                ),
                ..old(self)@
            }),
    {
        self.outcome = Some(
            match result {
                Written::Done => Outcome::Done(operation.describe()),
                Written::Conflict(conflict) => Outcome::Failed(conflict.summary()),
                Written::Failed(error) => Outcome::Failed(error),
            },
        );
    }

    /// Asks for a port forward to the selected pod, and shows the list of
    /// forwards. Returns the namespace and the pod.
    pub fn start_forward(&mut self, remote_port: u16) -> (r: Option<(String, String)>)
        ensures
            match selected_ref(old(self)@) {
                Some(RefView { namespace: Some(namespace), name }) => (r matches Some((n, p)) && n@
                    == namespace && p@ == name) && final(self)@ == (ClusterModel {
                    outcome: Some(
                        OutcomeView::Running("Forwarding port "@ + decimal(remote_port as nat)),
                    ),
                    mode: Mode::Forwards,
                    ..old(self)@
                }),
                _ => r is None && final(self)@ == old(self)@,
            },
    {
        let selected = match self.selected() {
            Some(selected) => selected,
            None => return None,
        };
        let namespace = match selected.namespace {
            Some(namespace) => namespace,
            None => return None,
        };
        self.outcome = Some(
            Outcome::Running(two("Forwarding port ", natural(remote_port as u128).as_str())),
        );
        self.mode = Mode::Forwards;
        Some((namespace, selected.name))
    }

    /// Takes in what became of a port forward.
    pub fn forwarded(&mut self, result: Result<Forward, String>)
        ensures
            final(self)@ == (ClusterModel {
                outcome: Some(
                    match result {
                        Ok(forward) => OutcomeView::Done(
                            "Forwarding "@ + address_of(forward@),
                        ),
                        Err(error) => OutcomeView::Failed(error@),
                    },
                ),
                ..old(self)@
            }),
    {
        self.outcome = Some(
            match result {
                Ok(forward) => Outcome::Done(two("Forwarding ", forward.address().as_str())),
                Err(error) => Outcome::Failed(error),
            },
        );
    }

    /// Switches the main area. Returns whether the Helm releases have to be
    /// listed for it.
    pub fn show_mode(&mut self, mode: Mode) -> (load: bool)
        ensures
            load == (old(self)@.mode != mode && mode == Mode::Releases),
            final(self)@ == (ClusterModel {
                mode,
                releases: final(self)@.releases,
                ..old(self)@
            }),
            if load {
                final(self)@.releases is Loading
            } else {
                final(self)@.releases == old(self)@.releases
            },
    {
        if self.mode == mode {
            return false;
        }
        self.mode = mode;
        if mode == Mode::Releases {
            self.releases = Releases::Loading;
            true
        } else {
            false
        }
    }

    /// Takes in the listed releases, or why there are none.
    pub fn take_releases(&mut self, result: Result<Vec<Release>, String>)
        ensures
            final(self)@ == (ClusterModel { releases: final(self)@.releases, ..old(self)@ }),
            match result {
                Ok(list) => final(self)@.releases == Releases::Ready(list),
                Err(error) => final(self)@.releases == Releases::Failed(error),
            },
    {
        self.releases = match result {
            Ok(list) => Releases::Ready(list),
            Err(error) => Releases::Failed(error),
        };
    }

    /// Re-reads the clock.
    pub fn tick(&mut self, now: Timestamp)
        ensures
            final(self)@ == (ClusterModel {
                table: TableView { now: now@, ..old(self)@.table },
                ..old(self)@
            }),
    {
        self.table.tick(now);
    }

    /// The toolbar's title.
    pub fn toolbar_title(&self) -> (r: String)
        ensures
            r@ == (match (self@.mode, self@.kind) {
                (Mode::Objects, Some(kind)) => kind.resource.kind,
                (Mode::Objects, None) => "Nothing selected"@,
                (mode, _) => mode_label(mode),
            }),
    {
        match self.mode {
            Mode::Objects => match &self.kind {
                Some(kind) => kind.resource.kind.clone(),
                None => "Nothing selected".to_owned(),
            },
            mode => mode.label().to_owned(),
        }
    }

    /// The toolbar's count, given how many objects are shown of how many, and how
    /// many forwards there are.
    pub fn toolbar_count(&self, shown: usize, total: usize, forwards: usize) -> (r: String)
        ensures
            r@ == count_text(
                self@.mode,
                shown as nat,
                total as nat,
                match self@.releases {
                    Releases::Ready(list) => Some(list@.len()),
                    _ => None,
                },
                forwards as nat,
            ),
    {
        match self.mode {
            Mode::Objects => if shown == total {
                natural(total as u128)
            } else {
                three(
                    natural(shown as u128).as_str(),
                    " of ",
                    natural(total as u128).as_str(),
                )
            },
            Mode::Releases => match &self.releases {
                Releases::Ready(list) => natural(list.len() as u128),
                _ => String::new(),
            },
            Mode::Forwards => natural(forwards as u128),
        }
    }

    /// What stands in place of the releases while there are none.
    pub fn releases_notice(&self) -> (r: Option<String>)
        ensures
            held(r) == (match self@.releases {
                Releases::Ready(list) => if list@.len() == 0 {
                    Some("No Helm releases in this scope."@)
                } else {
                    None
                },
                Releases::Failed(error) => Some(error@),
                _ => Some("Reading releases…"@),
            }),
    {
        match &self.releases {
            Releases::Ready(list) => if list.len() == 0 {
                Some("No Helm releases in this scope.".to_owned())
            } else {
                None
            },
            Releases::Failed(error) => Some(error.clone()),
            _ => Some("Reading releases…".to_owned()),
        }
    }

    /// The ports that the selected pod declares.
    pub fn selected_ports(&self) -> (r: Vec<u16>)
        ensures
            r@ == offered_ports(self@),
    {
        match self.selected_pod() {
            Some(pod) => ports(&pod.data),
            None => Vec::new(),
        }
    }

    /// Everything the command palette can offer about this cluster.
    pub fn sources(&self) -> (r: Sources)
        ensures
            r@.kinds == flat(self@.catalog).map_values(|e: EntryView| e.kind),
            names_listed(r@.namespaces, self@.namespaces.objects),
            r@.clusters.len() == 0,
            listed_naturally(r@.objects, self@.table.store),
            r@.operations == operations_of(self@),
            r@.ports == offered_ports(self@),
            r@.current_kind == (match self@.kind {
                Some(kind) => Some(kind.resource.kind),
                None => None,
            }),
    {
        let entries = self.catalog.entries();
        let ghost all = flat(self@.catalog);
        let mut kinds: Vec<Arc<Kind>> = Vec::new();
        let mut i: usize = 0;
        while i < entries.len()
            invariant
                i <= entries@.len(),
                kinds@.len() == i,
                all == entries@.map_values(|e: &Entry| e@),
                forall|k: int| 0 <= k < i ==> (#[trigger] kinds@[k])@ == all[k].kind,
            decreases entries@.len() - i,
        {
            assert(all[i as int] == entries@[i as int]@);
            kinds.push(entries[i].shared_kind());
            i += 1;
        }
        assert(kinds@.map_values(|k: Arc<Kind>| k@) =~= all.map_values(|e: EntryView| e.kind));
        let current_kind = match &self.kind {
            Some(kind) => Some(kind.resource.kind.clone()),
            None => None,
        };
        let objects = self.table.keys();
        let r = Sources {
            kinds,
            namespaces: sorted_names(&self.namespaces),
            clusters: Vec::new(),
            objects,
            operations: self.operations(),
            ports: self.selected_ports(),
            current_kind,
        };
        assert(r@.objects =~= ref_views(r.objects@));
        r
    }

    /// What the table is showing, and out of how many.
    pub fn counts(&self) -> (r: (usize, usize))
        ensures
            r.0 == self@.table.rows.len(),
            r.1 == self@.table.store.objects.dom().len(),
    {
        (self.table.len(), self.table.total())
    }

    /// Takes in what is typed into the sidebar's search box.
    pub fn set_query(&mut self, query: &str)
        ensures
            final(self)@ == (ClusterModel { query: query@, ..old(self)@ }),
    {
        self.query = query.to_owned();
    }

    /// The sections of the sidebar, given how well the entries score against
    /// what is typed.
    ///
    /// A query replaces the sections with a flat ranked list: with a hundred
    /// kinds, the answer to "where is it" should not be "in one of seven
    /// collapsed groups".
    pub fn sidebar_scored(&self, scores: &Vec<Option<u32>>) -> (out: Vec<SidebarSection>)
        requires
            scores@.len() == flat(self@.catalog).len(),
        ensures
            sidebar_views(out@) == sidebar_of(self@, scores@),
    {
        let mut out: Vec<SidebarSection> = Vec::new();
        if !self.query.as_str().is_empty() {
            let found = self.catalog.ranked(scores);
            out.push(
                SidebarSection {
                    label: "Matches".to_owned(),
                    open: true,
                    entries: self.marked(&found),
                },
            );
            assert(sidebar_views(out@) =~= sidebar_of(self@, scores@));
            return out;
        }
        let sections = self.catalog.sections();
        let ghost all = self@.catalog;
        let mut i: usize = 0;
        while i < sections.len()
            invariant
                i <= sections@.len(),
                out@.len() == i,
                all == self@.catalog,
                all == section_views(sections@),
                forall|k: int|
                    0 <= k < i ==> (#[trigger] out@[k])@ == listed_section(all[k], self@.kind),
            decreases sections@.len() - i,
        {
            let section = &sections[i];
            assert(all[i as int] == (section.0, entry_views(section.1@)));
            let entries = self.marked(&section.1);
            let mut open = section.0.starts_open();
            let mut k: usize = 0;
            while k < entries.len()
                invariant
                    k <= entries@.len(),
                    open == (section.0 == Category::Workloads || exists|m: int|
                        0 <= m < k && (#[trigger] entries@[m]).1),
                decreases entries@.len() - k,
            {
                if entries[k].1 {
                    open = true;
                }
                k += 1;
            }
            proof {
                let marks = marks_of(all[i as int].1, self@.kind);
                assert forall|m: int| 0 <= m < entries@.len() implies (#[trigger] entries@[m]).1
                    == marks[m].1 by {
                    assert(mark_views(entries@)[m] == marks[m]);
                }
                assert(mark_views(entries@).len() == entries@.len());
                assert(open == starts_open(all[i as int], self@.kind)) by {
                    if open && section.0 != Category::Workloads {
                        let m = choose|m: int| 0 <= m < entries@.len() && (#[trigger] entries@[m]).1;
                        assert(marks[m].1);
                        assert(is_on_screen(all[i as int].1[m], self@.kind));
                    }
                    if starts_open(all[i as int], self@.kind) && section.0 != Category::Workloads {
                        let m = choose|m: int|
                            0 <= m < all[i as int].1.len() && is_on_screen(
                                #[trigger] all[i as int].1[m],
                                self@.kind,
                            );
                        assert(marks[m].1);
                        assert(entries@[m].1);
                    }
                }
            }
            out.push(SidebarSection { label: section.0.label().to_owned(), open, entries });
            i += 1;
        }
        assert(sidebar_views(out@) =~= sidebar_of(self@, scores@));
        out
    }

    /// The sections of the sidebar.
    pub fn sidebar(&self, matcher: &mut Searcher) -> (out: Vec<SidebarSection>)
        ensures
            sidebar_views(out@) == sidebar_of(
                self@,
                scores_of(self@.query, labels_of(flat(self@.catalog))),
            ),
    {
        let scores = self.catalog.scores(self.query.as_str(), matcher);
        self.sidebar_scored(&scores)
    }

    /// Entries, each with whether it is what is on screen.
    fn marked(&self, entries: &Vec<Entry>) -> (out: Vec<(Entry, bool)>)
        ensures
            mark_views(out@) == marks_of(entry_views(entries@), self@.kind),
    {
        let mut out: Vec<(Entry, bool)> = Vec::new();
        let mut i: usize = 0;
        while i < entries.len()
            invariant
                i <= entries@.len(),
                out@.len() == i,
                forall|k: int|
                    0 <= k < i ==> (#[trigger] out@[k]).0@ == entries@[k]@ && out@[k].1
                        == is_on_screen(entries@[k]@, self@.kind),
            decreases entries@.len() - i,
        {
            let entry = entries[i].copy();
            let active = self.shows(&entry.shared_kind().gvk());
            out.push((entry, active));
            i += 1;
        }
        assert(mark_views(out@) =~= marks_of(entry_views(entries@), self@.kind));
        out
    }
}

/// One group of the sidebar: its entries, each with whether it is on screen.
pub struct SidebarSection {
    pub label: String,
    /// Whether it starts open.
    pub open: bool,
    pub entries: Vec<(Entry, bool)>,
}

/// One group of the sidebar, as a mathematical object.
pub struct SidebarView {
    pub label: Seq<char>,
    pub open: bool,
    pub entries: Seq<(EntryView, bool)>,
}

impl View for SidebarSection {
    type V = SidebarView;

    open spec fn view(&self) -> SidebarView {
        SidebarView { label: self.label@, open: self.open, entries: mark_views(self.entries@) }
    }
}

/// What a list of marked entries stands for.
pub open spec fn mark_views(list: Seq<(Entry, bool)>) -> Seq<(EntryView, bool)> {
    list.map_values(|e: (Entry, bool)| (e.0@, e.1))
}

/// What a list of sections stands for.
pub open spec fn sidebar_views(list: Seq<SidebarSection>) -> Seq<SidebarView> {
    list.map_values(|s: SidebarSection| s@)
}

/// Entries, each with whether it is what is on screen.
pub open spec fn marks_of(entries: Seq<EntryView>, kind: Option<KindView>) -> Seq<
    (EntryView, bool),
> {
    entries.map_values(|e: EntryView| (e, is_on_screen(e, kind)))
}

/// A section of the catalog in the sidebar.
pub open spec fn listed_section(
    section: (Category, Seq<EntryView>),
    kind: Option<KindView>,
) -> SidebarView {
    SidebarView {
        label: category_label(section.0),
        open: starts_open(section, kind),
        entries: marks_of(section.1, kind),
    }
}

/// The sidebar of a view.
pub open spec fn sidebar_of(m: ClusterModel, scores: Seq<Option<u32>>) -> Seq<SidebarView> {
    if m.query.len() == 0 {
        m.catalog.map_values(|s: (Category, Seq<EntryView>)| listed_section(s, m.kind))
    } else {
        seq![
            SidebarView {
                label: "Matches"@,
                open: true,
                entries: marks_of(best_entries(flat(m.catalog), scores), m.kind),
            },
        ]
    }
}

/// Whether an entry is the kind on screen.
pub open spec fn is_on_screen(entry: EntryView, kind: Option<KindView>) -> bool {
    match kind {
        Some(kind) => gvk_of(kind) == gvk_of(entry.kind),
        None => false,
    }
}

/// Whether a section starts open. It also does when it holds what is on screen,
/// so that the selection is never hidden inside a closed group.
pub open spec fn starts_open(
    section: (Category, Seq<EntryView>),
    kind: Option<KindView>,
) -> bool {
    section.0 == Category::Workloads || exists|m: int|
        0 <= m < section.1.len() && is_on_screen(#[trigger] section.1[m], kind)
}

/// The selection is never hidden inside a closed group: while nothing is typed,
/// the group that holds the kind on screen starts open.
pub proof fn the_selection_is_never_hidden(
    m: ClusterModel,
    scores: Seq<Option<u32>>,
    section: int,
    entry: int,
)
    requires
        m.query.len() == 0,
        0 <= section < m.catalog.len(),
        0 <= entry < m.catalog[section].1.len(),
        is_on_screen(m.catalog[section].1[entry], m.kind),
    ensures
        sidebar_of(m, scores)[section].open,
        sidebar_of(m, scores)[section].entries[entry] == (m.catalog[section].1[entry], true),
{
}

/// Whether names are those of a store's objects, in order.
pub open spec fn names_listed(names: Seq<Seq<char>>, objects: Map<RefView, ObjectView>) -> bool {
    exists|keys: Seq<RefView>|
        #![trigger keys.len()]
        {
            &&& forall|i: int| 0 <= i < keys.len() ==> objects.dom().contains(#[trigger] keys[i])
            &&& forall|k: RefView| #[trigger]
                objects.dom().contains(k) ==> exists|i: int|
                    0 <= i < keys.len() && #[trigger] keys[i] == k
            &&& forall|i: int, j: int|
                0 <= i < j < keys.len() ==> (#[trigger] keys[i]) != (#[trigger] keys[j])
            &&& names == ascending(keys.map_values(|k: RefView| k.name))
        }
}

/// The names of the objects of a store, in order.
fn sorted_names(store: &ResourceStore) -> (out: Vec<String>)
    ensures
        names_listed(each(out@), store@.objects),
{
    let entries = store.iter();
    let ghost keys = Seq::new(entries@.len(), |i: int| entries@[i].0@);
    let mut names: Vec<String> = Vec::new();
    let mut i: usize = 0;
    while i < entries.len()
        invariant
            i <= entries@.len(),
            names@.len() == i,
            forall|k: int| 0 <= k < i ==> (#[trigger] names@[k])@ == entries@[k].0@.name,
        decreases entries@.len() - i,
    {
        names.push(entries[i].0.name.clone());
        i += 1;
    }
    let out = sort_strings(&names);
    proof {
        assert(each(names@) =~= keys.map_values(|k: RefView| k.name));
        assert forall|i: int| 0 <= i < keys.len() implies store@.objects.dom().contains(
            #[trigger] keys[i],
        ) by {
            assert(keys[i] == entries@[i].0@);
        }
        assert forall|k: RefView| #[trigger] store@.objects.dom().contains(k) implies exists|i: int|
            0 <= i < keys.len() && #[trigger] keys[i] == k by {
            let i = choose|i: int| 0 <= i < entries@.len() && (#[trigger] entries@[i]).0@ == k;
            assert(keys[i] == k);
        }
        assert forall|i: int, j: int| 0 <= i < j < keys.len() implies (#[trigger] keys[i]) != (
        #[trigger] keys[j]) by {
            assert(row_below(ObjectRef::row(entries@[i].0@), ObjectRef::row(entries@[j].0@)));
            crate::base::dict::row_below_total(
                ObjectRef::row(entries@[i].0@),
                ObjectRef::row(entries@[i].0@),
            );
        }
        assert(keys.len() == entries@.len());
    }
    out
}

/// Whether two lists of strings are the same.
fn same_list(a: &Vec<String>, b: &Vec<String>) -> (r: bool)
    ensures
        r == (each(a@) == each(b@)),
{
    assert(each(a@).len() == a@.len() && each(b@).len() == b@.len());
    if a.len() != b.len() {
        return false;
    }
    let mut i: usize = 0;
    while i < a.len()
        invariant
            i <= a@.len(),
            a@.len() == b@.len(),
            forall|k: int| 0 <= k < i ==> (#[trigger] a@[k])@ == b@[k]@,
        decreases a@.len() - i,
    {
        if !same(a[i].as_str(), b[i].as_str()) {
            assert(each(a@)[i as int] != each(b@)[i as int]);
            return false;
        }
        i += 1;
    }
    assert(each(a@) =~= each(b@));
    true
}

/// Whether two healths are the same.
fn same_health(a: &Health, b: &Health) -> (r: bool)
    ensures
        r == (a@ == b@),
{
    match (a, b) {
        (Health::Connecting, Health::Connecting) => true,
        (Health::Connected, Health::Connected) => true,
        (Health::Degraded { reason: x }, Health::Degraded { reason: y }) => same(
            x.as_str(),
            y.as_str(),
        ),
        _ => false,
    }
}

/// The tone of a release.
pub fn release_tone(release: &Release) -> (r: Tone)
    ensures
        r == (if release@.status == "deployed"@ {
            Tone::Healthy
        } else if "pending"@.is_prefix_of(release@.status) {
            Tone::Progressing
        } else {
            Tone::Warning
        }),
{
    if same(release.status.as_str(), "deployed") {
        Tone::Healthy
    } else if starts_with(release.status.as_str(), "pending") {
        Tone::Progressing
    } else {
        Tone::Warning
    }
}

/// What the list of releases says of a release's revision.
pub fn revision_text(release: &Release) -> (r: String)
    ensures
        r@ == "rev "@ + signed(release@.revision as int),
{
    two("rev ", integer(release.revision).as_str())
}

/// What stands in place of the forwards while there are none.
pub fn forwards_notice(forwards: &Vec<Forward>) -> (r: Option<&'static str>)
    ensures
        (match r {
            Some(text) => Some(text@),
            None => None,
        }) == (if forwards@.len() == 0 {
            Some(
                "Nothing is being forwarded. Select a pod and run “Forward port …” from ⌘K."@,
            )
        } else {
            None
        }),
{
    if forwards.len() == 0 {
        Some("Nothing is being forwarded. Select a pod and run “Forward port …” from ⌘K.")
    } else {
        None
    }
}

/// Where a forward leads.
pub fn destination(forward: &Forward) -> (r: String)
    ensures
        r@ == forward@.namespace + "/"@ + forward@.pod + (":"@ + decimal(
            forward@.remote_port as nat,
        )),
{
    two(
        three(forward.namespace.as_str(), "/", forward.pod.as_str()).as_str(),
        two(":", natural(forward.remote_port as u128).as_str()).as_str(),
    )
}

/// What the list of forwards says of one's connections.
pub fn connections_text(forward: &Forward) -> (r: String)
    ensures
        r@ == (if forward@.connections == 0 {
            "idle"@
        } else if forward@.connections == 1 {
            "1 connection"@
        } else {
            decimal(forward@.connections as nat) + " connections"@
        }),
{
    if forward.connections == 0 {
        "idle".to_owned()
    } else if forward.connections == 1 {
        "1 connection".to_owned()
    } else {
        two(natural(forward.connections as u128).as_str(), " connections")
    }
}

} // verus!
