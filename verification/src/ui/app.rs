//! The window: its tabs, the sessions behind them, and what it says when there
//! is nothing to show.
use vstd::prelude::*;
use vstd::string::*;

use crate::base::decimal::{decimal, natural};
use crate::base::dict::{Dict, Text};
use crate::base::text::{held, three, two};
use crate::k8s::config::{entry_views, Contexts, EntryView};
use crate::k8s::session::{Health, HealthView};
use crate::k8s::ClusterId;
use crate::ui::palette::{Action, Choice};
use crate::ui::theme::Tone;

verus! {

/// What a tab is doing.
pub enum TabState {
    Connecting,
    /// Its view is there, and told whether it is on screen: a view that is not
    /// keeps its watches but stops the timers that exist only to repaint.
    Connected { visible: bool },
    Failed(String),
}

/// What a tab is doing, as a mathematical object.
pub enum TabStateView {
    Connecting,
    Connected { visible: bool },
    Failed(Seq<char>),
}

impl View for TabState {
    type V = TabStateView;

    open spec fn view(&self) -> TabStateView {
        match self {
            TabState::Connecting => TabStateView::Connecting,
            TabState::Connected { visible } => TabStateView::Connected { visible: *visible },
            TabState::Failed(error) => TabStateView::Failed(error@),
        }
    }
}

/// One tab: a cluster, and a view into it once it has connected.
pub struct Tab {
    /// Stable for the life of the tab. The bar identifies tabs by position, so a
    /// close button needs something that does not move when the tab to its left
    /// goes away.
    pub id: u64,
    pub cluster: ClusterId,
    /// What the kubeconfig said this context's namespace is.
    pub namespace: Option<String>,
    pub state: TabState,
}

/// One tab, as a mathematical object.
pub struct TabView {
    pub id: u64,
    pub cluster: Seq<char>,
    pub namespace: Option<Seq<char>>,
    pub state: TabStateView,
}

impl View for Tab {
    type V = TabView;

    open spec fn view(&self) -> TabView {
        TabView {
            id: self.id,
            cluster: self.cluster@,
            namespace: held(self.namespace),
            state: self.state@,
        }
    }
}

/// What a list of tabs stands for.
pub open spec fn tab_views(list: Seq<Tab>) -> Seq<TabView> {
    list.map_values(|t: Tab| t@)
}

/// A connection that has to be made: for which tab, and to which cluster.
pub struct Request {
    pub tab: u64,
    pub cluster: ClusterId,
}

/// A connection that has to be made, as a mathematical object.
pub open spec fn request_view(r: Option<Request>) -> Option<(u64, Seq<char>)> {
    match r {
        Some(request) => Some((request.tab, request.cluster@)),
        None => None,
    }
}

/// The window.
pub struct BeaconApp {
    contexts: Result<Contexts, String>,
    /// Every cluster connected so far. Sessions outlive the tabs that opened
    /// them, which is what makes reopening one instant.
    sessions: Dict<Text, ()>,
    tabs: Vec<Tab>,
    /// Index into `tabs`. Meaningless, and never read, while `tabs` is empty.
    active: usize,
    next_tab: u64,
    palette_open: bool,
}

/// The window, as a mathematical object.
pub struct AppView {
    pub contexts: Result<Seq<EntryView>, Seq<char>>,
    pub sessions: Set<Seq<char>>,
    pub tabs: Seq<TabView>,
    pub active: int,
    pub next_tab: u64,
    pub palette_open: bool,
}

impl View for BeaconApp {
    type V = AppView;

    closed spec fn view(&self) -> AppView {
        AppView {
            contexts: match self.contexts {
                Ok(contexts) => Ok(contexts@),
                Err(error) => Err(error@),
            },
            sessions: self.sessions@.dom(),
            tabs: tab_views(self.tabs@),
            active: self.active as int,
            next_tab: self.next_tab,
            palette_open: self.palette_open,
        }
    }
}

/// Whether the tab in front is one of the tabs, and the only one whose view is
/// on screen.
pub open spec fn well_formed(a: AppView) -> bool {
    &&& if a.tabs.len() == 0 {
        a.active == 0
    } else {
        0 <= a.active < a.tabs.len()
    }
    &&& forall|i: int|
        0 <= i < a.tabs.len() ==> ((#[trigger] a.tabs[i]).state matches TabStateView::Connected {
            visible,
        } ==> visible == (i == a.active))
}

/// The first entry of a cluster from `k` on.
pub open spec fn entry_for(entries: Seq<EntryView>, id: Seq<char>, k: int) -> Option<EntryView>
    decreases entries.len() - k,
{
    if k >= entries.len() {
        None
    } else if entries[k].id == id {
        Some(entries[k])
    } else {
        entry_for(entries, id, k + 1)
    }
}

/// The first current entry from `k` on.
pub open spec fn current_entry(entries: Seq<EntryView>, k: int) -> Option<EntryView>
    decreases entries.len() - k,
{
    if k >= entries.len() {
        None
    } else if entries[k].is_current {
        Some(entries[k])
    } else {
        current_entry(entries, k + 1)
    }
}

/// The context to open when nothing else says which: what `kubectl` would use,
/// else the first.
pub open spec fn opening_cluster(a: AppView) -> Option<Seq<char>> {
    match a.contexts {
        Ok(entries) => match current_entry(entries, 0) {
            Some(entry) => Some(entry.id),
            None => if entries.len() > 0 {
                Some(entries[0].id)
            } else {
                None
            },
        },
        Err(_) => None,
    }
}

/// The namespace that the kubeconfig gives a cluster.
pub open spec fn namespace_of(a: AppView, cluster: Seq<char>) -> Option<Seq<char>> {
    match a.contexts {
        Ok(entries) => match entry_for(entries, cluster, 0) {
            Some(entry) => entry.namespace,
            None => None,
        },
        Err(_) => None,
    }
}

/// A tab in another state.
pub open spec fn with_state(tabs: Seq<TabView>, i: int, state: TabStateView) -> Seq<TabView> {
    tabs.update(i, TabView { state, ..tabs[i] })
}

/// The tabs after the view of one was told whether it is on screen.
pub open spec fn told(tabs: Seq<TabView>, i: int, visible: bool) -> Seq<TabView> {
    if 0 <= i < tabs.len() && tabs[i].state is Connected {
        with_state(tabs, i, TabStateView::Connected { visible })
    } else {
        tabs
    }
}

/// The window with another tab in front.
pub open spec fn activated(a: AppView, index: int) -> AppView {
    if index >= a.tabs.len() {
        a
    } else {
        let rest = if a.active != index {
            told(a.tabs, a.active, false)
        } else {
            a.tabs
        };
        AppView { tabs: told(rest, index, true), active: index, ..a }
    }
}

/// The window after a tab was given a view, or began to connect for one.
pub open spec fn connected(a: AppView, index: int) -> AppView {
    if index >= a.tabs.len() {
        a
    } else if a.sessions.contains(a.tabs[index].cluster) {
        AppView {
            tabs: with_state(
                a.tabs,
                index,
                TabStateView::Connected { visible: a.active == index },
            ),
            ..a
        }
    } else {
        AppView { tabs: with_state(a.tabs, index, TabStateView::Connecting), ..a }
    }
}

/// The connection that a tab needs.
pub open spec fn needed(a: AppView, index: int) -> Option<(u64, Seq<char>)> {
    if index < a.tabs.len() && !a.sessions.contains(a.tabs[index].cluster) {
        Some((a.tabs[index].id, a.tabs[index].cluster))
    } else {
        None
    }
}

/// The window with one more tab, not in front yet.
pub open spec fn added(a: AppView, cluster: Seq<char>) -> AppView {
    AppView {
        tabs: a.tabs.push(
            TabView {
                id: a.next_tab,
                cluster,
                namespace: namespace_of(a, cluster),
                state: TabStateView::Connecting,
            },
        ),
        next_tab: (a.next_tab + 1) as u64,
        ..a
    }
}

/// The window after a tab was opened on a cluster.
pub open spec fn opened(a: AppView, cluster: Seq<char>) -> AppView {
    connected(activated(added(a, cluster), a.tabs.len() as int), a.tabs.len() as int)
}

/// The first tab from `k` on that shows a cluster, or the number of tabs.
pub open spec fn tab_on(tabs: Seq<TabView>, cluster: Seq<char>, k: int) -> int
    decreases tabs.len() - k,
{
    if k >= tabs.len() {
        tabs.len() as int
    } else if tabs[k].cluster == cluster {
        k
    } else {
        tab_on(tabs, cluster, k + 1)
    }
}

/// The first tab from `k` on with a number, or the number of tabs.
pub open spec fn tab_numbered(tabs: Seq<TabView>, id: u64, k: int) -> int
    decreases tabs.len() - k,
{
    if k >= tabs.len() {
        tabs.len() as int
    } else if tabs[k].id == id {
        k
    } else {
        tab_numbered(tabs, id, k + 1)
    }
}

/// The window after going to a cluster: to its tab if one is open, to a new one
/// if not.
pub open spec fn gone_to(a: AppView, cluster: Seq<char>) -> AppView {
    let at = tab_on(a.tabs, cluster, 0);
    if at < a.tabs.len() {
        activated(a, at)
    } else {
        opened(a, cluster)
    }
}

/// The connection that going to a cluster needs.
pub open spec fn needed_at(a: AppView, cluster: Seq<char>) -> Option<(u64, Seq<char>)> {
    if tab_on(a.tabs, cluster, 0) < a.tabs.len() {
        None
    } else {
        needed(opened(a, cluster), a.tabs.len() as int)
    }
}

/// The cluster that another tab is opened on: the one in front, else the one
/// that the window would open on.
pub open spec fn cluster_in_front(a: AppView) -> Option<Seq<char>> {
    if 0 <= a.active < a.tabs.len() {
        Some(a.tabs[a.active].cluster)
    } else {
        opening_cluster(a)
    }
}

/// The window after another tab was asked for.
pub open spec fn another(a: AppView) -> AppView {
    match cluster_in_front(a) {
        Some(cluster) => opened(a, cluster),
        None => AppView { palette_open: !a.palette_open, ..a },
    }
}

/// The connection that another tab needs.
pub open spec fn needed_for_another(a: AppView) -> Option<(u64, Seq<char>)> {
    match cluster_in_front(a) {
        Some(cluster) => needed(opened(a, cluster), a.tabs.len() as int),
        None => None,
    }
}

/// The window after the tab in front was pointed at a cluster.
pub open spec fn retargeted(a: AppView, cluster: Seq<char>) -> AppView {
    if a.tabs.len() == 0 {
        opened(a, cluster)
    } else if a.tabs[a.active].cluster == cluster {
        a
    } else {
        connected(moved(a, cluster), a.active)
    }
}

/// The window with the tab in front on another cluster, not connected yet.
pub open spec fn moved(a: AppView, cluster: Seq<char>) -> AppView {
    AppView {
        tabs: a.tabs.update(
            a.active,
            TabView {
                id: a.tabs[a.active].id,
                cluster,
                namespace: namespace_of(a, cluster),
                state: TabStateView::Connecting,
            },
        ),
        ..a
    }
}

/// The window after a connection was made, or was not. What a tab that was
/// closed or pointed somewhere else was waiting for is dropped.
pub open spec fn finished(
    a: AppView,
    tab: u64,
    cluster: Seq<char>,
    result: Result<(), Seq<char>>,
) -> AppView {
    let at = tab_numbered(a.tabs, tab, 0);
    if at >= a.tabs.len() || a.tabs[at].cluster != cluster {
        a
    } else {
        match result {
            Ok(_) => AppView {
                sessions: a.sessions.insert(cluster),
                tabs: with_state(
                    a.tabs,
                    at,
                    TabStateView::Connected { visible: a.active == at },
                ),
                ..a
            },
            Err(error) => AppView {
                tabs: with_state(a.tabs, at, TabStateView::Failed(error)),
                ..a
            },
        }
    }
}

/// What became of a connection.
pub open spec fn outcome_of(result: Result<(), String>) -> Result<(), Seq<char>> {
    match result {
        Ok(_) => Ok(()),
        Err(error) => Err(error@),
    }
}

/// Which tab is in front after one was closed: closing one to the left of the
/// active one shifts it; closing the active one lands on its right-hand
/// neighbour, or the new last tab.
pub open spec fn front_after(active: int, index: int, left: int) -> int {
    if left == 0 {
        0
    } else if active > index {
        active - 1
    } else if active > left - 1 {
        left - 1
    } else {
        active
    }
}

/// The window after a tab was closed. Its session stays.
pub open spec fn closed(a: AppView, index: int) -> AppView {
    if index >= a.tabs.len() {
        a
    } else {
        let left = a.tabs.remove(index);
        let front = front_after(a.active, index, left.len() as int);
        AppView { tabs: told(left, front, true), active: front, ..a }
    }
}

/// The neighbour of a tab, around the ends.
pub open spec fn neighbour(active: int, count: int, forward: bool) -> int {
    if forward {
        if active == count - 1 {
            0
        } else {
            active + 1
        }
    } else if active == 0 {
        count - 1
    } else {
        active - 1
    }
}

/// The window after a step to the next or the previous tab.
pub open spec fn stepped(a: AppView, forward: bool) -> AppView {
    if a.tabs.len() < 2 {
        a
    } else {
        activated(a, neighbour(a.active, a.tabs.len() as int, forward))
    }
}

/// Bringing a tab to the front keeps the window well formed.
proof fn activating_keeps(a: AppView, index: int)
    requires
        well_formed(a),
        0 <= index,
    ensures
        well_formed(activated(a, index)),
{
    let b = activated(a, index);
    if index < a.tabs.len() {
        assert forall|i: int| 0 <= i < b.tabs.len() implies ((#[trigger] b.tabs[i]).state matches TabStateView::Connected {
            visible,
        } ==> visible == (i == b.active)) by {
            let state = a.tabs[i].state;
        }
    }
}

/// A tab that was opened is behind the others until it is brought to the front.
proof fn opening_keeps(a: AppView, cluster: Seq<char>)
    requires
        well_formed(a),
    ensures
        well_formed(opened(a, cluster)),
{
    let n = a.tabs.len() as int;
    let b = added(a, cluster);
    let c = activated(b, n);
    assert forall|i: int| 0 <= i < c.tabs.len() implies ((#[trigger] c.tabs[i]).state matches TabStateView::Connected {
        visible,
    } ==> visible == (i == c.active)) by {
        if i < n {
            let state = a.tabs[i].state;
        }
    }
    assert(well_formed(c));
    connecting_keeps(c, n);
}

proof fn connecting_keeps(a: AppView, index: int)
    requires
        well_formed(a),
        0 <= index,
    ensures
        well_formed(connected(a, index)),
{
    let b = connected(a, index);
    if index < a.tabs.len() {
        assert forall|i: int| 0 <= i < b.tabs.len() implies ((#[trigger] b.tabs[i]).state matches TabStateView::Connected {
            visible,
        } ==> visible == (i == b.active)) by {
            let state = a.tabs[i].state;
        }
    }
}

proof fn closing_keeps(a: AppView, index: int)
    requires
        well_formed(a),
        0 <= index,
    ensures
        well_formed(closed(a, index)),
{
    let b = closed(a, index);
    if index < a.tabs.len() {
        let left = a.tabs.remove(index);
        assert forall|i: int| 0 <= i < b.tabs.len() implies ((#[trigger] b.tabs[i]).state matches TabStateView::Connected {
            visible,
        } ==> visible == (i == b.active)) by {
            let was = if i < index {
                i
            } else {
                i + 1
            };
            assert(left[i] == a.tabs[was]);
        }
    }
}

proof fn finishing_keeps(a: AppView, tab: u64, cluster: Seq<char>, result: Result<(), Seq<char>>)
    requires
        well_formed(a),
    ensures
        well_formed(finished(a, tab, cluster, result)),
{
    tab_numbered_bounds(a.tabs, tab, 0);
    let b = finished(a, tab, cluster, result);
    assert forall|i: int| 0 <= i < b.tabs.len() implies ((#[trigger] b.tabs[i]).state matches TabStateView::Connected {
        visible,
    } ==> visible == (i == b.active)) by {
        let state = a.tabs[i].state;
    }
}

proof fn tab_numbered_bounds(tabs: Seq<TabView>, id: u64, k: int)
    requires
        0 <= k <= tabs.len(),
    ensures
        k <= tab_numbered(tabs, id, k) <= tabs.len(),
    decreases tabs.len() - k,
{
    if k < tabs.len() && tabs[k].id != id {
        tab_numbered_bounds(tabs, id, k + 1);
    }
}

proof fn tab_on_bounds(tabs: Seq<TabView>, cluster: Seq<char>, k: int)
    requires
        0 <= k <= tabs.len(),
    ensures
        k <= tab_on(tabs, cluster, k) <= tabs.len(),
    decreases tabs.len() - k,
{
    if k < tabs.len() && tabs[k].cluster != cluster {
        tab_on_bounds(tabs, cluster, k + 1);
    }
}

proof fn retargeting_keeps(a: AppView, cluster: Seq<char>)
    requires
        well_formed(a),
    ensures
        well_formed(retargeted(a, cluster)),
{
    if a.tabs.len() == 0 {
        opening_keeps(a, cluster);
    } else if a.tabs[a.active].cluster != cluster {
        let b = moved(a, cluster);
        assert forall|i: int| 0 <= i < b.tabs.len() implies ((#[trigger] b.tabs[i]).state matches TabStateView::Connected {
            visible,
        } ==> visible == (i == b.active)) by {
            let state = a.tabs[i].state;
        }
        connecting_keeps(b, a.active);
    }
}

/// A step forward and a step back, in either order, end at the tab they began
/// at.
pub proof fn stepping_there_and_back(a: AppView, forward: bool)
    requires
        well_formed(a),
    ensures
        stepped(stepped(a, forward), !forward).active == a.active,
{
}

/// Closing another tab leaves the one in front in front.
pub proof fn closing_another_tab_keeps_the_front(a: AppView, index: int)
    requires
        well_formed(a),
        0 <= index < a.tabs.len(),
        index != a.active,
    ensures
        closed(a, index).tabs[closed(a, index).active].id == a.tabs[a.active].id,
        closed(a, index).tabs[closed(a, index).active].cluster == a.tabs[a.active].cluster,
{
    let left = a.tabs.remove(index);
    let front = front_after(a.active, index, left.len() as int);
    assert(left[front] == a.tabs[a.active]);
}

/// A cluster that was connected stays connected when its tabs are closed: going
/// back to it needs no connection, and shows it at once.
pub proof fn going_back_does_not_reconnect(a: AppView, index: int, cluster: Seq<char>)
    requires
        well_formed(a),
        0 <= index < a.tabs.len(),
        a.sessions.contains(cluster),
        tab_on(closed(a, index).tabs, cluster, 0) == closed(a, index).tabs.len(),
        a.next_tab < u64::MAX,
    ensures
        ({
            let b = closed(a, index);
            &&& b.sessions == a.sessions
            &&& needed_at(b, cluster) is None
            &&& has_view(gone_to(b, cluster))
            &&& gone_to(b, cluster).tabs[gone_to(b, cluster).active].cluster == cluster
        }),
{
}

/// Going to a cluster twice opens at most one tab on it.
pub proof fn going_twice_opens_one_tab(a: AppView, cluster: Seq<char>)
    requires
        well_formed(a),
        a.next_tab < u64::MAX,
    ensures
        gone_to(gone_to(a, cluster), cluster).tabs.len() == gone_to(a, cluster).tabs.len(),
{
    let b = gone_to(a, cluster);
    tab_on_bounds(a.tabs, cluster, 0);
    tab_on_bounds(b.tabs, cluster, 0);
    let at = tab_on(a.tabs, cluster, 0);
    if at < a.tabs.len() {
        tab_on_found(a.tabs, cluster, 0);
        assert(b.tabs[at].cluster == cluster);
        tab_on_least(b.tabs, cluster, 0, at);
    } else {
        assert(b.tabs[a.tabs.len() as int].cluster == cluster);
        tab_on_least(b.tabs, cluster, 0, a.tabs.len() as int);
    }
}

proof fn tab_on_found(tabs: Seq<TabView>, cluster: Seq<char>, k: int)
    requires
        0 <= k <= tabs.len(),
    ensures
        tab_on(tabs, cluster, k) < tabs.len() ==> tabs[tab_on(tabs, cluster, k)].cluster == cluster,
    decreases tabs.len() - k,
{
    if k < tabs.len() && tabs[k].cluster != cluster {
        tab_on_found(tabs, cluster, k + 1);
    }
}

proof fn tab_on_least(tabs: Seq<TabView>, cluster: Seq<char>, k: int, at: int)
    requires
        0 <= k <= at < tabs.len(),
        tabs[at].cluster == cluster,
    ensures
        tab_on(tabs, cluster, k) <= at,
    decreases at - k,
{
    if tabs[k].cluster != cluster {
        tab_on_least(tabs, cluster, k + 1, at);
    }
}

/// Where a pick of the palette goes.
pub enum Routed {
    /// To the tabs; a connection may have to be made.
    Went(Option<Request>),
    ToggleTheme,
    /// To the view in front.
    View(Choice),
    /// Nowhere: it needs a connected cluster, and there is none in front.
    Nowhere,
}

/// Whether the tab in front has a view.
pub open spec fn has_view(a: AppView) -> bool {
    0 <= a.active < a.tabs.len() && a.tabs[a.active].state is Connected
}

impl BeaconApp {
    /// A window without tabs.
    pub fn empty(contexts: Result<Contexts, String>) -> (r: BeaconApp)
        ensures
            r@ == (AppView {
                contexts: match contexts {
                    Ok(contexts) => Ok(contexts@),
                    Err(error) => Err(error@),
                },
                sessions: Set::empty(),
                tabs: Seq::empty(),
                active: 0,
                next_tab: 0,
                palette_open: false,
            }),
            well_formed(r@),
    {
        let sessions: Dict<Text, ()> = Dict::new();
        let tabs: Vec<Tab> = Vec::new();
        assert(tab_views(tabs@) =~= Seq::empty());
        assert(sessions@.dom() =~= Set::empty());
        BeaconApp { contexts, sessions, tabs, active: 0, next_tab: 0, palette_open: false }
    }

    /// A window on whatever `kubectl` would have used. Returns the connection
    /// that has to be made for it.
    pub fn new(contexts: Result<Contexts, String>) -> (r: (BeaconApp, Option<Request>))
        ensures
            well_formed(r.0@),
            ({
                let a = AppView {
                    contexts: match contexts {
                        Ok(contexts) => Ok(contexts@),
                        Err(error) => Err(error@),
                    },
                    sessions: Set::empty(),
                    tabs: Seq::empty(),
                    active: 0,
                    next_tab: 0,
                    palette_open: false,
                };
                match opening_cluster(a) {
                    Some(cluster) => r.0@ == opened(a, cluster) && request_view(r.1) == needed(
                        r.0@,
                        0,
                    ),
                    None => r.0@ == a && r.1 is None,
                }
            }),
    {
        let mut app = BeaconApp::empty(contexts);
        match app.default_cluster() {
            Some(cluster) => {
                let request = app.open(cluster);
                (app, request)
            },
            None => (app, None),
        }
    }

    /// Whether one more tab can be numbered.
    pub fn has_room(&self) -> (r: bool)
        ensures
            r == (self@.next_tab < u64::MAX),
    {
        self.next_tab < u64::MAX
    }

    /// The context to open when nothing else says which.
    pub fn default_cluster(&self) -> (r: Option<ClusterId>)
        ensures
            (match r {
                Some(id) => Some(id@),
                None => None,
            }) == opening_cluster(self@),
    {
        let contexts = match &self.contexts {
            Ok(contexts) => contexts,
            Err(_) => return None,
        };
        let entries = contexts.entries();
        let ghost all = contexts@;
        assert(all == entry_views(entries@));
        let mut i: usize = 0;
        while i < entries.len()
            invariant
                i <= entries.len(),
                self@.contexts == Ok::<Seq<EntryView>, Seq<char>>(all),
                all == entry_views(entries@),
                current_entry(all, 0) == current_entry(all, i as int),
            decreases entries.len() - i,
        {
            assert(all[i as int] == entries@[i as int]@);
            if entries[i].is_current {
                return Some(entries[i].id.copy());
            }
            i += 1;
        }
        if entries.len() > 0 {
            assert(all[0] == entries@[0]@);
            Some(entries[0].id.copy())
        } else {
            None
        }
    }

    /// The namespace that the kubeconfig gives a cluster.
    pub fn namespace_for(&self, id: &ClusterId) -> (r: Option<String>)
        ensures
            held(r) == namespace_of(self@, id@),
    {
        let contexts = match &self.contexts {
            Ok(contexts) => contexts,
            Err(_) => return None,
        };
        let entries = contexts.entries();
        let ghost all = contexts@;
        assert(all == entry_views(entries@));
        let mut i: usize = 0;
        while i < entries.len()
            invariant
                i <= entries.len(),
                self@.contexts == Ok::<Seq<EntryView>, Seq<char>>(all),
                all == entry_views(entries@),
                entry_for(all, id@, 0) == entry_for(all, id@, i as int),
            decreases entries.len() - i,
        {
            assert(all[i as int] == entries@[i as int]@);
            if entries[i].id.same(id) {
                return entries[i].namespace.clone();
            }
            i += 1;
        }
        None
    }

    /// The place of a tab.
    pub fn index_of(&self, id: u64) -> (r: Option<usize>)
        ensures
            match r {
                Some(i) => i < self@.tabs.len() && i == tab_numbered(self@.tabs, id, 0),
                None => tab_numbered(self@.tabs, id, 0) == self@.tabs.len(),
            },
    {
        let mut i: usize = 0;
        while i < self.tabs.len()
            invariant
                i <= self.tabs.len(),
                self@.tabs.len() == self.tabs@.len(),
                tab_numbered(self@.tabs, id, 0) == tab_numbered(self@.tabs, id, i as int),
            decreases self.tabs.len() - i,
        {
            assert(self@.tabs[i as int] == self.tabs@[i as int]@);
            if self.tabs[i].id == id {
                return Some(i);
            }
            i += 1;
        }
        None
    }

    /// The tabs, in their order.
    pub fn tabs(&self) -> (r: &Vec<Tab>)
        ensures
            tab_views(r@) == self@.tabs,
    {
        &self.tabs
    }

    /// The place of the tab in front.
    pub fn active(&self) -> (r: usize)
        ensures
            r == self@.active,
    {
        self.active
    }

    /// Whether the palette is open.
    pub fn palette_open(&self) -> (r: bool)
        ensures
            r == self@.palette_open,
    {
        self.palette_open
    }

    fn set_state(&mut self, index: usize, state: TabState)
        requires
            index < old(self)@.tabs.len(),
        ensures
            final(self)@ == (AppView {
                tabs: with_state(old(self)@.tabs, index as int, state@),
                ..old(self)@
            }),
    {
        let ghost before = self@;
        let tab = &self.tabs[index];
        assert(before.tabs[index as int] == tab@);
        let next = Tab {
            id: tab.id,
            cluster: tab.cluster.copy(),
            namespace: tab.namespace.clone(),
            state,
        };
        let ghost added = next@;
        self.tabs.set(index, next);
        assert(self@.tabs =~= before.tabs.update(index as int, added));
    }

    fn tell(&mut self, index: usize, visible: bool)
        ensures
            final(self)@ == (AppView {
                tabs: told(old(self)@.tabs, index as int, visible),
                ..old(self)@
            }),
    {
        assert(self@.tabs.len() == self.tabs@.len());
        if index < self.tabs.len() {
            assert(self@.tabs[index as int] == self.tabs@[index as int]@);
            if matches!(self.tabs[index].state, TabState::Connected { .. }) {
                self.set_state(index, TabState::Connected { visible });
            }
        }
    }

    /// Brings a tab to the front.
    pub fn activate(&mut self, index: usize)
        ensures
            final(self)@ == activated(old(self)@, index as int),
            well_formed(old(self)@) ==> well_formed(final(self)@),
    {
        proof {
            if well_formed(self@) {
                activating_keeps(self@, index as int);
            }
        }
        assert(self@.tabs.len() == self.tabs@.len());
        if index >= self.tabs.len() {
            return;
        }
        if self.active != index {
            let previous: usize = self.active;
            self.tell(previous, false);
        }
        self.active = index;
        self.tell(index, true);
    }

    fn has_session(&self, cluster: &ClusterId) -> (r: bool)
        ensures
            r == self@.sessions.contains(cluster@),
    {
        self.sessions.get(&Text { text: cluster.as_str().to_owned() }).is_some()
    }

    /// Gives a tab a view, or says which connection has to be made first.
    fn connect(&mut self, index: usize) -> (r: Option<Request>)
        ensures
            final(self)@ == connected(old(self)@, index as int),
            request_view(r) == needed(old(self)@, index as int),
    {
        assert(self@.tabs.len() == self.tabs@.len());
        if index >= self.tabs.len() {
            return None;
        }
        assert(self@.tabs[index as int] == self.tabs@[index as int]@);
        let cluster = self.tabs[index].cluster.copy();
        let tab: u64 = self.tabs[index].id;
        if self.has_session(&cluster) {
            let visible = self.active == index;
            self.set_state(index, TabState::Connected { visible });
            None
        } else {
            self.set_state(index, TabState::Connecting);
            Some(Request { tab, cluster })
        }
    }

    /// Opens a new tab on a cluster and makes it the one on screen.
    pub fn open(&mut self, cluster: ClusterId) -> (r: Option<Request>)
        requires
            old(self)@.next_tab < u64::MAX,
        ensures
            final(self)@ == opened(old(self)@, cluster@),
            request_view(r) == needed(final(self)@, old(self)@.tabs.len() as int),
            well_formed(old(self)@) ==> well_formed(final(self)@),
    {
        let ghost before = self@;
        proof {
            if well_formed(before) {
                opening_keeps(before, cluster@);
            }
        }
        let namespace = self.namespace_for(&cluster);
        let id: u64 = self.next_tab;
        self.next_tab = id + 1;
        let index: usize = self.tabs.len();
        let tab = Tab { id, cluster, namespace, state: TabState::Connecting };
        let ghost added_tab = tab@;
        self.tabs.push(tab);
        assert(self@.tabs =~= before.tabs.push(added_tab));
        assert(self@ == added(before, added_tab.cluster));
        self.activate(index);
        self.connect(index)
    }

    /// Goes to a cluster: its tab if one is open, a new tab if not.
    ///
    /// Two tabs on one cluster are a deliberate thing to ask for, not something
    /// to get by mistake from picking the same cluster twice.
    pub fn go_to(&mut self, cluster: ClusterId) -> (r: Option<Request>)
        requires
            old(self)@.next_tab < u64::MAX,
        ensures
            final(self)@ == gone_to(old(self)@, cluster@),
            well_formed(old(self)@) ==> well_formed(final(self)@),
            request_view(r) == (if tab_on(old(self)@.tabs, cluster@, 0) < old(self)@.tabs.len() {
                None
            } else {
                needed(final(self)@, old(self)@.tabs.len() as int)
            }),
    {
        let mut i: usize = 0;
        while i < self.tabs.len()
            invariant
                i <= self.tabs@.len(),
                self@ == old(self)@,
                self@.next_tab < u64::MAX,
                self@.tabs.len() == self.tabs@.len(),
                tab_on(self@.tabs, cluster@, 0) == tab_on(self@.tabs, cluster@, i as int),
            decreases self.tabs@.len() - i,
        {
            assert(self@.tabs[i as int] == self.tabs@[i as int]@);
            if self.tabs[i].cluster.same(&cluster) {
                self.activate(i);
                return None;
            }
            i += 1;
        }
        self.open(cluster)
    }

    /// Points the tab on screen at a different cluster, in place.
    pub fn retarget(&mut self, cluster: ClusterId) -> (r: Option<Request>)
        requires
            well_formed(old(self)@),
            old(self)@.next_tab < u64::MAX,
        ensures
            final(self)@ == retargeted(old(self)@, cluster@),
            well_formed(final(self)@),
            request_view(r) == (if old(self)@.tabs.len() == 0 {
                needed(final(self)@, 0)
            } else if old(self)@.tabs[old(self)@.active].cluster == cluster@ {
                None
            } else {
                needed(moved(old(self)@, cluster@), old(self)@.active)
            }),
    {
        let ghost before = self@;
        proof {
            retargeting_keeps(before, cluster@);
        }
        assert(self@.tabs.len() == self.tabs@.len());
        if self.tabs.len() == 0 {
            return self.open(cluster);
        }
        let index: usize = self.active;
        assert(self@.tabs[index as int] == self.tabs@[index as int]@);
        if self.tabs[index].cluster.same(&cluster) {
            return None;
        }
        let namespace = self.namespace_for(&cluster);
        let id: u64 = self.tabs[index].id;
        let tab = Tab { id, cluster, namespace, state: TabState::Connecting };
        let ghost moved_tab = tab@;
        self.tabs.set(index, tab);
        assert(self@.tabs =~= before.tabs.update(index as int, moved_tab));
        assert(self@ == moved(before, moved_tab.cluster));
        self.connect(index)
    }

    /// Takes in what became of a connection. Returns whether the session is to be
    /// shown in a tab: the tab may have been closed, or pointed somewhere else,
    /// while this was in flight.
    pub fn finish(
        &mut self,
        tab: u64,
        cluster: &ClusterId,
        result: Result<(), String>,
    ) -> (shown: bool)
        ensures
            final(self)@ == finished(
                old(self)@,
                tab,
                cluster@,
                outcome_of(result),
            ),
            shown == (result is Ok && tab_numbered(old(self)@.tabs, tab, 0) < old(
                self,
            )@.tabs.len() && old(self)@.tabs[tab_numbered(old(self)@.tabs, tab, 0)].cluster
                == cluster@),
            well_formed(old(self)@) ==> well_formed(final(self)@),
    {
        let ghost before = self@;
        proof {
            if well_formed(before) {
                finishing_keeps(before, tab, cluster@, outcome_of(result));
            }
        }
        let index: usize = match self.index_of(tab) {
            Some(index) => index,
            None => return false,
        };
        assert(self@.tabs.len() == self.tabs@.len());
        assert(self@.tabs[index as int] == self.tabs@[index as int]@);
        if !self.tabs[index].cluster.same(cluster) {
            return false;
        }
        match result {
            Ok(_) => {
                // Another tab may have connected to the same cluster meanwhile;
                // there is one session per cluster.
                let ghost known = self.sessions@;
                self.sessions.insert(Text { text: cluster.as_str().to_owned() }, ());
                assert(self.sessions@.dom() =~= known.dom().insert(cluster@));
                let visible = self.active == index;
                self.set_state(index, TabState::Connected { visible });
                true
            },
            Err(error) => {
                self.set_state(index, TabState::Failed(error));
                false
            },
        }
    }

    /// Closes a tab. Its session stays: reconnecting is the slow part.
    pub fn close(&mut self, index: usize)
        ensures
            final(self)@ == closed(old(self)@, index as int),
            well_formed(old(self)@) ==> well_formed(final(self)@),
    {
        let ghost before = self@;
        proof {
            if well_formed(before) {
                closing_keeps(before, index as int);
            }
        }
        assert(self@.tabs.len() == self.tabs@.len());
        if index >= self.tabs.len() {
            return;
        }
        let _ = self.tabs.remove(index);
        assert(self@.tabs =~= before.tabs.remove(index as int));
        if self.tabs.len() == 0 {
            self.active = 0;
            return;
        }
        if self.active > index {
            self.active = self.active - 1;
        } else if self.active > self.tabs.len() - 1 {
            self.active = self.tabs.len() - 1;
        }
        // Whatever is in front now may have been a background tab a moment ago.
        let front: usize = self.active;
        self.tell(front, true);
    }

    /// Closes the tab with a number, if it is still there.
    pub fn close_tab(&mut self, id: u64)
        ensures
            final(self)@ == (if tab_numbered(old(self)@.tabs, id, 0) < old(self)@.tabs.len() {
                closed(old(self)@, tab_numbered(old(self)@.tabs, id, 0))
            } else {
                old(self)@
            }),
            well_formed(old(self)@) ==> well_formed(final(self)@),
    {
        if let Some(index) = self.index_of(id) {
            self.close(index);
        }
    }

    /// Another tab on the cluster in front, so that it can be narrowed to
    /// something else. Without any cluster the palette opens, which is where one
    /// would be picked from.
    pub fn new_tab(&mut self) -> (r: Option<Request>)
        requires
            old(self)@.next_tab < u64::MAX,
        ensures
            well_formed(old(self)@) ==> well_formed(final(self)@),
            final(self)@ == another(old(self)@),
            request_view(r) == needed_for_another(old(self)@),
    {
        assert(self@.tabs.len() == self.tabs@.len());
        let cluster = if self.active < self.tabs.len() {
            assert(self@.tabs[self.active as int] == self.tabs@[self.active as int]@);
            Some(self.tabs[self.active].cluster.copy())
        } else {
            self.default_cluster()
        };
        match cluster {
            Some(cluster) => self.open(cluster),
            None => {
                self.toggle_palette();
                None
            },
        }
    }

    /// Goes to the next or the previous tab, around the ends.
    pub fn step(&mut self, forward: bool)
        requires
            well_formed(old(self)@),
        ensures
            final(self)@ == stepped(old(self)@, forward),
            well_formed(final(self)@),
    {
        assert(self@.tabs.len() == self.tabs@.len());
        if self.tabs.len() < 2 {
            return;
        }
        let last: usize = self.tabs.len() - 1;
        let next: usize = if forward {
            if self.active == last {
                0
            } else {
                self.active + 1
            }
        } else if self.active == 0 {
            last
        } else {
            self.active - 1
        };
        self.activate(next);
    }

    /// Opens the palette, or closes it if it is already open.
    pub fn toggle_palette(&mut self)
        ensures
            final(self)@ == (AppView { palette_open: !old(self)@.palette_open, ..old(self)@ }),
    {
        self.palette_open = !self.palette_open;
    }

    /// Closes the palette.
    pub fn dismiss_palette(&mut self)
        ensures
            final(self)@ == (AppView { palette_open: false, ..old(self)@ }),
    {
        self.palette_open = false;
    }

    /// The clusters that the palette offers. They come from the kubeconfig, not
    /// from the connected sessions: going to one that is not connected is the
    /// point.
    pub fn clusters(&self) -> (out: Vec<ClusterId>)
        ensures
            out@.map_values(|c: ClusterId| c@) == (match self@.contexts {
                Ok(entries) => entries.map_values(|e: EntryView| e.id),
                Err(_) => Seq::empty(),
            }),
    {
        let mut out: Vec<ClusterId> = Vec::new();
        match &self.contexts {
            Ok(contexts) => {
                let entries = contexts.entries();
                let ghost all = contexts@;
                let mut i: usize = 0;
                while i < entries.len()
                    invariant
                        i <= entries.len(),
                        out@.len() == i,
                        all == entry_views(entries@),
                        forall|k: int| 0 <= k < i ==> (#[trigger] out@[k])@ == all[k].id,
                    decreases entries.len() - i,
                {
                    assert(all[i as int] == entries@[i as int]@);
                    out.push(entries[i].id.copy());
                    i += 1;
                }
                assert(out@.map_values(|c: ClusterId| c@) =~= all.map_values(
                    |e: EntryView| e.id,
                ));
            },
            Err(_) => {
                assert(out@.map_values(|c: ClusterId| c@) =~= Seq::empty());
            },
        }
        out
    }

    /// Carries out what the palette was asked for, as far as it is the window's
    /// to do, and says where the rest goes.
    pub fn route(&mut self, choice: Choice) -> (r: Routed)
        requires
            old(self)@.next_tab < u64::MAX,
        ensures
            well_formed(old(self)@) ==> well_formed(final(self)@),
            ({
                let a = AppView { palette_open: false, ..old(self)@ };
                match choice {
                    Choice::Cluster(id) => final(self)@ == gone_to(a, id@) && (
                    r matches Routed::Went(request) && request_view(request) == needed_at(
                        a,
                        id@,
                    )),
                    Choice::Action(Action::NewTab) => final(self)@ == another(a) && (
                    r matches Routed::Went(request) && request_view(request)
                        == needed_for_another(a)),
                    Choice::Action(Action::CloseTab) => final(self)@ == closed(a, a.active) && r
                        == Routed::Went(None),
                    Choice::Action(Action::ToggleTheme) => final(self)@ == a && r is ToggleTheme,
                    other => final(self)@ == a && (if has_view(a) {
                        r == Routed::View(other)
                    } else {
                        r is Nowhere
                    }),
                }
            }),
    {
        self.palette_open = false;
        match choice {
            Choice::Cluster(id) => Routed::Went(self.go_to(id)),
            Choice::Action(Action::NewTab) => Routed::Went(self.new_tab()),
            Choice::Action(Action::CloseTab) => {
                let active: usize = self.active;
                self.close(active);
                Routed::Went(None)
            },
            Choice::Action(Action::ToggleTheme) => Routed::ToggleTheme,
            other => {
                assert(self@.tabs.len() == self.tabs@.len());
                if self.active < self.tabs.len() {
                    assert(self@.tabs[self.active as int] == self.tabs@[self.active as int]@);
                    if matches!(self.tabs[self.active].state, TabState::Connected { .. }) {
                        return Routed::View(other);
                    }
                }
                Routed::Nowhere
            },
        }
    }

    /// What the window says in place of a view: a tone, a headline and a
    /// sentence. Nothing where there is a view to show.
    pub fn body(&self) -> (r: Option<(Tone, String, String)>)
        ensures
            (match r {
                Some((tone, headline, detail)) => Some((tone, headline@, detail@)),
                None => None,
            }) == body_of(self@),
    {
        assert(self@.tabs.len() == self.tabs@.len());
        if self.active < self.tabs.len() {
            let tab = &self.tabs[self.active];
            assert(self@.tabs[self.active as int] == tab@);
            match &tab.state {
                TabState::Connected { .. } => return None,
                TabState::Connecting => return Some(
                    (
                        Tone::Progressing,
                        two("Connecting to ", tab.cluster.as_str()),
                        "Authenticating and reaching the API server.".to_owned(),
                    ),
                ),
                TabState::Failed(diagnosis) => return Some(
                    (
                        Tone::Critical,
                        two("Could not connect to ", tab.cluster.as_str()),
                        diagnosis.clone(),
                    ),
                ),
            }
        }
        match &self.contexts {
            Err(error) => Some(
                (Tone::Critical, "Could not read kubeconfig".to_owned(), error.clone()),
            ),
            Ok(contexts) => if contexts.is_empty() {
                Some(
                    (
                        Tone::Warning,
                        "Kubeconfig has no contexts".to_owned(),
                        "Add a cluster with `kubectl config set-context`, then reopen Beacon.".to_owned(),
                    ),
                )
            } else {
                Some(
                    (
                        Tone::Unknown,
                        "No tab open".to_owned(),
                        "Press ⌘T for a tab, or ⌘K and `ctx` to go to a cluster.".to_owned(),
                    ),
                )
            },
        }
    }

    /// What the status bar says. The arguments describe the session in front and
    /// are read only where there is one.
    pub fn status(&self, server: &str, health: &Health, watches: usize, forwards: usize) -> (r: (
        Tone,
        String,
    ))
        ensures
            (r.0, r.1@) == status_of(self@, server@, health@, watches as nat, forwards as nat),
    {
        assert(self@.tabs.len() == self.tabs@.len());
        if self.active >= self.tabs.len() {
            return (Tone::Unknown, "no tab open".to_owned());
        }
        assert(self@.tabs[self.active as int] == self.tabs@[self.active as int]@);
        match &self.tabs[self.active].state {
            TabState::Connecting => (Tone::Progressing, "connecting".to_owned()),
            TabState::Failed(_) => (Tone::Critical, "disconnected".to_owned()),
            TabState::Connected { .. } => {
                let tone = match health {
                    Health::Connected => Tone::Healthy,
                    Health::Connecting => Tone::Progressing,
                    Health::Degraded { .. } => Tone::Warning,
                };
                let detail = match health.reason() {
                    Some(reason) => three(health.label(), " — ", reason),
                    None => health.label().to_owned(),
                };
                let mut out = three(server, " · ", detail.as_str());
                let tabs: usize = self.tabs.len();
                let sessions: usize = self.sessions.len();
                out.append(count_text(true, watches, " watches").as_str());
                out.append(count_text(tabs > 1, tabs, " tabs").as_str());
                out.append(count_text(sessions > 1, sessions, " clusters").as_str());
                out.append(count_text(forwards > 0, forwards, " forwarding").as_str());
                (tone, out)
            },
        }
    }
}

/// What the window says in place of a view.
pub open spec fn body_of(a: AppView) -> Option<(Tone, Seq<char>, Seq<char>)> {
    if has_view(a) {
        None
    } else if 0 <= a.active < a.tabs.len() && a.tabs[a.active].state is Connecting {
        Some(
            (
                Tone::Progressing,
                "Connecting to "@ + a.tabs[a.active].cluster,
                "Authenticating and reaching the API server."@,
            ),
        )
    } else if 0 <= a.active < a.tabs.len() {
        Some(
            (
                Tone::Critical,
                "Could not connect to "@ + a.tabs[a.active].cluster,
                a.tabs[a.active].state->Failed_0,
            ),
        )
    } else {
        match a.contexts {
            Err(error) => Some((Tone::Critical, "Could not read kubeconfig"@, error)),
            Ok(entries) => if entries.len() == 0 {
                Some(
                    (
                        Tone::Warning,
                        "Kubeconfig has no contexts"@,
                        "Add a cluster with `kubectl config set-context`, then reopen Beacon."@,
                    ),
                )
            } else {
                Some(
                    (
                        Tone::Unknown,
                        "No tab open"@,
                        "Press ⌘T for a tab, or ⌘K and `ctx` to go to a cluster."@,
                    ),
                )
            },
        }
    }
}

/// A count in the status bar, where there is something to count.
pub open spec fn counted(shown: bool, n: nat, what: Seq<char>) -> Seq<char> {
    if shown {
        " · "@ + decimal(n) + what
    } else {
        Seq::empty()
    }
}

fn count_text(shown: bool, n: usize, what: &str) -> (r: String)
    ensures
        r@ == counted(shown, n as nat, what@),
{
    if shown {
        three(" · ", natural(n as u128).as_str(), what)
    } else {
        String::new()
    }
}

/// A word for a health, and the reason, not just the word: a word alone sends
/// people to the log file for something already known.
pub open spec fn health_text(health: HealthView) -> Seq<char> {
    match health {
        HealthView::Connecting => "Connecting"@,
        HealthView::Connected => "Connected"@,
        HealthView::Degraded { reason } => "Degraded"@ + " — "@ + reason,
    }
}

/// What the status bar says.
pub open spec fn status_of(
    a: AppView,
    server: Seq<char>,
    health: HealthView,
    watches: nat,
    forwards: nat,
) -> (Tone, Seq<char>) {
    if !(0 <= a.active < a.tabs.len()) {
        (Tone::Unknown, "no tab open"@)
    } else {
        match a.tabs[a.active].state {
            TabStateView::Connecting => (Tone::Progressing, "connecting"@),
            TabStateView::Failed(_) => (Tone::Critical, "disconnected"@),
            TabStateView::Connected { .. } => (
                match health {
                    HealthView::Connected => Tone::Healthy,
                    HealthView::Connecting => Tone::Progressing,
                    HealthView::Degraded { .. } => Tone::Warning,
                },
                server + " · "@ + health_text(health) + counted(true, watches, " watches"@)
                    + counted(a.tabs.len() > 1, a.tabs.len(), " tabs"@) + counted(
                    a.sessions.len() > 1,
                    a.sessions.len(),
                    " clusters"@,
                ) + counted(forwards > 0, forwards, " forwarding"@),
            ),
        }
    }
}

/// What stands in front of the cluster on a tab: what it shows, then where, so
/// that two tabs on one cluster can be told apart when the name is cut short.
pub fn tab_prefix(state: &TabState, title: &str) -> (r: String)
    ensures
        r@ == (match state {
            TabState::Connected { .. } => title@,
            TabState::Connecting => "connecting"@,
            TabState::Failed(_) => "unreachable"@,
        }) + " ·"@,
{
    let what: &str = match state {
        TabState::Connected { .. } => title,
        TabState::Connecting => "connecting",
        TabState::Failed(_) => "unreachable",
    };
    two(what, " ·")
}

} // verus!
