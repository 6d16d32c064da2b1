//! The health of a connection, as everything that runs under it reports it.
use vstd::prelude::*;

use crate::base::text::three;

verus! {

/// What the status bar shows about a connection.
#[derive(Debug, PartialEq, Eq)]
pub enum Health {
    /// The client exists but has not proved it can reach the API server yet.
    Connecting,
    Connected,
    /// Reachable, but something is failing: an expired token, a kind we are not
    /// allowed to watch, a flapping network.
    Degraded { reason: String },
}

/// The health of a connection, as a mathematical object.
pub enum HealthView {
    Connecting,
    Connected,
    Degraded { reason: Seq<char> },
}

impl View for Health {
    type V = HealthView;

    open spec fn view(&self) -> HealthView {
        match self {
            Health::Connecting => HealthView::Connecting,
            Health::Connected => HealthView::Connected,
            Health::Degraded { reason } => HealthView::Degraded { reason: reason@ },
        }
    }
}

impl Health {
    /// A word for the status bar.
    pub fn label(&self) -> (r: &'static str)
        ensures
            r@ == (match self@ {
                HealthView::Connecting => "Connecting"@,
                HealthView::Connected => "Connected"@,
                HealthView::Degraded { .. } => "Degraded"@,
            }),
    {
        match self {
            Health::Connecting => "Connecting",
            Health::Connected => "Connected",
            Health::Degraded { .. } => "Degraded",
        }
    }

    /// The detail behind the label, if there is one.
    pub fn reason(&self) -> (r: Option<&str>)
        ensures
            crate::base::text::lent(r) == (match self@ {
                HealthView::Degraded { reason } => Some(reason),
                _ => None,
            }),
    {
        match self {
            Health::Degraded { reason } => Some(reason.as_str()),
            _ => None,
        }
    }

    /// A copy.
    pub fn copy(&self) -> (r: Health)
        ensures
            r@ == self@,
    {
        match self {
            Health::Connecting => Health::Connecting,
            Health::Connected => Health::Connected,
            Health::Degraded { reason } => Health::Degraded { reason: reason.clone() },
        }
    }
}

/// One watch's part in the session's health: whether it is failing now, so that
/// a watch retrying in a tight loop counts once rather than once per attempt.
pub struct WatchReporter {
    id: u64,
    what: String,
    failing: bool,
}

/// One watch's part in the session's health, as a mathematical object.
pub struct ReporterView {
    pub id: u64,
    pub what: Seq<char>,
    pub failing: bool,
}

impl View for WatchReporter {
    type V = ReporterView;

    closed spec fn view(&self) -> ReporterView {
        ReporterView { id: self.id, what: self.what@, failing: self.failing }
    }
}

/// The health of one session.
///
/// A session is degraded while any of its watches is failing, and recovers when
/// the last of them does: a watch that fails for its own reasons must not leave
/// the whole cluster looking broken once the user navigates away from it.
pub struct HealthState {
    health: Health,
    reporters: Vec<WatchReporter>,
    next_id: u64,
}

/// The health of one session, as a mathematical object.
pub struct StateView {
    pub health: HealthView,
    pub reporters: Seq<ReporterView>,
    pub next_id: u64,
}

/// What a list of reporters stands for.
pub closed spec fn reporter_views(list: Seq<WatchReporter>) -> Seq<ReporterView> {
    list.map_values(|r: WatchReporter| r@)
}

impl View for HealthState {
    type V = StateView;

    closed spec fn view(&self) -> StateView {
        StateView {
            health: self.health@,
            reporters: reporter_views(self.reporters@),
            next_id: self.next_id,
        }
    }
}

/// Whether any watch is failing.
pub open spec fn any_failing(list: Seq<ReporterView>) -> bool {
    exists|i: int| 0 <= i < list.len() && (#[trigger] list[i]).failing
}

/// The first place from `k` on at which a reporter stands, or the length of the
/// list.
pub open spec fn place_of(list: Seq<ReporterView>, id: u64, k: int) -> int
    decreases list.len() - k,
{
    if k >= list.len() {
        list.len() as int
    } else if list[k].id == id {
        k
    } else {
        place_of(list, id, k + 1)
    }
}

/// The health once the given watches are what is left, after one stopped
/// failing.
pub open spec fn relieved(health: HealthView, list: Seq<ReporterView>) -> HealthView {
    if any_failing(list) {
        health
    } else {
        HealthView::Connected
    }
}

/// The session after a watch has failed. One that was failing already changes
/// nothing.
pub open spec fn after_failure(s: StateView, id: u64, error: Seq<char>) -> StateView {
    let i = place_of(s.reporters, id, 0);
    if i < s.reporters.len() && !s.reporters[i].failing {
        StateView {
            health: HealthView::Degraded { reason: s.reporters[i].what + ": "@ + error },
            reporters: s.reporters.update(i, ReporterView { failing: true, ..s.reporters[i] }),
            ..s
        }
    } else {
        s
    }
}

/// The session after a watch has worked.
pub open spec fn after_success(s: StateView, id: u64) -> StateView {
    let i = place_of(s.reporters, id, 0);
    if i < s.reporters.len() && s.reporters[i].failing {
        let left = s.reporters.update(i, ReporterView { failing: false, ..s.reporters[i] });
        StateView { health: relieved(s.health, left), reporters: left, ..s }
    } else {
        s
    }
}

/// The session after a watch has ended.
pub open spec fn after_end(s: StateView, id: u64) -> StateView {
    let i = place_of(s.reporters, id, 0);
    if i < s.reporters.len() {
        let left = s.reporters.remove(i);
        StateView {
            health: if s.reporters[i].failing {
                relieved(s.health, left)
            } else {
                s.health
            },
            reporters: left,
            ..s
        }
    } else {
        s
    }
}

/// Whether a session looks broken exactly while a watch of it fails.
pub open spec fn truthful(s: StateView) -> bool {
    if any_failing(s.reporters) {
        s.health is Degraded
    } else {
        s.health == HealthView::Connected
    }
}

proof fn place_bounds(list: Seq<ReporterView>, id: u64, k: int)
    requires
        0 <= k <= list.len(),
    ensures
        k <= place_of(list, id, k) <= list.len(),
        place_of(list, id, k) < list.len() ==> list[place_of(list, id, k)].id == id,
    decreases list.len() - k,
{
    if k < list.len() && list[k].id != id {
        place_bounds(list, id, k + 1);
    }
}

/// A session is degraded while any of its watches is failing and connected while
/// none is, whatever the watches report.
pub proof fn health_is_truthful(s: StateView, id: u64, error: Seq<char>)
    requires
        truthful(s),
    ensures
        truthful(after_failure(s, id, error)),
        truthful(after_success(s, id)),
        truthful(after_end(s, id)),
{
    let list = s.reporters;
    place_bounds(list, id, 0);
    let i = place_of(list, id, 0);
    if i < list.len() {
        let failed = after_failure(s, id, error);
        if !list[i].failing {
            assert(failed.reporters[i].failing);
        }
        let worked = after_success(s, id);
        if list[i].failing {
            assert(any_failing(list));
        }
        let left = list.remove(i);
        if !list[i].failing {
            if any_failing(list) {
                let k = choose|k: int| 0 <= k < list.len() && (#[trigger] list[k]).failing;
                let m = if k < i {
                    k
                } else {
                    k - 1
                };
                assert(left[m] == list[k]);
            }
            if any_failing(left) {
                let k = choose|k: int| 0 <= k < left.len() && (#[trigger] left[k]).failing;
                let m = if k < i {
                    k
                } else {
                    k + 1
                };
                assert(list[m] == left[k]);
            }
        }
    }
}

/// A watch that fails again and again counts once.
pub proof fn repeated_failures_count_once(s: StateView, id: u64, first: Seq<char>, again: Seq<char>)
    ensures
        after_failure(after_failure(s, id, first), id, again) == after_failure(s, id, first),
{
    place_bounds(s.reporters, id, 0);
    let i = place_of(s.reporters, id, 0);
    if i < s.reporters.len() && !s.reporters[i].failing {
        let t = after_failure(s, id, first);
        same_place(s.reporters, t.reporters, id, 0);
        assert(t.reporters[i].failing);
    }
}

proof fn same_place(one: Seq<ReporterView>, other: Seq<ReporterView>, id: u64, k: int)
    requires
        one.len() == other.len(),
        0 <= k <= one.len(),
        forall|i: int| 0 <= i < one.len() ==> (#[trigger] one[i]).id == other[i].id,
    ensures
        place_of(one, id, k) == place_of(other, id, k),
    decreases one.len() - k,
{
    if k < one.len() {
        assert(one[k].id == other[k].id);
        if one[k].id != id {
            same_place(one, other, id, k + 1);
        }
    }
}

impl HealthState {
    pub fn new(initial: Health) -> (r: HealthState)
        ensures
            r@.health == initial@,
            r@.reporters.len() == 0,
            r@.next_id == 0,
    {
        HealthState { health: initial, reporters: Vec::new(), next_id: 0 }
    }

    /// A copy of the current health.
    pub fn health(&self) -> (r: Health)
        ensures
            r@ == self@.health,
    {
        self.health.copy()
    }

    /// A reporter for one watch, by its number. `what` is the watch's
    /// description, which is what the user sees as the reason.
    pub fn reporter(&mut self, what: &str) -> (id: u64)
        ensures
            id == old(self)@.next_id,
            final(self)@ == (StateView {
                reporters: old(self)@.reporters.push(
                    ReporterView { id, what: what@, failing: false },
                ),
                next_id: id.wrapping_add(1),
                ..old(self)@
            }),
    {
        let id: u64 = self.next_id;
        let ghost before = self.reporters@;
        self.next_id = id.wrapping_add(1);
        self.reporters.push(WatchReporter { id, what: what.to_owned(), failing: false });
        assert(reporter_views(self.reporters@) =~= reporter_views(before).push(
            ReporterView { id, what: what@, failing: false },
        ));
        id
    }

    fn find(&self, id: u64) -> (r: usize)
        ensures
            r == place_of(self@.reporters, id, 0),
            r <= self.reporters@.len(),
            self@.reporters.len() == self.reporters@.len(),
    {
        let mut i: usize = 0;
        while i < self.reporters.len()
            invariant
                i <= self.reporters.len(),
                self@.reporters.len() == self.reporters@.len(),
                place_of(self@.reporters, id, 0) == place_of(self@.reporters, id, i as int),
            decreases self.reporters.len() - i,
        {
            assert(self@.reporters[i as int] == self.reporters@[i as int]@);
            if self.reporters[i].id == id {
                return i;
            }
            i += 1;
        }
        i
    }

    fn has_failing(&self) -> (r: bool)
        ensures
            r == any_failing(self@.reporters),
    {
        let mut i: usize = 0;
        while i < self.reporters.len()
            invariant
                i <= self.reporters.len(),
                self@.reporters.len() == self.reporters@.len(),
                forall|k: int| 0 <= k < i ==> !(#[trigger] self@.reporters[k]).failing,
            decreases self.reporters.len() - i,
        {
            assert(self@.reporters[i as int] == self.reporters@[i as int]@);
            if self.reporters[i].failing {
                return true;
            }
            i += 1;
        }
        false
    }

    /// A watch works.
    pub fn healthy(&mut self, id: u64)
        ensures
            final(self)@ == after_success(old(self)@, id),
    {
        let ghost before = self@;
        let i: usize = self.find(id);
        if i < self.reporters.len() {
            assert(self@.reporters[i as int] == self.reporters@[i as int]@);
            if self.reporters[i].failing {
                let what = self.reporters[i].what.clone();
                let id: u64 = self.reporters[i].id;
                self.reporters.set(i, WatchReporter { id, what, failing: false });
                assert(self@.reporters =~= before.reporters.update(
                    i as int,
                    ReporterView { failing: false, ..before.reporters[i as int] },
                ));
                if !self.has_failing() {
                    self.health = Health::Connected;
                }
            }
        }
    }

    /// A watch failed.
    pub fn failed(&mut self, id: u64, error: &str)
        ensures
            final(self)@ == after_failure(old(self)@, id, error@),
    {
        let ghost before = self@;
        let i: usize = self.find(id);
        if i < self.reporters.len() {
            assert(self@.reporters[i as int] == self.reporters@[i as int]@);
            // A watch retries continuously, so one that is already failing is
            // the common path while a cluster is unreachable.
            if !self.reporters[i].failing {
                let what = self.reporters[i].what.clone();
                let id: u64 = self.reporters[i].id;
                self.health = Health::Degraded { reason: three(what.as_str(), ": ", error) };
                self.reporters.set(i, WatchReporter { id, what, failing: true });
                assert(self@.reporters =~= before.reporters.update(
                    i as int,
                    ReporterView { failing: true, ..before.reporters[i as int] },
                ));
            }
        }
    }

    /// A watch ended. It can be aborted mid-failure, and the session must not
    /// stay degraded because of a watch that no longer exists.
    pub fn ended(&mut self, id: u64)
        ensures
            final(self)@ == after_end(old(self)@, id),
    {
        let ghost before = self@;
        let i: usize = self.find(id);
        if i < self.reporters.len() {
            assert(self@.reporters[i as int] == self.reporters@[i as int]@);
            let gone = self.reporters.remove(i);
            assert(self@.reporters =~= before.reporters.remove(i as int));
            if gone.failing {
                if !self.has_failing() {
                    self.health = Health::Connected;
                }
            }
        }
    }
}

} // verus!
