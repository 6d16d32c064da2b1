//! Port forwarding.
//!
//! A forward is the one thing that outlives what you are looking at: switching
//! to another resource, or another cluster, must not tear it down. So forwards
//! live in the session, not in a view.
use vstd::prelude::*;
use vstd::string::*;

use crate::base::decimal::{decimal, natural};
use crate::base::list::kept;
use crate::base::text::{held, same, two};
use crate::k8s::error::Error;

verus! {

/// Identifies one forward for as long as it runs.
pub type ForwardId = u64;

/// A running forward, as the window lists it.
#[derive(Debug, PartialEq, Eq)]
pub struct Forward {
    pub id: ForwardId,
    pub namespace: String,
    pub pod: String,
    pub remote_port: u16,
    /// The port that was actually bound, which is the one to connect to.
    pub local_port: u16,
    /// How many client connections are currently tunnelled.
    pub connections: usize,
    /// Why it stopped, if it did.
    pub failure: Option<String>,
}

/// A running forward, as a mathematical object.
pub struct ForwardView {
    pub id: u64,
    pub namespace: Seq<char>,
    pub pod: Seq<char>,
    pub remote_port: u16,
    pub local_port: u16,
    pub connections: usize,
    pub failure: Option<Seq<char>>,
}

impl View for Forward {
    type V = ForwardView;

    open spec fn view(&self) -> ForwardView {
        ForwardView {
            id: self.id,
            namespace: self.namespace@,
            pod: self.pod@,
            remote_port: self.remote_port,
            local_port: self.local_port,
            connections: self.connections,
            failure: held(self.failure),
        }
    }
}

/// Why a forward could not listen on a port.
pub fn listening_failed(local_port: u16, cause: &str) -> (r: Error)
    ensures
        r matches Error::Forward { what, cause: why } && what@ == "could not listen on 127.0.0.1:"@
            + decimal(local_port as nat) && why@ == cause@,
{
    Error::Forward {
        what: two("could not listen on 127.0.0.1:", natural(local_port as u128).as_str()),
        cause: cause.to_owned(),
    }
}

/// Why the port of a listener could not be told.
pub fn address_unknown(cause: &str) -> (r: Error)
    ensures
        r matches Error::Forward { what, cause: why } && what@
            == "could not read the local address"@ && why@ == cause@,
{
    Error::Forward { what: "could not read the local address".to_owned(), cause: cause.to_owned() }
}

/// What a list of forwards stands for.
pub open spec fn forward_views(list: Seq<Forward>) -> Seq<ForwardView> {
    list.map_values(|f: Forward| f@)
}

/// What to paste into a browser.
pub open spec fn address_of(f: ForwardView) -> Seq<char> {
    "127.0.0.1:"@ + decimal(f.local_port as nat)
}

impl Forward {
    /// What to paste into a browser.
    pub fn address(&self) -> (r: String)
        ensures
            r@ == address_of(self@),
    {
        two("127.0.0.1:", natural(self.local_port as u128).as_str())
    }

    pub fn describe(&self) -> (r: String)
        ensures
            r@ == address_of(self@) + " → "@ + self@.namespace + "/"@ + self@.pod + ":"@ + decimal(
                self@.remote_port as nat,
            ),
    {
        let mut out = self.address();
        out.append(" → ");
        out.append(self.namespace.as_str());
        out.append("/");
        out.append(self.pod.as_str());
        out.append(":");
        out.append(natural(self.remote_port as u128).as_str());
        out
    }

    /// A copy.
    pub fn copy(&self) -> (r: Forward)
        ensures
            r@ == self@,
    {
        Forward {
            id: self.id,
            namespace: self.namespace.clone(),
            pod: self.pod.clone(),
            remote_port: self.remote_port,
            local_port: self.local_port,
            connections: self.connections,
            failure: self.failure.clone(),
        }
    }
}

/// Every forward a cluster session is running, in the order they were opened.
pub struct Forwards {
    running: Vec<Forward>,
    next_id: u64,
}

/// Every forward of a session, as a mathematical object.
pub struct ForwardsView {
    pub running: Seq<ForwardView>,
    pub next_id: u64,
}

impl View for Forwards {
    type V = ForwardsView;

    closed spec fn view(&self) -> ForwardsView {
        ForwardsView { running: forward_views(self.running@), next_id: self.next_id }
    }
}

/// Whether a list is in the order of the numbers, all of them below the next.
pub open spec fn by_number(f: ForwardsView) -> bool {
    &&& forall|i: int, j: int|
        0 <= i < j < f.running.len() ==> (#[trigger] f.running[i]).id < (#[trigger] f.running[j]).id
    &&& forall|i: int| 0 <= i < f.running.len() ==> (#[trigger] f.running[i]).id < f.next_id
}

/// Keeps the forwards with another number.
pub open spec fn other_than(id: u64) -> spec_fn(ForwardView) -> Option<ForwardView> {
    |f: ForwardView|
        if f.id == id {
            None
        } else {
            Some(f)
        }
}

/// Keeps the forwards to another pod.
pub open spec fn not_to(namespace: Seq<char>, pod: Seq<char>) -> spec_fn(ForwardView) -> Option<
    ForwardView,
> {
    |f: ForwardView|
        if f.namespace == namespace && f.pod == pod {
            None
        } else {
            Some(f)
        }
}

/// A forward with another connection count.
pub open spec fn recounted(id: u64, connections: usize) -> spec_fn(ForwardView) -> ForwardView {
    |f: ForwardView|
        if f.id == id {
            ForwardView { connections, ..f }
        } else {
            f
        }
}

/// Leaving some forwards out keeps the others in order.
proof fn kept_by_number(
    list: Seq<ForwardView>,
    next_id: u64,
    pick: spec_fn(ForwardView) -> Option<ForwardView>,
)
    requires
        by_number(ForwardsView { running: list, next_id }),
        forall|f: ForwardView| (#[trigger] pick(f)) is Some ==> pick(f) == Some(f),
    ensures
        by_number(ForwardsView { running: kept(list, pick), next_id }),
        forall|i: int| 0 <= i < kept(list, pick).len() ==> list.contains(#[trigger] kept(list, pick)[i]),
    decreases list.len(),
{
    if list.len() > 0 {
        let front = list.drop_last();
        assert(by_number(ForwardsView { running: front, next_id })) by {
            assert forall|i: int| 0 <= i < front.len() implies front[i] == list[i] by {}
        }
        kept_by_number(front, next_id, pick);
        let rest = kept(front, pick);
        let all = kept(list, pick);
        assert(list[list.len() - 1] == list.last());
        assert forall|i: int| 0 <= i < all.len() implies list.contains(#[trigger] all[i]) by {
            if i < rest.len() {
                assert(all[i] == rest[i]);
                let w = choose|w: int| 0 <= w < front.len() && front[w] == rest[i];
                assert(list[w] == rest[i]);
            } else {
                assert(pick(list.last()) == Some(list.last()));
            }
        }
        assert forall|i: int, j: int| 0 <= i < j < all.len() implies (#[trigger] all[i]).id < (
        #[trigger] all[j]).id by {
            assert(all[i] == rest[i]);
            if j < rest.len() {
                assert(all[j] == rest[j]);
            } else {
                assert(all[j] == list.last());
                let w = choose|w: int| 0 <= w < front.len() && front[w] == rest[i];
                assert(list[w] == rest[i]);
            }
        }
        assert forall|i: int| 0 <= i < all.len() implies (#[trigger] all[i]).id < next_id by {
            assert(list.contains(all[i]));
            let w = choose|w: int| 0 <= w < list.len() && list[w] == all[i];
            assert(list[w].id < next_id);
        }
    }
}

impl Forwards {
    /// The forwards stand in the order of their numbers.
    #[verifier::type_invariant]
    closed spec fn ordered(self) -> bool {
        by_number(self@)
    }

    pub fn new() -> (r: Forwards)
        ensures
            r@.running.len() == 0,
            r@.next_id == 0,
    {
        Forwards { running: Vec::new(), next_id: 0 }
    }

    /// Whether one more forward can be numbered.
    pub fn has_room(&self) -> (r: bool)
        ensures
            r == (self@.next_id < u64::MAX),
    {
        self.next_id < u64::MAX
    }

    /// Enters a forward whose listener has been bound to `local_port`.
    pub fn open(
        &mut self,
        namespace: &str,
        pod: &str,
        remote_port: u16,
        local_port: u16,
    ) -> (r: Forward)
        requires
            old(self)@.next_id < u64::MAX,
        ensures
            r@ == (ForwardView {
                id: old(self)@.next_id,
                namespace: namespace@,
                pod: pod@,
                remote_port,
                local_port,
                connections: 0,
                failure: None,
            }),
            final(self)@ == (ForwardsView {
                running: old(self)@.running.push(r@),
                next_id: (old(self)@.next_id + 1) as u64,
            }),
    {
        proof {
            use_type_invariant(&*self);
        }
        let id: u64 = self.next_id;
        let forward = Forward {
            id,
            namespace: namespace.to_owned(),
            pod: pod.to_owned(),
            remote_port,
            local_port,
            connections: 0,
            failure: None,
        };
        let ghost before = self@;
        let copy = forward.copy();
        let mut running: Vec<Forward> = Vec::new();
        self.next_id = id + 1;
        core::mem::swap(&mut running, &mut self.running);
        running.push(copy);
        proof {
            assert(forward_views(running@) =~= before.running.push(forward@));
        }
        self.running = running;
        forward
    }

    /// Every forward, in the order they were opened.
    pub fn list(&self) -> (r: Vec<Forward>)
        ensures
            forward_views(r@) == self@.running,
            by_number(self@),
    {
        proof {
            use_type_invariant(&*self);
        }
        let mut out: Vec<Forward> = Vec::new();
        let mut i: usize = 0;
        while i < self.running.len()
            invariant
                i <= self.running.len(),
                out@.len() == i,
                forall|k: int| 0 <= k < i ==> (#[trigger] out@[k])@ == self.running@[k]@,
            decreases self.running.len() - i,
        {
            out.push(self.running[i].copy());
            i += 1;
        }
        assert(forward_views(out@) =~= self@.running);
        out
    }

    pub fn is_empty(&self) -> (r: bool)
        ensures
            r == (self@.running.len() == 0),
    {
        self.running.len() == 0
    }

    /// Stops one forward.
    pub fn close(&mut self, id: ForwardId)
        ensures
            final(self)@ == (ForwardsView {
                running: kept(old(self)@.running, other_than(id)),
                ..old(self)@
            }),
    {
        proof {
            use_type_invariant(&*self);
            kept_by_number(self@.running, self@.next_id, other_than(id));
        }
        let ghost all = self@.running;
        let mut out: Vec<Forward> = Vec::new();
        let mut i: usize = 0;
        assert(forward_views(out@) =~= kept(all.take(0), other_than(id)));
        while i < self.running.len()
            invariant
                i <= self.running.len(),
                all == forward_views(self.running@),
                forward_views(out@) == kept(all.take(i as int), other_than(id)),
            decreases self.running.len() - i,
        {
            proof {
                crate::base::list::kept_next(all, i as int, other_than(id));
                assert(all[i as int] == self.running@[i as int]@);
            }
            if self.running[i].id != id {
                let ghost before = out@;
                let copy = self.running[i].copy();
                let ghost added = copy@;
                out.push(copy);
                assert(forward_views(out@) =~= forward_views(before).push(added));
            }
            i += 1;
        }
        assert(all.take(i as int) =~= all);
        self.running = out;
    }

    /// Stops the forwards pointing at a pod that no longer exists.
    ///
    /// A forward to a dead pod accepts connections and then fails each one,
    /// which looks like a broken service rather than a stale forward.
    pub fn close_for_pod(&mut self, namespace: &str, pod: &str)
        ensures
            final(self)@ == (ForwardsView {
                running: kept(old(self)@.running, not_to(namespace@, pod@)),
                ..old(self)@
            }),
    {
        proof {
            use_type_invariant(&*self);
            kept_by_number(self@.running, self@.next_id, not_to(namespace@, pod@));
        }
        let ghost all = self@.running;
        let mut out: Vec<Forward> = Vec::new();
        let mut i: usize = 0;
        assert(forward_views(out@) =~= kept(all.take(0), not_to(namespace@, pod@)));
        while i < self.running.len()
            invariant
                i <= self.running.len(),
                all == forward_views(self.running@),
                forward_views(out@) == kept(all.take(i as int), not_to(namespace@, pod@)),
            decreases self.running.len() - i,
        {
            proof {
                crate::base::list::kept_next(all, i as int, not_to(namespace@, pod@));
                assert(all[i as int] == self.running@[i as int]@);
            }
            let stale = same(self.running[i].namespace.as_str(), namespace) && same(
                self.running[i].pod.as_str(),
                pod,
            );
            if !stale {
                let ghost before = out@;
                let copy = self.running[i].copy();
                let ghost added = copy@;
                out.push(copy);
                assert(forward_views(out@) =~= forward_views(before).push(added));
            }
            i += 1;
        }
        assert(all.take(i as int) =~= all);
        self.running = out;
    }

    /// Enters how many connections a forward has.
    pub fn set_connections(&mut self, id: ForwardId, connections: usize)
        ensures
            final(self)@ == (ForwardsView {
                running: old(self)@.running.map_values(recounted(id, connections)),
                ..old(self)@
            }),
    {
        proof {
            use_type_invariant(&*self);
        }
        let ghost before = self@;
        let mut out: Vec<Forward> = Vec::new();
        let mut i: usize = 0;
        while i < self.running.len()
            invariant
                i <= self.running.len(),
                out@.len() == i,
                forall|k: int|
                    0 <= k < i ==> (#[trigger] out@[k])@ == recounted(id, connections)(
                        self.running@[k]@,
                    ),
            decreases self.running.len() - i,
        {
            let mut copy = self.running[i].copy();
            if copy.id == id {
                copy.connections = connections;
            }
            out.push(copy);
            i += 1;
        }
        proof {
            assert(forward_views(out@) =~= before.running.map_values(recounted(id, connections)));
            let after = ForwardsView { running: forward_views(out@), next_id: before.next_id };
            assert forall|a: int| 0 <= a < after.running.len() implies (#[trigger] after.running[a]).id
                == before.running[a].id by {}
        }
        self.running = out;
    }
}

} // verus!
