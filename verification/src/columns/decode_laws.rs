//! When the parts of a Pod that its columns need can be read, and what is then
//! read.
use vstd::prelude::*;

use crate::base::json::JsonView;
use crate::base::list::{all_read, all_read_refused};
use crate::base::time::parsed_timestamp;
use crate::columns::pod::{
    condition_reader, list_or_empty, no_pod, pod_of, policy_reader, read_condition, read_pod_status,
    read_policy, read_spec, read_state, read_status, read_terminated, read_waiting, status_reader,
    PodModel,
};

verus! {

/// Whether a value is a record: an object, or a list that has its fields in their
/// order, those at the end left out as far as they may be.
pub open spec fn record(j: JsonView, least: int, most: int) -> bool {
    j is Object || (j matches JsonView::Array(items) && least <= items.len() <= most)
}

/// A field of a record: by its name in an object, by its place in a list.
pub open spec fn field(j: JsonView, name: Seq<char>, place: int) -> Option<JsonView> {
    match j {
        JsonView::Object(_) => j.get(name),
        JsonView::Array(items) => if 0 <= place < items.len() {
            Some(items[place])
        } else {
            None
        },
        _ => None,
    }
}

/// Whether a field is absent: not there, or null.
pub open spec fn absent(j: Option<JsonView>) -> bool {
    j is None || j == Some(JsonView::Null)
}

pub open spec fn holds_text(j: Option<JsonView>) -> bool {
    j matches Some(JsonView::Str(_))
}

pub open spec fn holds_flag(j: Option<JsonView>) -> bool {
    j matches Some(JsonView::Bool(_))
}

pub open spec fn holds_number(j: Option<JsonView>, least: int, most: int) -> bool {
    j matches Some(JsonView::Int(n)) && least <= n <= most
}

pub open spec fn holds_time(j: Option<JsonView>) -> bool {
    j matches Some(JsonView::Str(text)) && parsed_timestamp(text) is Some
}

/// Whether the end of a container is told well.
pub open spec fn good_end(j: JsonView) -> bool {
    let exit = field(j, "exitCode"@, 0);
    let signal = field(j, "signal"@, 1);
    let reason = field(j, "reason"@, 2);
    let finished = field(j, "finishedAt"@, 3);
    &&& record(j, 4, 4)
    &&& exit is None || holds_number(exit, i32::MIN as int, i32::MAX as int)
    &&& signal is None || holds_number(signal, i32::MIN as int, i32::MAX as int)
    &&& absent(reason) || holds_text(reason)
    &&& absent(finished) || holds_time(finished)
}

/// An end is read exactly if it is told well. What it does not say is zero or
/// nothing.
pub proof fn an_end_is_read(j: JsonView)
    ensures
        read_terminated(j) is Some <==> good_end(j),
        good_end(j) ==> {
            let end = read_terminated(j)->0;
            &&& end.exit_code == (match field(j, "exitCode"@, 0) {
                Some(JsonView::Int(n)) => n,
                _ => 0,
            })
            &&& end.signal == (match field(j, "signal"@, 1) {
                Some(JsonView::Int(n)) => n,
                _ => 0,
            })
            &&& end.reason == (match field(j, "reason"@, 2) {
                Some(JsonView::Str(reason)) => Some(reason),
                _ => None,
            })
            &&& end.finished_at == (match field(j, "finishedAt"@, 3) {
                Some(JsonView::Str(text)) => parsed_timestamp(text),
                _ => None,
            })
        },
{
}

/// Whether what a container waits for is told well.
pub open spec fn good_wait(j: JsonView) -> bool {
    let reason = field(j, "reason"@, 0);
    record(j, 0, 1) && (absent(reason) || holds_text(reason))
}

/// Whether the state of a container is told well.
pub open spec fn good_state(j: JsonView) -> bool {
    let running = field(j, "running"@, 0);
    let terminated = field(j, "terminated"@, 1);
    let waiting = field(j, "waiting"@, 2);
    &&& record(j, 3, 3)
    &&& absent(running) || record(running->0, 0, 0)
    &&& absent(terminated) || good_end(terminated->0)
    &&& absent(waiting) || good_wait(waiting->0)
}

/// A state is read exactly if it is told well: whether the container runs, how it
/// ended and what it waits for.
pub proof fn a_state_is_read(j: JsonView)
    ensures
        read_waiting(j) is Some <==> good_wait(j),
        good_wait(j) ==> read_waiting(j)->0 == (match field(j, "reason"@, 0) {
            Some(JsonView::Str(reason)) => Some(reason),
            _ => None,
        }),
        read_state(None) is Some,
        !(read_state(None)->0.running) && read_state(None)->0.terminated is None && read_state(
            None,
        )->0.waiting is None,
        read_state(Some(j)) is Some <==> good_state(j),
        good_state(j) ==> {
            let state = read_state(Some(j))->0;
            let terminated = field(j, "terminated"@, 1);
            let waiting = field(j, "waiting"@, 2);
            &&& state.running == !absent(field(j, "running"@, 0))
            &&& absent(terminated) ==> state.terminated is None
            &&& !absent(terminated) ==> state.terminated == read_terminated(terminated->0)
            &&& absent(waiting) ==> state.waiting is None
            &&& !absent(waiting) ==> state.waiting == read_waiting(waiting->0)
        },
{
    let terminated = field(j, "terminated"@, 1);
    let waiting = field(j, "waiting"@, 2);
    if terminated is Some {
        an_end_is_read(terminated->0);
    }
    if waiting is Some {
        let w = waiting->0;
        assert(read_waiting(w) is Some <==> good_wait(w));
    }
}

/// Whether what is said of a container is told well.
pub open spec fn good_status(j: JsonView) -> bool {
    let ready = field(j, "ready"@, 0);
    let started = field(j, "started"@, 1);
    let restarts = field(j, "restartCount"@, 2);
    let state = field(j, "state"@, 3);
    let last = field(j, "lastState"@, 4);
    &&& record(j, 0, 5)
    &&& ready is None || holds_flag(ready)
    &&& absent(started) || holds_flag(started)
    &&& restarts is None || holds_number(restarts, i64::MIN as int, i64::MAX as int)
    &&& state is None || good_state(state->0)
    &&& last is None || good_state(last->0)
}

/// What is said of a container is read exactly if it is told well.
pub proof fn a_container_is_read(j: JsonView)
    ensures
        read_status(j) is Some <==> good_status(j),
        good_status(j) ==> {
            let status = read_status(j)->0;
            &&& status.ready == (field(j, "ready"@, 0) == Some(JsonView::Bool(true)))
            &&& status.started == (match field(j, "started"@, 1) {
                Some(JsonView::Bool(started)) => Some(started),
                _ => None,
            })
            &&& status.restart_count == (match field(j, "restartCount"@, 2) {
                Some(JsonView::Int(n)) => n,
                _ => 0,
            })
            &&& Some(status.state) == read_state(field(j, "state"@, 3))
            &&& Some(status.last_state) == read_state(field(j, "lastState"@, 4))
        },
{
    let state = field(j, "state"@, 3);
    let last = field(j, "lastState"@, 4);
    if state is Some {
        a_state_is_read(state->0);
    }
    if last is Some {
        a_state_is_read(last->0);
    }
}

/// Whether a condition of a pod is told well.
pub open spec fn good_condition(j: JsonView) -> bool {
    let kind = field(j, "type"@, 0);
    let status = field(j, "status"@, 1);
    let reason = field(j, "reason"@, 2);
    &&& record(j, 0, 3)
    &&& kind is None || holds_text(kind)
    &&& status is None || holds_text(status)
    &&& absent(reason) || holds_text(reason)
}

/// Whether a container of the spec is told well.
pub open spec fn good_container(j: JsonView) -> bool {
    let policy = field(j, "restartPolicy"@, 0);
    record(j, 0, 1) && (absent(policy) || holds_text(policy))
}

/// Conditions and the restart policies of containers are read exactly if they are
/// told well.
pub proof fn conditions_and_policies_are_read(j: JsonView)
    ensures
        read_condition(j) is Some <==> good_condition(j),
        good_condition(j) ==> {
            let c = read_condition(j)->0;
            &&& c.kind == (match field(j, "type"@, 0) {
                Some(JsonView::Str(kind)) => kind,
                _ => Seq::empty(),
            })
            &&& c.status == (match field(j, "status"@, 1) {
                Some(JsonView::Str(status)) => status,
                _ => Seq::empty(),
            })
            &&& c.reason == (match field(j, "reason"@, 2) {
                Some(JsonView::Str(reason)) => Some(reason),
                _ => None,
            })
        },
        read_policy(j) is Some <==> good_container(j),
        good_container(j) ==> read_policy(j)->0 == (match field(j, "restartPolicy"@, 0) {
            Some(JsonView::Str(policy)) => Some(policy),
            _ => None,
        }),
{
}

proof fn all_are_read<A, B>(list: Seq<A>, read: spec_fn(A) -> Option<B>)
    ensures
        all_read(list, read) is Some <==> (forall|i: int|
            0 <= i < list.len() ==> read(#[trigger] list[i]) is Some),
    decreases list.len(),
{
    if list.len() > 0 {
        let front = list.drop_last();
        all_are_read(front, read);
        if all_read(list, read) is Some {
            assert forall|i: int| 0 <= i < list.len() implies read(#[trigger] list[i]) is Some by {
                if read(list[i]) is None {
                    all_read_refused(list, i, read);
                }
            }
        }
        if forall|i: int| 0 <= i < list.len() ==> read(#[trigger] list[i]) is Some {
            assert forall|i: int| 0 <= i < front.len() implies read(#[trigger] front[i]) is Some by {
                assert(front[i] == list[i]);
            }
            assert(read(list[list.len() - 1]) is Some);
        }
    }
}

/// Whether a list of a record is told well.
pub open spec fn good_list(j: Option<JsonView>, good: spec_fn(JsonView) -> bool) -> bool {
    j is None || (j matches Some(JsonView::Array(items)) && forall|i: int|
        0 <= i < items.len() ==> good(#[trigger] items[i]))
}

proof fn a_list_is_read<T>(
    j: Option<JsonView>,
    read: spec_fn(JsonView) -> Option<T>,
    good: spec_fn(JsonView) -> bool,
)
    requires
        forall|item: JsonView| #[trigger] read(item) is Some <==> good(item),
    ensures
        list_or_empty(j, read) is Some <==> good_list(j, good),
{
    if let Some(JsonView::Array(items)) = j {
        all_are_read(items, read);
        if good_list(j, good) {
            assert forall|i: int| 0 <= i < items.len() implies read(#[trigger] items[i]) is Some by {
                assert(good(items[i]));
            }
        }
        if all_read(items, read) is Some {
            assert forall|i: int| 0 <= i < items.len() implies good(#[trigger] items[i]) by {
                assert(read(items[i]) is Some);
            }
        }
    }
}

/// Whether the spec of a pod is told well.
pub open spec fn good_spec(j: JsonView) -> bool {
    let good = |c: JsonView| good_container(c);
    &&& record(j, 0, 2)
    &&& good_list(field(j, "containers"@, 0), good)
    &&& good_list(field(j, "initContainers"@, 1), good)
}

/// Whether the status of a pod is told well.
pub open spec fn good_pod_status(j: JsonView) -> bool {
    let phase = field(j, "phase"@, 0);
    let reason = field(j, "reason"@, 1);
    let status = |c: JsonView| good_status(c);
    let condition = |c: JsonView| good_condition(c);
    &&& record(j, 2, 5)
    &&& absent(phase) || holds_text(phase)
    &&& absent(reason) || holds_text(reason)
    &&& good_list(field(j, "conditions"@, 2), condition)
    &&& good_list(field(j, "containerStatuses"@, 3), status)
    &&& good_list(field(j, "initContainerStatuses"@, 4), status)
}

/// Whether a pod is told well. Neither its spec nor its status needs to be there.
pub open spec fn good_pod(j: JsonView) -> bool {
    let spec = field(j, "spec"@, 0);
    let status = field(j, "status"@, 1);
    &&& record(j, 0, 2)
    &&& spec is None || good_spec(spec->0)
    &&& status is None || good_pod_status(status->0)
}

/// A pod is read exactly if it is told well, its spec and its status each for
/// itself; of one that is not, nothing is known.
pub proof fn a_pod_is_read(j: JsonView)
    ensures
        !good_pod(j) ==> pod_of(j) == no_pod(),
        good_pod(j) ==> {
            let spec = read_spec(field(j, "spec"@, 0));
            let status = read_pod_status(field(j, "status"@, 1));
            &&& status is Some
            &&& spec matches Some((containers, init_containers)) && pod_of(j) == (PodModel {
                containers,
                init_containers,
                ..status->0
            })
        },
        read_spec(Some(j)) is Some <==> good_spec(j),
        read_pod_status(Some(j)) is Some <==> good_pod_status(j),
        read_spec(None) matches Some((containers, init)) && containers.len() == 0 && init.len() == 0,
        read_pod_status(None) == Some(no_pod()),
{
    parts_are_read(j);
    if let Some(spec) = field(j, "spec"@, 0) {
        parts_are_read(spec);
    }
    if let Some(status) = field(j, "status"@, 1) {
        parts_are_read(status);
    }
}

proof fn parts_are_read(j: JsonView)
    ensures
        read_spec(Some(j)) is Some <==> good_spec(j),
        read_pod_status(Some(j)) is Some <==> good_pod_status(j),
{
    let container = |c: JsonView| good_container(c);
    let condition = |c: JsonView| good_condition(c);
    let status = |c: JsonView| good_status(c);
    let (one, two, three) = (policy_reader(), condition_reader(), status_reader());
    assert forall|item: JsonView|
        (#[trigger] one(item) is Some <==> container(item)) && (#[trigger] two(item) is Some
            <==> condition(item)) && (#[trigger] three(item) is Some <==> status(item)) by {
        conditions_and_policies_are_read(item);
        a_container_is_read(item);
    }
    a_list_is_read(field(j, "containers"@, 0), one, container);
    a_list_is_read(field(j, "initContainers"@, 1), one, container);
    a_list_is_read(field(j, "conditions"@, 2), two, condition);
    a_list_is_read(field(j, "containerStatuses"@, 3), three, status);
    a_list_is_read(field(j, "initContainerStatuses"@, 4), three, status);
}

} // verus!
