//! What kubectl prints in a Pod's `READY`, `STATUS` and `RESTARTS` columns.
//!
//! None of it can be derived from a single field: `STATUS` is assembled from
//! the phase, the deletion timestamp, the pod conditions and the state of every
//! container, with init containers taking precedence over the rest. A pod stuck
//! pulling its second init container reads `Init:1/3`, and nothing in the API
//! response says that.
use vstd::prelude::*;
use vstd::string::*;

use crate::base::decimal::{decimal, integer, natural, signed};
use crate::base::json::{model_of, models, Json, JsonView};
use crate::base::list::{all_read, all_read_next, all_read_refused};
use crate::base::meta::{MetaView, ObjectMeta};
use crate::base::text::{borrowed, held, lent, same, three, two};
use crate::base::time::{instant_of, parsed_timestamp, Timestamp};
use crate::columns::age::{age_at, format_age};

verus! {

/// The three derived columns, computed together.
#[derive(Debug, PartialEq, Eq)]
pub struct PodSummary {
    /// `2/3`: ready containers over the pod's container count.
    pub ready: String,
    /// `Running`, `Init:1/2`, `CrashLoopBackOff`, `Terminating`...
    pub status: String,
    /// `0`, or `5 (8d ago)` when a container has restarted.
    pub restarts: String,
}

/// The three derived columns, as mathematical objects.
pub struct SummaryView {
    pub ready: Seq<char>,
    pub status: Seq<char>,
    pub restarts: Seq<char>,
}

impl View for PodSummary {
    type V = SummaryView;

    open spec fn view(&self) -> SummaryView {
        SummaryView { ready: self.ready@, status: self.status@, restarts: self.restarts@ }
    }
}

// The projection of a Pod that these columns read.

/// How a container ended.
pub struct TerminatedModel {
    pub exit_code: int,
    pub signal: int,
    pub reason: Option<Seq<char>>,
    pub finished_at: Option<int>,
}

/// The state of a container: each part is there or not.
pub struct StateModel {
    pub running: bool,
    pub terminated: Option<TerminatedModel>,
    /// Why it waits, where it waits.
    pub waiting: Option<Option<Seq<char>>>,
}

/// The status of a container.
pub struct StatusModel {
    pub ready: bool,
    pub started: Option<bool>,
    pub restart_count: i64,
    pub state: StateModel,
    pub last_state: StateModel,
}

/// A condition of a pod.
pub struct ConditionModel {
    pub kind: Seq<char>,
    pub status: Seq<char>,
    pub reason: Option<Seq<char>>,
}

/// A pod, as far as its columns read it.
pub struct PodModel {
    /// The restart policy of each container.
    pub containers: Seq<Option<Seq<char>>>,
    /// The restart policy of each init container.
    pub init_containers: Seq<Option<Seq<char>>>,
    pub phase: Option<Seq<char>>,
    pub reason: Option<Seq<char>>,
    pub conditions: Seq<ConditionModel>,
    pub container_statuses: Seq<StatusModel>,
    pub init_container_statuses: Seq<StatusModel>,
}

// Reading a pod. A field of the wrong type makes the whole pod unreadable.

/// Whether a value can hold the fields of a structure: an object, or the
/// fields as a list in their order, of which the first `required` are there.
pub open spec fn shaped(j: JsonView, required: nat, total: nat) -> bool {
    match j {
        JsonView::Object(_) => true,
        JsonView::Array(items) => required <= items.len() <= total,
        _ => false,
    }
}

/// The field of that name, or at that place in a list.
pub open spec fn slot(j: JsonView, name: Seq<char>, place: int) -> Option<JsonView> {
    match j {
        JsonView::Object(_) => j.get(name),
        _ => j.nth(place),
    }
}

/// An optional text.
pub open spec fn text_or_none(j: Option<JsonView>) -> Option<Option<Seq<char>>> {
    match j {
        None => Some(None),
        Some(JsonView::Null) => Some(None),
        Some(JsonView::Str(s)) => Some(Some(s)),
        _ => None,
    }
}

/// A text, empty where it is absent.
pub open spec fn text_or_empty(j: Option<JsonView>) -> Option<Seq<char>> {
    match j {
        None => Some(Seq::empty()),
        Some(JsonView::Str(s)) => Some(s),
        _ => None,
    }
}

/// A flag, false where it is absent.
pub open spec fn flag_or_false(j: Option<JsonView>) -> Option<bool> {
    match j {
        None => Some(false),
        Some(JsonView::Bool(b)) => Some(b),
        _ => None,
    }
}

/// An optional flag.
pub open spec fn flag_or_none(j: Option<JsonView>) -> Option<Option<bool>> {
    match j {
        None => Some(None),
        Some(JsonView::Null) => Some(None),
        Some(JsonView::Bool(b)) => Some(Some(b)),
        _ => None,
    }
}

/// A number within bounds, zero where it is absent.
pub open spec fn number_or_zero(j: Option<JsonView>, least: int, most: int) -> Option<int> {
    match j {
        None => Some(0),
        Some(JsonView::Int(i)) => if least <= i <= most {
            Some(i)
        } else {
            None
        },
        _ => None,
    }
}

/// An optional time.
pub open spec fn time_or_none(j: Option<JsonView>) -> Option<Option<int>> {
    match j {
        None => Some(None),
        Some(JsonView::Null) => Some(None),
        Some(JsonView::Str(s)) => match parsed_timestamp(s) {
            Some(t) => Some(Some(t)),
            None => None,
        },
        _ => None,
    }
}

pub open spec fn read_terminated(j: JsonView) -> Option<TerminatedModel> {
    if !shaped(j, 4, 4) {
        None
    } else {
        match (
            number_or_zero(slot(j, "exitCode"@, 0), i32::MIN as int, i32::MAX as int),
            number_or_zero(slot(j, "signal"@, 1), i32::MIN as int, i32::MAX as int),
            text_or_none(slot(j, "reason"@, 2)),
            time_or_none(slot(j, "finishedAt"@, 3)),
        ) {
            (Some(exit_code), Some(signal), Some(reason), Some(finished_at)) => Some(
                TerminatedModel { exit_code, signal, reason, finished_at },
            ),
            _ => None,
        }
    }
}

pub open spec fn read_waiting(j: JsonView) -> Option<Option<Seq<char>>> {
    if !shaped(j, 0, 1) {
        None
    } else {
        text_or_none(slot(j, "reason"@, 0))
    }
}

pub open spec fn running_or_none(j: Option<JsonView>) -> Option<bool> {
    match j {
        None => Some(false),
        Some(JsonView::Null) => Some(false),
        Some(j) => if shaped(j, 0, 0) {
            Some(true)
        } else {
            None
        },
    }
}

pub open spec fn terminated_or_none(j: Option<JsonView>) -> Option<Option<TerminatedModel>> {
    match j {
        None => Some(None),
        Some(JsonView::Null) => Some(None),
        Some(j) => match read_terminated(j) {
            Some(t) => Some(Some(t)),
            None => None,
        },
    }
}

pub open spec fn waiting_or_none(j: Option<JsonView>) -> Option<Option<Option<Seq<char>>>> {
    match j {
        None => Some(None),
        Some(JsonView::Null) => Some(None),
        Some(j) => match read_waiting(j) {
            Some(w) => Some(Some(w)),
            None => None,
        },
    }
}

/// A state of which nothing is there.
pub open spec fn no_state() -> StateModel {
    StateModel { running: false, terminated: None, waiting: None }
}

pub open spec fn read_state(j: Option<JsonView>) -> Option<StateModel> {
    match j {
        None => Some(no_state()),
        Some(j) => if !shaped(j, 3, 3) {
            None
        } else {
            match (
                running_or_none(slot(j, "running"@, 0)),
                terminated_or_none(slot(j, "terminated"@, 1)),
                waiting_or_none(slot(j, "waiting"@, 2)),
            ) {
                (Some(running), Some(terminated), Some(waiting)) => Some(
                    StateModel { running, terminated, waiting },
                ),
                _ => None,
            }
        },
    }
}

pub open spec fn read_status(j: JsonView) -> Option<StatusModel> {
    if !shaped(j, 0, 5) {
        None
    } else {
        match (
            flag_or_false(slot(j, "ready"@, 0)),
            flag_or_none(slot(j, "started"@, 1)),
            number_or_zero(slot(j, "restartCount"@, 2), i64::MIN as int, i64::MAX as int),
            read_state(slot(j, "state"@, 3)),
            read_state(slot(j, "lastState"@, 4)),
        ) {
            (Some(ready), Some(started), Some(restart_count), Some(state), Some(last_state)) => Some(
                StatusModel {
                    ready,
                    started,
                    restart_count: restart_count as i64,
                    state,
                    last_state,
                },
            ),
            _ => None,
        }
    }
}

pub open spec fn read_condition(j: JsonView) -> Option<ConditionModel> {
    if !shaped(j, 0, 3) {
        None
    } else {
        match (
            text_or_empty(slot(j, "type"@, 0)),
            text_or_empty(slot(j, "status"@, 1)),
            text_or_none(slot(j, "reason"@, 2)),
        ) {
            (Some(kind), Some(status), Some(reason)) => Some(
                ConditionModel { kind, status, reason },
            ),
            _ => None,
        }
    }
}

pub open spec fn read_policy(j: JsonView) -> Option<Option<Seq<char>>> {
    if !shaped(j, 0, 1) {
        None
    } else {
        text_or_none(slot(j, "restartPolicy"@, 0))
    }
}

/// A list, empty where it is absent.
pub open spec fn list_or_empty<T>(
    j: Option<JsonView>,
    read: spec_fn(JsonView) -> Option<T>,
) -> Option<Seq<T>> {
    match j {
        None => Some(Seq::empty()),
        Some(JsonView::Array(items)) => all_read(items, read),
        _ => None,
    }
}

pub open spec fn policy_reader() -> spec_fn(JsonView) -> Option<Option<Seq<char>>> {
    |j: JsonView| read_policy(j)
}

pub open spec fn condition_reader() -> spec_fn(JsonView) -> Option<ConditionModel> {
    |j: JsonView| read_condition(j)
}

pub open spec fn status_reader() -> spec_fn(JsonView) -> Option<StatusModel> {
    |j: JsonView| read_status(j)
}

/// A pod of which nothing is there.
pub open spec fn no_pod() -> PodModel {
    PodModel {
        containers: Seq::empty(),
        init_containers: Seq::empty(),
        phase: None,
        reason: None,
        conditions: Seq::empty(),
        container_statuses: Seq::empty(),
        init_container_statuses: Seq::empty(),
    }
}

/// The containers and init containers of a pod's `spec`.
pub open spec fn read_spec(j: Option<JsonView>) -> Option<
    (Seq<Option<Seq<char>>>, Seq<Option<Seq<char>>>),
> {
    match j {
        None => Some((Seq::empty(), Seq::empty())),
        Some(j) => if !shaped(j, 0, 2) {
            None
        } else {
            match (
                list_or_empty(slot(j, "containers"@, 0), policy_reader()),
                list_or_empty(slot(j, "initContainers"@, 1), policy_reader()),
            ) {
                (Some(containers), Some(init)) => Some((containers, init)),
                _ => None,
            }
        },
    }
}

/// A pod's `status`, with nothing of its `spec`.
pub open spec fn read_pod_status(j: Option<JsonView>) -> Option<PodModel> {
    match j {
        None => Some(no_pod()),
        Some(j) => if !shaped(j, 2, 5) {
            None
        } else {
            match (
                text_or_none(slot(j, "phase"@, 0)),
                text_or_none(slot(j, "reason"@, 1)),
                list_or_empty(slot(j, "conditions"@, 2), condition_reader()),
                list_or_empty(slot(j, "containerStatuses"@, 3), status_reader()),
                list_or_empty(slot(j, "initContainerStatuses"@, 4), status_reader()),
            ) {
                (Some(phase), Some(reason), Some(conditions), Some(main), Some(init)) => Some(
                    PodModel {
                        containers: Seq::empty(),
                        init_containers: Seq::empty(),
                        phase,
                        reason,
                        conditions,
                        container_statuses: main,
                        init_container_statuses: init,
                    },
                ),
                _ => None,
            }
        },
    }
}

/// The pod that a JSON value describes. One that cannot be read has no
/// containers and no phase, which renders as `0/0` with an empty status:
/// visibly wrong, rather than a row that silently disappears.
pub open spec fn pod_of(j: JsonView) -> PodModel {
    if !shaped(j, 0, 2) {
        no_pod()
    } else {
        match (read_spec(slot(j, "spec"@, 0)), read_pod_status(slot(j, "status"@, 1))) {
            (Some((containers, init)), Some(status)) => PodModel {
                containers,
                init_containers: init,
                ..status
            },
            _ => no_pod(),
        }
    }
}

// What the columns say.

/// How kubectl names a termination: the reason if the kubelet gave one,
/// otherwise the signal or exit code that has to stand in for it.
pub open spec fn described(t: TerminatedModel) -> Seq<char> {
    match t.reason {
        Some(reason) => if reason.len() > 0 {
            reason
        } else {
            unexplained(t)
        },
        None => unexplained(t),
    }
}

pub open spec fn unexplained(t: TerminatedModel) -> Seq<char> {
    if t.signal != 0 {
        "Signal:"@ + signed(t.signal)
    } else {
        "ExitCode:"@ + signed(t.exit_code)
    }
}

/// The later of two instants that may be absent.
pub open spec fn later(current: Option<int>, candidate: Option<int>) -> Option<int> {
    match (current, candidate) {
        (Some(a), Some(b)) => if b > a {
            Some(b)
        } else {
            Some(a)
        },
        (None, b) => b,
        (a, None) => a,
    }
}

/// When the previous run of a container ended.
pub open spec fn last_end(s: StatusModel) -> Option<int> {
    match s.last_state.terminated {
        Some(t) => t.finished_at,
        None => None,
    }
}

/// A pod in a terminal phase will not change again on its own.
pub open spec fn terminal(phase: Option<Seq<char>>) -> bool {
    phase == Some("Failed"@) || phase == Some("Succeeded"@)
}

/// Whether the pod has a scheduling gate.
pub open spec fn gated(conditions: Seq<ConditionModel>) -> bool {
    exists|i: int|
        0 <= i < conditions.len() && (#[trigger] conditions[i]).kind == "PodScheduled"@
            && conditions[i].reason == Some("SchedulingGated"@)
}

/// Whether the pod is ready by its own account.
pub open spec fn ready_condition(conditions: Seq<ConditionModel>) -> bool {
    exists|i: int|
        0 <= i < conditions.len() && (#[trigger] conditions[i]).kind == "Ready"@
            && conditions[i].status == "True"@
}

/// Whether an init container is a sidecar, which runs for the pod's whole life.
pub open spec fn sidecar(pod: PodModel, i: int) -> bool {
    0 <= i < pod.init_containers.len() && pod.init_containers[i] == Some("Always"@)
}

/// Whether a container has ended well.
pub open spec fn ended_well(s: StatusModel) -> bool {
    match s.state.terminated {
        Some(t) => t.exit_code == 0,
        None => false,
    }
}

/// Whether an init container is a sidecar that has started and still runs.
pub open spec fn running_sidecar(pod: PodModel, i: int) -> bool {
    !ended_well(pod.init_container_statuses[i]) && sidecar(pod, i)
        && pod.init_container_statuses[i].started == Some(true)
}

/// Whether an init container holds up initialization.
pub open spec fn blocks(pod: PodModel, i: int) -> bool {
    !ended_well(pod.init_container_statuses[i]) && !running_sidecar(pod, i)
}

/// The first init container from `from` on that holds up initialization, or
/// their number where none does.
pub open spec fn blocker(pod: PodModel, from: int) -> int
    decreases pod.init_container_statuses.len() - from,
{
    if from >= pod.init_container_statuses.len() {
        pod.init_container_statuses.len() as int
    } else if blocks(pod, from) {
        from
    } else {
        blocker(pod, from + 1)
    }
}

/// Whether the pod is still initializing.
pub open spec fn initializing(pod: PodModel) -> bool {
    blocker(pod, 0) < pod.init_container_statuses.len()
}

/// How many init containers count: those up to and with the one that blocks.
pub open spec fn reached(pod: PodModel) -> int {
    if initializing(pod) {
        blocker(pod, 0) + 1
    } else {
        pod.init_container_statuses.len() as int
    }
}

/// The restarts of the first `n` init containers, or of the sidecars among them.
pub open spec fn init_restarts(pod: PodModel, n: int, sidecars: bool) -> i64
    decreases n,
{
    if n <= 0 {
        0
    } else {
        let before = init_restarts(pod, n - 1, sidecars);
        if !sidecars || sidecar(pod, n - 1) {
            before.wrapping_add(pod.init_container_statuses[n - 1].restart_count)
        } else {
            before
        }
    }
}

/// When one of the first `n` init containers last ended, or one of the
/// sidecars among them.
pub open spec fn init_last(pod: PodModel, n: int, sidecars: bool) -> Option<int>
    decreases n,
{
    if n <= 0 {
        None
    } else {
        let before = init_last(pod, n - 1, sidecars);
        if !sidecars || sidecar(pod, n - 1) {
            later(before, last_end(pod.init_container_statuses[n - 1]))
        } else {
            before
        }
    }
}

/// How many of the first `n` init containers are running sidecars that are
/// ready.
pub open spec fn ready_sidecars(pod: PodModel, n: int) -> nat
    decreases n,
{
    if n <= 0 {
        0
    } else if running_sidecar(pod, n - 1) && pod.init_container_statuses[n - 1].ready {
        ready_sidecars(pod, n - 1) + 1
    } else {
        ready_sidecars(pod, n - 1)
    }
}

/// What a blocking init container makes of the status.
pub open spec fn init_reason(pod: PodModel, i: int) -> Seq<char> {
    let state = pod.init_container_statuses[i].state;
    match state.terminated {
        Some(t) => "Init:"@ + described(t),
        None => match state.waiting {
            Some(Some(reason)) => if reason.len() > 0 && reason != "PodInitializing"@ {
                "Init:"@ + reason
            } else {
                init_progress(pod, i)
            },
            _ => init_progress(pod, i),
        },
    }
}

pub open spec fn init_progress(pod: PodModel, i: int) -> Seq<char> {
    "Init:"@ + decimal(i as nat) + "/"@ + decimal(pod.init_containers.len())
}

/// What a container says of its own state, where it says anything.
pub open spec fn own_reason(s: StatusModel) -> Option<Seq<char>> {
    let ended = match s.state.terminated {
        Some(t) => Some(described(t)),
        None => None,
    };
    match s.state.waiting {
        Some(Some(reason)) => if reason.len() > 0 {
            Some(reason)
        } else {
            ended
        },
        _ => ended,
    }
}

/// Whether a container runs and is ready.
pub open spec fn serves(s: StatusModel) -> bool {
    own_reason(s) is None && s.state.running && s.ready
}

/// What the containers from `k` on make of the status: the first one with a
/// reason of its own decides.
pub open spec fn main_reason(list: Seq<StatusModel>, k: int, start: Seq<char>) -> Seq<char>
    decreases list.len() - k,
{
    if k >= list.len() {
        start
    } else {
        match own_reason(list[k]) {
            Some(reason) => reason,
            None => main_reason(list, k + 1, start),
        }
    }
}

/// How many of the containers from `k` on run and are ready.
pub open spec fn main_ready(list: Seq<StatusModel>, k: int) -> nat
    decreases list.len() - k,
{
    if k >= list.len() {
        0
    } else if serves(list[k]) {
        main_ready(list, k + 1) + 1
    } else {
        main_ready(list, k + 1)
    }
}

/// `start` and the restarts of the containers from `k` on.
pub open spec fn main_restarts(list: Seq<StatusModel>, k: int, start: i64) -> i64
    decreases list.len() - k,
{
    if k >= list.len() {
        start
    } else {
        main_restarts(list, k + 1, start).wrapping_add(list[k].restart_count)
    }
}

/// The latest of `start` and of the ends of the containers from `k` on.
pub open spec fn main_last(list: Seq<StatusModel>, k: int, start: Option<int>) -> Option<int>
    decreases list.len() - k,
{
    if k >= list.len() {
        start
    } else {
        later(main_last(list, k + 1, start), last_end(list[k]))
    }
}

/// The status before any container is looked at.
pub open spec fn first_reason(pod: PodModel) -> Seq<char> {
    if gated(pod.conditions) {
        "SchedulingGated"@
    } else {
        match (pod.reason, pod.phase) {
            (Some(reason), _) => reason,
            (None, Some(phase)) => phase,
            (None, None) => Seq::empty(),
        }
    }
}

/// Whether the ordinary containers decide: the pod is past initialization, or
/// has finished for good.
pub open spec fn settled(pod: PodModel) -> bool {
    !initializing(pod) || terminal(pod.phase)
}

/// The status as the containers make it.
pub open spec fn container_reason(pod: PodModel) -> Seq<char> {
    let after_init = if initializing(pod) {
        init_reason(pod, blocker(pod, 0))
    } else {
        first_reason(pod)
    };
    if settled(pod) {
        let list = pod.container_statuses;
        let reason = main_reason(list, 0, after_init);
        if reason == "Completed"@ && main_ready(list, 0) > 0 {
            if ready_condition(pod.conditions) {
                "Running"@
            } else {
                "NotReady"@
            }
        } else {
            reason
        }
    } else {
        after_init
    }
}

/// The `STATUS` column. Deletion wins over everything: a terminating pod still
/// reports that it runs.
pub open spec fn pod_status(pod: PodModel, deleted: bool) -> Seq<char> {
    if deleted && pod.reason == Some("NodeLost"@) {
        "Unknown"@
    } else if deleted && !terminal(pod.phase) {
        "Terminating"@
    } else {
        container_reason(pod)
    }
}

/// The `READY` column.
pub open spec fn pod_ready(pod: PodModel) -> Seq<char> {
    let ready = ready_sidecars(pod, reached(pod)) + (if settled(pod) {
        main_ready(pod.container_statuses, 0)
    } else {
        0
    });
    decimal(ready) + "/"@ + decimal(pod.containers.len())
}

/// A restart count and how long ago the last restart was.
pub open spec fn restarts_text(restarts: int, last: Option<int>, now: int) -> Seq<char> {
    match last {
        Some(last) => if restarts != 0 {
            signed(restarts) + " ("@ + (age_at(now, last) + " ago)"@)
        } else {
            signed(restarts)
        },
        None => signed(restarts),
    }
}

/// The `RESTARTS` column. Once the pod is settled the restarts of its init
/// containers no longer count, those of its sidecars do.
pub open spec fn pod_restarts(pod: PodModel, now: int) -> Seq<char> {
    if settled(pod) {
        restarts_text(
            main_restarts(
                pod.container_statuses,
                0,
                init_restarts(pod, reached(pod), true),
            ) as int,
            main_last(pod.container_statuses, 0, init_last(pod, reached(pod), true)),
            now,
        )
    } else {
        restarts_text(
            init_restarts(pod, reached(pod), false) as int,
            init_last(pod, reached(pod), false),
            now,
        )
    }
}

/// The three columns of a pod.
pub open spec fn pod_summary(meta: MetaView, data: JsonView, now: int) -> SummaryView {
    let pod = pod_of(data);
    SummaryView {
        ready: pod_ready(pod),
        status: pod_status(pod, meta.deletion_timestamp is Some),
        restarts: pod_restarts(pod, now),
    }
}

/// Deletion wins over what the containers say, unless the pod has finished for
/// good: such a pod keeps its final status.
pub proof fn deletion_wins(meta: MetaView, data: JsonView, now: int)
    requires
        meta.deletion_timestamp is Some,
    ensures
        pod_of(data).reason == Some("NodeLost"@) ==> pod_summary(meta, data, now).status
            == "Unknown"@,
        pod_of(data).reason != Some("NodeLost"@) && !terminal(pod_of(data).phase) ==> pod_summary(
            meta,
            data,
            now,
        ).status == "Terminating"@,
        pod_of(data).reason != Some("NodeLost"@) && terminal(pod_of(data).phase) ==> pod_summary(
            meta,
            data,
            now,
        ).status == pod_summary(
            MetaView { deletion_timestamp: None, ..meta },
            data,
            now,
        ).status,
{
}

/// A container that has exited does not finish a pod while another one serves.
pub proof fn a_serving_pod_is_not_completed(meta: MetaView, data: JsonView, now: int)
    requires
        settled(pod_of(data)),
        main_ready(pod_of(data).container_statuses, 0) > 0,
    ensures
        pod_summary(meta, data, now).status != "Completed"@,
{
    reveal_strlit("Completed");
    reveal_strlit("Running");
    reveal_strlit("NotReady");
    reveal_strlit("Unknown");
    reveal_strlit("Terminating");
    assert("Completed"@.len() == 9 && "Running"@.len() == 7 && "NotReady"@.len() == 8
        && "Unknown"@.len() == 7 && "Terminating"@.len() == 11);
}

/// While a pod is initializing, its init containers take over the status.
pub proof fn init_containers_take_over(meta: MetaView, data: JsonView, now: int)
    requires
        meta.deletion_timestamp is None,
        !settled(pod_of(data)),
    ensures
        "Init:"@.is_prefix_of(pod_summary(meta, data, now).status),
{
    let pod = pod_of(data);
    let i = blocker(pod, 0);
    assert(init_progress(pod, i) =~= "Init:"@ + (decimal(i as nat) + "/"@ + decimal(
        pod.init_containers.len(),
    )));
}

// The projection, read.

struct Terminated {
    exit_code: i32,
    signal: i32,
    reason: Option<String>,
    finished_at: Option<Timestamp>,
}

struct Waiting {
    reason: Option<String>,
}

struct ContainerState {
    running: bool,
    terminated: Option<Terminated>,
    waiting: Option<Waiting>,
}

struct ContainerStatusView {
    ready: bool,
    /// Only meaningful for init containers, where it separates a sidecar that
    /// has started from one that has not.
    started: Option<bool>,
    restart_count: i64,
    state: ContainerState,
    last_state: ContainerState,
}

struct Condition {
    kind: String,
    status: String,
    reason: Option<String>,
}

struct PodView {
    containers: Vec<Option<String>>,
    init_containers: Vec<Option<String>>,
    phase: Option<String>,
    reason: Option<String>,
    conditions: Vec<Condition>,
    container_statuses: Vec<ContainerStatusView>,
    init_container_statuses: Vec<ContainerStatusView>,
}

impl View for Terminated {
    type V = TerminatedModel;

    closed spec fn view(&self) -> TerminatedModel {
        TerminatedModel {
            exit_code: self.exit_code as int,
            signal: self.signal as int,
            reason: held(self.reason),
            finished_at: instant_of(self.finished_at),
        }
    }
}

impl View for ContainerState {
    type V = StateModel;

    closed spec fn view(&self) -> StateModel {
        StateModel {
            running: self.running,
            terminated: match self.terminated {
                Some(t) => Some(t@),
                None => None,
            },
            waiting: match self.waiting {
                Some(w) => Some(held(w.reason)),
                None => None,
            },
        }
    }
}

impl View for ContainerStatusView {
    type V = StatusModel;

    closed spec fn view(&self) -> StatusModel {
        StatusModel {
            ready: self.ready,
            started: self.started,
            restart_count: self.restart_count,
            state: self.state@,
            last_state: self.last_state@,
        }
    }
}

impl View for Condition {
    type V = ConditionModel;

    closed spec fn view(&self) -> ConditionModel {
        ConditionModel { kind: self.kind@, status: self.status@, reason: held(self.reason) }
    }
}

spec fn policies(list: Seq<Option<String>>) -> Seq<Option<Seq<char>>> {
    list.map_values(|s: Option<String>| held(s))
}

spec fn statuses(list: Seq<ContainerStatusView>) -> Seq<StatusModel> {
    list.map_values(|s: ContainerStatusView| s@)
}

spec fn conditions(list: Seq<Condition>) -> Seq<ConditionModel> {
    list.map_values(|c: Condition| c@)
}

impl View for PodView {
    type V = PodModel;

    closed spec fn view(&self) -> PodModel {
        PodModel {
            containers: policies(self.containers@),
            init_containers: policies(self.init_containers@),
            phase: held(self.phase),
            reason: held(self.reason),
            conditions: conditions(self.conditions@),
            container_statuses: statuses(self.container_statuses@),
            init_container_statuses: statuses(self.init_container_statuses@),
        }
    }
}

fn is_shaped(j: &Json, required: usize, total: usize) -> (r: bool)
    ensures
        r == shaped(j@, required as nat, total as nat),
{
    match j {
        Json::Object(_) => true,
        Json::Array(items) => required <= items.len() && items.len() <= total,
        _ => false,
    }
}

fn take_slot<'a>(j: &'a Json, name: &str, place: usize) -> (r: Option<&'a Json>)
    ensures
        model_of(r) == slot(j@, name@, place as int),
{
    match j {
        Json::Object(_) => j.get(name),
        _ => j.nth(place),
    }
}

fn take_text(j: Option<&Json>) -> (r: Option<Option<String>>)
    ensures
        (match r {
            Some(s) => Some(held(s)),
            None => None,
        }) == text_or_none(model_of(j)),
{
    match j {
        None => Some(None),
        Some(Json::Null) => Some(None),
        Some(Json::Str(s)) => Some(Some(s.clone())),
        _ => None,
    }
}

fn take_string(j: Option<&Json>) -> (r: Option<String>)
    ensures
        held(r) == text_or_empty(model_of(j)),
{
    match j {
        None => Some(String::new()),
        Some(Json::Str(s)) => Some(s.clone()),
        _ => None,
    }
}

fn take_flag(j: Option<&Json>) -> (r: Option<bool>)
    ensures
        r == flag_or_false(model_of(j)),
{
    match j {
        None => Some(false),
        Some(Json::Bool(b)) => Some(*b),
        _ => None,
    }
}

fn take_optional_flag(j: Option<&Json>) -> (r: Option<Option<bool>>)
    ensures
        r == flag_or_none(model_of(j)),
{
    match j {
        None => Some(None),
        Some(Json::Null) => Some(None),
        Some(Json::Bool(b)) => Some(Some(*b)),
        _ => None,
    }
}

fn take_number(j: Option<&Json>, least: i64, most: i64) -> (r: Option<i64>)
    requires
        least <= 0 <= most,
    ensures
        match r {
            Some(i) => least <= i <= most && number_or_zero(model_of(j), least as int, most as int)
                == Some(i as int),
            None => number_or_zero(model_of(j), least as int, most as int) is None,
        },
{
    match j {
        None => Some(0),
        Some(Json::Int(i)) => if least <= *i && *i <= most {
            Some(*i)
        } else {
            None
        },
        _ => None,
    }
}

fn take_time(j: Option<&Json>) -> (r: Option<Option<Timestamp>>)
    ensures
        (match r {
            Some(t) => Some(instant_of(t)),
            None => None,
        }) == time_or_none(model_of(j)),
{
    match j {
        None => Some(None),
        Some(Json::Null) => Some(None),
        Some(Json::Str(s)) => match Timestamp::parse(s.as_str()) {
            Some(t) => Some(Some(t)),
            None => None,
        },
        _ => None,
    }
}

fn take_terminated(j: &Json) -> (r: Option<Terminated>)
    ensures
        (match r {
            Some(t) => Some(t@),
            None => None,
        }) == read_terminated(j@),
{
    if !is_shaped(j, 4, 4) {
        return None;
    }
    let exit_code = take_number(take_slot(j, "exitCode", 0), i32::MIN as i64, i32::MAX as i64);
    let signal = take_number(take_slot(j, "signal", 1), i32::MIN as i64, i32::MAX as i64);
    let reason = take_text(take_slot(j, "reason", 2));
    let finished_at = take_time(take_slot(j, "finishedAt", 3));
    match (exit_code, signal, reason, finished_at) {
        (Some(exit_code), Some(signal), Some(reason), Some(finished_at)) => Some(
            Terminated { exit_code: exit_code as i32, signal: signal as i32, reason, finished_at },
        ),
        _ => None,
    }
}

fn take_state(j: Option<&Json>) -> (r: Option<ContainerState>)
    ensures
        (match r {
            Some(s) => Some(s@),
            None => None,
        }) == read_state(model_of(j)),
{
    let j = match j {
        None => return Some(ContainerState { running: false, terminated: None, waiting: None }),
        Some(j) => j,
    };
    if !is_shaped(j, 3, 3) {
        return None;
    }
    let running: Option<bool> = match take_slot(j, "running", 0) {
        None => Some(false),
        Some(Json::Null) => Some(false),
        Some(inner) => if is_shaped(inner, 0, 0) {
            Some(true)
        } else {
            None
        },
    };
    let terminated: Option<Option<Terminated>> = match take_slot(j, "terminated", 1) {
        None => Some(None),
        Some(Json::Null) => Some(None),
        Some(inner) => match take_terminated(inner) {
            Some(t) => Some(Some(t)),
            None => None,
        },
    };
    let waiting: Option<Option<Waiting>> = match take_slot(j, "waiting", 2) {
        None => Some(None),
        Some(Json::Null) => Some(None),
        Some(inner) => if is_shaped(inner, 0, 1) {
            match take_text(take_slot(inner, "reason", 0)) {
                Some(reason) => Some(Some(Waiting { reason })),
                None => None,
            }
        } else {
            None
        },
    };
    match (running, terminated, waiting) {
        (Some(running), Some(terminated), Some(waiting)) => Some(
            ContainerState { running, terminated, waiting },
        ),
        _ => None,
    }
}

fn take_status(j: &Json) -> (r: Option<ContainerStatusView>)
    ensures
        (match r {
            Some(s) => Some(s@),
            None => None,
        }) == read_status(j@),
{
    if !is_shaped(j, 0, 5) {
        return None;
    }
    let ready = take_flag(take_slot(j, "ready", 0));
    let started = take_optional_flag(take_slot(j, "started", 1));
    let restart_count = take_number(take_slot(j, "restartCount", 2), i64::MIN, i64::MAX);
    let state = take_state(take_slot(j, "state", 3));
    let last_state = take_state(take_slot(j, "lastState", 4));
    match (ready, started, restart_count, state, last_state) {
        (Some(ready), Some(started), Some(restart_count), Some(state), Some(last_state)) => Some(
            ContainerStatusView { ready, started, restart_count, state, last_state },
        ),
        _ => None,
    }
}

fn take_condition(j: &Json) -> (r: Option<Condition>)
    ensures
        (match r {
            Some(c) => Some(c@),
            None => None,
        }) == read_condition(j@),
{
    if !is_shaped(j, 0, 3) {
        return None;
    }
    let kind = take_string(take_slot(j, "type", 0));
    let status = take_string(take_slot(j, "status", 1));
    let reason = take_text(take_slot(j, "reason", 2));
    match (kind, status, reason) {
        (Some(kind), Some(status), Some(reason)) => Some(Condition { kind, status, reason }),
        _ => None,
    }
}

fn take_policies(j: Option<&Json>) -> (r: Option<Vec<Option<String>>>)
    ensures
        (match r {
            Some(v) => Some(policies(v@)),
            None => None,
        }) == list_or_empty(model_of(j), policy_reader()),
{
    let whole = match j {
        None => {
            let none: Vec<Option<String>> = Vec::new();
            assert(policies(none@) =~= Seq::empty());
            return Some(none);
        },
        Some(whole) => whole,
    };
    let items = match whole.as_array() {
        Some(items) => items,
        None => return None,
    };
    let ghost all = models(items@);
    let mut out: Vec<Option<String>> = Vec::new();
    let mut i: usize = 0;
    assert(policies(out@) =~= Seq::empty());
    while i < items.len()
        invariant
            i <= items.len(),
            all == models(items@),
            j == Some(whole),
            whole@.items() == Some(all),
            all_read(all.take(i as int), policy_reader()) == Some(policies(out@)),
        decreases items.len() - i,
    {
        proof {
            all_read_next(all, i as int, policy_reader());
            assert(all[i as int] == items@[i as int]@);
        }
        let item = &items[i];
        let read = if is_shaped(item, 0, 1) {
            take_text(take_slot(item, "restartPolicy", 0))
        } else {
            None
        };
        match read {
            Some(policy) => {
                let ghost before = out@;
                out.push(policy);
                assert(policies(out@) =~= policies(before).push(held(policy)));
            },
            None => {
                proof {
                    all_read_refused(all, i as int, policy_reader());
                }
                return None;
            },
        }
        i += 1;
    }
    assert(all.take(i as int) =~= all);
    Some(out)
}

fn take_statuses(j: Option<&Json>) -> (r: Option<Vec<ContainerStatusView>>)
    ensures
        (match r {
            Some(v) => Some(statuses(v@)),
            None => None,
        }) == list_or_empty(model_of(j), status_reader()),
{
    let whole = match j {
        None => {
            let none: Vec<ContainerStatusView> = Vec::new();
            assert(statuses(none@) =~= Seq::empty());
            return Some(none);
        },
        Some(whole) => whole,
    };
    let items = match whole.as_array() {
        Some(items) => items,
        None => return None,
    };
    let ghost all = models(items@);
    let mut out: Vec<ContainerStatusView> = Vec::new();
    let mut i: usize = 0;
    assert(statuses(out@) =~= Seq::empty());
    while i < items.len()
        invariant
            i <= items.len(),
            all == models(items@),
            j == Some(whole),
            whole@.items() == Some(all),
            all_read(all.take(i as int), status_reader()) == Some(statuses(out@)),
        decreases items.len() - i,
    {
        proof {
            all_read_next(all, i as int, status_reader());
            assert(all[i as int] == items@[i as int]@);
        }
        match take_status(&items[i]) {
            Some(status) => {
                let ghost before = out@;
                let ghost added = status@;
                out.push(status);
                assert(statuses(out@) =~= statuses(before).push(added));
            },
            None => {
                proof {
                    all_read_refused(all, i as int, status_reader());
                }
                return None;
            },
        }
        i += 1;
    }
    assert(all.take(i as int) =~= all);
    Some(out)
}

fn take_conditions(j: Option<&Json>) -> (r: Option<Vec<Condition>>)
    ensures
        (match r {
            Some(v) => Some(conditions(v@)),
            None => None,
        }) == list_or_empty(model_of(j), condition_reader()),
{
    let whole = match j {
        None => {
            let none: Vec<Condition> = Vec::new();
            assert(conditions(none@) =~= Seq::empty());
            return Some(none);
        },
        Some(whole) => whole,
    };
    let items = match whole.as_array() {
        Some(items) => items,
        None => return None,
    };
    let ghost all = models(items@);
    let mut out: Vec<Condition> = Vec::new();
    let mut i: usize = 0;
    assert(conditions(out@) =~= Seq::empty());
    while i < items.len()
        invariant
            i <= items.len(),
            all == models(items@),
            j == Some(whole),
            whole@.items() == Some(all),
            all_read(all.take(i as int), condition_reader()) == Some(conditions(out@)),
        decreases items.len() - i,
    {
        proof {
            all_read_next(all, i as int, condition_reader());
            assert(all[i as int] == items@[i as int]@);
        }
        match take_condition(&items[i]) {
            Some(condition) => {
                let ghost before = out@;
                let ghost added = condition@;
                out.push(condition);
                assert(conditions(out@) =~= conditions(before).push(added));
            },
            None => {
                proof {
                    all_read_refused(all, i as int, condition_reader());
                }
                return None;
            },
        }
        i += 1;
    }
    assert(all.take(i as int) =~= all);
    Some(out)
}

fn nothing() -> (r: PodView)
    ensures
        r@ == no_pod(),
{
    let r = PodView {
        containers: Vec::new(),
        init_containers: Vec::new(),
        phase: None,
        reason: None,
        conditions: Vec::new(),
        container_statuses: Vec::new(),
        init_container_statuses: Vec::new(),
    };
    assert(r@.containers =~= no_pod().containers);
    assert(r@.init_containers =~= no_pod().init_containers);
    assert(r@.conditions =~= no_pod().conditions);
    assert(r@.container_statuses =~= no_pod().container_statuses);
    assert(r@.init_container_statuses =~= no_pod().init_container_statuses);
    r
}

fn take_spec(j: Option<&Json>) -> (r: Option<(Vec<Option<String>>, Vec<Option<String>>)>)
    ensures
        (match r {
            Some((a, b)) => Some((policies(a@), policies(b@))),
            None => None,
        }) == read_spec(model_of(j)),
{
    let j = match j {
        None => {
            let a: Vec<Option<String>> = Vec::new();
            let b: Vec<Option<String>> = Vec::new();
            assert(policies(a@) =~= Seq::empty());
            assert(policies(b@) =~= Seq::empty());
            return Some((a, b));
        },
        Some(j) => j,
    };
    if !is_shaped(j, 0, 2) {
        return None;
    }
    let containers = take_policies(take_slot(j, "containers", 0));
    let init = take_policies(take_slot(j, "initContainers", 1));
    match (containers, init) {
        (Some(containers), Some(init)) => Some((containers, init)),
        _ => None,
    }
}

fn take_pod_status(j: Option<&Json>) -> (r: Option<PodView>)
    ensures
        (match r {
            Some(p) => Some(p@),
            None => None,
        }) == read_pod_status(model_of(j)),
{
    let j = match j {
        None => return Some(nothing()),
        Some(j) => j,
    };
    if !is_shaped(j, 2, 5) {
        return None;
    }
    let phase = take_text(take_slot(j, "phase", 0));
    let reason = take_text(take_slot(j, "reason", 1));
    let read_conditions = take_conditions(take_slot(j, "conditions", 2));
    let main = take_statuses(take_slot(j, "containerStatuses", 3));
    let init = take_statuses(take_slot(j, "initContainerStatuses", 4));
    match (phase, reason, read_conditions, main, init) {
        (Some(phase), Some(reason), Some(read_conditions), Some(main), Some(init)) => {
            let r = PodView {
                containers: Vec::new(),
                init_containers: Vec::new(),
                phase,
                reason,
                conditions: read_conditions,
                container_statuses: main,
                init_container_statuses: init,
            };
            assert(r@.containers =~= Seq::empty());
            assert(r@.init_containers =~= Seq::empty());
            Some(r)
        },
        _ => None,
    }
}

/// Reads what the columns need of a pod.
fn view(data: &Json) -> (r: PodView)
    ensures
        r@ == pod_of(data@),
{
    if !is_shaped(data, 0, 2) {
        return nothing();
    }
    match (take_spec(take_slot(data, "spec", 0)), take_pod_status(take_slot(data, "status", 1))) {
        (Some((containers, init)), Some(status)) => {
            let r = PodView {
                containers,
                init_containers: init,
                phase: status.phase,
                reason: status.reason,
                conditions: status.conditions,
                container_statuses: status.container_statuses,
                init_container_statuses: status.init_container_statuses,
            };
            r
        },
        _ => nothing(),
    }
}

// The columns, computed.

impl Terminated {
    /// How kubectl names this termination.
    fn describe(&self) -> (out: String)
        ensures
            out@ == described(self@),
    {
        if let Some(reason) = &self.reason {
            if !reason.as_str().is_empty() {
                return reason.clone();
            }
        }
        if self.signal != 0 {
            two("Signal:", integer(self.signal as i64).as_str())
        } else {
            two("ExitCode:", integer(self.exit_code as i64).as_str())
        }
    }
}

impl ContainerStatusView {
    fn last_terminated_at(&self) -> (r: Option<Timestamp>)
        ensures
            instant_of(r) == last_end(self@),
    {
        match &self.last_state.terminated {
            Some(t) => t.finished_at,
            None => None,
        }
    }

    fn has_ended_well(&self) -> (r: bool)
        ensures
            r == ended_well(self@),
    {
        match &self.state.terminated {
            Some(t) => t.exit_code == 0,
            None => false,
        }
    }

    /// What the container says of its own state, where it says anything.
    fn reason(&self) -> (r: Option<String>)
        ensures
            held(r) == own_reason(self@),
    {
        if let Some(waiting) = &self.state.waiting {
            if let Some(reason) = &waiting.reason {
                if !reason.as_str().is_empty() {
                    return Some(reason.clone());
                }
            }
        }
        match &self.state.terminated {
            Some(t) => Some(t.describe()),
            None => None,
        }
    }
}

fn merge_later(current: Option<Timestamp>, candidate: Option<Timestamp>) -> (r: Option<Timestamp>)
    ensures
        instant_of(r) == later(instant_of(current), instant_of(candidate)),
{
    match (current, candidate) {
        (Some(a), Some(b)) => if b.after(&a) {
            Some(b)
        } else {
            Some(a)
        },
        (None, b) => b,
        (a, None) => a,
    }
}

/// A pod that has reached a terminal phase will not change again on its own.
pub fn is_terminal(phase: Option<&str>) -> (r: bool)
    ensures
        r == terminal(lent(phase)),
{
    match phase {
        Some(phase) => same(phase, "Failed") || same(phase, "Succeeded"),
        None => false,
    }
}

fn is_text(s: &Option<String>, wanted: &str) -> (r: bool)
    ensures
        r == (held(*s) == Some(wanted@)),
{
    match s {
        Some(s) => same(s.as_str(), wanted),
        None => false,
    }
}

fn has_ready_condition(list: &Vec<Condition>) -> (r: bool)
    ensures
        r == ready_condition(conditions(list@)),
{
    let mut i: usize = 0;
    while i < list.len()
        invariant
            i <= list.len(),
            forall|k: int|
                0 <= k < i ==> !((#[trigger] conditions(list@)[k]).kind == "Ready"@ && conditions(
                    list@,
                )[k].status == "True"@),
        decreases list.len() - i,
    {
        assert(conditions(list@)[i as int] == list@[i as int]@);
        if same(list[i].kind.as_str(), "Ready") && same(list[i].status.as_str(), "True") {
            return true;
        }
        i += 1;
    }
    false
}

fn is_gated(list: &Vec<Condition>) -> (r: bool)
    ensures
        r == gated(conditions(list@)),
{
    let mut i: usize = 0;
    while i < list.len()
        invariant
            i <= list.len(),
            forall|k: int|
                0 <= k < i ==> !((#[trigger] conditions(list@)[k]).kind == "PodScheduled"@
                    && conditions(list@)[k].reason == Some("SchedulingGated"@)),
        decreases list.len() - i,
    {
        assert(conditions(list@)[i as int] == list@[i as int]@);
        if same(list[i].kind.as_str(), "PodScheduled") && is_text(
            &list[i].reason,
            "SchedulingGated",
        ) {
            return true;
        }
        i += 1;
    }
    false
}

/// `5 (8d ago)`: the count plus how long ago the most recent one was.
pub fn format_restarts(restarts: i64, last: Option<Timestamp>, now: &Timestamp) -> (out: String)
    ensures
        out@ == restarts_text(restarts as int, instant_of(last), now@),
{
    match last {
        Some(last) => if restarts != 0 {
            let ago = two(format_age(&last, now).as_str(), " ago)");
            three(integer(restarts).as_str(), " (", ago.as_str())
        } else {
            integer(restarts)
        },
        None => integer(restarts),
    }
}

/// The phase the API server reported, before any of the corrections.
pub fn phase(data: &Json) -> (r: Option<String>)
    ensures
        held(r) == pod_of(data@).phase,
{
    view(data).phase
}

impl PodView {
    fn is_sidecar(&self, index: usize) -> (r: bool)
        ensures
            r == sidecar(self@, index as int),
    {
        if index < self.init_containers.len() {
            assert(self@.init_containers[index as int] == held(
                self.init_containers@[index as int],
            ));
            is_text(&self.init_containers[index], "Always")
        } else {
            false
        }
    }

    fn first_status(&self) -> (out: String)
        ensures
            out@ == first_reason(self@),
    {
        if is_gated(&self.conditions) {
            return "SchedulingGated".to_owned();
        }
        match (&self.reason, &self.phase) {
            (Some(reason), _) => reason.clone(),
            (None, Some(phase)) => phase.clone(),
            (None, None) => String::new(),
        }
    }

    /// What a blocking init container makes of the status.
    fn init_status(&self, index: usize) -> (out: String)
        requires
            index < self.init_container_statuses@.len(),
        ensures
            out@ == init_reason(self@, index as int),
    {
        let container = &self.init_container_statuses[index];
        assert(self@.init_container_statuses[index as int] == container@);
        if let Some(t) = &container.state.terminated {
            return two("Init:", t.describe().as_str());
        }
        if let Some(waiting) = &container.state.waiting {
            if let Some(reason) = &waiting.reason {
                if !reason.as_str().is_empty() && !same(reason.as_str(), "PodInitializing") {
                    return two("Init:", reason.as_str());
                }
            }
        }
        let place = three("Init:", natural(index as u128).as_str(), "/");
        assert(self@.init_containers.len() == self.init_containers.len());
        two(place.as_str(), natural(self.init_containers.len() as u128).as_str())
    }
}

/// What walking the init containers leaves behind.
struct InitPass {
    restarts: i64,
    last: Option<Timestamp>,
    sidecar_restarts: i64,
    sidecar_last: Option<Timestamp>,
    ready: u128,
    blocked: Option<usize>,
}

/// A search that starts at the blocker ends there.
proof fn blocker_bounds(pod: PodModel, from: int)
    requires
        0 <= from <= pod.init_container_statuses.len(),
    ensures
        from <= blocker(pod, from) <= pod.init_container_statuses.len(),
    decreases pod.init_container_statuses.len() - from,
{
    if from < pod.init_container_statuses.len() && !blocks(pod, from) {
        blocker_bounds(pod, from + 1);
    }
}

/// Walks the init containers up to the one that blocks.
fn walk_init(pod: &PodView) -> (r: InitPass)
    ensures
        r.restarts == init_restarts(pod@, reached(pod@), false),
        r.sidecar_restarts == init_restarts(pod@, reached(pod@), true),
        instant_of(r.last) == init_last(pod@, reached(pod@), false),
        instant_of(r.sidecar_last) == init_last(pod@, reached(pod@), true),
        r.ready == ready_sidecars(pod@, reached(pod@)),
        r.ready <= usize::MAX,
        match r.blocked {
            Some(i) => i == blocker(pod@, 0) && i < pod.init_container_statuses@.len(),
            None => blocker(pod@, 0) == pod.init_container_statuses@.len(),
        },
{
    let mut restarts: i64 = 0;
    let mut last: Option<Timestamp> = None;
    let mut sidecar_restarts: i64 = 0;
    let mut sidecar_last: Option<Timestamp> = None;
    let mut ready: u128 = 0;
    let mut index: usize = 0;
    while index < pod.init_container_statuses.len()
        invariant
            index <= pod.init_container_statuses.len(),
            restarts == init_restarts(pod@, index as int, false),
            sidecar_restarts == init_restarts(pod@, index as int, true),
            instant_of(last) == init_last(pod@, index as int, false),
            instant_of(sidecar_last) == init_last(pod@, index as int, true),
            ready == ready_sidecars(pod@, index as int),
            ready <= index,
            blocker(pod@, 0) == blocker(pod@, index as int),
        decreases pod.init_container_statuses.len() - index,
    {
        let container = &pod.init_container_statuses[index];
        assert(pod@.init_container_statuses[index as int] == container@);
        assert(pod@.init_container_statuses.len() == pod.init_container_statuses@.len());
        let is_sidecar = pod.is_sidecar(index);
        restarts = restarts.wrapping_add(container.restart_count);
        last = merge_later(last, container.last_terminated_at());
        if is_sidecar {
            sidecar_restarts = sidecar_restarts.wrapping_add(container.restart_count);
            sidecar_last = merge_later(sidecar_last, container.last_terminated_at());
        }
        if container.has_ended_well() {
            // Finished successfully: this one is done, look at the next.
        } else if is_sidecar && container.started == Some(true) {
            // A running sidecar does not hold up initialization, and it counts
            // towards READY like an ordinary container.
            if container.ready {
                ready = ready + 1;
            }
        } else {
            return InitPass {
                restarts,
                last,
                sidecar_restarts,
                sidecar_last,
                ready,
                blocked: Some(index),
            };
        }
        index += 1;
    }
    InitPass { restarts, last, sidecar_restarts, sidecar_last, ready, blocked: None }
}

/// Computes all three columns for one pod.
///
/// `data` is the object minus `apiVersion`, `kind` and `metadata`, that is,
/// `{"spec": ..., "status": ...}`.
pub fn summarize(metadata: &ObjectMeta, data: &Json, now: &Timestamp) -> (r: PodSummary)
    ensures
        r@ == pod_summary(metadata@, data@, now@),
{
    let pod = view(data);
    let init = walk_init(&pod);
    proof {
        blocker_bounds(pod@, 0);
    }
    let mut reason = match init.blocked {
        Some(index) => pod.init_status(index),
        None => pod.first_status(),
    };
    let mut restarts: i64 = init.restarts;
    let mut last = init.last;
    let mut ready: u128 = init.ready;

    // Once the pod is past initialization, or has finished for good, the
    // ordinary containers decide what it says.
    if init.blocked.is_none() || is_terminal(borrowed(&pod.phase)) {
        restarts = init.sidecar_restarts;
        last = init.sidecar_last;
        let mut has_running = false;
        let ghost after_init = reason@;
        let ghost list = pod@.container_statuses;

        // Backwards, so that the first container's state wins when several
        // disagree.
        let mut left: usize = pod.container_statuses.len();
        while left > 0
            invariant
                left <= pod.container_statuses.len(),
                list == statuses(pod.container_statuses@),
                reason@ == main_reason(list, left as int, after_init),
                restarts == main_restarts(list, left as int, init.sidecar_restarts),
                instant_of(last) == main_last(list, left as int, instant_of(init.sidecar_last)),
                ready == init.ready + main_ready(list, left as int),
                init.ready <= usize::MAX,
                ready <= init.ready + (pod.container_statuses.len() - left),
                has_running == (main_ready(list, left as int) > 0),
            decreases left,
        {
            left -= 1;
            let container = &pod.container_statuses[left];
            assert(list[left as int] == container@);
            restarts = restarts.wrapping_add(container.restart_count);
            last = merge_later(last, container.last_terminated_at());
            match container.reason() {
                Some(own) => {
                    reason = own;
                },
                None => {
                    if container.state.running && container.ready {
                        has_running = true;
                        ready = ready + 1;
                    }
                },
            }
        }

        // A pod whose last container exited while others still run is not
        // Completed; whether it is Running depends on its Ready condition.
        if same(reason.as_str(), "Completed") && has_running {
            reason = if has_ready_condition(&pod.conditions) {
                "Running".to_owned()
            } else {
                "NotReady".to_owned()
            };
        }
    }
    assert(reason@ == container_reason(pod@));

    // Deletion wins over everything: a terminating pod still reports Running.
    if metadata.deletion_timestamp.is_some() {
        if is_text(&pod.reason, "NodeLost") {
            reason = "Unknown".to_owned();
        } else if !is_terminal(borrowed(&pod.phase)) {
            reason = "Terminating".to_owned();
        }
    }
    assert(pod@.containers.len() == pod.containers.len());
    PodSummary {
        ready: three(
            natural(ready).as_str(),
            "/",
            natural(pod.containers.len() as u128).as_str(),
        ),
        status: reason,
        restarts: format_restarts(restarts, last, now),
    }
}

} // verus!
