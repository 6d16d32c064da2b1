//! What a Pod's columns promise, from what its containers report to what is
//! printed.
use vstd::prelude::*;

use crate::base::decimal::{decimal, signed};
use crate::base::json::{part, JsonView};
use crate::base::list::all_read;
use crate::base::meta::MetaView;
use crate::base::time::parsed_timestamp;
use crate::columns::age::age_at;
use crate::columns::pod::{
    blocker, condition_reader, first_reason, gated, init_last, init_restarts, main_last, main_ready,
    main_reason, main_restarts, pod_of, pod_summary, policy_reader, reached, read_pod_status,
    read_spec, ready_condition, ready_sidecars, serves, status_reader, ConditionModel, PodModel,
    StateModel, StatusModel, TerminatedModel,
};

verus! {

/// Whether an init container runs along with the pod for its whole life.
pub open spec fn runs_along(pod: PodModel, i: int) -> bool {
    0 <= i < pod.init_containers.len() && pod.init_containers[i] == Some("Always"@)
}

/// Whether an init container lets the pod go on: it has ended with exit code
/// zero, or it runs along and has started.
pub open spec fn lets_go_on(pod: PodModel, i: int) -> bool {
    ||| pod.init_container_statuses[i].state.terminated matches Some(t) && t.exit_code == 0
    ||| runs_along(pod, i) && pod.init_container_statuses[i].started == Some(true)
}

/// Whether every init container lets the pod go on.
pub open spec fn past_initialization(pod: PodModel) -> bool {
    forall|i: int| 0 <= i < pod.init_container_statuses.len() ==> #[trigger] lets_go_on(pod, i)
}

/// Whether `k` is the first init container that holds the pod up, of a pod that
/// has not finished for good.
pub open spec fn held_up_by(pod: PodModel, k: int) -> bool {
    &&& 0 <= k < pod.init_container_statuses.len()
    &&& !lets_go_on(pod, k)
    &&& forall|i: int| 0 <= i < k ==> #[trigger] lets_go_on(pod, i)
    &&& pod.phase != Some("Failed"@)
    &&& pod.phase != Some("Succeeded"@)
}

/// The sum of some numbers.
pub open spec fn sum(numbers: Seq<int>) -> int {
    numbers.fold_left(0, |sum: int, n: int| sum + n)
}

/// How often each container restarted.
pub open spec fn counts(list: Seq<StatusModel>) -> Seq<int> {
    list.map_values(|s: StatusModel| s.restart_count as int)
}

/// How often each init container that runs along restarted.
pub open spec fn counts_along(pod: PodModel) -> Seq<int> {
    Seq::new(
        pod.init_container_statuses.len(),
        |i: int|
            if runs_along(pod, i) {
                pod.init_container_statuses[i].restart_count as int
            } else {
                0
            },
    )
}

/// Whether the previous run of a container ended at an instant.
pub open spec fn ran_until(s: StatusModel, at: int) -> bool {
    s.last_state.terminated matches Some(t) && t.finished_at == Some(at)
}

/// Whether the previous run of one of the containers that count ended at an
/// instant.
pub open spec fn some_ran_until(pod: PodModel, at: int) -> bool {
    ||| exists|i: int|
        0 <= i < pod.container_statuses.len() && ran_until(#[trigger] pod.container_statuses[i], at)
    ||| exists|i: int|
        0 <= i < pod.init_container_statuses.len() && runs_along(pod, i) && ran_until(
            #[trigger] pod.init_container_statuses[i],
            at,
        )
}

proof fn sum_next(numbers: Seq<int>, n: int)
    ensures
        sum(numbers.push(n)) == sum(numbers) + n,
{
    assert(numbers.push(n).drop_last() =~= numbers);
}

proof fn sum_of_both(a: Seq<int>, b: Seq<int>)
    ensures
        sum(a + b) == sum(a) + sum(b),
    decreases b.len(),
{
    if b.len() == 0 {
        assert(a + b =~= a);
    } else {
        sum_of_both(a, b.drop_last());
        assert((a + b).drop_last() =~= a + b.drop_last());
    }
}

proof fn sum_first(numbers: Seq<int>)
    requires
        numbers.len() > 0,
    ensures
        sum(numbers) == numbers[0] + sum(numbers.skip(1)),
{
    let first = seq![numbers[0]];
    sum_of_both(first, numbers.skip(1));
    assert(first + numbers.skip(1) =~= numbers);
    assert(first =~= Seq::<int>::empty().push(numbers[0]));
    sum_next(Seq::empty(), numbers[0]);
}

/// Adding up with a counter that wraps around is adding up, but for whole turns.
proof fn main_turns(list: Seq<StatusModel>, k: int, start: i64) -> (turns: int)
    requires
        0 <= k <= list.len(),
    ensures
        main_restarts(list, k, start) == start + sum(counts(list).skip(k)) + turns
            * 0x1_0000_0000_0000_0000,
    decreases list.len() - k,
{
    if k >= list.len() {
        assert(counts(list).skip(k) =~= Seq::empty());
        0
    } else {
        let more = main_turns(list, k + 1, start);
        sum_first(counts(list).skip(k));
        assert(counts(list).skip(k).skip(1) =~= counts(list).skip(k + 1));
        let before = main_restarts(list, k + 1, start);
        let exact = before + list[k].restart_count;
        if exact > i64::MAX {
            more - 1
        } else if exact < i64::MIN {
            more + 1
        } else {
            more
        }
    }
}

proof fn init_turns(pod: PodModel, n: int) -> (turns: (int, int))
    requires
        0 <= n <= pod.init_container_statuses.len(),
    ensures
        init_restarts(pod, n, true) == sum(counts_along(pod).take(n)) + turns.0
            * 0x1_0000_0000_0000_0000,
        init_restarts(pod, n, false) == sum(counts(pod.init_container_statuses).take(n)) + turns.1
            * 0x1_0000_0000_0000_0000,
    decreases n,
{
    let along = counts_along(pod);
    let all = counts(pod.init_container_statuses);
    if n <= 0 {
        assert(along.take(0) =~= Seq::empty());
        assert(all.take(0) =~= Seq::empty());
        (0, 0)
    } else {
        let more = init_turns(pod, n - 1);
        assert(along.take(n) =~= along.take(n - 1).push(along[n - 1]));
        assert(all.take(n) =~= all.take(n - 1).push(all[n - 1]));
        sum_next(along.take(n - 1), along[n - 1]);
        sum_next(all.take(n - 1), all[n - 1]);
        let one = init_restarts(pod, n - 1, true) + along[n - 1];
        let two = init_restarts(pod, n - 1, false) + all[n - 1];
        (
            if one > i64::MAX {
                more.0 - 1
            } else if one < i64::MIN {
                more.0 + 1
            } else {
                more.0
            },
            if two > i64::MAX {
                more.1 - 1
            } else if two < i64::MIN {
                more.1 + 1
            } else {
                more.1
            },
        )
    }
}

proof fn nothing_blocks(pod: PodModel, from: int)
    requires
        past_initialization(pod),
        0 <= from <= pod.init_container_statuses.len(),
    ensures
        blocker(pod, from) == pod.init_container_statuses.len(),
    decreases pod.init_container_statuses.len() - from,
{
    if from < pod.init_container_statuses.len() {
        assert(lets_go_on(pod, from));
        nothing_blocks(pod, from + 1);
    }
}

proof fn first_blocks(pod: PodModel, from: int, k: int)
    requires
        held_up_by(pod, k),
        0 <= from <= k,
    ensures
        blocker(pod, from) == k,
    decreases k - from,
{
    if from < k {
        assert(lets_go_on(pod, from));
        first_blocks(pod, from + 1, k);
    }
}

/// The latest of the ends of the containers from `k` on, and of `start`.
proof fn main_latest(list: Seq<StatusModel>, k: int, start: Option<int>)
    requires
        0 <= k <= list.len(),
    ensures
        main_last(list, k, start) matches Some(at) ==> start == Some(at) || exists|i: int|
            k <= i < list.len() && ran_until(#[trigger] list[i], at),
        forall|i: int, x: int|
            k <= i < list.len() && #[trigger] ran_until(list[i], x) ==> (main_last(list, k, start)
                matches Some(at) && x <= at),
        start is Some ==> (main_last(list, k, start) matches Some(at) && start->0 <= at),
    decreases list.len() - k,
{
    if k < list.len() {
        main_latest(list, k + 1, start);
        assert forall|i: int, x: int| k <= i < list.len() && #[trigger] ran_until(list[i], x) implies (
        main_last(list, k, start) matches Some(at) && x <= at) by {
            if i > k {
                assert(ran_until(list[i], x));
            }
        }
        if let Some(at) = main_last(list, k, start) {
            if main_last(list, k + 1, start) == Some(at) {
            } else {
                assert(ran_until(list[k], at));
            }
        }
    }
}

proof fn init_latest(pod: PodModel, n: int, along: bool)
    requires
        0 <= n <= pod.init_container_statuses.len(),
    ensures
        init_last(pod, n, along) matches Some(at) ==> exists|i: int|
            0 <= i < n && (!along || runs_along(pod, i)) && ran_until(
                #[trigger] pod.init_container_statuses[i],
                at,
            ),
        forall|i: int, x: int|
            0 <= i < n && (!along || runs_along(pod, i)) && #[trigger] ran_until(
                pod.init_container_statuses[i],
                x,
            ) ==> (init_last(pod, n, along) matches Some(at) && x <= at),
    decreases n,
{
    if n > 0 {
        init_latest(pod, n - 1, along);
        if let Some(at) = init_last(pod, n, along) {
            if init_last(pod, n - 1, along) != Some(at) {
                assert(ran_until(pod.init_container_statuses[n - 1], at));
            }
        }
    }
}

/// Past initialization, `RESTARTS` is the sum over all containers and over all
/// init containers that run along: every restart counts once, whichever
/// container it was and wherever that is listed. Behind it stands how long ago
/// the latest of their previous runs ended, where one did and there were
/// restarts.
pub proof fn every_restart_counts(meta: MetaView, data: JsonView, now: int, latest: int)
    requires
        past_initialization(pod_of(data)),
    ensures
        ({
            let pod = pod_of(data);
            let total = sum(counts(pod.container_statuses)) + sum(counts_along(pod));
            let printed = pod_summary(meta, data, now).restarts;
            i64::MIN <= total <= i64::MAX ==> {
                &&& (total == 0 || forall|at: int| !#[trigger] some_ran_until(pod, at)) ==> printed
                    == signed(total)
                &&& (total != 0 && some_ran_until(pod, latest) && forall|at: int| #[trigger]
                    some_ran_until(pod, at) ==> at <= latest) ==> printed == signed(total) + " ("@
                    + (age_at(now, latest) + " ago)"@)
            }
        }),
{
    let pod = pod_of(data);
    let list = pod.container_statuses;
    let n = pod.init_container_statuses.len() as int;
    let total = sum(counts(list)) + sum(counts_along(pod));
    nothing_blocks(pod, 0);
    let a = init_turns(pod, n);
    assert(counts_along(pod).take(n) =~= counts_along(pod));
    let start = init_restarts(pod, n, true);
    let b = main_turns(list, 0, start);
    assert(counts(list).skip(0) =~= counts(list));
    let before = init_last(pod, n, true);
    init_latest(pod, n, true);
    main_latest(list, 0, before);
    let last = main_last(list, 0, before);
    assert forall|at: int| last == Some(at) implies some_ran_until(pod, at) by {}
    if last is Some {
        assert(some_ran_until(pod, last->0));
    }
    if some_ran_until(pod, latest) {
        if exists|i: int| 0 <= i < list.len() && ran_until(#[trigger] list[i], latest) {
            let i = choose|i: int| 0 <= i < list.len() && ran_until(#[trigger] list[i], latest);
            assert(ran_until(list[i], latest));
        } else {
            let i = choose|i: int|
                0 <= i < n && runs_along(pod, i) && ran_until(
                    #[trigger] pod.init_container_statuses[i],
                    latest,
                );
            assert(ran_until(pod.init_container_statuses[i], latest));
        }
        assert(last is Some && latest <= last->0);
    }
}

/// While an init container holds the pod up, `RESTARTS` is the sum over the init
/// containers up to and with that one, and no other container counts.
pub proof fn restarts_of_initialization_count(
    meta: MetaView,
    data: JsonView,
    now: int,
    k: int,
)
    requires
        held_up_by(pod_of(data), k),
    ensures
        ({
            let total = sum(counts(pod_of(data).init_container_statuses).take(k + 1));
            let printed = pod_summary(meta, data, now).restarts;
            i64::MIN <= total <= i64::MAX ==> signed(total).is_prefix_of(printed) && (printed
                == signed(total) || printed[signed(total).len() as int] == ' ')
        }),
{
    let pod = pod_of(data);
    first_blocks(pod, 0, k);
    let turns = init_turns(pod, k + 1);
    reveal_strlit(" (");
    let total = sum(counts(pod.init_container_statuses).take(k + 1));
    if i64::MIN <= total <= i64::MAX {
        let last = init_last(pod, k + 1, false);
        if last is Some && total != 0 {
            let printed = signed(total) + " ("@ + (age_at(now, last->0) + " ago)"@);
            assert(signed(total).is_prefix_of(printed));
            assert(printed[signed(total).len() as int] == ' ');
        }
    }
}

/// Whether a container runs and is ready, and nothing else is said of it.
pub open spec fn serving(s: StatusModel) -> bool {
    &&& s.ready
    &&& s.state.running
    &&& s.state.terminated is None
    &&& s.state.waiting matches Some(Some(reason)) ==> reason.len() == 0
}

/// The init containers among the first `n` that run along, have started, have
/// not ended well and are ready.
pub open spec fn serving_along(pod: PodModel, n: nat) -> Seq<int> {
    Seq::new(n, |i: int| i).filter(
        |i: int|
            runs_along(pod, i) && pod.init_container_statuses[i].started == Some(true)
                && pod.init_container_statuses[i].ready && !(
            pod.init_container_statuses[i].state.terminated matches Some(t) && t.exit_code == 0),
    )
}

proof fn main_serving(list: Seq<StatusModel>, k: int)
    requires
        0 <= k <= list.len(),
    ensures
        main_ready(list, k) == list.skip(k).filter(|s: StatusModel| serving(s)).len(),
    decreases list.len() - k,
{
    let pick = |s: StatusModel| serving(s);
    reveal(Seq::filter);
    if k >= list.len() {
        assert(list.skip(k) =~= Seq::empty());
    } else {
        main_serving(list, k + 1);
        let one = seq![list[k]];
        Seq::filter_distributes_over_add(one, list.skip(k + 1), pick);
        assert(one + list.skip(k + 1) =~= list.skip(k));
        assert(one.drop_last() =~= Seq::empty());
        assert(one.drop_last().filter(pick).len() == 0);
        assert(serves(list[k]) == serving(list[k]));
    }
}

proof fn along_serving(pod: PodModel, n: int)
    requires
        0 <= n <= pod.init_container_statuses.len(),
    ensures
        ready_sidecars(pod, n) == serving_along(pod, n as nat).len(),
    decreases n,
{
    reveal(Seq::filter);
    if n > 0 {
        along_serving(pod, n - 1);
        let all = Seq::new(n as nat, |i: int| i);
        assert(all.drop_last() =~= Seq::new((n - 1) as nat, |i: int| i));
        assert(all.last() == n - 1);
    }
}

/// `READY` is how many containers run and are ready, those that run along with
/// them, out of how many containers the pod has. While an init container holds
/// the pod up only the ones that run along count.
pub proof fn ready_counts_what_serves(meta: MetaView, data: JsonView, now: int, k: int)
    ensures
        ({
            let pod = pod_of(data);
            let along = serving_along(pod, pod.init_container_statuses.len()).len();
            let main = pod.container_statuses.filter(|s: StatusModel| serving(s)).len();
            let out_of = "/"@ + decimal(pod.containers.len());
            let printed = pod_summary(meta, data, now).ready;
            &&& past_initialization(pod) ==> printed == decimal(along + main) + out_of
            &&& held_up_by(pod, k) ==> printed == decimal(
                serving_along(pod, (k + 1) as nat).len(),
            ) + out_of
        }),
{
    let pod = pod_of(data);
    let list = pod.container_statuses;
    let out_of = "/"@ + decimal(pod.containers.len());
    main_serving(list, 0);
    assert(list.skip(0) =~= list);
    along_serving(pod, pod.init_container_statuses.len() as int);
    let printed = pod_summary(meta, data, now).ready;
    if past_initialization(pod) {
        nothing_blocks(pod, 0);
        let n = ready_sidecars(pod, reached(pod)) + main_ready(list, 0);
        assert(printed =~= decimal(n) + out_of);
    }
    if held_up_by(pod, k) {
        first_blocks(pod, 0, k);
        along_serving(pod, k + 1);
        assert(printed =~= decimal(ready_sidecars(pod, k + 1)) + out_of);
    }
}

/// Whether the end of a container is called this: by the reason it was given,
/// else by the signal that ended it, else by its exit code.
pub open spec fn end_is_called(s: StatusModel, name: Seq<char>) -> bool {
    s.state.terminated matches Some(t) && match t.reason {
        Some(reason) if reason.len() > 0 => name == reason,
        _ => name == (if t.signal != 0 {
            "Signal:"@ + signed(t.signal)
        } else {
            "ExitCode:"@ + signed(t.exit_code)
        }),
    }
}

/// Whether a container says why it waits.
pub open spec fn waits_for(s: StatusModel, reason: Seq<char>) -> bool {
    s.state.waiting == Some(Some(reason)) && reason.len() > 0
}

/// Whether a container has nothing to say: it neither says why it waits nor has
/// ended.
pub open spec fn says_nothing(s: StatusModel) -> bool {
    s.state.terminated is None && forall|reason: Seq<char>| !#[trigger] waits_for(s, reason)
}

/// Whether a container's own word is this: why it waits, else how it ended.
pub open spec fn own_word(s: StatusModel, word: Seq<char>) -> bool {
    ||| waits_for(s, word)
    ||| (forall|reason: Seq<char>| !#[trigger] waits_for(s, reason)) && end_is_called(s, word)
}

/// Whether one of the conditions has this type, with this status and this reason
/// where they are given.
pub open spec fn has_condition(
    list: Seq<ConditionModel>,
    kind: Seq<char>,
    status: Option<Seq<char>>,
    reason: Option<Seq<char>>,
) -> bool {
    exists|i: int|
        0 <= i < list.len() && (#[trigger] list[i]).kind == kind && (status is None
            || list[i].status == status->0) && (reason is None || list[i].reason == reason)
}

proof fn first_word(list: Seq<StatusModel>, from: int, k: int, start: Seq<char>, word: Seq<char>)
    requires
        0 <= from <= k <= list.len(),
        forall|i: int| from <= i < k ==> says_nothing(#[trigger] list[i]),
        k < list.len() ==> own_word(list[k], word),
    ensures
        main_reason(list, from, start) == (if k < list.len() {
            word
        } else {
            start
        }),
    decreases k - from,
{
    if from < k {
        let s = list[from];
        assert(says_nothing(s));
        if let Some(Some(reason)) = s.state.waiting {
            assert(!waits_for(s, reason));
        }
        first_word(list, from + 1, k, start, word);
    } else if k < list.len() {
        let s = list[k];
        if let Some(Some(reason)) = s.state.waiting {
            if reason.len() > 0 {
                assert(waits_for(s, reason));
            }
        }
    }
}

proof fn some_serve(list: Seq<StatusModel>, k: int)
    requires
        0 <= k <= list.len(),
    ensures
        main_ready(list, k) > 0 <==> exists|i: int| k <= i < list.len() && serving(#[trigger] list[i]),
    decreases list.len() - k,
{
    if k < list.len() {
        some_serve(list, k + 1);
        assert(serves(list[k]) == serving(list[k]));
    }
}

/// Past initialization, the first container with a word of its own decides
/// `STATUS`, and where none has one the pod does: by its scheduling gate, else
/// by its reason, else by its phase. `Completed` is not said of a pod of which a
/// container still serves: that one is running or, without its Ready condition,
/// not ready. A deleted pod is terminating, unless it had finished.
pub proof fn the_first_word_is_the_status(
    meta: MetaView,
    data: JsonView,
    now: int,
    k: int,
    word: Seq<char>,
)
    requires
        past_initialization(pod_of(data)),
        0 <= k <= pod_of(data).container_statuses.len(),
        forall|i: int| 0 <= i < k ==> says_nothing(#[trigger] pod_of(data).container_statuses[i]),
        k < pod_of(data).container_statuses.len() ==> own_word(
            pod_of(data).container_statuses[k],
            word,
        ),
        k == pod_of(data).container_statuses.len() ==> ({
            let pod = pod_of(data);
            if has_condition(
                pod.conditions,
                "PodScheduled"@,
                None,
                Some("SchedulingGated"@),
            ) {
                word == "SchedulingGated"@
            } else if pod.reason is Some {
                pod.reason == Some(word)
            } else if pod.phase is Some {
                pod.phase == Some(word)
            } else {
                word.len() == 0
            }
        }),
    ensures
        ({
            let pod = pod_of(data);
            let some = exists|i: int|
                0 <= i < pod.container_statuses.len() && serving(#[trigger] pod.container_statuses[i]);
            let printed = pod_summary(meta, data, now).status;
            let finished = pod.phase == Some("Failed"@) || pod.phase == Some("Succeeded"@);
            let lost = pod.reason == Some("NodeLost"@);
            if meta.deletion_timestamp is Some && lost {
                printed == "Unknown"@
            } else if meta.deletion_timestamp is Some && !finished {
                printed == "Terminating"@
            } else if word != "Completed"@ || !some {
                printed == word
            } else if has_condition(pod.conditions, "Ready"@, Some("True"@), None) {
                printed == "Running"@
            } else {
                printed == "NotReady"@
            }
        }),
{
    let pod = pod_of(data);
    let list = pod.container_statuses;
    nothing_blocks(pod, 0);
    some_serve(list, 0);
    let start = first_reason(pod);
    first_word(list, 0, k, start, word);
    if has_condition(pod.conditions, "PodScheduled"@, None, Some("SchedulingGated"@)) {
        let i = choose|i: int|
            0 <= i < pod.conditions.len() && (#[trigger] pod.conditions[i]).kind
                == "PodScheduled"@ && pod.conditions[i].reason == Some("SchedulingGated"@);
        assert(gated(pod.conditions));
    }
    if ready_condition(pod.conditions) {
        let i = choose|i: int|
            0 <= i < pod.conditions.len() && (#[trigger] pod.conditions[i]).kind == "Ready"@
                && pod.conditions[i].status == "True"@;
        assert(has_condition(pod.conditions, "Ready"@, Some("True"@), None));
    }
    if k == list.len() && word.len() == 0 {
        assert(word =~= Seq::empty());
    }
}

/// While an init container holds the pod up, that one decides `STATUS`: how it
/// ended, else why it waits unless it only waits for its turn, else how far
/// initialization is.
pub proof fn the_held_up_pod_says_where(meta: MetaView, data: JsonView, now: int, k: int)
    requires
        held_up_by(pod_of(data), k),
        meta.deletion_timestamp is None,
    ensures
        ({
            let pod = pod_of(data);
            let s = pod.init_container_statuses[k];
            let printed = pod_summary(meta, data, now).status;
            let progress = "Init:"@ + decimal(k as nat) + "/"@ + decimal(pod.init_containers.len());
            &&& forall|word: Seq<char>| #[trigger]
                end_is_called(s, word) ==> printed == "Init:"@ + word
            &&& s.state.terminated is None ==> forall|word: Seq<char>| #[trigger]
                waits_for(s, word) && word != "PodInitializing"@ ==> printed == "Init:"@ + word
            &&& s.state.terminated is None && (forall|word: Seq<char>| #[trigger]
                waits_for(s, word) ==> word == "PodInitializing"@) ==> printed == progress
        }),
{
    let pod = pod_of(data);
    first_blocks(pod, 0, k);
    let s = pod.init_container_statuses[k];
    if let Some(Some(reason)) = s.state.waiting {
        if reason.len() > 0 {
            assert(waits_for(s, reason));
        }
    }
}

proof fn all_read_at<A, B>(list: Seq<A>, read: spec_fn(A) -> Option<B>, i: int)
    requires
        all_read(list, read) is Some,
    ensures
        all_read(list, read)->0.len() == list.len(),
        0 <= i < list.len() ==> read(list[i]) == Some(all_read(list, read)->0[i]),
    decreases list.len(),
{
    if list.len() > 0 {
        all_read_at(list.drop_last(), read, i);
    }
}

/// Whether a value is an object.
pub open spec fn is_object(j: Option<JsonView>) -> bool {
    j matches Some(JsonView::Object(_))
}

/// Whether the end of a container is read from an object.
pub open spec fn end_read_from(t: TerminatedModel, j: JsonView) -> bool {
    &&& j.get("exitCode"@) matches Some(JsonView::Int(n)) ==> t.exit_code == n
    &&& j.get("exitCode"@) is None ==> t.exit_code == 0
    &&& j.get("signal"@) matches Some(JsonView::Int(n)) ==> t.signal == n
    &&& j.get("signal"@) is None ==> t.signal == 0
    &&& j.get("reason"@) matches Some(JsonView::Str(reason)) ==> t.reason == Some(reason)
    &&& j.get("reason"@) is None ==> t.reason is None
    &&& j.get("finishedAt"@) matches Some(JsonView::Str(text)) ==> t.finished_at
        == parsed_timestamp(text)
    &&& j.get("finishedAt"@) is None ==> t.finished_at is None
}

/// Whether the state of a container is read from an object.
pub open spec fn state_read_from(s: StateModel, j: JsonView) -> bool {
    &&& is_object(j.get("running"@)) ==> s.running
    &&& j.get("running"@) is None ==> !s.running
    &&& is_object(j.get("terminated"@)) ==> s.terminated is Some && end_read_from(
        s.terminated->0,
        j.get("terminated"@)->0,
    )
    &&& j.get("terminated"@) is None ==> s.terminated is None
    &&& is_object(j.get("waiting"@)) ==> s.waiting is Some
    &&& is_object(j.get("waiting"@)) ==> (part(j.get("waiting"@), "reason"@) matches Some(
        JsonView::Str(reason),
    ) ==> s.waiting == Some(Some(reason)))
    &&& is_object(j.get("waiting"@)) && part(j.get("waiting"@), "reason"@) is None ==> s.waiting
        == Some(None::<Seq<char>>)
    &&& j.get("waiting"@) is None ==> s.waiting is None
}

/// Whether the status of a container is read from an object.
pub open spec fn status_read_from(s: StatusModel, j: JsonView) -> bool {
    &&& s.ready == (j.get("ready"@) == Some(JsonView::Bool(true)))
    &&& j.get("started"@) matches Some(JsonView::Bool(started)) ==> s.started == Some(started)
    &&& j.get("started"@) is None ==> s.started is None
    &&& j.get("restartCount"@) matches Some(JsonView::Int(n)) ==> s.restart_count == n
    &&& j.get("restartCount"@) is None ==> s.restart_count == 0
    &&& is_object(j.get("state"@)) ==> state_read_from(s.state, j.get("state"@)->0)
    &&& is_object(j.get("lastState"@)) ==> state_read_from(s.last_state, j.get("lastState"@)->0)
    &&& j.get("lastState"@) is None ==> s.last_state.terminated is None
}

/// What a pod that can be read says of its `i`th containers, init containers and
/// conditions stands in the field of that name, and in no other.
pub proof fn a_pod_says_what_is_written(data: JsonView, i: int)
    requires
        read_spec(data.get("spec"@)) is Some,
        read_pod_status(data.get("status"@)) is Some,
        data is Object,
        is_object(data.get("spec"@)),
        is_object(data.get("status"@)),
    ensures
        ({
            let pod = pod_of(data);
            let spec = data.get("spec"@)->0;
            let status = data.get("status"@)->0;
            &&& status.get("phase"@) matches Some(JsonView::Str(phase)) ==> pod.phase == Some(phase)
            &&& status.get("reason"@) matches Some(JsonView::Str(reason)) ==> pod.reason == Some(
                reason,
            )
            &&& status.get("phase"@) is None ==> pod.phase is None
            &&& status.get("reason"@) is None ==> pod.reason is None
            &&& spec.get("containers"@) matches Some(JsonView::Array(list)) ==> pod.containers.len()
                == list.len()
            &&& spec.get("initContainers"@) matches Some(JsonView::Array(list)) ==> {
                &&& pod.init_containers.len() == list.len()
                &&& 0 <= i < list.len() && list[i] is Object ==> (list[i].get("restartPolicy"@)
                    matches Some(JsonView::Str(policy)) ==> pod.init_containers[i] == Some(policy))
                &&& 0 <= i < list.len() && list[i] is Object && list[i].get("restartPolicy"@)
                    is None ==> pod.init_containers[i] is None
            }
            &&& status.get("containerStatuses"@) matches Some(JsonView::Array(list)) ==> {
                &&& pod.container_statuses.len() == list.len()
                &&& 0 <= i < list.len() && list[i] is Object ==> status_read_from(
                    pod.container_statuses[i],
                    list[i],
                )
            }
            &&& status.get("initContainerStatuses"@) matches Some(JsonView::Array(list)) ==> {
                &&& pod.init_container_statuses.len() == list.len()
                &&& 0 <= i < list.len() && list[i] is Object ==> status_read_from(
                    pod.init_container_statuses[i],
                    list[i],
                )
            }
            &&& status.get("conditions"@) matches Some(JsonView::Array(list)) ==> {
                &&& pod.conditions.len() == list.len()
                &&& 0 <= i < list.len() && list[i] is Object ==> {
                    let c = pod.conditions[i];
                    &&& list[i].get("type"@) matches Some(JsonView::Str(kind)) ==> c.kind == kind
                    &&& list[i].get("status"@) matches Some(JsonView::Str(s)) ==> c.status == s
                    &&& list[i].get("reason"@) matches Some(JsonView::Str(r)) ==> c.reason == Some(
                        r,
                    )
                    &&& list[i].get("reason"@) is None ==> c.reason is None
                }
            }
            &&& status.get("containerStatuses"@) is None ==> pod.container_statuses.len() == 0
            &&& status.get("initContainerStatuses"@) is None ==> pod.init_container_statuses.len()
                == 0
            &&& status.get("conditions"@) is None ==> pod.conditions.len() == 0
            &&& spec.get("containers"@) is None ==> pod.containers.len() == 0
            &&& spec.get("initContainers"@) is None ==> pod.init_containers.len() == 0
        }),
{
    let spec = data.get("spec"@)->0;
    let status = data.get("status"@)->0;
    if let Some(JsonView::Array(list)) = spec.get("containers"@) {
        all_read_at(list, policy_reader(), i);
    }
    if let Some(JsonView::Array(list)) = spec.get("initContainers"@) {
        all_read_at(list, policy_reader(), i);
    }
    if let Some(JsonView::Array(list)) = status.get("containerStatuses"@) {
        all_read_at(list, status_reader(), i);
    }
    if let Some(JsonView::Array(list)) = status.get("initContainerStatuses"@) {
        all_read_at(list, status_reader(), i);
    }
    if let Some(JsonView::Array(list)) = status.get("conditions"@) {
        all_read_at(list, condition_reader(), i);
    }
}

} // verus!
