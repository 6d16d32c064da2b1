//! What the columns promise, from what the API says to what is printed.
use vstd::prelude::*;

use crate::base::json::{part, text_of, JsonView};
use crate::base::list::{kept, kept_from};
use crate::base::meta::MetaView;
use crate::base::time::parsed_timestamp;
use crate::columns::age::age_at;
use crate::columns::builtin::{condition_of, filled, pair_reader, ready_status, shown, Computed};
use crate::columns::event::{event_of, instant_in};

verus! {

/// Whether a field holds a text that names an instant.
pub open spec fn names(j: Option<JsonView>, at: int) -> bool {
    j matches Some(JsonView::Str(text)) && text.len() > 0 && parsed_timestamp(text) == Some(at)
}

/// Whether a field holds no text that names an instant.
pub open spec fn names_nothing(j: Option<JsonView>) -> bool {
    forall|at: int| !#[trigger] names(j, at)
}

/// An event was last seen when its series was last observed; without a series,
/// at its last time, whatever its other times say; then at its own time; and at
/// its first time only where nothing else names an instant.
pub proof fn an_event_was_last_seen_at_its_last_time(
    meta: MetaView,
    event: JsonView,
    now: int,
    at: int,
)
    ensures
        ({
            let series = part(event.get("series"@), "lastObservedTime"@);
            let last = event.get("lastTimestamp"@);
            let single = event.get("eventTime"@);
            let first = event.get("firstTimestamp"@);
            let seen = event_of(event, now).last_seen;
            &&& shown(Computed::EventLastSeen, meta, event, now) == Some(seen)
            &&& names(series, at) ==> seen == age_at(now, at)
            &&& names_nothing(series) && names(last, at) ==> seen == age_at(now, at)
            &&& names_nothing(series) && names_nothing(last) && names(single, at) ==> seen
                == age_at(now, at)
            &&& names_nothing(series) && names_nothing(last) && names_nothing(single) && names(
                first,
                at,
            ) ==> seen == age_at(now, at)
            &&& names_nothing(series) && names_nothing(last) && names_nothing(single)
                && names_nothing(first) ==> seen.len() == 0
        }),
{
    let series = part(event.get("series"@), "lastObservedTime"@);
    let last = event.get("lastTimestamp"@);
    let single = event.get("eventTime"@);
    let first = event.get("firstTimestamp"@);
    assert forall|j: Option<JsonView>| names_nothing(j) implies #[trigger]
    instant_in(
        filled(text_of(j)),
    ) is None by {
        if let Some(JsonView::Str(text)) = j {
            if text.len() > 0 && parsed_timestamp(text) is Some {
                assert(names(j, parsed_timestamp(text)->0));
            }
        }
    }
}

/// What is kept of two lists after each other is what is kept of each.
proof fn kept_of_both<A, B>(a: Seq<A>, b: Seq<A>, pick: spec_fn(A) -> Option<B>)
    ensures
        kept(a + b, pick) == kept(a, pick) + kept(b, pick),
    decreases b.len(),
{
    if b.len() == 0 {
        assert(a + b =~= a);
        assert(kept(a, pick) + kept(b, pick) =~= kept(a, pick));
    } else {
        kept_of_both(a, b.drop_last(), pick);
        assert((a + b).drop_last() =~= a + b.drop_last());
        assert(kept(a + b, pick) =~= kept(a, pick) + kept(b, pick));
    }
}

/// An element that is accepted stands behind what is kept of the ones before it.
pub proof fn kept_at<A, B>(list: Seq<A>, pick: spec_fn(A) -> Option<B>, k: int) -> (n: int)
    requires
        0 <= k < list.len(),
        pick(list[k]) is Some,
    ensures
        0 <= n < kept(list, pick).len(),
        kept(list, pick)[n] == pick(list[k])->0,
        n == kept(list.take(k), pick).len(),
        forall|m: int| 0 <= m < n ==> #[trigger] kept(list, pick)[m] == kept(list.take(k), pick)[m],
{
    let one = list.subrange(k, k + 1);
    kept_of_both(list.take(k), list.skip(k), pick);
    assert(list.take(k) + list.skip(k) =~= list);
    kept_of_both(one, list.skip(k + 1), pick);
    assert(one + list.skip(k + 1) =~= list.skip(k));
    assert(one.drop_last() =~= Seq::empty());
    assert(one.last() == list[k]);
    reveal_with_fuel(kept, 2);
    assert(kept(one, pick) =~= seq![pick(list[k])->0]);
    kept(list.take(k), pick).len() as int
}

proof fn ready_found(list: Seq<(Seq<char>, Seq<char>)>, from: int, n: int)
    requires
        0 <= from <= n < list.len(),
        list[n].0 == "Ready"@,
        forall|m: int| from <= m < n ==> (#[trigger] list[m]).0 != "Ready"@,
    ensures
        ready_status(list, from) == Some(list[n].1),
    decreases n - from,
{
    if from < n {
        ready_found(list, from + 1, n);
    }
}

proof fn ready_absent(list: Seq<(Seq<char>, Seq<char>)>, from: int)
    requires
        0 <= from <= list.len(),
        forall|m: int| from <= m < list.len() ==> (#[trigger] list[m]).0 != "Ready"@,
    ensures
        ready_status(list, from) is None,
    decreases list.len() - from,
{
    if from < list.len() {
        ready_absent(list, from + 1);
    }
}

/// Whether an entry of a list of conditions has this type and this status.
pub open spec fn says(condition: JsonView, kind: Seq<char>, status: Seq<char>) -> bool {
    condition.get("type"@) == Some(JsonView::Str(kind)) && condition.get("status"@) == Some(
        JsonView::Str(status),
    )
}

/// A node is ready exactly if its first Ready condition says `True`, not ready
/// exactly if that says `False`, and unknown where it says anything else or is
/// missing. That nothing is scheduled on it comes behind that and changes none
/// of it.
pub proof fn a_node_is_as_its_ready_condition_says(
    meta: MetaView,
    data: JsonView,
    now: int,
    conditions: Seq<JsonView>,
    k: int,
    status: Seq<char>,
)
    requires
        part(data.get("status"@), "conditions"@) == Some(JsonView::Array(conditions)),
        0 <= k <= conditions.len(),
        k < conditions.len() ==> says(conditions[k], "Ready"@, status),
        forall|i: int, s: Seq<char>|
            0 <= i < k ==> !#[trigger] says(conditions[i], "Ready"@, s),
    ensures
        ({
            let cell = shown(Computed::NodeStatus, meta, data, now);
            let behind = if part(data.get("spec"@), "unschedulable"@) == Some(
                JsonView::Bool(true),
            ) {
                ",SchedulingDisabled"@
            } else {
                Seq::empty()
            };
            let found = k < conditions.len();
            &&& cell == Some("Ready"@ + behind) <==> found && status == "True"@
            &&& cell == Some("NotReady"@ + behind) <==> found && status == "False"@
            &&& cell == Some("Unknown"@ + behind) <==> !found || (status != "True"@ && status
                != "False"@)
        }),
{
    let list = kept(conditions, pair_reader());
    let front = kept(conditions.take(k), pair_reader());
    assert forall|m: int| 0 <= m < front.len() implies (#[trigger] front[m]).0 != "Ready"@ by {
        assert(front.contains(front[m]));
        kept_from(conditions.take(k), pair_reader(), front[m]);
        let i = choose|i: int|
            0 <= i < conditions.take(k).len() && pair_reader()(#[trigger] conditions.take(k)[i])
                == Some(front[m]);
        assert(conditions.take(k)[i] == conditions[i]);
        assert(!says(conditions[i], "Ready"@, front[m].1));
    }
    if k < conditions.len() {
        assert(condition_of(conditions[k]) == Some(("Ready"@, status)));
        let n = kept_at(conditions, pair_reader(), k);
        ready_found(list, 0, n);
    } else {
        assert(conditions.take(k) =~= conditions);
        ready_absent(list, 0);
    }
    reveal_strlit("True");
    reveal_strlit("False");
    reveal_strlit("Ready");
    reveal_strlit("NotReady");
    reveal_strlit("Unknown");
    assert("True"@.len() == 4 && "False"@.len() == 5);
    let behind = if part(data.get("spec"@), "unschedulable"@) == Some(JsonView::Bool(true)) {
        ",SchedulingDisabled"@
    } else {
        Seq::empty()
    };
    let (a, b, c) = ("Ready"@ + behind, "NotReady"@ + behind, "Unknown"@ + behind);
    assert(a[0] == 'R' && b[0] == 'N' && c[0] == 'U');
    assert("Ready"@ + Seq::<char>::empty() =~= "Ready"@);
    assert("NotReady"@ + Seq::<char>::empty() =~= "NotReady"@);
    assert("Unknown"@ + Seq::<char>::empty() =~= "Unknown"@);
}

} // verus!
