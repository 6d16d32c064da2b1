//! What the window promises: what it offers, what it asks, what it lists and what
//! a detail panel says.
use vstd::prelude::*;

use crate::base::decimal::{decimal, number, signed};
use crate::base::json::{items_of, part, JsonView};
use crate::base::list::{kept, kept_from, kept_holds, kept_no_more};
use crate::base::meta::MetaView;
use crate::base::sort::{sorted_list, sorted_list_sorts, weak_order};
use crate::base::text::{byte_length, precedes, trimmed};
use crate::base::time::{parsed_timestamp, timestamp_display};
use crate::columns::age::age_at;
use crate::columns::event::event_of;
use crate::k8s::access::{permits, RulesView};
use crate::k8s::discovery::{named, KindView};
use crate::k8s::ops::{applies, Operation};
use crate::k8s::resources::ObjectView;
use crate::k8s::store::{ref_text, RefView, StoreView};
use crate::ui::actions::{
    choice_maker, declared_ports, menu, number_reader, offered, ports_of, ChoiceView,
};
use crate::ui::catalog::{
    all_categories, category_label, entries_in, entry_order, entry_order_weak, first_pod, flat,
    opening_kind, place_of, section_of, Category, EntryView,
};
use crate::ui::cluster::{
    count_text, low_bits, marks_of, only, panel_after, refreshed, replicas_of, scoped_key,
    scopes_of, selected_ref, sidebar_of, title_of, ClusterModel, Mode,
};
use crate::ui::detail::{
    chip_text, container_of, events_text, metadata_rows, newer, scalars_of, state_text,
    status_named, PanelView,
};
use crate::ui::fuzzy::{fuzzy_score, lengths, score_of};
use crate::ui::palette::{
    action_label, blocked_by, candidates_of, confirmed, forward_label, offer_of, parsed_query,
    pick_label, ranked, Action, OutcomeView, PaletteView, PickView, Section, SourcesView,
};
use crate::ui::prompt::{body_of, button_of, resolved};
use crate::ui::status::{counts_from, tone_of};
use crate::ui::table::{paint_of, shown_sort, ColumnSort, Paint, Sort};
use crate::ui::theme::Tone;

verus! {

/// What is offered for an object is what means something for its kind, and the
/// delete comes last. It is allowed exactly if the rules permit its verb on its
/// resource, and while they are not known; what is refused names both.
pub proof fn what_is_offered_goes_by_the_rules(
    kind: KindView,
    rules: Option<RulesView>,
    replicas: i32,
    i: int,
)
    requires
        0 <= i < menu(kind, rules, replicas).len(),
    ensures
        ({
            let choice = menu(kind, rules, replicas)[i];
            let group = kind.resource.group;
            let plural = kind.resource.plural;
            let last = menu(kind, rules, replicas).last();
            &&& last.operation is Delete && last.label == "Delete"@
            &&& match choice.operation {
                Operation::Delete => choice.label == "Delete"@ && choice.allowed == (rules is None
                    || permits(rules->0, "delete"@, group, plural)),
                Operation::Restart => choice.label == "Restart"@ && choice.allowed == (rules
                    is None || permits(rules->0, "patch"@, group, plural)),
                Operation::Scale { replicas: n } => choice.label == "Scale…"@ && n == replicas
                    && choice.allowed == (rules is None || permits(
                    rules->0,
                    "patch"@,
                    group,
                    plural + "/scale"@,
                )),
                Operation::Apply => false,
            }
            &&& choice.allowed ==> choice.blocked_because is None
            &&& !choice.allowed ==> choice.blocked_because == Some(
                "You do not have "@ + (if choice.operation is Delete {
                    "delete"@
                } else {
                    "patch"@
                }) + " on "@ + (if choice.operation is Scale {
                    plural + "/scale"@
                } else {
                    plural
                }) + " in this namespace"@,
            )
        }),
{
    let make = choice_maker(rules, kind);
    let list = offered(replicas);
    let all = menu(kind, rules, replicas);
    assert(all.contains(all[i]));
    kept_from(list, make, all[i]);
    let k = choose|k: int| 0 <= k < list.len() && make(#[trigger] list[k]) == Some(all[i]);
    assert(k == 0 || k == 1 || k == 2);
    assert(list.last() == Operation::Delete);
    assert(applies(Operation::Delete, kind.resource.group, kind.resource.kind));
    assert(all.last() == make(list.last())->0);
}

/// Everything that means something for a kind is offered.
pub proof fn everything_that_applies_is_offered(
    kind: KindView,
    rules: Option<RulesView>,
    replicas: i32,
    op: Operation,
)
    requires
        op is Delete || op is Restart || op == (Operation::Scale { replicas }),
    ensures
        (exists|i: int|
            0 <= i < menu(kind, rules, replicas).len() && (#[trigger] menu(
                kind,
                rules,
                replicas,
            )[i]).operation == op) <==> applies(op, kind.resource.group, kind.resource.kind),
{
    let make = choice_maker(rules, kind);
    let list = offered(replicas);
    let all = menu(kind, rules, replicas);
    let at: int = if op is Restart {
        0
    } else if op is Scale {
        1
    } else {
        2
    };
    assert(list[at] == op);
    if applies(op, kind.resource.group, kind.resource.kind) {
        kept_holds(list, make, at);
        let made = make(list[at])->0;
        let i = choose|i: int| 0 <= i < all.len() && all[i] == made;
        assert(all[i].operation == op);
    }
    if exists|i: int| 0 <= i < all.len() && (#[trigger] all[i]).operation == op {
        let i = choose|i: int| 0 <= i < all.len() && (#[trigger] all[i]).operation == op;
        assert(all.contains(all[i]));
        kept_from(list, make, all[i]);
        let k = choose|k: int| 0 <= k < list.len() && make(#[trigger] list[k]) == Some(all[i]);
        assert(list[k] == op);
    }
}

proof fn ports_hold(containers: Seq<JsonView>, port: u16)
    ensures
        declared_ports(containers).contains(port) <==> exists|c: int, p: int|
            0 <= c < containers.len() && #[trigger] declares(containers[c], p, port),
    decreases containers.len(),
{
    if containers.len() > 0 {
        let front = containers.drop_last();
        let n = containers.len() - 1;
        ports_hold(front, port);
        let before = declared_ports(front);
        let items = items_of(containers.last().get("ports"@));
        let own = kept(items, number_reader());
        let all = declared_ports(containers);
        assert(containers[n] == containers.last());
        if all.contains(port) {
            let i = choose|i: int| 0 <= i < all.len() && all[i] == port;
            if i < before.len() {
                assert(before[i] == port);
                let (c, p) = choose|c: int, p: int|
                    0 <= c < front.len() && #[trigger] declares(front[c], p, port);
                assert(declares(containers[c], p, port));
            } else {
                assert(own[i - before.len()] == port);
                assert(own.contains(port));
                kept_from(items, number_reader(), port);
                let p = choose|p: int|
                    0 <= p < items.len() && number_reader()(#[trigger] items[p]) == Some(port);
                assert(declares(containers[n], p, port));
            }
        }
        if exists|c: int, p: int|
            0 <= c < containers.len() && #[trigger] declares(containers[c], p, port) {
            let (c, p) = choose|c: int, p: int|
                0 <= c < containers.len() && #[trigger] declares(containers[c], p, port);
            if c < n {
                assert(declares(front[c], p, port));
                let i = choose|i: int| 0 <= i < before.len() && before[i] == port;
                assert(all[i] == port);
            } else {
                kept_holds(items, number_reader(), p);
                let i = choose|i: int| 0 <= i < own.len() && own[i] == port;
                assert(all[before.len() + i] == port);
            }
        }
    }
}

/// Whether the port at a place of a container is this one.
pub open spec fn declares(container: JsonView, p: int, port: u16) -> bool {
    container.get("ports"@) matches Some(JsonView::Array(ports)) && 0 <= p < ports.len()
        && ports[p].get("containerPort"@) == Some(JsonView::Int(port as int))
}

/// The ports that can be forwarded are those that a container of the pod
/// declares, whichever one it is.
pub proof fn every_declared_port_is_offered(data: JsonView, containers: Seq<JsonView>, port: u16)
    requires
        part(data.get("spec"@), "containers"@) == Some(JsonView::Array(containers)),
    ensures
        ports_of(data).contains(port) <==> exists|c: int, p: int|
            0 <= c < containers.len() && #[trigger] declares(containers[c], p, port),
{
    ports_hold(containers, port);
}

/// A status is well exactly if it is one of the few that say so. What is under
/// way, what is not right and what has failed have tones of their own, and
/// anything else says nothing.
pub proof fn a_status_has_the_tone_of_its_word(status: Seq<char>)
    requires
        !"Init:"@.is_prefix_of(status),
    ensures
        ({
            let well = status == "Running"@ || status == "Active"@ || status == "Bound"@ || status
                == "Ready"@;
            let over = status == "Completed"@ || status == "Succeeded"@ || status == "Terminated"@;
            let coming = status == "Pending"@ || status == "ContainerCreating"@ || status
                == "PodInitializing"@ || status == "Terminating"@ || status
                == "ContainerStatusUnknown"@ || status == "Released"@;
            let wrong = status == "NotReady"@ || status == "Unknown"@ || status
                == "SchedulingGated"@ || status == "Evicted"@ || status == "NodeLost"@ || status
                == "ImagePullBackOff"@ || status == "ErrImagePull"@ || status
                == "ErrImageNeverPull"@ || status == "InvalidImageName"@ || status
                == "CreateContainerConfigError"@ || status == "CreateContainerError"@ || status
                == "ContainerCannotRun"@;
            let failed = status == "Error"@ || status == "Failed"@ || status == "CrashLoopBackOff"@
                || status == "OOMKilled"@ || status == "DeadlineExceeded"@ || status
                == "RunContainerError"@ || status == "StartError"@ || "ExitCode:"@.is_prefix_of(
                status,
            ) || "Signal:"@.is_prefix_of(status);
            &&& tone_of(status) == Tone::Healthy <==> well
            &&& tone_of(status) == Tone::Progressing <==> !well && !over && coming
            &&& tone_of(status) == Tone::Warning <==> !well && !over && !coming && wrong
            &&& tone_of(status) == Tone::Critical <==> !well && !over && !coming && !wrong && failed
            &&& tone_of(status) == Tone::Unknown <==> !well && (over || (!coming && !wrong
                && !failed))
        }),
{
}

/// A question says what will be done to what. What is typed for a scale is the
/// number of replicas, and nothing is confirmed without one.
pub proof fn a_question_says_what_will_be_done(
    op: Operation,
    kind: Seq<char>,
    target: Seq<char>,
    typed: Seq<char>,
)
    ensures
        op is Delete ==> crate::ui::prompt::title_of(op, kind) == "Delete this "@ + kind + "?"@,
        op is Scale ==> crate::ui::prompt::title_of(op, kind) == "Scale this "@ + kind,
        op is Delete ==> target.is_prefix_of(body_of(op, target)) && body_of(op, target).len()
            > target.len(),
        !(op is Delete) ==> body_of(op, target) == target,
        op is Delete ==> button_of(op) == "Delete"@,
        op is Scale ==> button_of(op) == "Scale"@,
        op is Restart || op is Apply ==> button_of(op) == "Confirm"@,
        !(op is Scale) ==> resolved(op, typed) == Some(op),
        op is Scale ==> match resolved(op, typed) {
            Some(Operation::Scale { replicas }) => replicas >= 0 && number(trimmed(typed)) == Some(
                replicas as int,
            ),
            Some(_) => false,
            None => number(trimmed(typed)) is None || number(trimmed(typed))->0 < 0 || number(
                trimmed(typed),
            )->0 > i32::MAX,
        },
{
    reveal_strlit(
        " will be deleted. There is no undo — if a controller owns it, it will be recreated; if not, it is gone.",
    );
}

/// What is typed without a prefix is looked for among the objects.
pub proof fn plain_text_searches_objects(query: Seq<char>)
    requires
        query.len() == 0 || (query[0] != '@' && query[0] != '#' && query[0] != '>' && query[0]
            != 'c'),
    ensures
        parsed_query(query) == (Section::Objects, query),
{
    reveal_strlit("ctx ");
    reveal_strlit("ctx");
    assert("ctx "@[0] == 'c' && "ctx"@[0] == 'c' && "ctx"@.len() == 3);
}

/// Every section lists what it is about, under the name by which it is known.
pub proof fn sections_list_what_they_are_about(
    s: SourcesView,
    object: RefView,
    kind: KindView,
    name: Seq<char>,
    port: u16,
)
    ensures
        candidates_of(s, Section::Objects).len() == s.objects.len(),
        candidates_of(s, Section::Objects).contains((ref_text(object), PickView::Object(object)))
            <== s.objects.contains(object),
        candidates_of(s, Section::Kinds).len() == s.kinds.len(),
        candidates_of(s, Section::Kinds).contains((named(kind), PickView::Kind(kind)))
            <== s.kinds.contains(kind),
        candidates_of(s, Section::Namespaces).len() == s.namespaces.len() + 1,
        candidates_of(s, Section::Namespaces)[0] == ("All namespaces"@, PickView::Namespace(None)),
        candidates_of(s, Section::Namespaces).contains((name, PickView::Namespace(Some(name))))
            <== s.namespaces.contains(name),
        candidates_of(s, Section::Clusters).len() == s.clusters.len(),
        candidates_of(s, Section::Clusters).contains((name, PickView::Cluster(name)))
            <== s.clusters.contains(name),
        candidates_of(s, Section::Commands).len() == s.operations.len() + s.ports.len() + 6,
        candidates_of(s, Section::Commands).contains(
            ("Forward port "@ + decimal(port as nat), PickView::Forward { remote_port: port }),
        ) <== s.ports.contains(port),
{
    if s.objects.contains(object) {
        let i = choose|i: int| 0 <= i < s.objects.len() && s.objects[i] == object;
        assert(candidates_of(s, Section::Objects)[i] == (ref_text(object), PickView::Object(object)));
    }
    if s.kinds.contains(kind) {
        let i = choose|i: int| 0 <= i < s.kinds.len() && s.kinds[i] == kind;
        assert(candidates_of(s, Section::Kinds)[i] == (named(kind), PickView::Kind(kind)));
    }
    if s.namespaces.contains(name) {
        let i = choose|i: int| 0 <= i < s.namespaces.len() && s.namespaces[i] == name;
        assert(candidates_of(s, Section::Namespaces)[i + 1] == (name, PickView::Namespace(
            Some(name),
        )));
    }
    if s.clusters.contains(name) {
        let i = choose|i: int| 0 <= i < s.clusters.len() && s.clusters[i] == name;
        assert(candidates_of(s, Section::Clusters)[i] == (name, PickView::Cluster(name)));
    }
    if s.ports.contains(port) {
        let i = choose|i: int| 0 <= i < s.ports.len() && s.ports[i] == port;
        assert(candidates_of(s, Section::Commands)[s.operations.len() + i] == (
            "Forward port "@ + decimal(port as nat),
            PickView::Forward { remote_port: port },
        ));
    }
}

proof fn offer_found(list: Seq<ChoiceView>, op: Operation, from: int, k: int)
    requires
        0 <= from <= k < list.len(),
        list[k].operation == op,
        forall|i: int| from <= i < k ==> (#[trigger] list[i]).operation != op,
    ensures
        offer_of(list, op, from) == Some(list[k]),
    decreases k - from,
{
    if from < k {
        offer_found(list, op, from + 1, k);
    }
}

/// A refused operation is not taken, and says why; everything else that is listed
/// is taken as it stands there.
pub proof fn a_refused_pick_is_not_taken(p: PaletteView, row: int, op: Operation, k: int)
    requires
        0 <= row < p.matches.len(),
        0 <= k < p.sources.operations.len(),
        p.sources.operations[k].operation == op,
        forall|i: int| 0 <= i < k ==> (#[trigger] p.sources.operations[i]).operation != op,
    ensures
        p.matches[row] == PickView::Operation(op) && !p.sources.operations[k].allowed
            && p.sources.operations[k].blocked_because is Some ==> confirmed(p, row) is None
            && blocked_by(p.sources, p.matches[row]) == p.sources.operations[k].blocked_because,
        p.matches[row] == PickView::Operation(op) && p.sources.operations[k].allowed ==> confirmed(
            p,
            row,
        ) == Some(OutcomeView::Chose(p.matches[row])),
        !(p.matches[row] is Operation) ==> confirmed(p, row) == Some(
            OutcomeView::Chose(p.matches[row]),
        ),
{
    offer_found(p.sources.operations, op, 0, k);
}

/// Without a search everything is listed in its order, up to the limit.
pub proof fn nothing_typed_lists_in_order(
    candidates: Seq<(Seq<char>, PickView)>,
    limit: int,
    i: int,
)
    requires
        0 <= limit,
        0 <= i < candidates.len(),
        i < limit,
    ensures
        ranked(candidates, Seq::empty(), limit)[i] == candidates[i].1,
        ranked(candidates, Seq::empty(), limit).len() == (if candidates.len() <= limit {
            candidates.len() as int
        } else {
            limit
        }),
{
}

/// Picks are called what they are.
pub proof fn picks_are_called_what_they_are(
    object: RefView,
    kind: KindView,
    name: Seq<char>,
    port: u16,
)
    ensures
        pick_label(PickView::Object(object)) == ref_text(object),
        pick_label(PickView::Kind(kind)) == named(kind),
        pick_label(PickView::Namespace(None)) == "All namespaces"@,
        pick_label(PickView::Namespace(Some(name))) == name,
        pick_label(PickView::Cluster(name)) == name,
        pick_label(PickView::Forward { remote_port: port }) == "Forward port "@ + decimal(
            port as nat,
        ),
        pick_label(PickView::Action(Action::ToggleTheme)) == "Toggle light and dark"@,
        pick_label(PickView::Action(Action::ToggleDetails)) == "Show or hide the details panel"@,
        pick_label(PickView::Action(Action::ClearFilter)) == "Clear the search filter"@,
        pick_label(PickView::Action(Action::CopyName)) == "Copy the selected object's name"@,
        pick_label(PickView::Action(Action::NewTab)) == "Another tab on the cluster in front"@,
        pick_label(PickView::Action(Action::CloseTab)) == "Close this tab"@,
        forward_label(port) == "Forward port "@ + decimal(port as nat),
        action_label(Action::CloseTab) == "Close this tab"@,
{
}

/// A container is what it waits for, else how it ended, else that it runs and for
/// how long, by the reason it gives where it gives one.
pub proof fn a_container_says_what_it_does(
    status: JsonView,
    now: int,
    word: Seq<char>,
    at: int,
)
    requires
        status.get("state"@) matches Some(JsonView::Object(_)),
    ensures
        ({
            let state = status.get("state"@)->0;
            let waiting = state.get("waiting"@);
            let ended = state.get("terminated"@);
            let running = state.get("running"@);
            let text = state_text(status, now);
            &&& waiting is Some && part(waiting, "reason"@) == Some(JsonView::Str(word))
                && word.len() > 0 ==> text == word
            &&& waiting is Some && part(waiting, "reason"@) is None ==> text == "waiting"@
            &&& waiting is None && ended is Some && part(ended, "reason"@) == Some(
                JsonView::Str(word),
            ) && word.len() > 0 ==> text == word
            &&& waiting is None && ended is Some && part(ended, "reason"@) is None ==> text
                == "terminated"@
            &&& waiting is None && ended is None && running is Some && part(running, "startedAt"@)
                == Some(JsonView::Str(word)) && parsed_timestamp(word) == Some(at) ==> text
                == "Running for "@ + age_at(now, at)
            &&& waiting is None && ended is None && running is Some && part(running, "startedAt"@)
                is None ==> text == "Running"@
            &&& waiting is None && ended is None && running is None ==> text == "Unknown"@
        }),
{
}

proof fn container_found(statuses: Seq<JsonView>, name: Seq<char>, from: int, k: int)
    requires
        0 <= from <= k <= statuses.len(),
        k < statuses.len() ==> statuses[k].get("name"@) == Some(JsonView::Str(name)),
        forall|i: int|
            from <= i < k ==> (#[trigger] statuses[i]).get("name"@) != Some(JsonView::Str(name)),
    ensures
        status_named(statuses, name, from) == (if k < statuses.len() {
            Some(statuses[k])
        } else {
            None
        }),
    decreases k - from,
{
    if from < k {
        container_found(statuses, name, from + 1, k);
    }
}

/// A container is shown with its image and with the status of its own name. One
/// without a status is pending.
pub proof fn a_container_is_shown_with_its_own_status(
    container: JsonView,
    statuses: Seq<JsonView>,
    now: int,
    name: Seq<char>,
    k: int,
)
    requires
        container.get("name"@) == Some(JsonView::Str(name)),
        0 <= k <= statuses.len(),
        k < statuses.len() ==> statuses[k].get("name"@) == Some(JsonView::Str(name)),
        forall|i: int|
            0 <= i < k ==> (#[trigger] statuses[i]).get("name"@) != Some(JsonView::Str(name)),
    ensures
        ({
            let shown = container_of(container, statuses, now);
            &&& shown.name == name
            &&& container.get("image"@) matches Some(JsonView::Str(image)) ==> shown.image == image
            &&& container.get("image"@) is None ==> shown.image == "<no image>"@
            &&& k == statuses.len() ==> shown.state == "Pending"@ && !shown.ready && shown.restarts
                == 0
            &&& k < statuses.len() ==> {
                &&& shown.state == state_text(statuses[k], now)
                &&& shown.ready == (statuses[k].get("ready"@) == Some(JsonView::Bool(true)))
                &&& statuses[k].get("restartCount"@) matches Some(JsonView::Int(n))
                    ==> shown.restarts == n
                &&& statuses[k].get("restartCount"@) is None ==> shown.restarts == 0
            }
        }),
{
    container_found(statuses, name, 0, k);
}

/// The status section shows what has one value, in its order: texts, numbers and
/// flags, and neither lists nor objects nor what is empty.
pub proof fn the_status_shows_single_values(
    entries: Seq<(Seq<char>, JsonView)>,
    key: Seq<char>,
    value: JsonView,
)
    ensures
        ({
            let before = scalars_of(Some(JsonView::Object(entries)));
            let after = scalars_of(Some(JsonView::Object(entries.push((key, value)))));
            match value {
                JsonView::Str(text) => if text.len() > 0 {
                    after == before.push((key, text))
                } else {
                    after == before
                },
                JsonView::Int(n) => after == before.push((key, signed(n))),
                JsonView::Decimal(text) => after == before.push((key, text)),
                JsonView::Bool(true) => after == before.push((key, "true"@)),
                JsonView::Bool(false) => after == before.push((key, "false"@)),
                _ => after == before,
            }
        }),
        scalars_of(None).len() == 0,
        scalars_of(Some(JsonView::Object(Seq::empty()))).len() == 0,
{
    assert(entries.push((key, value)).drop_last() =~= entries);
}

/// The metadata section says when an object was created and how long ago that is,
/// who owns it, and where it is.
pub proof fn the_metadata_says_whose_and_since_when(target: RefView, meta: MetaView, now: int)
    ensures
        ({
            let rows = metadata_rows(target, meta, now);
            &&& rows.len() == 5
            &&& rows[0] == ("Name"@, Some(target.name))
            &&& rows[1] == ("Namespace"@, target.namespace)
            &&& rows[2].0 == "Created"@
            &&& rows[3] == ("UID"@, meta.uid)
            &&& rows[4].0 == "Owner"@
            &&& meta.creation_timestamp matches Some(at) ==> rows[2].1 == Some(
                age_at(now, at) + " ago ("@ + (timestamp_display(at) + ")"@),
            )
            &&& meta.creation_timestamp is None ==> rows[2].1 is None
            &&& meta.owner_references matches Some(owners) ==> owners.len() > 0 ==> rows[4].1
                == Some(owners[0].kind + "/"@ + owners[0].name)
            &&& meta.owner_references is None ==> rows[4].1 is None
        }),
{
}

/// A label is shown with its value, and alone where that is empty.
pub proof fn a_label_is_shown_with_its_value(key: Seq<char>, value: Seq<char>)
    ensures
        value.len() == 0 ==> chip_text(key, value) == key,
        value.len() > 0 ==> chip_text(key, value) == key + "="@ + value,
{
}

/// Events are listed newest first, all of them, and those without a time last.
pub proof fn events_are_listed_newest_first(list: Seq<ObjectView>, now: int)
    requires
        list.len() <= usize::MAX,
    ensures
        events_text(list, now).len() == list.len(),
        exists|order: Seq<ObjectView>|
            #![trigger order.to_multiset()]
            {
                &&& order.to_multiset() == list.to_multiset()
                &&& order.len() == list.len()
                &&& forall|i: int|
                    0 <= i < order.len() ==> events_text(list, now)[i] == event_of(
                        (#[trigger] order[i]).data,
                        now,
                    )
                &&& forall|i: int, j: int|
                    0 <= i < j < order.len() ==> {
                        let a = (#[trigger] order[i]).metadata.creation_timestamp;
                        let b = (#[trigger] order[j]).metadata.creation_timestamp;
                        &&& a is Some && b is Some ==> a->0 >= b->0
                        &&& a is None ==> b is None
                    }
            },
{
    assert(weak_order(newer()));
    sorted_list_sorts(list, newer());
    let order = sorted_list(list, newer());
    assert(order.to_multiset() == list.to_multiset());
    assert forall|i: int, j: int| 0 <= i < j < order.len() implies ({
        let a = (#[trigger] order[i]).metadata.creation_timestamp;
        let b = (#[trigger] order[j]).metadata.creation_timestamp;
        &&& a is Some && b is Some ==> a->0 >= b->0
        &&& a is None ==> b is None
    }) by {
        assert(!newer()(order[j], order[i]));
    }
}

/// The sections of the catalog stand in their order, under their names.
pub proof fn sections_stand_in_their_order()
    ensures
        all_categories() =~= seq![
            Category::Workloads,
            Category::Config,
            Category::Network,
            Category::Storage,
            Category::AccessControl,
            Category::Cluster,
            Category::Custom,
        ],
        category_label(Category::Workloads) == "Workloads"@,
        category_label(Category::Config) == "Config"@,
        category_label(Category::Network) == "Network"@,
        category_label(Category::Storage) == "Storage"@,
        category_label(Category::AccessControl) == "Access Control"@,
        category_label(Category::Cluster) == "Cluster"@,
        category_label(Category::Custom) == "Custom Resources"@,
{
}

/// A kind of a group that is not known is a custom resource, whatever its name.
/// Everything about storage is under storage, and certificates are under access
/// control.
pub proof fn unknown_groups_are_custom(group: Seq<char>, name: Seq<char>)
    ensures
        group != ""@ && group != "apps"@ && group != "batch"@ && group != "autoscaling"@ && group
            != "policy"@ && group != "scheduling.k8s.io"@ && group != "node.k8s.io"@ && group
            != "coordination.k8s.io"@ && group != "admissionregistration.k8s.io"@ && group
            != "networking.k8s.io"@ && group != "discovery.k8s.io"@ && group != "storage.k8s.io"@
            && group != "rbac.authorization.k8s.io"@ && group != "certificates.k8s.io"@ && group
            != "events.k8s.io"@ && group != "apiextensions.k8s.io"@ && group
            != "apiregistration.k8s.io"@ ==> place_of(group, name).0 == Category::Custom,
{
}

/// Within a section the kinds come by their rank, and those of one rank by what
/// they are called.
pub proof fn a_section_is_ranked(kinds: Seq<KindView>, category: Category, i: int, j: int)
    requires
        kinds.len() <= usize::MAX,
        0 <= i < j < section_of(kinds, category).len(),
    ensures
        ({
            let a = section_of(kinds, category)[i];
            let b = section_of(kinds, category)[j];
            a.rank < b.rank || (a.rank == b.rank && !precedes(b.label, a.label))
        }),
{
    let found = kept(kinds, entries_in(category));
    kept_no_more(kinds, entries_in(category));
    entry_order_weak();
    sorted_list_sorts(found, entry_order());
    let all = section_of(kinds, category);
    assert(!entry_order()(all[j], all[i]));
}

proof fn pod_found(entries: Seq<EntryView>, from: int, k: int)
    requires
        0 <= from <= k <= entries.len(),
        k < entries.len() ==> entries[k].kind.resource.kind == "Pod"@
            && entries[k].kind.resource.group.len() == 0,
        forall|i: int|
            from <= i < k ==> !((#[trigger] entries[i]).kind.resource.kind == "Pod"@
                && entries[i].kind.resource.group.len() == 0),
    ensures
        first_pod(entries, from) == (if k < entries.len() {
            Some(entries[k])
        } else {
            None
        }),
    decreases k - from,
{
    if from < k {
        pod_found(entries, from + 1, k);
    }
}

/// A cluster opens on its pods, and where it serves none on the first kind of the
/// first section.
pub proof fn a_cluster_opens_on_its_pods(sections: Seq<(Category, Seq<EntryView>)>, k: int)
    requires
        0 <= k <= flat(sections).len(),
        k < flat(sections).len() ==> flat(sections)[k].kind.resource.kind == "Pod"@ && flat(
            sections,
        )[k].kind.resource.group.len() == 0,
        forall|i: int|
            0 <= i < k ==> !((#[trigger] flat(sections)[i]).kind.resource.kind == "Pod"@ && flat(
                sections,
            )[i].kind.resource.group.len() == 0),
    ensures
        k < flat(sections).len() ==> opening_kind(sections) == Some(flat(sections)[k].kind),
        k == flat(sections).len() && sections.len() > 0 && sections[0].1.len() > 0
            ==> opening_kind(sections) == Some(sections[0].1[0].kind),
        sections.len() == 0 && k == flat(sections).len() ==> opening_kind(sections) is None,
{
    pod_found(flat(sections), 0, k);
}

/// A kind that is namespaced is watched in each namespace that is chosen, and at
/// once in all of them where none is; any other kind at once.
pub proof fn a_kind_is_watched_where_it_is_shown(
    kind: KindView,
    names: Seq<Seq<char>>,
    i: int,
)
    ensures
        !kind.namespaced ==> scopes_of(kind.namespaced, names) =~= seq![None::<Seq<char>>],
        names.len() == 0 ==> scopes_of(kind.namespaced, names) =~= seq![None::<Seq<char>>],
        kind.namespaced && 0 <= i < names.len() ==> scopes_of(kind.namespaced, names).len()
            == names.len() && scopes_of(kind.namespaced, names)[i] == Some(names[i]),
        0 <= i < names.len() ==> {
            let key = scoped_key(kind, Some(names[i]));
            &&& key.resource == kind.resource
            &&& key.namespace == Some(names[i])
            &&& key.labels is None
            &&& key.fields is None
        },
{
}

/// A single namespace is one exactly if there is no other.
pub proof fn only_one_is_the_only_one(names: Set<Seq<char>>, name: Seq<char>)
    requires
        names.finite(),
    ensures
        only(names) == Some(name) <==> names == Set::<Seq<char>>::empty().insert(name),
        names.len() != 1 ==> only(names) is None,
{
    if names.len() == 1 {
        let one = names.choose();
        assert(names.contains(one));
        assert(names.remove(one).len() == 0);
        assert(names =~= Set::<Seq<char>>::empty().insert(one)) by {
            assert forall|x: Seq<char>| names.contains(x) implies x == one by {
                if x != one {
                    assert(names.remove(one).contains(x));
                    assert(names.remove(one).remove(x).len() + 1 == names.remove(one).len());
                }
            }
        }
    }
    if names == Set::<Seq<char>>::empty().insert(name) {
        assert(names.contains(name));
        assert(names.len() == 1);
        assert(names.contains(names.choose()));
    }
}

/// The replicas that are wanted are those of the spec, one where it says none.
pub proof fn replicas_are_read_from_the_spec(data: JsonView)
    ensures
        part(data.get("spec"@), "replicas"@) matches Some(JsonView::Int(n)) ==> i32::MIN <= n
            <= i32::MAX ==> replicas_of(data) == n,
        part(data.get("spec"@), "replicas"@) is None ==> replicas_of(data) == 1,
        forall|n: int| i32::MIN <= n <= i32::MAX ==> #[trigger] low_bits(n) == n,
{
}

/// The toolbar names what is shown, and counts it: how many of how many while some
/// are hidden.
pub proof fn the_toolbar_counts_what_is_shown(
    m: ClusterModel,
    shown: nat,
    total: nat,
    releases: Option<nat>,
    forwards: nat,
)
    ensures
        shown == total ==> count_text(Mode::Objects, shown, total, releases, forwards) == decimal(
            total,
        ),
        shown != total ==> count_text(Mode::Objects, shown, total, releases, forwards) == decimal(
            shown,
        ) + " of "@ + decimal(total),
        releases matches Some(n) ==> count_text(Mode::Releases, shown, total, releases, forwards)
            == decimal(n),
        releases is None ==> count_text(
            Mode::Releases,
            shown,
            total,
            releases,
            forwards,
        ).len() == 0,
        count_text(Mode::Forwards, shown, total, releases, forwards) == decimal(forwards),
        m.mode is Objects ==> (m.kind matches Some(kind) ==> title_of(m) == kind.resource.kind),
        m.mode is Releases ==> title_of(m) == "Helm Releases"@,
        m.mode is Forwards ==> title_of(m) == "Port Forwards"@,
{
}

/// Opening a row opens the panel on its object, on the overview. A panel that is
/// on that object already stays as it is, and a row that is not there opens none.
/// A panel follows its object while that is there, and keeps the last it saw.
pub proof fn the_panel_follows_its_object(
    m: ClusterModel,
    row: int,
    now: int,
    panel: PanelView,
    store: StoreView,
)
    ensures
        m.kind matches Some(kind) ==> 0 <= row < m.table.rows.len() && (m.detail matches Some(p)
            ==> p.target != m.table.rows[row]) ==> {
            let opened = panel_after(m, row, now)->0;
            &&& panel_after(m, row, now) is Some
            &&& opened.kind == kind
            &&& opened.object == m.table.store.objects[m.table.rows[row]]
            &&& opened.tab is Overview
            &&& opened.events.objects.dom() =~= Set::<RefView>::empty()
            &&& !opened.events_listed
            &&& opened.now == now
        },
        m.detail matches Some(p) ==> 0 <= row < m.table.rows.len() && p.target == m.table.rows[row]
            ==> panel_after(m, row, now) == m.detail,
        !(0 <= row < m.table.rows.len()) ==> panel_after(m, row, now) == m.detail,
        m.kind is None ==> panel_after(m, row, now) == m.detail,
        store.objects.dom().contains(panel.target) ==> refreshed(Some(panel), store.objects)
            == Some(PanelView { object: store.objects[panel.target], ..panel }),
        !store.objects.dom().contains(panel.target) ==> refreshed(Some(panel), store.objects)
            == Some(panel),
        refreshed(None, store.objects) is None,
        m.selected_row matches Some(at) ==> at < m.table.rows.len() ==> selected_ref(m) == Some(
            m.table.rows[at as int],
        ),
        m.selected_row matches Some(at) ==> at >= m.table.rows.len() ==> selected_ref(m) is None,
        m.selected_row is None ==> selected_ref(m) is None,
{
}

/// While kinds are searched the sidebar is one open section of matches; without a
/// search it has every section of the catalog, with all of its kinds.
pub proof fn the_sidebar_lists_the_catalog(
    m: ClusterModel,
    scores: Seq<Option<u32>>,
    section: int,
)
    ensures
        m.query.len() > 0 ==> sidebar_of(m, scores).len() == 1 && sidebar_of(m, scores)[0].open
            && sidebar_of(m, scores)[0].label == "Matches"@,
        m.query.len() == 0 ==> sidebar_of(m, scores).len() == m.catalog.len(),
        m.query.len() == 0 && 0 <= section < m.catalog.len() ==> {
            let shown = sidebar_of(m, scores)[section];
            &&& shown.label == category_label(m.catalog[section].0)
            &&& shown.entries.len() == m.catalog[section].1.len()
            &&& shown.entries == marks_of(m.catalog[section].1, m.kind)
            &&& m.catalog[section].0 is Workloads ==> shown.open
        },
{
}

/// A name stands out, a status has its tone, everything else is muted, and what is
/// missing always is. A header shows how its column is sorted, and no other one.
pub proof fn cells_and_headers_show_what_they_are(
    header: Seq<char>,
    text: Seq<char>,
    index: usize,
    descending: bool,
    other: int,
)
    ensures
        paint_of(header, None) == Paint::Muted,
        header == "Status"@ ==> paint_of(header, Some(text)) == Paint::Tone(tone_of(text)),
        header == "Name"@ ==> paint_of(header, Some(text)) == Paint::Foreground,
        header != "Status"@ && header != "Name"@ ==> paint_of(header, Some(text)) == Paint::Muted,
        shown_sort(Sort::Natural, other) == ColumnSort::Default,
        shown_sort(Sort::ByColumn { index, descending: true }, index as int)
            == ColumnSort::Descending,
        shown_sort(Sort::ByColumn { index, descending: false }, index as int)
            == ColumnSort::Ascending,
        other != index ==> shown_sort(Sort::ByColumn { index, descending }, other)
            == ColumnSort::Default,
{
    reveal_strlit("Status");
    reveal_strlit("Name");
    assert("Status"@.len() == 6 && "Name"@.len() == 4);
}

/// Where the kinds of the core stand: in which section, and how far up in it.
pub proof fn kinds_of_the_core_have_their_places()
    ensures
        place_of(""@, "Pod"@) == (Category::Workloads, 0u8),
        place_of(""@, "ReplicationController"@) == (Category::Workloads, 6u8),
        place_of(""@, "ConfigMap"@) == (Category::Config, 0u8),
        place_of(""@, "Secret"@) == (Category::Config, 1u8),
        place_of(""@, "ResourceQuota"@) == (Category::Config, 2u8),
        place_of(""@, "LimitRange"@) == (Category::Config, 2u8),
        place_of(""@, "Service"@) == (Category::Network, 0u8),
        place_of(""@, "Endpoints"@) == (Category::Network, 4u8),
        place_of(""@, "PersistentVolumeClaim"@) == (Category::Storage, 0u8),
        place_of(""@, "PersistentVolume"@) == (Category::Storage, 1u8),
        place_of(""@, "ServiceAccount"@) == (Category::AccessControl, 0u8),
        place_of(""@, "Node"@) == (Category::Cluster, 0u8),
        place_of(""@, "Namespace"@) == (Category::Cluster, 1u8),
        place_of(""@, "Event"@) == (Category::Cluster, 2u8),
        place_of(""@, "ComponentStatus"@) == (Category::Cluster, 6u8),
{
    reveal_strlit("Pod");
    reveal_strlit("ReplicationController");
    reveal_strlit("ConfigMap");
    reveal_strlit("Secret");
    reveal_strlit("ResourceQuota");
    reveal_strlit("LimitRange");
    reveal_strlit("Service");
    reveal_strlit("Endpoints");
    reveal_strlit("PersistentVolumeClaim");
    reveal_strlit("PersistentVolume");
    reveal_strlit("ServiceAccount");
    reveal_strlit("Node");
    reveal_strlit("Namespace");
    reveal_strlit("Event");
    reveal_strlit("ComponentStatus");
    assert("Pod"@.len() == 3 && "ReplicationController"@.len() == 21 &&
        "ConfigMap"@.len() == 9 && "Secret"@.len() == 6 && "ResourceQuota"@.len() == 13 &&
        "LimitRange"@.len() == 10 && "Service"@.len() == 7 && "Endpoints"@.len() == 9 &&
        "PersistentVolumeClaim"@.len() == 21 && "PersistentVolume"@.len() == 16 &&
        "ServiceAccount"@.len() == 14 && "Node"@.len() == 4 && "Namespace"@.len() == 9 &&
        "Event"@.len() == 5 && "ComponentStatus"@.len() == 15);
    assert("ReplicationController"@[0] == 'R' && "PersistentVolumeClaim"@[0] == 'P');
    assert("ConfigMap"@[0] == 'C' && "Endpoints"@[0] == 'E');
    assert("ConfigMap"@[0] == 'C' && "Namespace"@[0] == 'N');
    assert("Endpoints"@[0] == 'E' && "Namespace"@[0] == 'N');
}

/// Where the kinds of the other built-in groups stand. What has no place of its own
/// is custom, but for storage.
pub proof fn kinds_of_other_groups_have_their_places(name: Seq<char>)
    ensures
        place_of("apps"@, "Deployment"@) == (Category::Workloads, 1u8),
        place_of("apps"@, "StatefulSet"@) == (Category::Workloads, 2u8),
        place_of("apps"@, "DaemonSet"@) == (Category::Workloads, 3u8),
        place_of("apps"@, "ReplicaSet"@) == (Category::Workloads, 4u8),
        place_of("apps"@, "ControllerRevision"@) == (Category::Workloads, 6u8),
        place_of("batch"@, "Job"@) == (Category::Workloads, 5u8),
        place_of("batch"@, "CronJob"@) == (Category::Workloads, 5u8),
        place_of("autoscaling"@, "HorizontalPodAutoscaler"@) == (Category::Config, 2u8),
        place_of("policy"@, "PodDisruptionBudget"@) == (Category::Config, 2u8),
        place_of("scheduling.k8s.io"@, "PriorityClass"@) == (Category::Config, 3u8),
        place_of("node.k8s.io"@, "RuntimeClass"@) == (Category::Config, 3u8),
        place_of("coordination.k8s.io"@, "Lease"@) == (Category::Config, 4u8),
        place_of("admissionregistration.k8s.io"@, "MutatingWebhookConfiguration"@) == (
        Category::Config, 4u8),
        place_of("admissionregistration.k8s.io"@, "ValidatingWebhookConfiguration"@) == (
        Category::Config, 4u8),
        place_of("networking.k8s.io"@, "Ingress"@) == (Category::Network, 1u8),
        place_of("networking.k8s.io"@, "NetworkPolicy"@) == (Category::Network, 2u8),
        place_of("networking.k8s.io"@, "IngressClass"@) == (Category::Network, 3u8),
        place_of("discovery.k8s.io"@, "EndpointSlice"@) == (Category::Network, 4u8),
        place_of("storage.k8s.io"@, "StorageClass"@) == (Category::Storage, 2u8),
        place_of("rbac.authorization.k8s.io"@, "Role"@) == (Category::AccessControl, 1u8),
        place_of("rbac.authorization.k8s.io"@, "RoleBinding"@) == (Category::AccessControl, 2u8),
        place_of("rbac.authorization.k8s.io"@, "ClusterRole"@) == (Category::AccessControl, 3u8),
        place_of("rbac.authorization.k8s.io"@, "ClusterRoleBinding"@) == (
        Category::AccessControl, 4u8),
        place_of("certificates.k8s.io"@, "CertificateSigningRequest"@) == (
        Category::AccessControl, 5u8),
        place_of("events.k8s.io"@, "Event"@) == (Category::Cluster, 3u8),
        place_of("apiextensions.k8s.io"@, "CustomResourceDefinition"@) == (Category::Cluster, 4u8),
        place_of("apiregistration.k8s.io"@, "APIService"@) == (Category::Cluster, 5u8),
        name != "Deployment"@ && name != "StatefulSet"@ && name != "DaemonSet"@ && name
            != "ReplicaSet"@ && name != "ControllerRevision"@ ==> place_of("apps"@, name) == (
        Category::Custom, 0u8),
        name != "Job"@ && name != "CronJob"@ ==> place_of("batch"@, name) == (Category::Custom, 0u8),
        name != "StorageClass"@ ==> place_of("storage.k8s.io"@, name) == (Category::Storage, 3u8),
{
    reveal_strlit("apps");
    reveal_strlit("batch");
    reveal_strlit("autoscaling");
    reveal_strlit("policy");
    reveal_strlit("scheduling.k8s.io");
    reveal_strlit("node.k8s.io");
    reveal_strlit("coordination.k8s.io");
    reveal_strlit("admissionregistration.k8s.io");
    reveal_strlit("networking.k8s.io");
    reveal_strlit("discovery.k8s.io");
    reveal_strlit("storage.k8s.io");
    reveal_strlit("rbac.authorization.k8s.io");
    reveal_strlit("certificates.k8s.io");
    reveal_strlit("events.k8s.io");
    reveal_strlit("apiextensions.k8s.io");
    reveal_strlit("apiregistration.k8s.io");
    assert("apps"@.len() == 4 && "batch"@.len() == 5 && "autoscaling"@.len() == 11 &&
        "policy"@.len() == 6 && "scheduling.k8s.io"@.len() == 17 && "node.k8s.io"@.len() == 11 &&
        "coordination.k8s.io"@.len() == 19 && "admissionregistration.k8s.io"@.len() == 28 &&
        "networking.k8s.io"@.len() == 17 && "discovery.k8s.io"@.len() == 16 &&
        "storage.k8s.io"@.len() == 14 && "rbac.authorization.k8s.io"@.len() == 25 &&
        "certificates.k8s.io"@.len() == 19 && "events.k8s.io"@.len() == 13 &&
        "apiextensions.k8s.io"@.len() == 20 && "apiregistration.k8s.io"@.len() == 22);
    assert("autoscaling"@[0] == 'a' && "node.k8s.io"@[0] == 'n');
    assert("scheduling.k8s.io"@[0] == 's' && "networking.k8s.io"@[0] == 'n');
    assert("coordination.k8s.io"@[1] == 'o' && "certificates.k8s.io"@[1] == 'e');
    reveal_strlit("Deployment");
    reveal_strlit("StatefulSet");
    reveal_strlit("DaemonSet");
    reveal_strlit("ReplicaSet");
    reveal_strlit("ControllerRevision");
    assert("Deployment"@.len() == 10 && "StatefulSet"@.len() == 11 && "DaemonSet"@.len() == 9 &&
        "ReplicaSet"@.len() == 10 && "ControllerRevision"@.len() == 18);
    assert("Deployment"@[0] == 'D' && "ReplicaSet"@[0] == 'R');
    reveal_strlit("Job");
    reveal_strlit("CronJob");
    assert("Job"@.len() == 3 && "CronJob"@.len() == 7);
    reveal_strlit("MutatingWebhookConfiguration");
    reveal_strlit("ValidatingWebhookConfiguration");
    assert("MutatingWebhookConfiguration"@.len() == 28 &&
        "ValidatingWebhookConfiguration"@.len() == 30);
    reveal_strlit("Ingress");
    reveal_strlit("NetworkPolicy");
    reveal_strlit("IngressClass");
    assert("Ingress"@.len() == 7 && "NetworkPolicy"@.len() == 13 && "IngressClass"@.len() == 12);
    reveal_strlit("Role");
    reveal_strlit("RoleBinding");
    reveal_strlit("ClusterRole");
    reveal_strlit("ClusterRoleBinding");
    assert("Role"@.len() == 4 && "RoleBinding"@.len() == 11 && "ClusterRole"@.len() == 11 &&
        "ClusterRoleBinding"@.len() == 18);
    assert("RoleBinding"@[0] == 'R' && "ClusterRole"@[0] == 'C');
    reveal_strlit("");
}

proof fn counting(front: Seq<char>, tail: Seq<char>, k: int)
    requires
        0 <= k <= front.len(),
        forall|i: int| 0 <= i < front.len() ==> '0' <= #[trigger] front[i] <= '9',
    ensures
        counts_from(front + seq!['/'] + tail, k),
    decreases front.len() - k,
{
    let rest = front + seq!['/'] + tail;
    if k < front.len() {
        assert(rest[k] == front[k]);
        counting(front, tail, k + 1);
    } else {
        assert(rest[k] == '/');
    }
}

/// A pod that is being set up is on its way while it counts its containers, and
/// otherwise as well off as what holds it up.
pub proof fn setting_up_has_the_tone_of_what_holds_it_up(
    front: Seq<char>,
    tail: Seq<char>,
    reason: Seq<char>,
)
    requires
        front.len() > 0,
        forall|i: int| 0 <= i < front.len() ==> '0' <= #[trigger] front[i] <= '9',
        reason.len() > 0,
        !('0' <= reason[0] <= '9'),
        reason[0] != '/',
        reason[0] != ':',
    ensures
        tone_of("Init:"@ + (front + seq!['/'] + tail)) == Tone::Progressing,
        tone_of("Init:"@ + reason) == tone_of(reason),
{
    reveal_strlit("Init:");
    let count = front + seq!['/'] + tail;
    counting(front, tail, 0);
    let first = "Init:"@ + count;
    assert(first.skip(5) =~= count);
    assert("Init:"@.is_prefix_of(first));
    let second = "Init:"@ + reason;
    assert(second.skip(5) =~= reason);
    assert("Init:"@.is_prefix_of(second));
    assert(!counts_from(reason, 0));
    reveal_with_fuel(tone_of, 2);
}

/// Whether a text is plain for a search: nothing parts it and nothing escapes.
pub open spec fn plain_word(word: Seq<char>) -> bool {
    forall|i: int| 0 <= i < word.len() ==> #[trigger] word[i] != ' ' && word[i] != '\\'
}

proof fn measured(front: Seq<char>, word: Seq<char>)
    requires
        plain_word(word),
    ensures
        lengths(front + word).word == lengths(front).word + word.len(),
        lengths(front + word).total == lengths(front).total + word.len(),
        word.len() > 0 ==> !lengths(front + word).escaped,
        lengths(front + word).longest >= lengths(front).longest,
        lengths(front + word).longest == (if word.len() > 0 && lengths(front).word + word.len()
            > lengths(front).longest {
            lengths(front).word + word.len()
        } else {
            lengths(front).longest
        }),
    decreases word.len(),
{
    if word.len() == 0 {
        assert(front + word =~= front);
    } else {
        let most = word.drop_last();
        assert forall|i: int| 0 <= i < most.len() implies #[trigger] most[i] != ' ' && most[i]
            != '\\' by {
            assert(most[i] == word[i]);
        }
        measured(front, most);
        assert((front + word).drop_last() =~= front + most);
        assert((front + word).last() == word.last());
        assert(word[word.len() - 1] != ' ');
    }
}

/// Words up to the longest that the matcher takes are scored, each measured on its
/// own; a longer one matches nothing.
pub proof fn words_of_a_search_are_measured_alone(
    first: Seq<char>,
    second: Seq<char>,
    text: Seq<char>,
)
    requires
        plain_word(first),
        plain_word(second),
        0 < first.len(),
        byte_length(text) <= u32::MAX,
    ensures
        first.len() <= 2048 ==> score_of(first, text) == fuzzy_score(first, text),
        first.len() <= 2048 && second.len() <= 2048 ==> score_of(
            first + seq![' '] + second,
            text,
        ) == fuzzy_score(first + seq![' '] + second, text),
        first.len() > 2048 ==> score_of(first, text) is None,
        first.len() > 2048 ==> score_of(first + seq![' '] + second, text) is None,
{
    let nothing = Seq::<char>::empty();
    measured(nothing, first);
    assert(nothing + first =~= first);
    let parted = first + seq![' '];
    assert(parted.drop_last() =~= first);
    assert(parted.last() == ' ');
    measured(parted, second);
}

} // verus!
