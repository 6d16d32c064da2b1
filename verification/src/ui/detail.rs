//! The detail panel: everything about one object.
//!
//! Three tabs, and they answer three different questions. Overview is what the
//! object is, read out of the copy the table already has. YAML is what the API
//! server would hand you, which means fetching it again. Events is what the
//! cluster has said about it, which is almost always where the answer is when
//! something is wrong.
use std::sync::Arc;

use vstd::prelude::*;
use vstd::string::*;

use crate::base::decimal::{integer, signed};
use crate::base::dict::{row_below, Key};
use crate::base::json::{
    entry_models, field, find_entry, int_of, integer_at, items_of, lookup, model_of, models, part,
    string_at, text_of, Json, JsonView,
};
use crate::base::list::{kept, kept_bounds, kept_next};
use crate::base::meta::{held_pairs, pairs, MetaView};
use crate::base::sort::{
    by_position, positions_weak, sort, sorted_list, sorting_arranges, weak_order, Ranking,
};
use crate::base::text::{each, held, same, three, two};
use crate::base::time::{parsed_timestamp, timestamp_display, Timestamp};
use crate::columns::age::{age_at, format_age};
use crate::columns::event::{event_of, EventSummary, EventView};
use crate::k8s::discovery::{named, Kind, KindView};
use crate::k8s::resources::{core_resource, DynamicObject, ObjectView};
use crate::k8s::store::{
    applied_all, delta_views, ref_of, DeltaBatch, ObjectRef, RefView, ResourceStore, StoreView,
};
use crate::k8s::watch::{WatchKey, WatchKeyView};
use crate::ui::status::{tone, tone_of};
use crate::ui::theme::Tone;

verus! {

/// The tabs of the panel.
#[derive(Debug, Clone, Copy, PartialEq, Eq, Structural)]
pub enum DetailTab {
    Overview,
    Yaml,
    Events,
}

impl DetailTab {
    pub const ALL: [DetailTab; 3] = [DetailTab::Overview, DetailTab::Yaml, DetailTab::Events];

    pub fn label(&self) -> (r: &'static str)
        ensures
            r@ == (match self {
                DetailTab::Overview => "Overview"@,
                DetailTab::Yaml => "YAML"@,
                DetailTab::Events => "Events"@,
            }),
    {
        match self {
            DetailTab::Overview => "Overview",
            DetailTab::Yaml => "YAML",
            DetailTab::Events => "Events",
        }
    }
}

/// What the YAML tab has to show.
#[derive(Debug, PartialEq, Eq)]
pub enum Yaml {
    /// Nobody has opened the tab yet, so nothing has been fetched.
    Unopened,
    Loading,
    Ready(String),
    Failed(String),
}

/// Emitted when the panel wants to be closed.
pub struct DetailClosed;

/// What one container of a pod comes to.
#[derive(Debug, PartialEq, Eq)]
pub struct ContainerLine {
    pub name: String,
    pub image: String,
    pub ready: bool,
    pub restarts: i64,
    pub state: String,
}

/// What one container of a pod comes to, as a mathematical object.
pub struct ContainerView {
    pub name: Seq<char>,
    pub image: Seq<char>,
    pub ready: bool,
    pub restarts: int,
    pub state: Seq<char>,
}

impl View for ContainerLine {
    type V = ContainerView;

    open spec fn view(&self) -> ContainerView {
        ContainerView {
            name: self.name@,
            image: self.image@,
            ready: self.ready,
            restarts: self.restarts as int,
            state: self.state@,
        }
    }
}

/// What a list of containers stands for.
pub open spec fn container_views(list: Seq<ContainerLine>) -> Seq<ContainerView> {
    list.map_values(|c: ContainerLine| c@)
}

/// The word for a state with a reason of its own, which says more than the
/// state's name.
pub open spec fn reason_or(detail: JsonView, phase: Seq<char>) -> Seq<char> {
    match text_of(detail.get("reason"@)) {
        Some(reason) => if reason.len() > 0 {
            reason
        } else {
            phase
        },
        None => phase,
    }
}

/// How long a container has been running, where that is known.
pub open spec fn running_text(running: JsonView, now: int) -> Seq<char> {
    match text_of(running.get("startedAt"@)) {
        Some(started) => match parsed_timestamp(started) {
            Some(started) => "Running for "@ + age_at(now, started),
            None => "Running"@,
        },
        None => "Running"@,
    }
}

/// The one word a container's state reduces to.
pub open spec fn state_text(status: JsonView, now: int) -> Seq<char> {
    match status.get("state"@) {
        Some(JsonView::Object(state)) => match lookup(state, "waiting"@) {
            Some(detail) => reason_or(detail, "waiting"@),
            None => match lookup(state, "terminated"@) {
                Some(detail) => reason_or(detail, "terminated"@),
                None => match lookup(state, "running"@) {
                    Some(running) => running_text(running, now),
                    None => "Unknown"@,
                },
            },
        },
        _ => "Unknown"@,
    }
}

fn reason_of(detail: &Json, phase: &str) -> (r: String)
    ensures
        r@ == reason_or(detail@, phase@),
{
    match string_at(detail.get("reason")) {
        Some(reason) => if reason.is_empty() {
            phase.to_owned()
        } else {
            reason.to_owned()
        },
        None => phase.to_owned(),
    }
}

/// The one word a container's state reduces to, with the waiting or termination
/// reason when there is one: `CrashLoopBackOff` says more than `Waiting`.
pub fn container_state(status: &Json, now: &Timestamp) -> (r: String)
    ensures
        r@ == state_text(status@, now@),
{
    let state = match status.get("state") {
        Some(state) => match state.as_object() {
            Some(state) => state,
            None => return "Unknown".to_owned(),
        },
        None => return "Unknown".to_owned(),
    };
    if let Some(detail) = find_entry(state, "waiting") {
        return reason_of(detail, "waiting");
    }
    if let Some(detail) = find_entry(state, "terminated") {
        return reason_of(detail, "terminated");
    }
    if let Some(running) = find_entry(state, "running") {
        return match string_at(running.get("startedAt")) {
            Some(started) => match Timestamp::parse(started) {
                Some(started) => two("Running for ", format_age(&started, now).as_str()),
                None => "Running".to_owned(),
            },
            None => "Running".to_owned(),
        };
    }
    "Unknown".to_owned()
}

/// A field that is shown as it is: a text that is not empty, a number, a flag.
pub open spec fn scalar_of(e: (Seq<char>, JsonView)) -> Option<(Seq<char>, Seq<char>)> {
    match e.1 {
        JsonView::Str(text) => if text.len() > 0 {
            Some((e.0, text))
        } else {
            None
        },
        JsonView::Int(i) => Some((e.0, signed(i))),
        JsonView::Decimal(text) => Some((e.0, text)),
        JsonView::Bool(flag) => Some(
            (
                e.0,
                if flag {
                    "true"@
                } else {
                    "false"@
                },
            ),
        ),
        _ => None,
    }
}

pub open spec fn scalar_reader() -> spec_fn((Seq<char>, JsonView)) -> Option<
    (Seq<char>, Seq<char>),
> {
    |e: (Seq<char>, JsonView)| scalar_of(e)
}

/// The scalar fields of an object, flattened one level.
pub open spec fn scalars_of(node: Option<JsonView>) -> Seq<(Seq<char>, Seq<char>)> {
    match node {
        Some(JsonView::Object(entries)) => kept(entries, scalar_reader()),
        _ => Seq::empty(),
    }
}

fn scalar(value: &Json) -> (r: Option<String>)
    ensures
        forall|key: Seq<char>|
            scalar_of((key, value@)) == (match r {
                Some(text) => Some((key, text@)),
                None => None,
            }),
{
    match value {
        Json::Str(text) => if text.as_str().is_empty() {
            None
        } else {
            Some(text.clone())
        },
        Json::Int(i) => Some(integer(*i)),
        Json::Decimal(text) => Some(text.clone()),
        Json::Bool(flag) => Some(
            (if *flag {
                "true"
            } else {
                "false"
            }).to_owned(),
        ),
        _ => None,
    }
}

/// The scalar fields of an object, flattened one level.
///
/// Nested objects and arrays are left to the YAML tab; what is useful here is
/// the handful of numbers and strings that answer "what is it doing".
pub fn scalars(node: Option<&Json>) -> (out: Vec<(String, String)>)
    ensures
        pairs(out@) == scalars_of(model_of(node)),
{
    let mut out: Vec<(String, String)> = Vec::new();
    assert(pairs(out@) =~= Seq::empty());
    let fields = match node {
        Some(node) => match node.as_object() {
            Some(fields) => fields,
            None => return out,
        },
        None => return out,
    };
    let ghost all = entry_models(fields@);
    let mut i: usize = 0;
    proof {
        kept_bounds(all, scalar_reader());
    }
    while i < fields.len()
        invariant
            i <= fields.len(),
            all == entry_models(fields@),
            pairs(out@) == kept(all.take(i as int), scalar_reader()),
        decreases fields.len() - i,
    {
        proof {
            kept_next(all, i as int, scalar_reader());
            assert(all[i as int] == (fields@[i as int].0@, fields@[i as int].1@));
        }
        if let Some(text) = scalar(&fields[i].1) {
            let ghost before = out@;
            let ghost added = (fields@[i as int].0@, text@);
            out.push((fields[i].0.clone(), text));
            assert(pairs(out@) =~= pairs(before).push(added));
        }
        i += 1;
    }
    out
}

/// The status of the container with a name, the first from `k` on.
pub open spec fn status_named(statuses: Seq<JsonView>, name: Seq<char>, k: int) -> Option<JsonView>
    decreases statuses.len() - k,
{
    if k >= statuses.len() {
        None
    } else if text_of(statuses[k].get("name"@)) == Some(name) {
        Some(statuses[k])
    } else {
        status_named(statuses, name, k + 1)
    }
}

/// What a container comes to, merged with what its status says.
pub open spec fn container_of(
    container: JsonView,
    statuses: Seq<JsonView>,
    now: int,
) -> ContainerView {
    let name = match text_of(container.get("name"@)) {
        Some(name) => name,
        None => Seq::empty(),
    };
    let status = status_named(statuses, name, 0);
    ContainerView {
        name,
        image: match text_of(container.get("image"@)) {
            Some(image) => image,
            None => "<no image>"@,
        },
        ready: part(status, "ready"@) == Some(JsonView::Bool(true)),
        restarts: match int_of(part(status, "restartCount"@)) {
            Some(n) => n,
            None => 0,
        },
        state: match status {
            Some(status) => state_text(status, now),
            None => "Pending"@,
        },
    }
}

/// Whether a kind is the Pod of the core group.
pub open spec fn is_pod(kind: KindView) -> bool {
    kind.resource.kind == "Pod"@ && kind.resource.group.len() == 0
}

/// The containers of a Pod, merged with what their statuses say; nothing for any
/// other kind.
pub open spec fn containers_of(kind: KindView, data: JsonView, now: int) -> Option<
    Seq<ContainerView>,
> {
    if !is_pod(kind) {
        None
    } else {
        match part(data.get("spec"@), "containers"@) {
            Some(JsonView::Array(specs)) => Some(
                specs.map_values(
                    |c: JsonView|
                        container_of(
                            c,
                            items_of(part(data.get("status"@), "containerStatuses"@)),
                            now,
                        ),
                ),
            ),
            _ => None,
        }
    }
}

/// Whether a kind is the Pod of the core group.
pub fn shows_containers(kind: &Kind) -> (r: bool)
    ensures
        r == is_pod(kind@),
{
    same(kind.resource.kind.as_str(), "Pod") && kind.resource.group.as_str().is_empty()
}

fn find_status<'a>(statuses: &'a Vec<Json>, name: &str) -> (r: Option<&'a Json>)
    ensures
        model_of(r) == status_named(models(statuses@), name@, 0),
{
    let ghost all = models(statuses@);
    let mut i: usize = 0;
    while i < statuses.len()
        invariant
            i <= statuses.len(),
            all == models(statuses@),
            status_named(all, name@, 0) == status_named(all, name@, i as int),
        decreases statuses.len() - i,
    {
        assert(all[i as int] == statuses@[i as int]@);
        let found = match string_at(statuses[i].get("name")) {
            Some(own) => same(own, name),
            None => false,
        };
        if found {
            return Some(&statuses[i]);
        }
        i += 1;
    }
    None
}

fn container_line(container: &Json, statuses: Option<&Vec<Json>>, now: &Timestamp) -> (r:
    ContainerLine)
    ensures
        r@ == container_of(
            container@,
            match statuses {
                Some(list) => models(list@),
                None => Seq::empty(),
            },
            now@,
        ),
{
    let name: &str = match string_at(container.get("name")) {
        Some(name) => name,
        None => "",
    };
    proof {
        reveal_strlit("");
        assert(""@ =~= Seq::<char>::empty());
    }
    let status = match statuses {
        Some(list) => find_status(list, name),
        None => None,
    };
    let image: &str = match string_at(container.get("image")) {
        Some(image) => image,
        None => "<no image>",
    };
    let ready = match field(status, "ready") {
        Some(Json::Bool(ready)) => *ready,
        _ => false,
    };
    let restarts: i64 = match integer_at(field(status, "restartCount")) {
        Some(n) => n,
        None => 0,
    };
    let state = match status {
        Some(status) => container_state(status, now),
        None => "Pending".to_owned(),
    };
    ContainerLine { name: name.to_owned(), image: image.to_owned(), ready, restarts, state }
}

/// The containers of a Pod, merged with what their statuses say.
///
/// `None` for anything that is not a Pod, which is what keeps the section out of
/// a Deployment's overview.
pub fn containers(kind: &Kind, data: &Json, now: &Timestamp) -> (r: Option<Vec<ContainerLine>>)
    ensures
        (match r {
            Some(list) => Some(container_views(list@)),
            None => None,
        }) == containers_of(kind@, data@, now@),
{
    if !shows_containers(kind) {
        return None;
    }
    let specs = match field(data.get("spec"), "containers") {
        Some(specs) => match specs.as_array() {
            Some(specs) => specs,
            None => return None,
        },
        None => return None,
    };
    let statuses = match field(data.get("status"), "containerStatuses") {
        Some(statuses) => statuses.as_array(),
        None => None,
    };
    let ghost known = items_of(part(data@.get("status"@), "containerStatuses"@));
    assert(known == (match statuses {
        Some(list) => models(list@),
        None => Seq::empty(),
    }));
    let ghost all = models(specs@);
    let mut out: Vec<ContainerLine> = Vec::new();
    let mut i: usize = 0;
    while i < specs.len()
        invariant
            i <= specs.len(),
            out@.len() == i,
            all == models(specs@),
            known == (match statuses {
                Some(list) => models(list@),
                None => Seq::empty(),
            }),
            forall|k: int|
                0 <= k < i ==> (#[trigger] out@[k])@ == container_of(all[k], known, now@),
        decreases specs.len() - i,
    {
        assert(all[i as int] == specs@[i as int]@);
        out.push(container_line(&specs[i], statuses, now));
        i += 1;
    }
    assert(container_views(out@) =~= containers_of(kind@, data@, now@)->0);
    Some(out)
}

/// The tone of a container: healthy once it is ready, else that of its state.
pub fn container_tone(line: &ContainerLine) -> (r: Tone)
    ensures
        r == (if line.ready {
            Tone::Healthy
        } else {
            tone_of(line.state@)
        }),
{
    if line.ready {
        Tone::Healthy
    } else {
        tone(line.state.as_str())
    }
}

/// What is said of a container's restarts, where there are any.
pub fn restarts_note(line: &ContainerLine) -> (r: Option<String>)
    ensures
        held(r) == (if line.restarts > 0 {
            Some(signed(line.restarts as int) + " restarts"@)
        } else {
            None
        }),
{
    if line.restarts > 0 {
        Some(two(integer(line.restarts).as_str(), " restarts"))
    } else {
        None
    }
}

/// What a label or annotation shows.
pub open spec fn chip_text(key: Seq<char>, value: Seq<char>) -> Seq<char> {
    if value.len() == 0 {
        key
    } else {
        key + "="@ + value
    }
}

/// What a label or annotation shows.
pub fn chip(key: &str, value: &str) -> (r: String)
    ensures
        r@ == chip_text(key@, value@),
{
    if value.is_empty() {
        key.to_owned()
    } else {
        three(key, "=", value)
    }
}

/// What labels or annotations show, one by one: nothing where there are none.
pub open spec fn chip_texts(map: Option<Seq<(Seq<char>, Seq<char>)>>) -> Seq<Seq<char>> {
    match map {
        Some(map) => map.map_values(|e: (Seq<char>, Seq<char>)| chip_text(e.0, e.1)),
        None => Seq::empty(),
    }
}

fn chips(map: &Option<Vec<(String, String)>>) -> (out: Vec<String>)
    ensures
        each(out@) == chip_texts(held_pairs(*map)),
{
    let mut out: Vec<String> = Vec::new();
    match map {
        Some(map) => {
            let mut i: usize = 0;
            while i < map.len()
                invariant
                    i <= map.len(),
                    out@.len() == i,
                    forall|k: int|
                        0 <= k < i ==> (#[trigger] out@[k])@ == chip_text(map@[k].0@, map@[k].1@),
                decreases map.len() - i,
            {
                out.push(chip(map[i].0.as_str(), map[i].1.as_str()));
                i += 1;
            }
        },
        None => {},
    }
    assert(each(out@) =~= chip_texts(held_pairs(*map)));
    out
}

/// The first owner of an object.
pub open spec fn owner_of(meta: MetaView) -> Option<Seq<char>> {
    match meta.owner_references {
        Some(owners) => if owners.len() > 0 {
            Some(owners[0].kind + "/"@ + owners[0].name)
        } else {
            None
        },
        None => None,
    }
}

/// When an object was created, and how long ago that is.
pub open spec fn created_text(meta: MetaView, now: int) -> Option<Seq<char>> {
    match meta.creation_timestamp {
        Some(at) => Some(age_at(now, at) + " ago ("@ + (timestamp_display(at) + ")"@)),
        None => None,
    }
}

/// What optional texts with labels stand for.
pub open spec fn row_views(list: Seq<(String, Option<String>)>) -> Seq<
    (Seq<char>, Option<Seq<char>>),
> {
    list.map_values(|r: (String, Option<String>)| (r.0@, held(r.1)))
}

/// The rows of the metadata section. Absent values are shown rather than hidden:
/// that an object has no owner is information.
pub open spec fn metadata_rows(target: RefView, meta: MetaView, now: int) -> Seq<
    (Seq<char>, Option<Seq<char>>),
> {
    seq![
        ("Name"@, Some(target.name)),
        ("Namespace"@, target.namespace),
        ("Created"@, created_text(meta, now)),
        ("UID"@, meta.uid),
        ("Owner"@, owner_of(meta)),
    ]
}

/// Newer events first; those without a time last.
pub open spec fn newer() -> spec_fn(ObjectView, ObjectView) -> bool {
    |a: ObjectView, b: ObjectView|
        match (a.metadata.creation_timestamp, b.metadata.creation_timestamp) {
            (Some(a), Some(b)) => a > b,
            (Some(_), None) => true,
            _ => false,
        }
}

proof fn newer_weak()
    ensures
        weak_order(newer()),
{
}

/// Whether a list holds the objects of a store, by namespace and name.
pub open spec fn listed_by_name(list: Seq<ObjectView>, objects: Map<RefView, ObjectView>) -> bool {
    &&& forall|i: int|
        0 <= i < list.len() ==> objects.dom().contains(ref_of(#[trigger] list[i]))
            && objects[ref_of(list[i])] == list[i]
    &&& forall|k: RefView| #[trigger]
        objects.dom().contains(k) ==> exists|i: int|
            0 <= i < list.len() && ref_of(#[trigger] list[i]) == k
    &&& forall|i: int, j: int|
        0 <= i < j < list.len() ==> row_below(
            ObjectRef::row(ref_of(#[trigger] list[i])),
            ObjectRef::row(ref_of(#[trigger] list[j])),
        )
}

/// What a list of events stands for.
pub open spec fn event_views(list: Seq<EventSummary>) -> Seq<EventView> {
    list.map_values(|e: EventSummary| e@)
}

/// What events say, most recent first.
pub open spec fn events_text(list: Seq<ObjectView>, now: int) -> Seq<EventView> {
    sorted_list(list, newer()).map_values(|o: ObjectView| event_of(o.data, now))
}

/// The positions of a list of objects.
struct Timed<'a> {
    list: &'a Vec<&'a Arc<DynamicObject>>,
}

spec fn shared_views(list: Seq<&Arc<DynamicObject>>) -> Seq<ObjectView> {
    list.map_values(|o: &Arc<DynamicObject>| o@)
}

impl<'a> Ranking for Timed<'a> {
    closed spec fn count(&self) -> nat {
        self.list@.len()
    }

    closed spec fn order(&self) -> spec_fn(int, int) -> bool {
        by_position(shared_views(self.list@), newer())
    }

    fn precedes(&self, i: usize, j: usize) -> (r: bool) {
        assert(shared_views(self.list@)[i as int] == self.list@[i as int]@);
        assert(shared_views(self.list@)[j as int] == self.list@[j as int]@);
        let a = &self.list[i].metadata.creation_timestamp;
        let b = &self.list[j].metadata.creation_timestamp;
        match (a, b) {
            (Some(a), Some(b)) => a.after(b),
            (Some(_), None) => true,
            _ => false,
        }
    }
}

/// The detail panel.
pub struct DetailView {
    kind: Arc<Kind>,
    target: ObjectRef,
    /// The slimmed copy from the table's store, replaced as the watch updates it
    /// so that Overview stays live.
    object: Arc<DynamicObject>,
    tab: DetailTab,
    yaml: Yaml,
    events: ResourceStore,
    events_listed: bool,
    now: Timestamp,
}

/// The detail panel, as a mathematical object.
pub struct PanelView {
    pub kind: KindView,
    pub target: RefView,
    pub object: ObjectView,
    pub tab: DetailTab,
    pub yaml: Yaml,
    pub events: StoreView,
    pub events_listed: bool,
    pub now: int,
}

impl View for DetailView {
    type V = PanelView;

    closed spec fn view(&self) -> PanelView {
        PanelView {
            kind: self.kind@,
            target: self.target@,
            object: self.object@,
            tab: self.tab,
            yaml: self.yaml,
            events: self.events@,
            events_listed: self.events_listed,
            now: self.now@,
        }
    }
}

impl DetailView {
    pub fn new(kind: Arc<Kind>, object: Arc<DynamicObject>, now: Timestamp) -> (r: DetailView)
        ensures
            r@.kind == kind@,
            r@.target == ref_of(object@),
            r@.object == object@,
            r@.tab == DetailTab::Overview,
            r@.yaml is Unopened,
            r@.events.objects == Map::<RefView, ObjectView>::empty(),
            r@.events.revision == 0,
            !r@.events_listed,
            r@.now == now@,
    {
        DetailView {
            kind,
            target: ObjectRef::of(&object),
            object,
            tab: DetailTab::Overview,
            yaml: Yaml::Unopened,
            events: ResourceStore::new(),
            events_listed: false,
            now,
        }
    }

    pub fn target(&self) -> (r: &ObjectRef)
        ensures
            r@ == self@.target,
    {
        &self.target
    }

    /// The object this panel is about, as the table now knows it. Replacing it
    /// rather than rebuilding the panel keeps the tab and the events.
    pub fn refresh(&mut self, object: Arc<DynamicObject>)
        ensures
            final(self)@ == (PanelView { object: object@, ..old(self)@ }),
    {
        self.object = object;
    }

    /// The tab that is open.
    pub fn tab(&self) -> (r: DetailTab)
        ensures
            r == self@.tab,
    {
        self.tab
    }

    /// What the YAML tab has to show.
    pub fn yaml(&self) -> (r: &Yaml)
        ensures
            *r == self@.yaml,
    {
        &self.yaml
    }

    /// Opens a tab. Returns whether the object has to be fetched for it, which is
    /// the case when the YAML tab is opened for the first time.
    pub fn select(&mut self, tab: DetailTab) -> (fetch: bool)
        ensures
            fetch == (old(self)@.tab != tab && tab == DetailTab::Yaml && old(
                self,
            )@.yaml is Unopened),
            final(self)@.tab == tab,
            final(self)@ == (PanelView { tab, yaml: final(self)@.yaml, ..old(self)@ }),
            if fetch {
                final(self)@.yaml is Loading
            } else {
                final(self)@.yaml == old(self)@.yaml
            },
    {
        if self.tab == tab {
            return false;
        }
        self.tab = tab;
        if tab == DetailTab::Yaml && matches!(self.yaml, Yaml::Unopened) {
            self.yaml = Yaml::Loading;
            true
        } else {
            false
        }
    }

    /// Takes in the fetched object, rendered, or why there is none.
    pub fn loaded(&mut self, result: Result<String, String>)
        ensures
            final(self)@ == (PanelView { yaml: final(self)@.yaml, ..old(self)@ }),
            match result {
                Ok(text) => final(self)@.yaml == Yaml::Ready(text),
                Err(error) => final(self)@.yaml == Yaml::Failed(error),
            },
    {
        self.yaml = match result {
            Ok(text) => Yaml::Ready(text),
            Err(error) => Yaml::Failed(error),
        };
    }

    /// What to watch for the events about this object. Without a UID there is
    /// nothing to key on, and matching by name would show events about whatever
    /// held the name before.
    pub fn events_key(&self) -> (r: Option<WatchKey>)
        ensures
            match r {
                Some(key) => self@.object.metadata.uid matches Some(uid) && key@ == (WatchKeyView {
                    resource: core_resource("Event"@, "events"@),
                    namespace: self@.target.namespace,
                    labels: None,
                    fields: Some("involvedObject.uid="@ + uid),
                }),
                None => self@.object.metadata.uid is None,
            },
    {
        match &self.object.metadata.uid {
            Some(uid) => Some(
                WatchKey::events_about(uid.as_str(), self.target.namespace.clone()),
            ),
            None => None,
        }
    }

    /// Whether a batch of that many changes can be taken in.
    pub fn has_room(&self, changes: usize) -> (r: bool)
        ensures
            r == (self@.events.revision + changes <= u64::MAX),
    {
        self.events.has_room(changes)
    }

    /// Takes in a batch of events. Returns whether anything changed.
    pub fn take_events(&mut self, batch: DeltaBatch) -> (changed: bool)
        requires
            old(self)@.events.revision + batch@.len() <= u64::MAX,
        ensures
            final(self)@ == (PanelView {
                events: applied_all(old(self)@.events, delta_views(batch@)),
                events_listed: true,
                ..old(self)@
            }),
            changed == (final(self)@.events.revision > old(self)@.events.revision),
    {
        self.events_listed = true;
        self.events.apply_batch(batch)
    }

    /// Re-reads the clock.
    pub fn tick(&mut self, now: Timestamp)
        ensures
            final(self)@ == (PanelView { now: now@, ..old(self)@ }),
    {
        self.now = now;
    }

    /// What stands beside the name.
    pub fn subtitle(&self) -> (r: String)
        ensures
            r@ == (match self@.target.namespace {
                Some(namespace) => named(self@.kind) + " · "@ + namespace,
                None => named(self@.kind),
            }),
    {
        match &self.target.namespace {
            Some(namespace) => three(
                self.kind.display_name().as_str(),
                " · ",
                namespace.as_str(),
            ),
            None => self.kind.display_name(),
        }
    }

    /// The first owner of the object.
    pub fn owner(&self) -> (r: Option<String>)
        ensures
            held(r) == owner_of(self@.object.metadata),
    {
        match &self.object.metadata.owner_references {
            Some(owners) => {
                assert(crate::base::meta::owners(owners@).len() == owners@.len());
                if owners.len() > 0 {
                    assert(crate::base::meta::owners(owners@)[0] == owners@[0]@);
                    Some(three(owners[0].kind.as_str(), "/", owners[0].name.as_str()))
                } else {
                    None
                }
            },
            None => None,
        }
    }

    /// The rows of the metadata section.
    pub fn metadata(&self) -> (r: Vec<(String, Option<String>)>)
        ensures
            row_views(r@) == metadata_rows(self@.target, self@.object.metadata, self@.now),
    {
        let created = match &self.object.metadata.creation_timestamp {
            Some(at) => Some(
                three(
                    format_age(at, &self.now).as_str(),
                    " ago (",
                    two(at.display().as_str(), ")").as_str(),
                ),
            ),
            None => None,
        };
        let mut rows: Vec<(String, Option<String>)> = Vec::new();
        rows.push(("Name".to_owned(), Some(self.target.name.clone())));
        rows.push(("Namespace".to_owned(), self.target.namespace.clone()));
        rows.push(("Created".to_owned(), created));
        rows.push(("UID".to_owned(), self.object.metadata.uid.clone()));
        rows.push(("Owner".to_owned(), self.owner()));
        assert(row_views(rows@) =~= metadata_rows(
            self@.target,
            self@.object.metadata,
            self@.now,
        ));
        rows
    }

    /// What the labels show.
    pub fn labels(&self) -> (r: Vec<String>)
        ensures
            each(r@) == chip_texts(self@.object.metadata.labels),
    {
        chips(&self.object.metadata.labels)
    }

    /// What the annotations show.
    pub fn annotations(&self) -> (r: Vec<String>)
        ensures
            each(r@) == chip_texts(self@.object.metadata.annotations),
    {
        chips(&self.object.metadata.annotations)
    }

    /// The containers of the object, where it is a Pod.
    pub fn containers(&self) -> (r: Option<Vec<ContainerLine>>)
        ensures
            (match r {
                Some(list) => Some(container_views(list@)),
                None => None,
            }) == containers_of(self@.kind, self@.object.data, self@.now),
    {
        containers(&self.kind, &self.object.data, &self.now)
    }

    /// The rows of the status section.
    pub fn status(&self) -> (r: Vec<(String, String)>)
        ensures
            pairs(r@) == scalars_of(self@.object.data.get("status"@)),
    {
        scalars(self.object.data.get("status"))
    }

    /// What stands in place of the YAML while there is none.
    pub fn yaml_notice(&self) -> (r: Option<(Tone, String)>)
        ensures
            match self@.yaml {
                Yaml::Ready(_) => r is None,
                Yaml::Failed(error) => r matches Some((tone, text)) && tone == Tone::Critical
                    && text@ == error@,
                _ => r matches Some((tone, text)) && tone == Tone::Progressing && text@
                    == "Fetching the object…"@,
            },
    {
        match &self.yaml {
            Yaml::Ready(_) => None,
            Yaml::Failed(error) => Some((Tone::Critical, error.clone())),
            _ => Some((Tone::Progressing, "Fetching the object…".to_owned())),
        }
    }

    /// What stands in place of the events while there are none. Kubernetes drops
    /// events after an hour by default, so that is the ordinary state of a
    /// healthy object.
    pub fn events_notice(&self) -> (r: Option<(Tone, String)>)
        ensures
            if !self@.events_listed {
                r matches Some((tone, text)) && tone == Tone::Progressing && text@
                    == "Looking for events…"@
            } else if self@.events.objects.dom().len() == 0 {
                r matches Some((tone, text)) && tone == Tone::Unknown && text@
                    == "No events. Kubernetes keeps them for about an hour."@
            } else {
                r is None
            },
    {
        if !self.events_listed {
            Some((Tone::Progressing, "Looking for events…".to_owned()))
        } else if self.events.is_empty() {
            Some(
                (Tone::Unknown, "No events. Kubernetes keeps them for about an hour.".to_owned()),
            )
        } else {
            None
        }
    }

    /// The events, most recent first, which is the order somebody diagnosing
    /// reads in.
    pub fn events(&self) -> (out: Vec<EventSummary>)
        ensures
            exists|list: Seq<ObjectView>| #[trigger]
                listed_by_name(list, self@.events.objects) && event_views(out@) == events_text(
                    list,
                    self@.now,
                ),
    {
        let entries = self.events.iter();
        let mut objects: Vec<&Arc<DynamicObject>> = Vec::new();
        let mut i: usize = 0;
        while i < entries.len()
            invariant
                i <= entries@.len(),
                objects@.len() == i,
                forall|k: int| 0 <= k < i ==> *(#[trigger] objects@[k]) == *entries@[k].1,
            decreases entries.len() - i,
        {
            objects.push(entries[i].1);
            i += 1;
        }
        let ghost list = shared_views(objects@);
        proof {
            let map = self@.events.objects;
            assert forall|i: int| 0 <= i < list.len() implies ref_of(#[trigger] list[i])
                == entries@[i].0@ && map.dom().contains(ref_of(list[i])) && map[ref_of(list[i])]
                == list[i] by {
                assert(*objects@[i] == *entries@[i].1);
                assert(map.dom().contains(entries@[i].0@));
                assert(map[entries@[i].0@] == entries@[i].1@);
            }
            assert forall|k: RefView| #[trigger] map.dom().contains(k) implies exists|i: int|
                0 <= i < list.len() && ref_of(#[trigger] list[i]) == k by {
                let i = choose|i: int| 0 <= i < entries@.len() && (#[trigger] entries@[i]).0@ == k;
                assert(ref_of(list[i]) == k);
            }
            assert forall|i: int, j: int| 0 <= i < j < list.len() implies row_below(
                ObjectRef::row(ref_of(#[trigger] list[i])),
                ObjectRef::row(ref_of(#[trigger] list[j])),
            ) by {
                assert(row_below(ObjectRef::row(entries@[i].0@), ObjectRef::row(entries@[j].0@)));
            }
            assert(listed_by_name(list, map));
            newer_weak();
            positions_weak(list, newer());
        }
        let order = sort(objects.len(), &Timed { list: &objects });
        let mut out: Vec<EventSummary> = Vec::new();
        let mut k: usize = 0;
        while k < order.len()
            invariant
                k <= order@.len(),
                out@.len() == k,
                order@.len() == objects@.len(),
                list == shared_views(objects@),
                forall|m: int| 0 <= m < order@.len() ==> (#[trigger] order@[m]) < objects@.len(),
                forall|m: int|
                    0 <= m < k ==> (#[trigger] out@[m])@ == event_of(
                        list[order@[m] as int].data,
                        self@.now,
                    ),
            decreases order.len() - k,
        {
            out.push(EventSummary::read(&objects[order[k]].data, &self.now));
            k += 1;
        }
        proof {
            sorting_arranges(list, order@, newer());
            assert(event_views(out@) =~= events_text(list, self@.now));
        }
        out
    }
}

/// The tone of an event.
pub fn event_tone(event: &EventSummary) -> (r: Tone)
    ensures
        r == (if event.kind@ == "Warning"@ {
            Tone::Warning
        } else {
            Tone::Unknown
        }),
{
    if event.is_warning() {
        Tone::Warning
    } else {
        Tone::Unknown
    }
}

/// How long ago an event was last seen.
pub fn ago_note(event: &EventSummary) -> (r: String)
    ensures
        r@ == event.last_seen@ + " ago"@,
{
    two(event.last_seen.as_str(), " ago")
}

/// How often an event happened, where that was more than once.
pub fn repeat_note(event: &EventSummary) -> (r: Option<String>)
    ensures
        held(r) == (if event.count > 1 {
            Some("×"@ + signed(event.count as int))
        } else {
            None
        }),
{
    if event.count > 1 {
        Some(two("×", integer(event.count).as_str()))
    } else {
        None
    }
}

} // verus!
