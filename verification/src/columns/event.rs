//! What an Event says, in the two places that show one.
//!
//! Events are the one built-in kind whose table has no Name column: an event's
//! name is a hash with a timestamp in it, and kubectl does not print it. What
//! matters is when, how bad, why, about what, and the message, so that is the
//! table, and the same reading is what the detail panel lists.
//!
//! The awkward part is "when". An Event carries up to four timestamps depending
//! on its age and on whether it repeated, and reading the wrong one shows a
//! five-day-old time for something that happened a minute ago.
use vstd::prelude::*;

use crate::base::json::{
    field, int_of, integer_at, model_of, part, string_at, text_of, Json, JsonView,
};
use crate::base::text::{held, lower, lower_case, same, three};
use crate::base::time::{instant_of, parsed_timestamp, Timestamp};
use crate::columns::age::{age_at, format_age};
use crate::columns::builtin::{filled, Computed};
use crate::columns::{
    column, column_models, ColumnDef, ColumnSet, ColumnSource, ColumnView, ColumnWidth, SourceView,
};

verus! {

/// One event, as both views read it.
#[derive(Debug, PartialEq, Eq)]
pub struct EventSummary {
    /// How long ago it last happened, already formatted.
    pub last_seen: String,
    /// `Normal` or `Warning`.
    pub kind: String,
    pub reason: String,
    /// `pod/api-7f9`, the way you would type it back into `kubectl get`.
    pub object: String,
    pub message: String,
    /// How many times it has happened.
    pub count: i64,
}

/// One event, as a mathematical object.
pub struct EventView {
    pub last_seen: Seq<char>,
    pub kind: Seq<char>,
    pub reason: Seq<char>,
    pub object: Seq<char>,
    pub message: Seq<char>,
    pub count: int,
}

impl View for EventSummary {
    type V = EventView;

    open spec fn view(&self) -> EventView {
        EventView {
            last_seen: self.last_seen@,
            kind: self.kind@,
            reason: self.reason@,
            object: self.object@,
            message: self.message@,
            count: self.count as int,
        }
    }
}

/// The instant that a text names, where it is there and names one.
pub open spec fn instant_in(text: Option<Seq<char>>) -> Option<int> {
    match text {
        Some(text) => parsed_timestamp(text),
        None => None,
    }
}

/// The most recent time an event happened: the last of a series, else the last
/// time, else the time of a single event, else the first time; a text that is
/// empty or names no instant is passed over.
pub open spec fn last_time(j: JsonView) -> Option<int> {
    let series = instant_in(filled(text_of(part(j.get("series"@), "lastObservedTime"@))));
    let last = instant_in(filled(text_of(j.get("lastTimestamp"@))));
    let single = instant_in(filled(text_of(j.get("eventTime"@))));
    let first = instant_in(filled(text_of(j.get("firstTimestamp"@))));
    if series is Some {
        series
    } else if last is Some {
        last
    } else if single is Some {
        single
    } else {
        first
    }
}

/// How often an event happened: once where nothing says so.
pub open spec fn occurrences(j: JsonView) -> int {
    let counted = match part(j.get("series"@), "count"@) {
        Some(count) => Some(count),
        None => j.get("count"@),
    };
    match int_of(counted) {
        Some(count) => count,
        None => 1,
    }
}

/// What an event is about: the kind in lower case and the name, or just the
/// kind where it names no object.
pub open spec fn about(j: JsonView) -> Option<Seq<char>> {
    let object = j.get("involvedObject"@);
    match text_of(part(object, "kind"@)) {
        Some(kind) => match text_of(part(object, "name"@)) {
            Some(name) => Some(lower_case(kind) + "/"@ + name),
            None => Some(lower_case(kind)),
        },
        None => None,
    }
}

/// A text, or the empty one.
pub open spec fn or_empty(text: Option<Seq<char>>) -> Seq<char> {
    match text {
        Some(text) => text,
        None => Seq::empty(),
    }
}

/// What an event says at `now`.
pub open spec fn event_of(j: JsonView, now: int) -> EventView {
    EventView {
        last_seen: match last_time(j) {
            Some(then) => age_at(now, then),
            None => Seq::empty(),
        },
        kind: or_empty(text_of(j.get("type"@))),
        reason: or_empty(text_of(j.get("reason"@))),
        object: or_empty(about(j)),
        message: or_empty(text_of(j.get("message"@))),
        count: occurrences(j),
    }
}

fn instant_at(j: Option<&Json>) -> (r: Option<Timestamp>)
    ensures
        instant_of(r) == instant_in(filled(text_of(model_of(j)))),
{
    match string_at(j) {
        Some(text) => if text.is_empty() {
            None
        } else {
            Timestamp::parse(text)
        },
        None => None,
    }
}

/// The most recent time this event happened.
pub fn last_seen(data: &Json) -> (r: Option<Timestamp>)
    ensures
        instant_of(r) == last_time(data@),
{
    let series = instant_at(field(data.get("series"), "lastObservedTime"));
    if series.is_some() {
        return series;
    }
    let last = instant_at(data.get("lastTimestamp"));
    if last.is_some() {
        return last;
    }
    let single = instant_at(data.get("eventTime"));
    if single.is_some() {
        return single;
    }
    instant_at(data.get("firstTimestamp"))
}

fn count(data: &Json) -> (r: i64)
    ensures
        r == occurrences(data@),
{
    let counted = match field(data.get("series"), "count") {
        Some(count) => Some(count),
        None => data.get("count"),
    };
    match integer_at(counted) {
        Some(count) => count,
        None => 1,
    }
}

/// `pod/api-7f9`, or just the kind when the event names no object.
fn involved_object(data: &Json) -> (r: Option<String>)
    ensures
        held(r) == about(data@),
{
    let object = data.get("involvedObject");
    match string_at(field(object, "kind")) {
        Some(kind) => {
            let kind = lower(kind);
            match string_at(field(object, "name")) {
                Some(name) => Some(three(kind.as_str(), "/", name)),
                None => Some(kind),
            }
        },
        None => None,
    }
}

fn text(j: Option<&Json>) -> (r: String)
    ensures
        r@ == or_empty(text_of(model_of(j))),
{
    match string_at(j) {
        Some(text) => text.to_owned(),
        None => String::new(),
    }
}

impl EventSummary {
    pub fn read(data: &Json, now: &Timestamp) -> (r: EventSummary)
        ensures
            r@ == event_of(data@, now@),
    {
        EventSummary {
            last_seen: match last_seen(data) {
                Some(then) => format_age(&then, now),
                None => String::new(),
            },
            kind: text(data.get("type")),
            reason: text(data.get("reason")),
            object: match involved_object(data) {
                Some(object) => object,
                None => String::new(),
            },
            message: text(data.get("message")),
            count: count(data),
        }
    }

    /// Whether this is something to look at rather than something that
    /// happened.
    pub fn is_warning(&self) -> (r: bool)
        ensures
            r == (self.kind@ == "Warning"@),
    {
        same(self.kind.as_str(), "Warning")
    }
}

/// `kubectl get events`, which starts at Last Seen rather than at Name.
pub open spec fn event_columns(namespaced: bool) -> Seq<ColumnView> {
    let seen = seq![
        column(
            "Last Seen"@,
            ColumnWidth::Fixed(880),
            SourceView::Computed(Computed::EventLastSeen),
        ),
    ];
    let namespace = if namespaced {
        seq![column("Namespace"@, ColumnWidth::Flex(10), SourceView::Namespace)]
    } else {
        Seq::empty()
    };
    seen + namespace + seq![
        column("Type"@, ColumnWidth::Fixed(880), SourceView::Computed(Computed::EventType)),
        column("Reason"@, ColumnWidth::Fixed(1680), SourceView::Computed(Computed::EventReason)),
        column("Object"@, ColumnWidth::Flex(16), SourceView::Computed(Computed::EventObject)),
        column("Message"@, ColumnWidth::Flex(40), SourceView::Computed(Computed::EventMessage)),
    ]
}

/// `kubectl get events`, which starts at Last Seen rather than at Name.
pub fn column_set(namespaced: bool) -> (r: ColumnSet)
    ensures
        r@ == event_columns(namespaced),
{
    let mut columns: Vec<ColumnDef> = Vec::new();
    columns.push(
        ColumnDef::new(
            "Last Seen",
            ColumnWidth::Fixed(880),
            ColumnSource::Computed(Computed::EventLastSeen),
        ),
    );
    if namespaced {
        columns.push(ColumnDef::new("Namespace", ColumnWidth::Flex(10), ColumnSource::Namespace));
    }
    columns.push(
        ColumnDef::new(
            "Type",
            ColumnWidth::Fixed(880),
            ColumnSource::Computed(Computed::EventType),
        ),
    );
    columns.push(
        ColumnDef::new(
            "Reason",
            ColumnWidth::Fixed(1680),
            ColumnSource::Computed(Computed::EventReason),
        ),
    );
    columns.push(
        ColumnDef::new(
            "Object",
            ColumnWidth::Flex(16),
            ColumnSource::Computed(Computed::EventObject),
        ),
    );
    columns.push(
        ColumnDef::new(
            "Message",
            ColumnWidth::Flex(40),
            ColumnSource::Computed(Computed::EventMessage),
        ),
    );
    assert(column_models(columns@) =~= event_columns(namespaced));
    ColumnSet { columns }
}

} // verus!
