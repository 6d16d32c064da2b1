//! The resource table.
//!
//! One table shows any kind: it holds a [`ColumnSet`] and a [`ResourceStore`],
//! and knows nothing about Pods. The store is a map, the table needs an order,
//! and rebuilding that order is the only work here that scales with cluster
//! size. It happens once per incoming batch and never per row.
use std::sync::Arc;

use vstd::prelude::*;

use crate::base::decimal::{digits, parse_unsigned};
use crate::base::dict::{row_below, row_below_total, Key};
use crate::base::list::ordered_lists_agree;
use crate::base::sort::{ahead, by_position, positions_weak, sort, weak_order, Ranking};
use crate::base::text::{
    chars, each, lent, less, lower, lower_case, precedes, precedes_irreflexive, precedes_total,
    precedes_transitive, same, spelled,
};
use crate::base::time::{whole_seconds, Timestamp};
use crate::columns::{
    displayed, resolved, Cell, CellValue, ColumnDef, ColumnSet, ColumnSource, ColumnView,
    ColumnWidth, SourceView,
};
use crate::k8s::resources::{DynamicObject, ObjectView};
use crate::k8s::store::{
    applied_all, applied_all_in, delta_views, ref_text, DeltaBatch, ObjectRef, RefView,
    ResourceStore, StoreView,
};
use crate::ui::fuzzy::{
    best_places, every_match_is_ranked_once, places_are_ordered, rank_scores, score_all, score_of,
    scores_of, Searcher,
};
use crate::ui::status::{tone, tone_of};
use crate::ui::theme::Tone;

verus! {

/// How a column is sorted.
#[derive(Debug, Clone, Copy, PartialEq, Eq, Structural)]
pub enum ColumnSort {
    Default,
    Ascending,
    Descending,
}

/// How the rows are ordered.
#[derive(Debug, Clone, Copy, PartialEq, Eq, Structural)]
pub enum Sort {
    /// Namespace, then name: what `kubectl get -A` prints.
    Natural,
    ByColumn { index: usize, descending: bool },
}

/// What a cell sorts by.
///
/// Cells are strings, but plenty of them are numbers wearing a suffix
/// (`5 (8d ago)`, `2/3`). Sorting those as text puts `10` before `5`.
#[derive(Debug, PartialEq, Eq)]
pub enum SortKey {
    /// A leading run of digits, or a timestamp in seconds.
    Number(i64),
    Text(String),
    /// Absent values sort after everything else, so that an ascending sort leads
    /// with the rows that have something to show.
    Missing,
}

/// What a cell sorts by, as a mathematical object.
pub enum SortView {
    Number(int),
    Text(Seq<char>),
    Missing,
}

impl View for SortKey {
    type V = SortView;

    open spec fn view(&self) -> SortView {
        match self {
            SortKey::Number(n) => SortView::Number(*n as int),
            SortKey::Text(text) => SortView::Text(text@),
            SortKey::Missing => SortView::Missing,
        }
    }
}

/// Numbers by size, then texts in order, then what is missing.
pub open spec fn key_below(a: SortView, b: SortView) -> bool {
    match (a, b) {
        (SortView::Number(a), SortView::Number(b)) => a < b,
        (SortView::Number(_), _) => true,
        (SortView::Text(a), SortView::Text(b)) => precedes(a, b),
        (SortView::Text(_), SortView::Missing) => true,
        _ => false,
    }
}

pub open spec fn key_order() -> spec_fn(SortView, SortView) -> bool {
    |a: SortView, b: SortView| key_below(a, b)
}

/// The order of keys is one that a sort takes, and leaves only equal keys open.
pub proof fn key_order_weak()
    ensures
        weak_order(key_order()),
        forall|a: SortView, b: SortView|
            !#[trigger] key_below(a, b) && !#[trigger] key_below(b, a) ==> a == b,
{
    let before = key_order();
    assert forall|a: SortView| !#[trigger] before(a, a) by {
        if let SortView::Text(x) = a {
            precedes_irreflexive(x);
        }
    }
    assert forall|a: SortView, b: SortView, c: SortView| #[trigger]
        before(a, b) && #[trigger] before(b, c) implies before(a, c) by {
        if let (SortView::Text(x), SortView::Text(y), SortView::Text(z)) = (a, b, c) {
            precedes_transitive(x, y, z);
        }
    }
    assert forall|a: SortView, b: SortView, c: SortView| #[trigger] before(a, c) implies before(
        a,
        b,
    ) || #[trigger] before(b, c) by {
        if let (SortView::Text(x), SortView::Text(y), SortView::Text(z)) = (a, b, c) {
            precedes_total(x, y);
            if !precedes(x, y) && x != y {
                precedes_transitive(y, x, z);
            }
        }
    }
    assert forall|a: SortView, b: SortView|
        !#[trigger] key_below(a, b) && !#[trigger] key_below(b, a) implies a == b by {
        if let (SortView::Text(x), SortView::Text(y)) = (a, b) {
            precedes_total(x, y);
        }
    }
}

/// How many characters from `k` on are digits.
pub open spec fn digits_end(s: Seq<char>, k: int) -> int
    decreases s.len() - k,
{
    if k < s.len() && '0' <= s[k] && s[k] <= '9' {
        digits_end(s, k + 1)
    } else {
        k
    }
}

/// What a cell sorts by: the number it starts with, else its text without regard
/// to case. A number too long to be one is a text.
pub open spec fn sort_key_of(value: Option<Seq<char>>) -> SortView {
    match value {
        Some(text) => match digits(text.take(digits_end(text, 0))) {
            Some(n) => if n <= i64::MAX {
                SortView::Number(n as int)
            } else {
                SortView::Text(lower_case(text))
            },
            None => SortView::Text(lower_case(text)),
        },
        None => SortView::Missing,
    }
}

impl SortKey {
    pub fn of(value: &CellValue) -> (r: SortKey)
        ensures
            r@ == sort_key_of(value@),
    {
        match value {
            CellValue::Missing => SortKey::Missing,
            CellValue::Text(text) => {
                let cs = chars(text.as_str());
                let mut end: usize = 0;
                while end < cs.len() && '0' <= cs[end] && cs[end] <= '9'
                    invariant
                        end <= cs.len(),
                        digits_end(cs@, 0) == digits_end(cs@, end as int),
                        forall|k: int| 0 <= k < end ==> '0' <= #[trigger] cs@[k] <= '9',
                    decreases cs.len() - end,
                {
                    end += 1;
                }
                let number = spelled(&cs, 0, end);
                assert(number@ =~= text@.take(end as int));
                assert(number@.len() > 0 ==> number@[0] == cs@[0]);
                match parse_unsigned(number.as_str(), i64::MAX as u64) {
                    Some(n) => SortKey::Number(n as i64),
                    None => SortKey::Text(lower(text.as_str())),
                }
            },
        }
    }

    /// Whether one key comes before another.
    pub fn below(&self, other: &SortKey) -> (r: bool)
        ensures
            r == key_below(self@, other@),
    {
        match (self, other) {
            (SortKey::Number(a), SortKey::Number(b)) => *a < *b,
            (SortKey::Number(_), _) => true,
            (SortKey::Text(a), SortKey::Text(b)) => less(a.as_str(), b.as_str()),
            (SortKey::Text(_), SortKey::Missing) => true,
            _ => false,
        }
    }
}

/// The table, as a mathematical object.
pub struct TableView {
    pub columns: Seq<ColumnView>,
    pub store: StoreView,
    pub rows: Seq<RefView>,
    pub sort: Sort,
    pub now: int,
    /// What the rows are searched for; nothing hides nothing.
    pub filter: Seq<char>,
}

/// What an object's cell in a column sorts by. Age sorts by the timestamp behind
/// it: as text, `3d` and `38d` would be next to each other and in the wrong
/// order.
pub open spec fn object_key(source: SourceView, object: ObjectView, now: int) -> SortView {
    match source {
        SourceView::Age => match object.metadata.creation_timestamp {
            Some(created) => SortView::Number(whole_seconds(created)),
            None => SortView::Missing,
        },
        other => sort_key_of(resolved(other, object.metadata, object.data, now)),
    }
}

/// Whether a search leaves an object on screen: its namespace and name have to
/// match.
pub open spec fn matched(filter: Seq<char>, key: RefView) -> bool {
    filter.len() == 0 || score_of(filter, ref_text(key)) is Some
}

/// Whether one match comes before another: the better one first, then by what is
/// matched.
pub open spec fn match_before(filter: Seq<char>, a: RefView, b: RefView) -> bool {
    let x = score_of(filter, ref_text(a))->0;
    let y = score_of(filter, ref_text(b))->0;
    ||| x > y
    ||| x == y && (precedes(ref_text(a), ref_text(b)) || (ref_text(a) == ref_text(b) && row_below(
        ObjectRef::row(a),
        ObjectRef::row(b),
    )))
}

/// Whether one row comes before another where no column is sorted: by how well
/// they match while there is a search, and else by namespace and name.
pub open spec fn unsorted_before(t: TableView, a: RefView, b: RefView) -> bool {
    if t.filter.len() == 0 {
        row_below(ObjectRef::row(a), ObjectRef::row(b))
    } else {
        match_before(t.filter, a, b)
    }
}

/// Whether one row comes before another: by the sorted column where there is
/// one, and where that leaves it open by namespace and name. A descending sort
/// is the reverse of the ascending one.
pub open spec fn row_before(t: TableView, a: RefView, b: RefView) -> bool {
    match t.sort {
        Sort::ByColumn { index, descending } => if index < t.columns.len() {
            if descending {
                column_before(t, index as int, b, a)
            } else {
                column_before(t, index as int, a, b)
            }
        } else {
            unsorted_before(t, a, b)
        },
        Sort::Natural => unsorted_before(t, a, b),
    }
}

/// Whether one row comes before another by a column.
pub open spec fn column_before(t: TableView, index: int, a: RefView, b: RefView) -> bool {
    let source = t.columns[index].source;
    let x = object_key(source, t.store.objects[a], t.now);
    let y = object_key(source, t.store.objects[b], t.now);
    key_below(x, y) || (x == y && row_below(ObjectRef::row(a), ObjectRef::row(b)))
}

/// Whether an object is on screen.
pub open spec fn shown(t: TableView, key: RefView) -> bool {
    t.store.objects.dom().contains(key) && matched(t.filter, key)
}

/// Whether the rows are the objects on screen, each once.
pub open spec fn rows_complete(t: TableView) -> bool {
    &&& forall|i: int| 0 <= i < t.rows.len() ==> shown(t, #[trigger] t.rows[i])
    &&& forall|k: RefView| #[trigger]
        shown(t, k) ==> exists|i: int| 0 <= i < t.rows.len() && #[trigger] t.rows[i] == k
    &&& forall|i: int, j: int|
        0 <= i < j < t.rows.len() ==> (#[trigger] t.rows[i]) != (#[trigger] t.rows[j])
}

/// Which rows are complete does not depend on how they are sorted, on the columns
/// or on the clock.
proof fn rows_stay_complete(t: TableView, u: TableView)
    requires
        rows_complete(t),
        u.rows == t.rows,
        u.store == t.store,
        u.filter == t.filter,
    ensures
        rows_complete(u),
{
    assert forall|i: int| 0 <= i < u.rows.len() implies shown(u, #[trigger] u.rows[i]) by {
        assert(shown(t, t.rows[i]));
    }
    assert forall|k: RefView| #[trigger] shown(u, k) implies exists|i: int|
        0 <= i < u.rows.len() && #[trigger] u.rows[i] == k by {
        assert(shown(t, k));
        let i = choose|i: int| 0 <= i < t.rows.len() && #[trigger] t.rows[i] == k;
        assert(u.rows[i] == k);
    }
}

/// Whether the rows are the objects on screen in their order. There is only
/// one such list, because no two objects are level.
pub open spec fn in_display_order(t: TableView) -> bool {
    &&& rows_complete(t)
    &&& forall|i: int, j: int|
        0 <= i < j < t.rows.len() ==> row_before(t, #[trigger] t.rows[i], #[trigger] t.rows[j])
}

/// The resource table.
pub struct ResourceTable {
    columns: ColumnSet,
    store: ResourceStore,
    /// What is on screen, in display order.
    rows: Vec<ObjectRef>,
    sort: Sort,
    /// What "now" means for the whole frame, so that every Age in a render
    /// agrees.
    now: Timestamp,
    /// What the rows are searched for.
    filter: String,
    /// Made by the first search, and kept.
    matcher: Option<Searcher>,
}

/// What a list of references stands for.
pub open spec fn ref_views(list: Seq<ObjectRef>) -> Seq<RefView> {
    list.map_values(|r: ObjectRef| r@)
}

impl View for ResourceTable {
    type V = TableView;

    closed spec fn view(&self) -> TableView {
        TableView {
            columns: self.columns@,
            store: self.store@,
            rows: ref_views(self.rows@),
            sort: self.sort,
            now: self.now@,
            filter: self.filter@,
        }
    }
}

/// The sort keys of the rows.
struct Keyed<'a> {
    keys: &'a Vec<SortKey>,
}

spec fn key_views(list: Seq<SortKey>) -> Seq<SortView> {
    list.map_values(|k: SortKey| k@)
}

impl<'a> Ranking for Keyed<'a> {
    closed spec fn count(&self) -> nat {
        self.keys@.len()
    }

    closed spec fn order(&self) -> spec_fn(int, int) -> bool {
        by_position(key_views(self.keys@), key_order())
    }

    fn precedes(&self, i: usize, j: usize) -> (r: bool) {
        assert(key_views(self.keys@)[i as int] == self.keys@[i as int]@);
        assert(key_views(self.keys@)[j as int] == self.keys@[j as int]@);
        self.keys[i].below(&self.keys[j])
    }
}

/// How a cell is painted.
#[derive(Debug, Clone, Copy, PartialEq, Eq, Structural)]
pub enum Paint {
    Foreground,
    Muted,
    Tone(Tone),
}

/// How a cell of a column is painted: the name stands out, a status has its
/// tone, what is missing never stands out.
pub open spec fn paint_of(header: Seq<char>, value: Option<Seq<char>>) -> Paint {
    match value {
        None => Paint::Muted,
        Some(text) => if header == "Status"@ {
            Paint::Tone(tone_of(text))
        } else if header == "Name"@ {
            Paint::Foreground
        } else {
            Paint::Muted
        },
    }
}

/// How a cell of a column is painted.
pub fn paint(header: &str, value: &CellValue) -> (r: Paint)
    ensures
        r == paint_of(header@, value@),
{
    match value {
        CellValue::Missing => Paint::Muted,
        CellValue::Text(text) => if same(header, "Status") {
            Paint::Tone(tone(text.as_str()))
        } else if same(header, "Name") {
            Paint::Foreground
        } else {
            Paint::Muted
        },
    }
}

/// How a column is laid out.
pub struct ColumnLook {
    /// What the layout remembers the column by.
    pub key: String,
    pub header: String,
    /// In tenths of a pixel.
    pub width: u64,
    pub sort: ColumnSort,
}

/// The width of a column in tenths of a pixel. A share of one is 140 pixels to
/// start with; columns are resizable, so this only has to be a reasonable first
/// guess.
pub open spec fn pixel_tenths(width: ColumnWidth) -> int {
    match width {
        ColumnWidth::Fixed(tenths) => tenths as int,
        ColumnWidth::Flex(share) => share * 140,
    }
}

/// How a column is sorted, as its header shows it.
pub open spec fn shown_sort(sort: Sort, index: int) -> ColumnSort {
    match sort {
        Sort::ByColumn { index: sorted, descending } => if sorted == index {
            if descending {
                ColumnSort::Descending
            } else {
                ColumnSort::Ascending
            }
        } else {
            ColumnSort::Default
        },
        Sort::Natural => ColumnSort::Default,
    }
}

/// What a cell shows.
pub open spec fn cell_of(t: TableView, row: int, column: int) -> Option<Option<Seq<char>>> {
    if 0 <= row < t.rows.len() && 0 <= column < t.columns.len() && t.store.objects.dom().contains(
        t.rows[row],
    ) {
        let object = t.store.objects[t.rows[row]];
        Some(resolved(t.columns[column].source, object.metadata, object.data, t.now))
    } else {
        None
    }
}

impl ResourceTable {
    /// The rows are the objects on screen, each once.
    #[verifier::type_invariant]
    closed spec fn complete(self) -> bool {
        rows_complete(self@)
    }

    pub fn new(columns: ColumnSet, now: Timestamp) -> (r: ResourceTable)
        ensures
            r@.columns == columns@,
            r@.store.objects == Map::<RefView, ObjectView>::empty(),
            r@.store.revision == 0,
            r@.rows.len() == 0,
            r@.sort == Sort::Natural,
            r@.now == now@,
            r@.filter.len() == 0,
            in_display_order(r@),
    {
        ResourceTable {
            columns,
            store: ResourceStore::new(),
            rows: Vec::new(),
            sort: Sort::Natural,
            now,
            filter: String::new(),
            matcher: None,
        }
    }

    /// Puts the rows in order for a search.
    fn search(&mut self, filter: String)
        ensures
            final(self)@ == (TableView {
                filter: filter@,
                rows: final(self)@.rows,
                ..old(self)@
            }),
            in_display_order(final(self)@),
    {
        let now = self.now;
        let mut taken = ResourceTable::new(ColumnSet { columns: Vec::new() }, now);
        core::mem::swap(&mut taken, self);
        let mut matcher = taken.matcher;
        let rows = reindex(
            &taken.columns,
            &taken.store,
            taken.sort,
            &now,
            filter.as_str(),
            &mut matcher,
        );
        *self = ResourceTable {
            columns: taken.columns,
            store: taken.store,
            rows,
            sort: taken.sort,
            now,
            filter,
            matcher,
        };
    }

    /// Searches the rows for a namespace and a name, or for nothing to show
    /// everything. Returns whether other rows are on screen, or in another order.
    pub fn set_filter(&mut self, query: &str) -> (changed: bool)
        ensures
            final(self)@ == (TableView {
                filter: query@,
                rows: final(self)@.rows,
                ..old(self)@
            }),
            in_display_order(final(self)@),
            changed == (final(self)@.rows != old(self)@.rows),
    {
        let before = self.rows_copied();
        self.search(query.to_owned());
        !same_rows(&before, &self.rows)
    }

    /// What the rows are searched for.
    pub fn filter(&self) -> (r: &str)
        ensures
            r@ == self@.filter,
    {
        self.filter.as_str()
    }

    /// Applies one coalesced batch from a watch.
    pub fn apply(&mut self, batch: DeltaBatch)
        requires
            old(self)@.store.revision + batch@.len() <= u64::MAX,
        ensures
            final(self)@.store == applied_all(old(self)@.store, delta_views(batch@)),
            final(self)@.columns == old(self)@.columns,
            final(self)@.sort == old(self)@.sort,
            final(self)@.now == old(self)@.now,
            final(self)@.filter == old(self)@.filter,
            if final(self)@.store.revision == old(self)@.store.revision {
                final(self)@.rows == old(self)@.rows
            } else {
                in_display_order(final(self)@)
            },
            rows_complete(final(self)@),
    {
        proof {
            use_type_invariant(&*self);
        }
        let ghost before = self@;
        let now = self.now;
        let mut taken = ResourceTable::new(ColumnSet { columns: Vec::new() }, now);
        core::mem::swap(&mut taken, self);
        let mut store = taken.store;
        let mut matcher = taken.matcher;
        let columns = taken.columns;
        let sort_mode = taken.sort;
        let filter = taken.filter;
        let changed = store.apply_batch(batch);
        let rows = if changed {
            reindex(&columns, &store, sort_mode, &now, filter.as_str(), &mut matcher)
        } else {
            proof {
                crate::k8s::store::batch_revision(before.store, delta_views(batch@));
            }
            taken.rows
        };
        *self = ResourceTable { columns, store, rows, sort: sort_mode, now, filter, matcher };
    }

    /// Applies one coalesced batch from the watch of one namespace, or of all of
    /// them: a list of one namespace replaces the rows of that namespace and no
    /// others.
    pub fn apply_from(&mut self, namespace: Option<&str>, batch: DeltaBatch)
        requires
            old(self)@.store.revision + batch@.len() <= u64::MAX,
        ensures
            final(self)@.store == applied_all_in(
                old(self)@.store,
                lent(namespace),
                delta_views(batch@),
            ),
            final(self)@.columns == old(self)@.columns,
            final(self)@.sort == old(self)@.sort,
            final(self)@.now == old(self)@.now,
            final(self)@.filter == old(self)@.filter,
            if final(self)@.store.revision == old(self)@.store.revision {
                final(self)@.rows == old(self)@.rows
            } else {
                in_display_order(final(self)@)
            },
            rows_complete(final(self)@),
    {
        proof {
            use_type_invariant(&*self);
        }
        let now = self.now;
        let mut taken = ResourceTable::new(ColumnSet { columns: Vec::new() }, now);
        core::mem::swap(&mut taken, self);
        let mut store = taken.store;
        let mut matcher = taken.matcher;
        let columns = taken.columns;
        let sort_mode = taken.sort;
        let filter = taken.filter;
        let rows = if store.apply_from(namespace, batch) {
            reindex(&columns, &store, sort_mode, &now, filter.as_str(), &mut matcher)
        } else {
            taken.rows
        };
        *self = ResourceTable { columns, store, rows, sort: sort_mode, now, filter, matcher };
    }

    /// Re-reads the clock. Ages are relative, so a table nobody is changing still
    /// has to be repainted for them to advance.
    pub fn tick(&mut self, now: Timestamp)
        ensures
            final(self)@ == (TableView { now: now@, ..old(self)@ }),
    {
        proof {
            use_type_invariant(&*self);
            rows_stay_complete(self@, TableView { now: now@, ..self@ });
        }
        self.now = now;
    }

    /// Points the table at a different list: new columns, nothing in the store,
    /// and back to the natural order. What is searched for stays.
    ///
    /// Keeping the old rows visible while the new watch lists would show one
    /// namespace's pods under another namespace's heading.
    pub fn reset(&mut self, columns: ColumnSet)
        ensures
            final(self)@.columns == columns@,
            final(self)@.store.objects == Map::<RefView, ObjectView>::empty(),
            final(self)@.store.revision == 0,
            final(self)@.rows.len() == 0,
            final(self)@.sort == Sort::Natural,
            final(self)@.now == old(self)@.now,
            final(self)@.filter == old(self)@.filter,
    {
        let now = self.now;
        let mut taken = ResourceTable::new(ColumnSet { columns: Vec::new() }, now);
        core::mem::swap(&mut taken, self);
        *self = ResourceTable {
            columns,
            store: ResourceStore::new(),
            rows: Vec::new(),
            sort: Sort::Natural,
            now,
            filter: taken.filter,
            matcher: taken.matcher,
        };
    }

    pub fn len(&self) -> (r: usize)
        ensures
            r == self@.rows.len(),
    {
        self.rows.len()
    }

    /// Reorders by a column, or back to the natural order with
    /// [`ColumnSort::Default`].
    pub fn sort_by(&mut self, index: usize, sort: ColumnSort)
        ensures
            final(self)@.sort == (match sort {
                ColumnSort::Ascending => Sort::ByColumn { index, descending: false },
                ColumnSort::Descending => Sort::ByColumn { index, descending: true },
                ColumnSort::Default => Sort::Natural,
            }),
            final(self)@.columns == old(self)@.columns,
            final(self)@.store == old(self)@.store,
            final(self)@.now == old(self)@.now,
            final(self)@.filter == old(self)@.filter,
            in_display_order(final(self)@),
    {
        let mode = match sort {
            ColumnSort::Ascending => Sort::ByColumn { index, descending: false },
            ColumnSort::Descending => Sort::ByColumn { index, descending: true },
            ColumnSort::Default => Sort::Natural,
        };
        let now = self.now;
        let mut taken = ResourceTable::new(ColumnSet { columns: Vec::new() }, now);
        core::mem::swap(&mut taken, self);
        let mut matcher = taken.matcher;
        let rows = reindex(
            &taken.columns,
            &taken.store,
            mode,
            &now,
            taken.filter.as_str(),
            &mut matcher,
        );
        *self = ResourceTable {
            columns: taken.columns,
            store: taken.store,
            rows,
            sort: mode,
            now,
            filter: taken.filter,
            matcher,
        };
    }

    /// Gives the table other columns, without listing again.
    pub fn set_columns(&mut self, columns: ColumnSet)
        ensures
            final(self)@.columns == columns@,
            final(self)@.store == old(self)@.store,
            final(self)@.sort == old(self)@.sort,
            final(self)@.now == old(self)@.now,
            final(self)@.filter == old(self)@.filter,
            in_display_order(final(self)@),
    {
        let now = self.now;
        let mut taken = ResourceTable::new(ColumnSet { columns: Vec::new() }, now);
        core::mem::swap(&mut taken, self);
        let mut matcher = taken.matcher;
        let rows = reindex(
            &columns,
            &taken.store,
            taken.sort,
            &now,
            taken.filter.as_str(),
            &mut matcher,
        );
        *self = ResourceTable {
            columns,
            store: taken.store,
            rows,
            sort: taken.sort,
            now,
            filter: taken.filter,
            matcher,
        };
    }

    /// Whether a batch of that many changes can be applied.
    pub fn has_room(&self, changes: usize) -> (r: bool)
        ensures
            r == (self@.store.revision + changes <= u64::MAX),
    {
        self.store.has_room(changes)
    }

    /// How many objects there are.
    pub fn total(&self) -> (r: usize)
        ensures
            r == self@.store.objects.dom().len(),
    {
        self.store.len()
    }

    /// The references of all objects, whether they are on screen or not, in their
    /// natural order.
    pub fn keys(&self) -> (out: Vec<ObjectRef>)
        ensures
            listed_naturally(ref_views(out@), self@.store),
    {
        let entries = self.store.iter();
        let mut out: Vec<ObjectRef> = Vec::new();
        let mut i: usize = 0;
        while i < entries.len()
            invariant
                i <= entries@.len(),
                out@.len() == i,
                forall|k: int| 0 <= k < i ==> (#[trigger] out@[k])@ == entries@[k].0@,
            decreases entries@.len() - i,
        {
            out.push(entries[i].0.copy());
            i += 1;
        }
        proof {
            let keys = ref_views(out@);
            assert forall|k: int| 0 <= k < keys.len() implies #[trigger] keys[k]
                == entries@[k].0@ by {
                assert(keys[k] == out@[k]@);
            }
            assert forall|r: RefView| #[trigger] self@.store.objects.dom().contains(
                r,
            ) implies keys.contains(r) by {
                let k = choose|k: int| 0 <= k < entries@.len() && (#[trigger] entries@[k]).0@ == r;
                assert(keys[k] == r);
            }
            assert forall|a: int, b: int| 0 <= a < b < keys.len() implies row_below(
                ObjectRef::row(#[trigger] keys[a]),
                ObjectRef::row(#[trigger] keys[b]),
            ) by {
                assert(row_below(ObjectRef::row(entries@[a].0@), ObjectRef::row(entries@[b].0@)));
            }
        }
        out
    }

    fn rows_copied(&self) -> (out: Vec<ObjectRef>)
        ensures
            ref_views(out@) == self@.rows,
    {
        let mut out: Vec<ObjectRef> = Vec::new();
        let mut i: usize = 0;
        while i < self.rows.len()
            invariant
                i <= self.rows@.len(),
                out@.len() == i,
                forall|k: int| 0 <= k < i ==> (#[trigger] out@[k])@ == self.rows@[k]@,
            decreases self.rows@.len() - i,
        {
            out.push(self.rows[i].copy());
            i += 1;
        }
        assert(ref_views(out@) =~= self@.rows);
        out
    }

    /// The row of an object.
    pub fn row_of(&self, key: &ObjectRef) -> (r: Option<usize>)
        ensures
            match r {
                Some(row) => row < self@.rows.len() && self@.rows[row as int] == key@,
                None => !self@.rows.contains(key@),
            },
    {
        let mut i: usize = 0;
        while i < self.rows.len()
            invariant
                i <= self.rows@.len(),
                self@.rows.len() == self.rows@.len(),
                forall|k: int| 0 <= k < i ==> (#[trigger] self@.rows[k]) != key@,
            decreases self.rows@.len() - i,
        {
            assert(self@.rows[i as int] == self.rows@[i as int]@);
            if self.rows[i].same(key) {
                return Some(i);
            }
            i += 1;
        }
        None
    }

    /// An object of the table.
    pub fn object(&self, key: &ObjectRef) -> (r: Option<&Arc<DynamicObject>>)
        ensures
            match r {
                Some(object) => self@.store.objects.dom().contains(key@)
                    && self@.store.objects[key@] == object@,
                None => !self@.store.objects.dom().contains(key@),
            },
    {
        self.store.get(key)
    }

    /// The reference of a row.
    pub fn row(&self, row: usize) -> (r: Option<&ObjectRef>)
        ensures
            match r {
                Some(key) => row < self@.rows.len() && self@.rows[row as int] == key@
                    && self@.store.objects.dom().contains(key@),
                None => row >= self@.rows.len(),
            },
    {
        proof {
            use_type_invariant(self);
        }
        if row < self.rows.len() {
            Some(&self.rows[row])
        } else {
            None
        }
    }

    /// The column and the value of a cell.
    pub fn cell(&self, row: usize, column: usize) -> (r: Option<(&ColumnDef, CellValue)>)
        ensures
            match r {
                Some((definition, value)) => cell_of(self@, row as int, column as int) == Some(
                    value@,
                ) && definition@ == self@.columns[column as int],
                None => cell_of(self@, row as int, column as int) is None,
            },
    {
        if column >= self.columns.columns.len() || row >= self.rows.len() {
            return None;
        }
        let definition = &self.columns.columns[column];
        assert(self@.columns[column as int] == definition@);
        assert(self@.rows[row as int] == self.rows@[row as int]@);
        match self.store.get(&self.rows[row]) {
            Some(object) => {
                let cell = Cell { metadata: &object.metadata, data: &object.data, now: self.now };
                Some((definition, definition.resolve(&cell)))
            },
            None => None,
        }
    }

    /// The text of a cell, for copying; nothing where there is no cell.
    pub fn cell_text(&self, row: usize, column: usize) -> (r: String)
        ensures
            r@ == (match cell_of(self@, row as int, column as int) {
                Some(value) => displayed(value),
                None => Seq::empty(),
            }),
    {
        match self.cell(row, column) {
            Some((_, value)) => value.display().to_owned(),
            None => String::new(),
        }
    }

    /// How many columns there are.
    pub fn columns_count(&self) -> (r: usize)
        ensures
            r == self@.columns.len(),
    {
        self.columns.len()
    }

    /// How a column is laid out; nothing where there is none.
    pub fn column(&self, index: usize) -> (r: Option<ColumnLook>)
        ensures
            match r {
                Some(look) => index < self@.columns.len() && look.key@ == lower_case(
                    self@.columns[index as int].header,
                ) && look.header@ == self@.columns[index as int].header && look.width
                    == pixel_tenths(self@.columns[index as int].width) && look.sort == shown_sort(
                    self@.sort,
                    index as int,
                ),
                None => index >= self@.columns.len(),
            },
    {
        if index >= self.columns.columns.len() {
            return None;
        }
        let definition = &self.columns.columns[index];
        assert(self@.columns[index as int] == definition@);
        let width: u64 = match definition.width {
            ColumnWidth::Fixed(tenths) => tenths as u64,
            ColumnWidth::Flex(share) => share as u64 * 140,
        };
        let sort = match self.sort {
            Sort::ByColumn { index: sorted, descending } => if sorted == index {
                if descending {
                    ColumnSort::Descending
                } else {
                    ColumnSort::Ascending
                }
            } else {
                ColumnSort::Default
            },
            Sort::Natural => ColumnSort::Default,
        };
        Some(
            ColumnLook {
                key: lower(definition.header.as_str()),
                header: definition.header.clone(),
                width,
                sort,
            },
        )
    }
}

fn sort_key(column: &ColumnDef, object: &DynamicObject, now: &Timestamp) -> (r: SortKey)
    ensures
        r@ == object_key(column@.source, object@, now@),
{
    if matches!(column.source, ColumnSource::Age) {
        return match &object.metadata.creation_timestamp {
            Some(created) => SortKey::Number(created.as_second()),
            None => SortKey::Missing,
        };
    }
    SortKey::of(
        &column.resolve(&Cell { metadata: &object.metadata, data: &object.data, now: *now }),
    )
}

fn same_rows(a: &Vec<ObjectRef>, b: &Vec<ObjectRef>) -> (r: bool)
    ensures
        r == (ref_views(a@) == ref_views(b@)),
{
    if a.len() != b.len() {
        assert(ref_views(a@).len() != ref_views(b@).len());
        return false;
    }
    let mut i: usize = 0;
    while i < a.len()
        invariant
            i <= a@.len(),
            a@.len() == b@.len(),
            forall|k: int| 0 <= k < i ==> (#[trigger] a@[k])@ == b@[k]@,
        decreases a@.len() - i,
    {
        if !a[i].same(&b[i]) {
            assert(ref_views(a@)[i as int] != ref_views(b@)[i as int]);
            return false;
        }
        i += 1;
    }
    assert(ref_views(a@) =~= ref_views(b@));
    true
}

/// An object and its reference.
type Entry<'a> = (&'a ObjectRef, &'a Arc<DynamicObject>);

/// The references of entries.
spec fn entry_keys(entries: Seq<Entry>) -> Seq<RefView> {
    entries.map_values(|e: Entry| e.0@)
}

/// Whether references are those of a store's objects, in their natural order.
pub open spec fn listed_naturally(keys: Seq<RefView>, store: StoreView) -> bool {
    &&& forall|i: int| 0 <= i < keys.len() ==> store.objects.dom().contains(#[trigger] keys[i])
    &&& forall|k: RefView| #[trigger] store.objects.dom().contains(k) ==> keys.contains(k)
    &&& forall|i: int, j: int|
        0 <= i < j < keys.len() ==> row_below(
            ObjectRef::row(#[trigger] keys[i]),
            ObjectRef::row(#[trigger] keys[j]),
        )
}

/// Whether entries are the objects on screen, in their natural order.
spec fn listing(entries: Seq<Entry>, t: TableView) -> bool {
    &&& forall|i: int|
        0 <= i < entries.len() ==> shown(t, (#[trigger] entries[i]).0@)
            && t.store.objects[entries[i].0@] == entries[i].1@
    &&& forall|k: RefView| #[trigger]
        shown(t, k) ==> exists|i: int| 0 <= i < entries.len() && (#[trigger] entries[i]).0@ == k
    &&& forall|i: int, j: int|
        0 <= i < j < entries.len() ==> row_below(
            ObjectRef::row((#[trigger] entries[i]).0@),
            ObjectRef::row((#[trigger] entries[j]).0@),
        )
}

/// The display order.
///
/// Sorting by a column means resolving that column for every object. Ties are
/// broken by the natural order, so that a sort on a column where many rows are
/// equal still produces a stable, readable list. Without one a search decides.
fn reindex(
    columns: &ColumnSet,
    store: &ResourceStore,
    mode: Sort,
    now: &Timestamp,
    filter: &str,
    matcher: &mut Option<Searcher>,
) -> (out: Vec<ObjectRef>)
    ensures
        in_display_order(
            (TableView {
                columns: columns@,
                store: store@,
                rows: ref_views(out@),
                sort: mode,
                now: now@,
                filter: filter@,
            }),
        ),
{
    let entries = store.iter();
    let ghost t = TableView {
        columns: columns@,
        store: store@,
        rows: Seq::empty(),
        sort: mode,
        now: now@,
        filter: filter@,
    };
    let sorted = match mode {
        Sort::ByColumn { index, .. } => index < columns.columns.len(),
        Sort::Natural => false,
    };
    if filter.is_empty() {
        assert(listing(entries@, t)) by {
            assert forall|k: RefView| #[trigger] shown(t, k) implies exists|i: int|
                0 <= i < entries@.len() && (#[trigger] entries@[i]).0@ == k by {
                assert(store@.objects.dom().contains(k));
            }
        }
        if sorted {
            return by_column(&entries, columns, mode, now, Ghost(t));
        }
        return natural(&entries, Ghost(t));
    }
    let labels = entry_labels(&entries);
    let mut searcher = match matcher.take() {
        Some(searcher) => searcher,
        None => Searcher::new(),
    };
    let scores = score_all(filter, &labels, &mut searcher);
    *matcher = Some(searcher);
    assert(scores@ =~= entry_keys(entries@).map_values(
        |k: RefView| score_of(filter@, ref_text(k)),
    ));
    if sorted {
        let kept_entries = matching(&entries, &scores, Ghost(t));
        return by_column(&kept_entries, columns, mode, now, Ghost(t));
    }
    ranked(&entries, &labels, &scores, Ghost(t))
}

/// What the search goes by.
fn entry_labels(entries: &Vec<Entry>) -> (out: Vec<String>)
    ensures
        each(out@) == entry_keys(entries@).map_values(|k: RefView| ref_text(k)),
{
    let mut out: Vec<String> = Vec::new();
    let mut i: usize = 0;
    while i < entries.len()
        invariant
            i <= entries@.len(),
            out@.len() == i,
            forall|k: int| 0 <= k < i ==> (#[trigger] out@[k])@ == ref_text(entries@[k].0@),
        decreases entries.len() - i,
    {
        out.push(entries[i].0.to_text());
        i += 1;
    }
    assert(each(out@) =~= entry_keys(entries@).map_values(|k: RefView| ref_text(k)));
    out
}

/// The entries that a search leaves on screen.
fn matching<'a>(
    entries: &Vec<Entry<'a>>,
    scores: &Vec<Option<u32>>,
    Ghost(t): Ghost<TableView>,
) -> (out: Vec<Entry<'a>>)
    requires
        t.filter.len() > 0,
        listing(entries@, TableView { filter: Seq::empty(), ..t }),
        scores@ == entry_keys(entries@).map_values(|k: RefView| score_of(t.filter, ref_text(k))),
    ensures
        listing(out@, t),
{
    let ghost all = TableView { filter: Seq::empty(), ..t };
    let mut out: Vec<Entry<'a>> = Vec::new();
    let ghost mut places: Seq<int> = Seq::empty();
    let mut i: usize = 0;
    while i < entries.len()
        invariant
            i <= entries@.len(),
            t.filter.len() > 0,
            all == (TableView { filter: Seq::empty(), ..t }),
            listing(entries@, all),
            scores@ == entry_keys(entries@).map_values(
                |k: RefView| score_of(t.filter, ref_text(k)),
            ),
            places.len() == out@.len(),
            forall|k: int|
                0 <= k < out@.len() ==> 0 <= (#[trigger] places[k]) < i && out@[k]
                    == entries@[places[k]] && scores@[places[k]] is Some,
            forall|a: int, b: int|
                0 <= a < b < places.len() ==> (#[trigger] places[a]) < (#[trigger] places[b]),
            forall|p: int|
                0 <= p < i && (#[trigger] scores@[p]) is Some ==> places.contains(p),
        decreases entries.len() - i,
    {
        let ghost before = places;
        if scores[i].is_some() {
            out.push(entries[i]);
            proof {
                places = places.push(i as int);
                assert(places[before.len() as int] == i);
                assert forall|p: int| before.contains(p) implies places.contains(p) by {
                    let k = choose|k: int| 0 <= k < before.len() && before[k] == p;
                    assert(places[k] == p);
                }
            }
        }
        i += 1;
    }
    proof {
        assert forall|k: int| 0 <= k < out@.len() implies shown(t, (#[trigger] out@[k]).0@)
            && t.store.objects[out@[k].0@] == out@[k].1@ by {
            let p = places[k];
            assert(shown(all, entries@[p].0@));
            assert(scores@[p] == score_of(t.filter, ref_text(entries@[p].0@)));
        }
        assert forall|key: RefView| #[trigger] shown(t, key) implies exists|k: int|
            0 <= k < out@.len() && (#[trigger] out@[k]).0@ == key by {
            assert(shown(all, key));
            let p = choose|p: int| 0 <= p < entries@.len() && (#[trigger] entries@[p]).0@ == key;
            assert(scores@[p] == score_of(t.filter, ref_text(entries@[p].0@)));
            assert(places.contains(p));
            let k = choose|k: int| 0 <= k < places.len() && places[k] == p;
            assert(out@[k].0@ == key);
        }
        assert forall|a: int, b: int| 0 <= a < b < out@.len() implies row_below(
            ObjectRef::row((#[trigger] out@[a]).0@),
            ObjectRef::row((#[trigger] out@[b]).0@),
        ) by {
            assert(places[a] < places[b]);
            assert(row_below(
                ObjectRef::row(entries@[places[a]].0@),
                ObjectRef::row(entries@[places[b]].0@),
            ));
        }
    }
    out
}

/// What is on screen while a search decides: the best match first.
fn ranked(
    entries: &Vec<Entry>,
    labels: &Vec<String>,
    scores: &Vec<Option<u32>>,
    Ghost(t): Ghost<TableView>,
) -> (out: Vec<ObjectRef>)
    requires
        t.filter.len() > 0,
        listing(entries@, TableView { filter: Seq::empty(), ..t }),
        each(labels@) == entry_keys(entries@).map_values(|k: RefView| ref_text(k)),
        scores@ == entry_keys(entries@).map_values(|k: RefView| score_of(t.filter, ref_text(k))),
        t.sort matches Sort::ByColumn { index, .. } ==> index >= t.columns.len(),
    ensures
        in_display_order((TableView { rows: ref_views(out@), ..t })),
{
    let ghost all = TableView { filter: Seq::empty(), ..t };
    let ghost keys = entry_keys(entries@);
    let count: usize = labels.len();
    assert(each(labels@).len() == count);
    let places = rank_scores(labels, scores);
    let ghost best = best_places(each(labels@), scores@);
    let mut out: Vec<ObjectRef> = Vec::new();
    let mut k: usize = 0;
    while k < places.len()
        invariant
            k <= places@.len(),
            labels@.len() == entries@.len(),
            out@.len() == k,
            forall|i: int| 0 <= i < places@.len() ==> (#[trigger] places@[i]) < labels@.len(),
            forall|i: int| 0 <= i < k ==> (#[trigger] out@[i])@ == entries@[places@[i] as int].0@,
        decreases places.len() - k,
    {
        out.push(entries[places[k]].0.copy());
        k += 1;
    }
    proof {
        let rows = ref_views(out@);
        let result = TableView { rows, ..t };
        every_match_is_ranked_once(each(labels@), scores@);
        places_are_ordered(each(labels@), scores@);
        assert forall|i: int| 0 <= i < rows.len() implies #[trigger] rows[i] == keys[best[i]] && 0
            <= best[i] < keys.len() && scores@[best[i]] is Some by {
            assert(rows[i] == out@[i]@);
            assert(places@[i] == best[i]);
            assert(best.contains(best[i]));
        }
        assert forall|i: int| 0 <= i < rows.len() implies shown(result, #[trigger] rows[i]) by {
            assert(rows[i] == keys[best[i]]);
            assert(shown(all, entries@[best[i]].0@));
        }
        assert forall|key: RefView| #[trigger] shown(result, key) implies exists|i: int|
            0 <= i < rows.len() && #[trigger] rows[i] == key by {
            assert(shown(all, key));
            let p = choose|p: int| 0 <= p < entries@.len() && (#[trigger] entries@[p]).0@ == key;
            assert(scores@[p] == score_of(t.filter, ref_text(keys[p])));
            assert(best.contains(p));
            let i = choose|i: int| 0 <= i < best.len() && best[i] == p;
            assert(rows[i] == key);
        }
        assert forall|i: int, j: int| 0 <= i < j < rows.len() implies row_before(
            result,
            #[trigger] rows[i],
            #[trigger] rows[j],
        ) by {
            let p = best[i];
            let q = best[j];
            assert(rows[i] == keys[p] && rows[j] == keys[q]);
            assert(each(labels@)[p] == ref_text(keys[p]) && each(labels@)[q] == ref_text(keys[q]));
            assert(scores@[p] == score_of(t.filter, ref_text(keys[p])));
            assert(scores@[q] == score_of(t.filter, ref_text(keys[q])));
            if p < q {
                assert(row_below(
                    ObjectRef::row(entries@[p].0@),
                    ObjectRef::row(entries@[q].0@),
                ));
            }
            assert(match_before(t.filter, keys[p], keys[q]));
        }
        assert forall|i: int, j: int| 0 <= i < j < rows.len() implies (#[trigger] rows[i]) != (
        #[trigger] rows[j]) by {
            assert(row_before(result, rows[i], rows[j]));
            no_row_is_before_itself(result, rows[i]);
        }
        assert(result.rows == rows);
        assert(rows_complete(result));
        assert(in_display_order(result));
    }
    out
}

/// The order of a sorted column.
fn by_column(
    entries: &Vec<Entry>,
    columns: &ColumnSet,
    mode: Sort,
    now: &Timestamp,
    Ghost(given): Ghost<TableView>,
) -> (out: Vec<ObjectRef>)
    requires
        listing(entries@, given),
        given.columns == columns@,
        given.sort == mode,
        given.now == now@,
        mode matches Sort::ByColumn { index, .. } && index < columns@.len(),
    ensures
        in_display_order((TableView { rows: ref_views(out@), ..given })),
{
    let ghost keys = Seq::new(entries@.len(), |i: int| entries@[i].0@);
    let (index, descending): (usize, bool) = match mode {
        Sort::ByColumn { index, descending } => (index, descending),
        Sort::Natural => (0, false),
    };
    let column = &columns.columns[index];
    let ghost t = TableView { rows: keys, ..given };
    assert(columns@[index as int] == column@);
    let mut sort_keys: Vec<SortKey> = Vec::new();
    let mut i: usize = 0;
    while i < entries.len()
        invariant
            i <= entries@.len(),
            sort_keys@.len() == i,
            listing(entries@, given),
            given.now == now@,
            forall|k: int|
                0 <= k < i ==> (#[trigger] sort_keys@[k])@ == object_key(
                    column@.source,
                    given.store.objects[entries@[k].0@],
                    now@,
                ),
        decreases entries.len() - i,
    {
        let object = entries[i].1;
        sort_keys.push(sort_key(column, object, now));
        i += 1;
    }
    let ghost views = key_views(sort_keys@);
    proof {
        key_order_weak();
        positions_weak(views, key_order());
    }
    let order = sort(sort_keys.len(), &Keyed { keys: &sort_keys });
    let ghost at = by_position(views, key_order());
    let n: usize = order.len();
    let mut out: Vec<ObjectRef> = Vec::new();
    let mut k: usize = 0;
    while k < n
        invariant
            k <= n,
            n == order@.len(),
            n == entries@.len(),
            out@.len() == k,
            forall|m: int| 0 <= m < n ==> (#[trigger] order@[m]) < n,
            forall|m: int|
                0 <= m < k ==> (#[trigger] out@[m])@ == entries@[if descending {
                    order@[n - 1 - m]
                } else {
                    order@[m]
                } as int].0@,
        decreases n - k,
    {
        let place: usize = if descending {
            order[n - 1 - k]
        } else {
            order[k]
        };
        out.push(entries[place].0.copy());
        k += 1;
    }
    proof {
        let rows = ref_views(out@);
        let result = TableView { rows, ..t };
        // Every position of the order, from either end.
        assert forall|m: int| 0 <= m < n implies (#[trigger] rows[m]) == keys[if descending {
            order@[n - 1 - m]
        } else {
            order@[m]
        } as int] by {
            assert(rows[m] == out@[m]@);
        }
        assert forall|a: int, b: int| 0 <= a < b < n implies column_before(
            result,
            index as int,
            keys[#[trigger] order@[a] as int],
            keys[#[trigger] order@[b] as int],
        ) by {
            let p = order@[a] as int;
            let q = order@[b] as int;
            assert(ahead(at, p, q));
            assert(views[p] == sort_keys@[p]@ && views[q] == sort_keys@[q]@);
            assert(keys[p] == entries@[p].0@ && keys[q] == entries@[q].0@);
            if !at(p, q) {
                assert(!key_below(views[p], views[q]) && !key_below(views[q], views[p]));
                assert(row_below(ObjectRef::row(entries@[p].0@), ObjectRef::row(entries@[q].0@)));
            }
        }
        assert forall|i: int, j: int| 0 <= i < j < rows.len() implies row_before(
            result,
            #[trigger] rows[i],
            #[trigger] rows[j],
        ) by {
            if descending {
                assert(column_before(
                    result,
                    index as int,
                    keys[order@[n - 1 - j] as int],
                    keys[order@[n - 1 - i] as int],
                ));
            } else {
                assert(column_before(
                    result,
                    index as int,
                    keys[order@[i] as int],
                    keys[order@[j] as int],
                ));
            }
        }
        assert forall|i: int, j: int| 0 <= i < j < rows.len() implies (#[trigger] rows[i]) != (
        #[trigger] rows[j]) by {
            assert(row_before(result, rows[i], rows[j]));
            if rows[i] == rows[j] {
                row_below_total(ObjectRef::row(rows[i]), ObjectRef::row(rows[i]));
                let source = result.columns[index as int].source;
                let x = object_key(source, result.store.objects[rows[i]], result.now);
                let order_fn = key_order();
                assert(!order_fn(x, x));
            }
        }
        assert forall|i: int| 0 <= i < rows.len() implies shown(result, #[trigger] rows[i]) by {
            let p = if descending {
                order@[n - 1 - i]
            } else {
                order@[i]
            } as int;
            assert(rows[i] == entries@[p].0@);
            assert(shown(given, entries@[p].0@));
        }
        assert forall|r: RefView| #[trigger] shown(result, r) implies exists|i: int|
            0 <= i < rows.len() && #[trigger] rows[i] == r by {
            assert(shown(given, r));
            let p = choose|p: int| 0 <= p < entries@.len() && (#[trigger] entries@[p]).0@ == r;
            assert(order@.contains(p as usize));
            let w = choose|w: int| 0 <= w < order@.len() && order@[w] == p as usize;
            let i = if descending {
                n - 1 - w
            } else {
                w
            };
            assert(rows[i] == r);
        }
        assert(result.rows == rows);
        assert(rows_complete(result));
        assert(in_display_order(result));
        assert(result == (TableView { rows, ..given }));
    }
    out
}

/// The natural order: that of the references.
fn natural(entries: &Vec<Entry>, Ghost(given): Ghost<TableView>) -> (out: Vec<ObjectRef>)
    requires
        listing(entries@, given),
        given.filter.len() == 0,
        given.sort matches Sort::ByColumn { index, .. } ==> index >= given.columns.len(),
    ensures
        in_display_order((TableView { rows: ref_views(out@), ..given })),
{
    let mut out: Vec<ObjectRef> = Vec::new();
    let mut i: usize = 0;
    while i < entries.len()
        invariant
            i <= entries@.len(),
            out@.len() == i,
            forall|k: int| 0 <= k < i ==> (#[trigger] out@[k])@ == entries@[k].0@,
        decreases entries.len() - i,
    {
        out.push(entries[i].0.copy());
        i += 1;
    }
    proof {
        let rows = ref_views(out@);
        assert forall|i: int| 0 <= i < rows.len() implies #[trigger] rows[i] == entries@[i].0@ by {
            assert(rows[i] == out@[i]@);
        }
        assert forall|i: int, j: int| 0 <= i < j < rows.len() implies (#[trigger] rows[i]) != (
        #[trigger] rows[j]) by {
            row_below_total(ObjectRef::row(rows[i]), ObjectRef::row(rows[i]));
            assert(row_below(ObjectRef::row(entries@[i].0@), ObjectRef::row(entries@[j].0@)));
        }
        let result = TableView { rows, ..given };
        assert forall|i: int| 0 <= i < rows.len() implies shown(result, #[trigger] rows[i]) by {
            assert(shown(given, entries@[i].0@));
        }
        assert forall|r: RefView| #[trigger] shown(result, r) implies exists|i: int|
            0 <= i < rows.len() && #[trigger] rows[i] == r by {
            assert(shown(given, r));
            let p = choose|p: int| 0 <= p < entries@.len() && (#[trigger] entries@[p]).0@ == r;
            assert(rows[p] == r);
        }
        assert forall|i: int, j: int| 0 <= i < j < rows.len() implies row_below(
            ObjectRef::row(#[trigger] rows[i]),
            ObjectRef::row(#[trigger] rows[j]),
        ) by {
            assert(row_below(ObjectRef::row(entries@[i].0@), ObjectRef::row(entries@[j].0@)));
        }
        assert(result.rows == rows);
        assert(rows_complete(result));
        assert(in_display_order(result));
    }
    out
}

/// What is missing sorts behind everything that is there.
pub proof fn missing_sorts_last(value: Seq<char>)
    ensures
        key_below(sort_key_of(Some(value)), sort_key_of(None)),
        !key_below(sort_key_of(None), sort_key_of(Some(value))),
{
}

/// Between two different rows the order always decides, so that there is only
/// one way to show a table.
pub proof fn rows_are_never_level(t: TableView, a: RefView, b: RefView)
    requires
        a != b,
    ensures
        row_before(t, a, b) != row_before(t, b, a),
{
    key_order_weak();
    if ObjectRef::row(a) == ObjectRef::row(b) {
        ObjectRef::row_injective(a, b);
    }
    row_below_total(ObjectRef::row(a), ObjectRef::row(b));
    row_below_total(ObjectRef::row(b), ObjectRef::row(a));
    precedes_total(ref_text(a), ref_text(b));
    precedes_total(ref_text(b), ref_text(a));
    if let Sort::ByColumn { index, .. } = t.sort {
        if index < t.columns.len() {
            let source = t.columns[index as int].source;
            let x = object_key(source, t.store.objects[a], t.now);
            let y = object_key(source, t.store.objects[b], t.now);
            let before = key_order();
            if before(x, y) && before(y, x) {
                assert(before(x, x));
            }
            assert(!before(x, x));
            assert(before(x, y) == key_below(x, y) && before(y, x) == key_below(y, x));
        }
    }
}

/// There is one way to show a table: its columns, its objects, the search, the
/// sort and the clock determine the rows.
pub proof fn a_table_determines_its_rows(t: TableView, rows: Seq<RefView>)
    requires
        in_display_order(t),
        in_display_order(TableView { rows, ..t }),
    ensures
        rows == t.rows,
{
    let u = TableView { rows, ..t };
    let before = |a: RefView, b: RefView| row_before(t, a, b);
    assert forall|a: RefView, b: RefView| #[trigger] before(a, b) implies !before(b, a) by {
        if a != b {
            rows_are_never_level(t, a, b);
        } else {
            no_row_is_before_itself(t, a);
        }
    }
    assert forall|i: int, j: int| 0 <= i < j < rows.len() implies before(
        #[trigger] rows[i],
        #[trigger] rows[j],
    ) by {
        assert(row_before(u, u.rows[i], u.rows[j]));
    }
    assert forall|k: RefView| #[trigger] rows.contains(k) <==> t.rows.contains(k) by {
        if rows.contains(k) {
            let i = choose|i: int| 0 <= i < rows.len() && rows[i] == k;
            assert(shown(u, u.rows[i]));
            assert(shown(t, k));
        }
        if t.rows.contains(k) {
            let i = choose|i: int| 0 <= i < t.rows.len() && t.rows[i] == k;
            assert(shown(t, t.rows[i]));
            assert(shown(u, k));
            let m = choose|m: int| 0 <= m < u.rows.len() && #[trigger] u.rows[m] == k;
            assert(rows[m] == k);
        }
    }
    ordered_lists_agree(rows, t.rows, before);
}

/// While no column is sorted, a search shows its matches ranked: the rows are the
/// objects, in their natural order, at the places that rank best.
pub proof fn a_search_ranks_its_matches(t: TableView, keys: Seq<RefView>)
    requires
        in_display_order(t),
        t.filter.len() > 0,
        t.sort == Sort::Natural,
        listed_naturally(keys, t.store),
        keys.len() <= usize::MAX,
    ensures
        ({
            let labels = keys.map_values(|k: RefView| ref_text(k));
            t.rows == best_places(labels, scores_of(t.filter, labels)).map_values(
                |place: int| keys[place],
            )
        }),
{
    let labels = keys.map_values(|k: RefView| ref_text(k));
    let scores = scores_of(t.filter, labels);
    let best = best_places(labels, scores);
    let rows = best.map_values(|place: int| keys[place]);
    every_match_is_ranked_once(labels, scores);
    places_are_ordered(labels, scores);
    let before = |a: RefView, b: RefView| row_before(t, a, b);
    assert forall|a: RefView, b: RefView| #[trigger] before(a, b) implies !before(b, a) by {
        if a != b {
            rows_are_never_level(t, a, b);
        } else {
            no_row_is_before_itself(t, a);
        }
    }
    assert forall|i: int| 0 <= i < rows.len() implies #[trigger] rows[i] == keys[best[i]] && 0
        <= best[i] < keys.len() && scores[best[i]] is Some by {
        assert(best.contains(best[i]));
    }
    assert forall|i: int, j: int| 0 <= i < j < rows.len() implies before(
        #[trigger] rows[i],
        #[trigger] rows[j],
    ) by {
        let p = best[i];
        let q = best[j];
        assert(rows[i] == keys[p] && rows[j] == keys[q]);
        assert(labels[p] == ref_text(keys[p]) && labels[q] == ref_text(keys[q]));
        assert(scores[p] == score_of(t.filter, labels[p]) && scores[q] == score_of(
            t.filter,
            labels[q],
        ));
        if p < q {
            assert(row_below(ObjectRef::row(keys[p]), ObjectRef::row(keys[q])));
        }
        assert(match_before(t.filter, keys[p], keys[q]));
    }
    assert forall|k: RefView| #[trigger] rows.contains(k) <==> t.rows.contains(k) by {
        if rows.contains(k) {
            let i = choose|i: int| 0 <= i < rows.len() && rows[i] == k;
            assert(rows[i] == keys[best[i]]);
            assert(scores[best[i]] == score_of(t.filter, labels[best[i]]));
            assert(shown(t, k));
        }
        if t.rows.contains(k) {
            let i = choose|i: int| 0 <= i < t.rows.len() && t.rows[i] == k;
            assert(shown(t, t.rows[i]));
            assert(keys.contains(k));
            let p = choose|p: int| 0 <= p < keys.len() && keys[p] == k;
            assert(scores[p] == score_of(t.filter, labels[p]));
            assert(best.contains(p));
            let m = choose|m: int| 0 <= m < best.len() && best[m] == p;
            assert(rows[m] == k);
        }
    }
    ordered_lists_agree(rows, t.rows, before);
}

/// Searching for nothing shows everything.
pub proof fn an_empty_search_hides_nothing(t: TableView, key: RefView)
    requires
        in_display_order(t),
        t.filter.len() == 0,
    ensures
        t.rows.contains(key) <==> t.store.objects.dom().contains(key),
{
    if t.rows.contains(key) {
        let i = choose|i: int| 0 <= i < t.rows.len() && t.rows[i] == key;
        assert(shown(t, t.rows[i]));
    }
    if t.store.objects.dom().contains(key) {
        assert(shown(t, key));
    }
}

proof fn no_row_is_before_itself(t: TableView, a: RefView)
    ensures
        !row_before(t, a, a),
{
    key_order_weak();
    row_below_total(ObjectRef::row(a), ObjectRef::row(a));
    precedes_irreflexive(ref_text(a));
    if let Sort::ByColumn { index, .. } = t.sort {
        if index < t.columns.len() {
            let x = object_key(t.columns[index as int].source, t.store.objects[a], t.now);
            let before = key_order();
            assert(!before(x, x));
            assert(before(x, x) == key_below(x, x));
        }
    }
}

/// A column of ages is sorted by when the objects were created, to the second:
/// ascending the older object comes first, however its age is written, and
/// descending the newer one. What has no time of creation comes after everything
/// that has one, and in front of it where the sort is descending.
pub proof fn ages_sort_by_creation(t: TableView, index: usize, descending: bool, i: int, j: int)
    requires
        in_display_order(t),
        t.sort == (Sort::ByColumn { index, descending }),
        index < t.columns.len(),
        t.columns[index as int].source == SourceView::Age,
        0 <= i < j < t.rows.len(),
    ensures
        ({
            let upper = t.store.objects[t.rows[i]].metadata.creation_timestamp;
            let lower = t.store.objects[t.rows[j]].metadata.creation_timestamp;
            let (first, second) = if descending {
                (lower, upper)
            } else {
                (upper, lower)
            };
            &&& first is Some && second is Some ==> whole_seconds(first->0) <= whole_seconds(
                second->0,
            ) && first->0 < second->0 + 2_000_000_000
            &&& first is Some && second is Some && second->0 >= 0 ==> first->0 / 1_000_000_000
                <= second->0 / 1_000_000_000
            &&& first is None ==> second is None
        }),
{
    assert(row_before(t, t.rows[i], t.rows[j]));
}

/// Whether a cell shows a number: nothing but digits.
pub open spec fn all_digits(text: Seq<char>) -> bool {
    text.len() > 0 && forall|k: int| 0 <= k < text.len() ==> '0' <= #[trigger] text[k] <= '9'
}

proof fn digits_bounds(text: Seq<char>, k: int, end: int)
    requires
        0 <= k <= end <= text.len(),
        forall|m: int| k <= m < end ==> '0' <= #[trigger] text[m] <= '9',
        end < text.len() ==> !('0' <= text[end] <= '9'),
    ensures
        digits_end(text, k) == end,
    decreases end - k,
{
    if k < end {
        digits_bounds(text, k + 1, end);
    }
}

/// Any other column is sorted by what it shows. Cells that begin with a number
/// come by that number, whatever follows it and however many digits it has; then
/// come the cells that begin with none, by their text without regard to case;
/// and then what is missing. A descending sort is the reverse.
pub proof fn cells_sort_by_what_they_show(
    t: TableView,
    index: usize,
    descending: bool,
    i: int,
    j: int,
    number: Seq<char>,
    rest: Seq<char>,
    other: Seq<char>,
    tail: Seq<char>,
    n: nat,
    m: nat,
)
    requires
        in_display_order(t),
        t.sort == (Sort::ByColumn { index, descending }),
        index < t.columns.len(),
        !(t.columns[index as int].source is Age),
        0 <= i < j < t.rows.len(),
    ensures
        ({
            let upper = cell_of(t, i, index as int)->0;
            let lower = cell_of(t, j, index as int)->0;
            let (first, second) = if descending {
                (lower, upper)
            } else {
                (upper, lower)
            };
            &&& first == Some(number + rest) && second == Some(other + tail) && all_digits(number)
                && all_digits(other) && (rest.len() == 0 || !('0' <= rest[0] <= '9')) && (tail.len()
                == 0 || !('0' <= tail[0] <= '9')) && digits(number) == Some(n) && digits(other)
                == Some(m) && n <= i64::MAX && m <= i64::MAX ==> n <= m
            &&& first matches Some(x) ==> (second matches Some(y) ==> x.len() > 0 && y.len() > 0
                && !('0' <= x[0] <= '9') && !('0' <= y[0] <= '9') ==> !precedes(
                lower_case(y),
                lower_case(x),
            ))
            &&& first matches Some(x) ==> x.len() > 0 && !('0' <= x[0] <= '9') && second == Some(
                number + rest,
            ) && all_digits(number) && (rest.len() == 0 || !('0' <= rest[0] <= '9')) && digits(
                number,
            ) == Some(n) ==> n > i64::MAX
            &&& first is None ==> second is None
        }),
{
    let a = t.rows[i];
    let b = t.rows[j];
    assert(row_before(t, a, b));
    assert(shown(t, a) && shown(t, b));
    if all_digits(number) && (rest.len() == 0 || !('0' <= rest[0] <= '9')) {
        let whole = number + rest;
        assert forall|k: int| 0 <= k < number.len() implies '0' <= #[trigger] whole[k] <= '9' by {
            assert(whole[k] == number[k]);
        }
        digits_bounds(whole, 0, number.len() as int);
        assert(whole.take(number.len() as int) =~= number);
    }
    if all_digits(other) && (tail.len() == 0 || !('0' <= tail[0] <= '9')) {
        let whole = other + tail;
        assert forall|k: int| 0 <= k < other.len() implies '0' <= #[trigger] whole[k] <= '9' by {
            assert(whole[k] == other[k]);
        }
        digits_bounds(whole, 0, other.len() as int);
        assert(whole.take(other.len() as int) =~= other);
    }
    assert forall|x: Seq<char>| x.len() > 0 && !('0' <= x[0] <= '9') implies #[trigger] digits(
        x.take(digits_end(x, 0)),
    ) is None by {
        assert(x.take(0) =~= Seq::empty());
    }
    let key_a = object_key(t.columns[index as int].source, t.store.objects[a], t.now);
    let key_b = object_key(t.columns[index as int].source, t.store.objects[b], t.now);
    if let (SortView::Text(x), SortView::Text(y)) = (key_a, key_b) {
        precedes_total(x, y);
        precedes_irreflexive(x);
    }
}

proof fn natural_order(a: RefView, b: RefView)
    requires
        row_below(ObjectRef::row(a), ObjectRef::row(b)),
    ensures
        a.namespace == b.namespace ==> precedes(a.name, b.name),
        a.namespace != b.namespace && a.namespace is Some ==> b.namespace is Some && precedes(
            a.namespace->0,
            b.namespace->0,
        ),
{
    let x = ObjectRef::row(a);
    let y = ObjectRef::row(b);
    assert(x[0] == a.namespace && y[0] == b.namespace);
    reveal_with_fuel(row_below, 3);
    assert(x.drop_first() =~= seq![Some(a.name)]);
    assert(y.drop_first() =~= seq![Some(b.name)]);
    assert(x.drop_first().drop_first().len() == 0 && y.drop_first().drop_first().len() == 0);
}

/// With nothing sorted and nothing searched for, the rows come by namespace and
/// within one by name; what has no namespace comes first.
pub proof fn rows_come_by_namespace_and_name(t: TableView, i: int, j: int)
    requires
        in_display_order(t),
        t.sort == Sort::Natural,
        t.filter.len() == 0,
        0 <= i < j < t.rows.len(),
    ensures
        ({
            let upper = t.rows[i];
            let lower = t.rows[j];
            &&& upper.namespace == lower.namespace ==> precedes(upper.name, lower.name)
            &&& upper.namespace != lower.namespace && upper.namespace is Some
                ==> lower.namespace is Some && precedes(upper.namespace->0, lower.namespace->0)
        }),
{
    assert(row_before(t, t.rows[i], t.rows[j]));
    natural_order(t.rows[i], t.rows[j]);
}

/// A search shows what matches it and nothing else, the best match first and
/// equal ones by what is matched.
pub proof fn a_better_match_comes_first(t: TableView, i: int, j: int, key: RefView)
    requires
        in_display_order(t),
        t.filter.len() > 0,
    ensures
        t.rows.contains(key) <==> t.store.objects.dom().contains(key) && score_of(
            t.filter,
            ref_text(key),
        ) is Some,
        t.sort == Sort::Natural && 0 <= i < j < t.rows.len() ==> {
            let upper = ref_text(t.rows[i]);
            let lower = ref_text(t.rows[j]);
            &&& score_of(t.filter, upper)->0 >= score_of(t.filter, lower)->0
            &&& score_of(t.filter, upper)->0 == score_of(t.filter, lower)->0 ==> !precedes(
                lower,
                upper,
            )
        },
{
    if t.rows.contains(key) {
        let k = choose|k: int| 0 <= k < t.rows.len() && t.rows[k] == key;
        assert(shown(t, t.rows[k]));
    }
    if shown(t, key) {
        assert(t.rows.contains(key));
    }
    if t.sort == Sort::Natural && 0 <= i < j < t.rows.len() {
        assert(row_before(t, t.rows[i], t.rows[j]));
        precedes_total(ref_text(t.rows[i]), ref_text(t.rows[j]));
        precedes_irreflexive(ref_text(t.rows[i]));
    }
}

/// Rows that show the same in the sorted column come by namespace and name, and
/// the other way round where the sort is descending.
pub proof fn rows_that_show_the_same_come_by_name(
    t: TableView,
    index: usize,
    descending: bool,
    i: int,
    j: int,
)
    requires
        in_display_order(t),
        t.sort == (Sort::ByColumn { index, descending }),
        index < t.columns.len(),
        0 <= i < j < t.rows.len(),
        t.store.objects[t.rows[i]].metadata.creation_timestamp
            == t.store.objects[t.rows[j]].metadata.creation_timestamp,
        cell_of(t, i, index as int) == cell_of(t, j, index as int),
    ensures
        ({
            let (first, second) = if descending {
                (t.rows[j], t.rows[i])
            } else {
                (t.rows[i], t.rows[j])
            };
            &&& first.namespace == second.namespace ==> precedes(first.name, second.name)
            &&& first.namespace != second.namespace && first.namespace is Some
                ==> second.namespace is Some && precedes(first.namespace->0, second.namespace->0)
        }),
{
    let a = t.rows[i];
    let b = t.rows[j];
    assert(row_before(t, a, b));
    assert(shown(t, a) && shown(t, b));
    key_order_weak();
    let x = object_key(t.columns[index as int].source, t.store.objects[a], t.now);
    let before = key_order();
    assert(!before(x, x));
    assert(before(x, x) == key_below(x, x));
    if descending {
        natural_order(b, a);
    } else {
        natural_order(a, b);
    }
}

/// A column of a fixed width is that wide, and a flexible one has 14 pixels for
/// each tenth of a share.
pub proof fn columns_start_as_wide_as_they_ask(tenths: u32, share: u32)
    ensures
        pixel_tenths(ColumnWidth::Fixed(tenths)) == tenths,
        pixel_tenths(ColumnWidth::Flex(share)) == 140 * share,
{
}

} // verus!
