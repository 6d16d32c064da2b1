//! Columns a CRD declares for itself.
//!
//! Two details of a declaration are visible immediately if you get them wrong.
//! Columns carry a `priority`, and everything above zero is `-o wide` material
//! that kubectl hides by default. And a column of `type: date` is not a
//! timestamp on screen but a duration.
use vstd::prelude::*;

use crate::base::json::{int_of, integer_at, models, string_at, text_of, Json, JsonView};
use crate::base::list::{kept, kept_bounds, kept_next};
use crate::base::text::same;
use crate::columns::{
    column, column_models, ColumnDef, ColumnSet, ColumnSource, ColumnView, ColumnWidth, PathKind,
    SourceView,
};

verus! {

/// Columns whose `priority` is above this are shown only in a wide listing.
pub const NORMAL_PRIORITY: i64 = 0;

/// How much room a column of a declared type needs.
pub open spec fn declared_width(declared: Seq<char>) -> ColumnWidth {
    if declared == "integer"@ || declared == "number"@ {
        ColumnWidth::Fixed(900)
    } else if declared == "boolean"@ || declared == "date"@ {
        ColumnWidth::Fixed(800)
    } else {
        ColumnWidth::Flex(10)
    }
}

/// The type that a declaration gives, a string where it gives none.
pub open spec fn declared_type(j: JsonView) -> Seq<char> {
    match text_of(j.get("type"@)) {
        Some(declared) => declared,
        None => "string"@,
    }
}

/// The priority that a declaration gives, the normal one where it gives none.
pub open spec fn declared_priority(j: JsonView) -> int {
    match int_of(j.get("priority"@)) {
        Some(priority) => priority,
        None => NORMAL_PRIORITY as int,
    }
}

/// The column that one declaration describes: nothing where it has no name or
/// no path, or is only for a wide listing.
pub open spec fn declared_column(j: JsonView) -> Option<ColumnView> {
    match (text_of(j.get("name"@)), text_of(j.get("jsonPath"@))) {
        (Some(name), Some(expression)) => if declared_priority(j) > NORMAL_PRIORITY {
            None
        } else {
            Some(
                column(
                    name,
                    declared_width(declared_type(j)),
                    SourceView::JsonPath {
                        expression,
                        kind: if declared_type(j) == "date"@ {
                            PathKind::Date
                        } else {
                            PathKind::Value
                        },
                    },
                ),
            )
        },
        _ => None,
    }
}

pub open spec fn column_reader() -> spec_fn(JsonView) -> Option<ColumnView> {
    |j: JsonView| declared_column(j)
}

/// The columns in front of the declared ones.
pub open spec fn leading(namespaced: bool) -> Seq<ColumnView> {
    let name = seq![column("Name"@, ColumnWidth::Flex(30), SourceView::Name)];
    if namespaced {
        name + seq![column("Namespace"@, ColumnWidth::Flex(15), SourceView::Namespace)]
    } else {
        name
    }
}

/// The columns that a CRD declares, behind its name; nothing where it declares
/// none worth showing.
pub open spec fn declared_columns(j: JsonView, namespaced: bool) -> Option<Seq<ColumnView>> {
    match j {
        JsonView::Array(items) => {
            let declared = kept(items, column_reader());
            if declared.len() == 0 {
                None
            } else {
                Some(leading(namespaced) + declared)
            }
        },
        _ => None,
    }
}

/// A first guess at how much room a column needs, from the only thing the CRD
/// tells us about it.
fn width_for(declared: &str) -> (r: ColumnWidth)
    ensures
        r == declared_width(declared@),
{
    if same(declared, "integer") || same(declared, "number") {
        ColumnWidth::Fixed(900)
    } else if same(declared, "boolean") || same(declared, "date") {
        ColumnWidth::Fixed(800)
    } else {
        ColumnWidth::Flex(10)
    }
}

fn declared_def(declaration: &Json) -> (r: Option<ColumnDef>)
    ensures
        (match r {
            Some(c) => Some(c@),
            None => None,
        }) == declared_column(declaration@),
{
    let (name, expression) = match (
        string_at(declaration.get("name")),
        string_at(declaration.get("jsonPath")),
    ) {
        (Some(name), Some(expression)) => (name, expression),
        _ => return None,
    };
    let priority: i64 = match integer_at(declaration.get("priority")) {
        Some(priority) => priority,
        None => NORMAL_PRIORITY,
    };
    if priority > NORMAL_PRIORITY {
        return None;
    }
    let declared: &str = match string_at(declaration.get("type")) {
        Some(declared) => declared,
        None => "string",
    };
    let kind = if same(declared, "date") {
        PathKind::Date
    } else {
        PathKind::Value
    };
    Some(
        ColumnDef::new(
            name,
            width_for(declared),
            ColumnSource::JsonPath { expression: expression.to_owned(), kind },
        ),
    )
}

/// Builds a column set from a CRD's `additionalPrinterColumns` array.
///
/// `None` when the CRD declares nothing worth showing, in which case the caller
/// falls back to Name / Namespace / Age.
pub fn column_set(printer_columns: &Json, namespaced: bool) -> (r: Option<ColumnSet>)
    ensures
        (match r {
            Some(c) => Some(c@),
            None => None,
        }) == declared_columns(printer_columns@, namespaced),
{
    let items = match printer_columns.as_array() {
        Some(items) => items,
        None => return None,
    };
    // Name always comes first and is never declared; the CRD's columns are
    // additional to it.
    let mut columns: Vec<ColumnDef> = Vec::new();
    columns.push(ColumnDef::new("Name", ColumnWidth::Flex(30), ColumnSource::Name));
    if namespaced {
        columns.push(ColumnDef::new("Namespace", ColumnWidth::Flex(15), ColumnSource::Namespace));
    }
    let lead: usize = columns.len();
    let ghost all = models(items@);
    let mut i: usize = 0;
    proof {
        kept_bounds(all, column_reader());
        assert(column_models(columns@) =~= leading(namespaced) + Seq::empty());
    }
    while i < items.len()
        invariant
            i <= items.len(),
            all == models(items@),
            lead == leading(namespaced).len(),
            column_models(columns@) == leading(namespaced) + kept(
                all.take(i as int),
                column_reader(),
            ),
        decreases items.len() - i,
    {
        proof {
            kept_next(all, i as int, column_reader());
            assert(all[i as int] == items@[i as int]@);
        }
        if let Some(column) = declared_def(&items[i]) {
            let ghost before = columns@;
            let ghost added = column@;
            columns.push(column);
            assert(column_models(columns@) =~= column_models(before).push(added));
            assert(column_models(columns@) =~= leading(namespaced) + kept(
                all.take(i + 1),
                column_reader(),
            ));
        }
        i += 1;
    }
    assert(columns@.len() == column_models(columns@).len());
    if columns.len() == lead {
        return None;
    }
    Some(ColumnSet { columns })
}

} // verus!
