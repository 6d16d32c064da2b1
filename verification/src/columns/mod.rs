//! The columns of the resource table, and what they show of an object.
//!
//! A list view is driven entirely by a [`ColumnSet`], resolved in this order:
//!
//! 1. a built-in table for well-known resources (kubectl's own columns),
//! 2. the CRD's `additionalPrinterColumns`, evaluated as field paths,
//! 3. a fallback of Name / Namespace / Age.
use vstd::prelude::*;

use crate::base::decimal::{integer, signed};
use crate::base::json::{json_text, model_of, Json, JsonView};
use crate::base::meta::{meta_json, MetaView, ObjectMeta};
use crate::base::text::{each, held, join, joined, lent, same};
use crate::base::time::{parsed_timestamp, Timestamp};
use crate::columns::age::{age_at, format_age};
use crate::columns::builtin::{compute, shown, Computed};
use crate::columns::path::{evaluate, root, root_of, selected};

pub mod age;
pub mod builtin;
pub mod cell_laws;
pub mod decode_laws;
pub mod event;
pub mod kind_laws;
pub mod laws;
pub mod path;
pub mod pod;
pub mod pod_laws;
pub mod printer;

verus! {

/// One object, as a column needs to see it.
///
/// `now` is passed in rather than read, so that a whole frame's cells agree
/// about what time it is.
pub struct Cell<'a> {
    pub metadata: &'a ObjectMeta,
    /// Everything that is not `apiVersion`, `kind` or `metadata`, in practice
    /// `spec` and `status`.
    pub data: &'a Json,
    pub now: Timestamp,
}

/// A value ready to be painted into a table cell.
#[derive(Debug, PartialEq, Eq)]
pub enum CellValue {
    Text(String),
    /// The field was absent. Rendered as kubectl's `<none>`, in muted colour.
    Missing,
}

impl View for CellValue {
    type V = Option<Seq<char>>;

    open spec fn view(&self) -> Option<Seq<char>> {
        match self {
            CellValue::Text(text) => Some(text@),
            CellValue::Missing => None,
        }
    }
}

/// What a cell displays, including the placeholder for missing values.
pub open spec fn displayed(value: Option<Seq<char>>) -> Seq<char> {
    match value {
        Some(text) => text,
        None => "<none>"@,
    }
}

/// A JSON value the way kubectl prints it in a column. An empty string is a
/// missing value.
pub open spec fn printed(j: JsonView) -> Option<Seq<char>> {
    match j {
        JsonView::Null => None,
        JsonView::Str(text) => if text.len() == 0 {
            None
        } else {
            Some(text)
        },
        JsonView::Bool(value) => Some(
            if value {
                "true"@
            } else {
                "false"@
            },
        ),
        JsonView::Int(i) => Some(signed(i)),
        JsonView::Decimal(text) => Some(text),
        other => Some(json_text(other)),
    }
}

/// What a field path selected, all values with commas between them.
pub open spec fn printed_all(nodes: Seq<JsonView>) -> Option<Seq<char>> {
    if nodes.len() == 0 {
        None
    } else if nodes.len() == 1 {
        printed(nodes[0])
    } else {
        Some(joined(nodes.map_values(|j: JsonView| displayed(printed(j))), ","@))
    }
}

/// A date the way kubectl prints a `type: date` column: how long ago it was. A
/// text that is no date stands as it is.
pub open spec fn printed_date(nodes: Seq<JsonView>, now: int) -> Option<Seq<char>> {
    if nodes.len() > 0 && nodes[0] is Str {
        match parsed_timestamp(nodes[0]->Str_0) {
            Some(then) => Some(age_at(now, then)),
            None => Some(nodes[0]->Str_0),
        }
    } else {
        printed_all(nodes)
    }
}

/// What borrowed values stand for.
pub open spec fn node_models(nodes: Seq<&Json>) -> Seq<JsonView> {
    nodes.map_values(|j: &Json| j@)
}

impl CellValue {
    pub fn text(value: &str) -> (r: CellValue)
        ensures
            r@ == Some(value@),
    {
        CellValue::Text(value.to_owned())
    }

    /// What the cell displays, including the placeholder for missing values.
    pub fn display(&self) -> (r: &str)
        ensures
            r@ == displayed(self@),
    {
        match self {
            CellValue::Text(text) => text.as_str(),
            CellValue::Missing => "<none>",
        }
    }

    pub fn is_missing(&self) -> (r: bool)
        ensures
            r == (self@ is None),
    {
        matches!(self, CellValue::Missing)
    }

    /// Renders what a field path selected.
    pub fn from_nodes(nodes: &Vec<&Json>) -> (r: CellValue)
        ensures
            r@ == printed_all(node_models(nodes@)),
    {
        if nodes.len() == 0 {
            return CellValue::Missing;
        }
        if nodes.len() == 1 {
            assert(node_models(nodes@)[0] == nodes@[0]@);
            return CellValue::from(nodes[0]);
        }
        let ghost all = node_models(nodes@).map_values(|j: JsonView| displayed(printed(j)));
        let mut parts: Vec<String> = Vec::new();
        let mut i: usize = 0;
        while i < nodes.len()
            invariant
                i <= nodes.len(),
                parts@.len() == i,
                all == node_models(nodes@).map_values(|j: JsonView| displayed(printed(j))),
                forall|k: int| 0 <= k < i ==> (#[trigger] parts@[k])@ == all[k],
            decreases nodes.len() - i,
        {
            assert(node_models(nodes@)[i as int] == nodes@[i as int]@);
            parts.push(CellValue::from(nodes[i]).display().to_owned());
            i += 1;
        }
        assert(each(parts@) =~= all);
        CellValue::Text(join(&parts, ","))
    }

    /// Renders a timestamp as how long ago it was.
    pub fn from_date(nodes: &Vec<&Json>, now: &Timestamp) -> (r: CellValue)
        ensures
            r@ == printed_date(node_models(nodes@), now@),
    {
        if nodes.len() > 0 {
            assert(node_models(nodes@)[0] == nodes@[0]@);
            if let Json::Str(text) = nodes[0] {
                return match Timestamp::parse(text.as_str()) {
                    Some(then) => CellValue::Text(format_age(&then, now)),
                    // Not a timestamp after all. Showing what is actually
                    // there beats showing nothing.
                    None => CellValue::Text(text.clone()),
                };
            }
        }
        CellValue::from_nodes(nodes)
    }

    /// A copy.
    pub fn copy(&self) -> (r: CellValue)
        ensures
            r@ == self@,
    {
        match self {
            CellValue::Text(text) => CellValue::Text(text.clone()),
            CellValue::Missing => CellValue::Missing,
        }
    }
}

impl Default for CellValue {
    fn default() -> (r: CellValue)
        ensures
            r@ is None,
    {
        CellValue::Missing
    }
}

impl From<Option<String>> for CellValue {
    fn from(value: Option<String>) -> (r: CellValue)
        ensures
            r@ == held(value),
    {
        match value {
            Some(text) => CellValue::Text(text),
            None => CellValue::Missing,
        }
    }
}

impl vstd::std_specs::convert::FromSpecImpl<Option<String>> for CellValue {
    open spec fn obeys_from_spec() -> bool {
        true
    }

    open spec fn from_spec(value: Option<String>) -> CellValue {
        match value {
            Some(text) => CellValue::Text(text),
            None => CellValue::Missing,
        }
    }
}

impl From<Option<&str>> for CellValue {
    fn from(value: Option<&str>) -> (r: CellValue)
        ensures
            r@ == lent(value),
    {
        match value {
            Some(text) => CellValue::text(text),
            None => CellValue::Missing,
        }
    }
}

impl vstd::std_specs::convert::FromSpecImpl<Option<&str>> for CellValue {
    open spec fn obeys_from_spec() -> bool {
        false
    }

    open spec fn from_spec(value: Option<&str>) -> CellValue {
        CellValue::Missing
    }
}

/// Renders a JSON value the way kubectl prints it in a column.
impl From<&Json> for CellValue {
    fn from(value: &Json) -> (r: CellValue)
        ensures
            r@ == printed(value@),
    {
        match value {
            Json::Null => CellValue::Missing,
            Json::Str(text) => if text.as_str().is_empty() {
                CellValue::Missing
            } else {
                CellValue::Text(text.clone())
            },
            Json::Bool(value) => CellValue::text(
                if *value {
                    "true"
                } else {
                    "false"
                },
            ),
            Json::Int(i) => CellValue::Text(integer(*i)),
            Json::Decimal(text) => CellValue::Text(text.clone()),
            // Arrays and objects have no column representation; kubectl prints
            // their JSON, which at least shows what is there.
            other => CellValue::Text(other.to_text()),
        }
    }
}

impl vstd::std_specs::convert::FromSpecImpl<&Json> for CellValue {
    open spec fn obeys_from_spec() -> bool {
        false
    }

    open spec fn from_spec(value: &Json) -> CellValue {
        CellValue::Missing
    }
}

/// How a column claims horizontal space, in tenths: of a pixel where the width
/// is fixed, of a share where it is not.
#[derive(Debug, Clone, Copy, PartialEq, Eq, Structural)]
pub enum ColumnWidth {
    /// For columns whose content has a known shape (Age, Ready).
    Fixed(u32),
    /// Takes a share of the leftover space, proportional to the weight.
    Flex(u32),
}

/// How a field path's value is rendered.
#[derive(Debug, Clone, Copy, PartialEq, Eq, Structural)]
pub enum PathKind {
    /// Whatever is there, as text.
    Value,
    /// A CRD's `type: date` column.
    Date,
}

/// Where a cell's content comes from.
#[derive(Debug, PartialEq, Eq)]
pub enum ColumnSource {
    Name,
    Namespace,
    /// Derived from `metadata.creationTimestamp`.
    Age,
    /// A field path from a CRD's `additionalPrinterColumns`, evaluated against
    /// the object at render time.
    JsonPath { expression: String, kind: PathKind },
    /// A built-in computation that needs more than one field.
    Computed(Computed),
}

/// Where a cell's content comes from, as a mathematical object.
pub enum SourceView {
    Name,
    Namespace,
    Age,
    JsonPath { expression: Seq<char>, kind: PathKind },
    Computed(Computed),
}

impl View for ColumnSource {
    type V = SourceView;

    open spec fn view(&self) -> SourceView {
        match self {
            ColumnSource::Name => SourceView::Name,
            ColumnSource::Namespace => SourceView::Namespace,
            ColumnSource::Age => SourceView::Age,
            ColumnSource::JsonPath { expression, kind } => SourceView::JsonPath {
                expression: expression@,
                kind: *kind,
            },
            ColumnSource::Computed(computed) => SourceView::Computed(*computed),
        }
    }
}

/// One column.
#[derive(Debug, PartialEq, Eq)]
pub struct ColumnDef {
    pub header: String,
    pub width: ColumnWidth,
    pub source: ColumnSource,
}

/// One column, as a mathematical object.
pub struct ColumnView {
    pub header: Seq<char>,
    pub width: ColumnWidth,
    pub source: SourceView,
}

impl View for ColumnDef {
    type V = ColumnView;

    open spec fn view(&self) -> ColumnView {
        ColumnView { header: self.header@, width: self.width, source: self.source@ }
    }
}

/// A column.
pub open spec fn column(header: Seq<char>, width: ColumnWidth, source: SourceView) -> ColumnView {
    ColumnView { header, width, source }
}

/// What a list of columns stands for.
pub open spec fn column_models(list: Seq<ColumnDef>) -> Seq<ColumnView> {
    list.map_values(|c: ColumnDef| c@)
}

/// The value that a field path is evaluated against: the metadata for a path
/// that starts there, the rest of the object for any other.
pub open spec fn path_target(expression: Seq<char>, meta: MetaView, data: JsonView) -> JsonView {
    if root_of(expression) == Some("metadata"@) {
        JsonView::Object(seq![("metadata"@, meta_json(meta))])
    } else {
        data
    }
}

/// What a field path selects: one value or none.
pub open spec fn path_nodes(expression: Seq<char>, meta: MetaView, data: JsonView) -> Seq<JsonView> {
    match selected(expression, path_target(expression, meta, data)) {
        Some(node) => seq![node],
        None => Seq::empty(),
    }
}

/// What a column shows of an object.
pub open spec fn resolved(source: SourceView, meta: MetaView, data: JsonView, now: int) -> Option<
    Seq<char>,
> {
    match source {
        SourceView::Name => meta.name,
        SourceView::Namespace => meta.namespace,
        SourceView::Age => match meta.creation_timestamp {
            Some(created) => Some(age_at(now, created)),
            None => None,
        },
        SourceView::JsonPath { expression, kind } => {
            let nodes = path_nodes(expression, meta, data);
            match kind {
                PathKind::Value => printed_all(nodes),
                PathKind::Date => printed_date(nodes, now),
            }
        },
        SourceView::Computed(computed) => shown(computed, meta, data, now),
    }
}

impl ColumnDef {
    pub fn new(header: &str, width: ColumnWidth, source: ColumnSource) -> (r: ColumnDef)
        ensures
            r@ == column(header@, width, source@),
    {
        ColumnDef { header: header.to_owned(), width, source }
    }

    /// Computes this column's value for one object.
    pub fn resolve(&self, cell: &Cell) -> (r: CellValue)
        ensures
            r@ == resolved(self.source@, cell.metadata@, cell.data@, cell.now@),
    {
        match &self.source {
            ColumnSource::Name => CellValue::from(cell.metadata.name.clone()),
            ColumnSource::Namespace => CellValue::from(cell.metadata.namespace.clone()),
            ColumnSource::Age => match &cell.metadata.creation_timestamp {
                Some(created) => CellValue::Text(format_age(created, &cell.now)),
                None => CellValue::Missing,
            },
            ColumnSource::JsonPath { expression, kind } => ColumnDef::resolve_path(
                expression.as_str(),
                *kind,
                cell,
            ),
            ColumnSource::Computed(computed) => compute(*computed, cell),
        }
    }

    fn resolve_path(expression: &str, kind: PathKind, cell: &Cell) -> (r: CellValue)
        ensures
            r@ == resolved(
                (SourceView::JsonPath { expression: expression@, kind }),
                cell.metadata@,
                cell.data@,
                cell.now@,
            ),
    {
        // `data` is the object without its metadata, so a path rooted at
        // `metadata` has to be answered from the typed struct instead.
        let rooted = match root(expression) {
            Some(name) => same(name.as_str(), "metadata"),
            None => false,
        };
        let rebuilt;
        let target: &Json = if rooted {
            let mut entries: Vec<(String, Json)> = Vec::new();
            entries.push(("metadata".to_owned(), cell.metadata.to_json()));
            rebuilt = Json::Object(entries);
            assert(rebuilt@->Object_0 =~= seq![("metadata"@, meta_json(cell.metadata@))]);
            &rebuilt
        } else {
            cell.data
        };
        let mut nodes: Vec<&Json> = Vec::new();
        match evaluate(expression, target) {
            Some(node) => {
                nodes.push(node);
                assert(node_models(nodes@) =~= seq![node@]);
            },
            None => {
                assert(node_models(nodes@) =~= Seq::empty());
            },
        }
        assert(node_models(nodes@) == path_nodes(expression@, cell.metadata@, cell.data@));
        match kind {
            PathKind::Value => CellValue::from_nodes(&nodes),
            PathKind::Date => CellValue::from_date(&nodes, &cell.now),
        }
    }
}

/// The columns for one resource kind.
#[derive(Debug, PartialEq, Eq)]
pub struct ColumnSet {
    pub columns: Vec<ColumnDef>,
}

impl View for ColumnSet {
    type V = Seq<ColumnView>;

    open spec fn view(&self) -> Seq<ColumnView> {
        column_models(self.columns@)
    }
}

/// The columns used when nothing better is known about a resource.
pub open spec fn fallback_columns(namespaced: bool) -> Seq<ColumnView> {
    let name = seq![column("Name"@, ColumnWidth::Flex(20), SourceView::Name)];
    let namespace = if namespaced {
        seq![column("Namespace"@, ColumnWidth::Flex(10), SourceView::Namespace)]
    } else {
        Seq::empty()
    };
    name + namespace + seq![column("Age"@, ColumnWidth::Fixed(720), SourceView::Age)]
}

/// The columns for a kind: the built-in table, then the CRD's own columns,
/// then the fallback.
pub open spec fn columns_for(
    group: Seq<char>,
    kind: Seq<char>,
    namespaced: bool,
    declared: Option<JsonView>,
) -> Seq<ColumnView> {
    match builtin::table(group, kind, namespaced) {
        Some(columns) => columns,
        None => match declared {
            Some(declared) => match printer::declared_columns(declared, namespaced) {
                Some(columns) => columns,
                None => fallback_columns(namespaced),
            },
            None => fallback_columns(namespaced),
        },
    }
}

/// A kind that is known by name has kubectl's own columns, whatever a CRD
/// declares; any other has what its CRD declares, where that is worth showing,
/// and else the fallback. Which it is does not depend on whether the list spans
/// namespaces.
pub proof fn known_kinds_keep_their_columns(
    group: Seq<char>,
    kind: Seq<char>,
    namespaced: bool,
    declared: JsonView,
)
    ensures
        builtin::table(group, kind, namespaced) is Some ==> columns_for(
            group,
            kind,
            namespaced,
            Some(declared),
        ) == columns_for(group, kind, namespaced, None),
        builtin::table(group, kind, true) is Some <==> builtin::table(group, kind, false) is Some,
        builtin::table(group, kind, namespaced) is None && printer::declared_columns(
            declared,
            namespaced,
        ) is Some ==> Some(columns_for(group, kind, namespaced, Some(declared)))
            == printer::declared_columns(declared, namespaced),
        builtin::table(group, kind, namespaced) is None ==> columns_for(
            group,
            kind,
            namespaced,
            None,
        ) == fallback_columns(namespaced),
{
}

impl ColumnSet {
    /// The columns for a kind: the built-in table kubectl has compiled in, then
    /// the CRD's own `additionalPrinterColumns`, then a fallback of Name /
    /// Namespace / Age.
    pub fn resolve(
        group: &str,
        kind: &str,
        namespaced: bool,
        printer_columns: Option<&Json>,
    ) -> (r: ColumnSet)
        ensures
            r@ == columns_for(group@, kind@, namespaced, model_of(printer_columns)),
    {
        if let Some(columns) = builtin::column_set(group, kind, namespaced) {
            return columns;
        }
        if let Some(declared) = printer_columns {
            if let Some(columns) = printer::column_set(declared, namespaced) {
                return columns;
            }
        }
        ColumnSet::fallback(namespaced)
    }

    /// [`ColumnSet::resolve`] for a kind that published no printer columns.
    pub fn for_kind(group: &str, kind: &str, namespaced: bool) -> (r: ColumnSet)
        ensures
            r@ == columns_for(group@, kind@, namespaced, None),
    {
        ColumnSet::resolve(group, kind, namespaced, None)
    }

    /// The columns used when nothing better is known about a resource.
    pub fn fallback(namespaced: bool) -> (r: ColumnSet)
        ensures
            r@ == fallback_columns(namespaced),
    {
        let mut columns: Vec<ColumnDef> = Vec::new();
        columns.push(ColumnDef::new("Name", ColumnWidth::Flex(20), ColumnSource::Name));
        if namespaced {
            columns.push(
                ColumnDef::new("Namespace", ColumnWidth::Flex(10), ColumnSource::Namespace),
            );
        }
        columns.push(ColumnDef::new("Age", ColumnWidth::Fixed(720), ColumnSource::Age));
        assert(column_models(columns@) =~= fallback_columns(namespaced));
        ColumnSet { columns }
    }

    pub fn headers(&self) -> (r: Vec<String>)
        ensures
            each(r@) == self@.map_values(|c: ColumnView| c.header),
    {
        let mut out: Vec<String> = Vec::new();
        let mut i: usize = 0;
        while i < self.columns.len()
            invariant
                i <= self.columns.len(),
                out@.len() == i,
                forall|k: int| 0 <= k < i ==> (#[trigger] out@[k])@ == self.columns@[k].header@,
            decreases self.columns.len() - i,
        {
            out.push(self.columns[i].header.clone());
            i += 1;
        }
        assert(each(out@) =~= self@.map_values(|c: ColumnView| c.header));
        out
    }

    pub fn len(&self) -> (r: usize)
        ensures
            r == self@.len(),
    {
        self.columns.len()
    }

    pub fn is_empty(&self) -> (r: bool)
        ensures
            r == (self@.len() == 0),
    {
        self.columns.len() == 0
    }
}

} // verus!
