//! The operations that change a cluster.
//!
//! Four of them, and each one is the thing people actually do by hand: delete an
//! object, restart a workload, scale it, and apply an edited manifest. When
//! another manager owns a field that an apply changes, the API server refuses
//! and says which fields and which manager, and that refusal is surfaced rather
//! than retried.
use vstd::prelude::*;
use vstd::string::*;

use crate::base::decimal::{decimal, integer, natural, signed};
use crate::base::json::{Json, JsonView};
use crate::base::text::{
    among, chars, cut, each, held, lines, occurs, parted, replace, replaced, same, spelled,
    split_once, split_text, strip_prefix, text_lines, three, trim, trimmed, two,
};
use crate::base::within::{
    borderless, cut_occurs, lines_occur, occurs_transitive, rewritten_parts_occur, stretch_occurs,
    trimmed_occurs,
};
use crate::k8s::resources::DynamicObject;

verus! {

/// The field manager that writes go under. It appears in `managedFields`, and in
/// somebody else's conflict message later.
pub const FIELD_MANAGER: &'static str = "beacon";

/// Something the user can do to an object.
#[derive(Debug, Clone, Copy, PartialEq, Eq, Structural)]
pub enum Operation {
    Delete,
    /// A rollout restart: stamps the pod template so that the controller rolls
    /// it.
    Restart,
    Scale { replicas: i32 },
    Apply,
}

/// Whether an operation is meaningful for a kind. Scaling and restarting are
/// workload ideas.
pub open spec fn applies(op: Operation, group: Seq<char>, kind: Seq<char>) -> bool {
    match op {
        Operation::Delete => true,
        Operation::Apply => true,
        Operation::Restart => group == "apps"@ && (kind == "Deployment"@ || kind == "StatefulSet"@
            || kind == "DaemonSet"@),
        Operation::Scale { .. } => (group == "apps"@ && (kind == "Deployment"@ || kind
            == "StatefulSet"@ || kind == "ReplicaSet"@)) || (group == ""@ && kind
            == "ReplicationController"@),
    }
}

/// The RBAC verb of an operation.
pub open spec fn verb_of(op: Operation) -> Seq<char> {
    match op {
        Operation::Delete => "delete"@,
        _ => "patch"@,
    }
}

/// The resource that the verb applies to. Scaling is a subresource.
pub open spec fn resource_of(op: Operation, plural: Seq<char>) -> Seq<char> {
    match op {
        Operation::Scale { .. } => plural + "/scale"@,
        _ => plural,
    }
}

/// What a confirmation prompt says.
pub open spec fn description(op: Operation) -> Seq<char> {
    match op {
        Operation::Delete => "Delete"@,
        Operation::Restart => "Restart"@,
        Operation::Scale { replicas } => "Scale to "@ + signed(replicas as int),
        Operation::Apply => "Apply"@,
    }
}

impl Operation {
    /// The RBAC verb this needs, for the permission preflight.
    pub fn verb(&self) -> (r: &'static str)
        ensures
            r@ == verb_of(*self),
    {
        match self {
            Operation::Delete => "delete",
            // Everything else is a PATCH, including Server-Side Apply.
            _ => "patch",
        }
    }

    /// The resource the verb applies to, given a kind's plural name.
    ///
    /// Permission to patch a Deployment is not permission to scale one.
    pub fn resource(&self, plural: &str) -> (r: String)
        ensures
            r@ == resource_of(*self, plural@),
    {
        match self {
            Operation::Scale { .. } => two(plural, "/scale"),
            _ => plural.to_owned(),
        }
    }

    /// Whether this operation is meaningful for a kind at all.
    pub fn applies_to(&self, group: &str, kind: &str) -> (r: bool)
        ensures
            r == applies(*self, group@, kind@),
    {
        match self {
            Operation::Delete => true,
            Operation::Apply => true,
            Operation::Restart => same(group, "apps") && (same(kind, "Deployment") || same(
                kind,
                "StatefulSet",
            ) || same(kind, "DaemonSet")),
            Operation::Scale { .. } => (same(group, "apps") && (same(kind, "Deployment") || same(
                kind,
                "StatefulSet",
            ) || same(kind, "ReplicaSet"))) || (same(group, "") && same(
                kind,
                "ReplicationController",
            )),
        }
    }

    /// What a confirmation prompt says.
    pub fn describe(&self) -> (r: String)
        ensures
            r@ == description(*self),
    {
        match self {
            Operation::Delete => "Delete".to_owned(),
            Operation::Restart => "Restart".to_owned(),
            Operation::Scale { replicas } => two(
                "Scale to ",
                integer(*replicas as i64).as_str(),
            ),
            Operation::Apply => "Apply".to_owned(),
        }
    }
}

/// An object with one field.
pub open spec fn single(key: Seq<char>, value: JsonView) -> JsonView {
    JsonView::Object(seq![(key, value)])
}

fn one_field(key: &str, value: Json) -> (r: Json)
    ensures
        r@ == single(key@, value@),
{
    let mut entries: Vec<(String, Json)> = Vec::new();
    let ghost inner = value@;
    entries.push((key.to_owned(), value));
    let r = Json::Object(entries);
    assert(r@->Object_0 =~= seq![(key@, inner)]);
    r
}

/// The merge patch of a restart: there is no restart verb in the API, a workload
/// restarts because its template changed.
pub fn restart_patch(now: &str) -> (r: Json)
    ensures
        r@ == single(
            "spec"@,
            single(
                "template"@,
                single(
                    "metadata"@,
                    single(
                        "annotations"@,
                        single("kubectl.kubernetes.io/restartedAt"@, JsonView::Str(now@)),
                    ),
                ),
            ),
        ),
{
    let stamp = one_field("kubectl.kubernetes.io/restartedAt", Json::Str(now.to_owned()));
    let annotations = one_field("annotations", stamp);
    let metadata = one_field("metadata", annotations);
    let template = one_field("template", metadata);
    one_field("spec", template)
}

/// The merge patch of a scale.
pub fn scale_patch(replicas: i32) -> (r: Json)
    ensures
        r@ == single("spec"@, single("replicas"@, JsonView::Int(replicas as int))),
{
    one_field("spec", one_field("replicas", Json::Int(replicas as i64)))
}

/// A Server-Side Apply refusal, parsed into what a person needs to decide.
#[derive(Debug, PartialEq, Eq)]
pub struct Conflict {
    /// The field paths the API server named, as it wrote them.
    pub fields: Vec<String>,
    /// The field managers that own them.
    pub managers: Vec<String>,
    /// The original message, in case the parse missed something.
    pub message: String,
}

/// What has been read of a conflict message.
pub struct ConflictView {
    pub fields: Seq<Seq<char>>,
    pub managers: Seq<Seq<char>>,
}

/// `1 field`, or `3 fields`.
pub open spec fn field_count(n: nat) -> Seq<char> {
    if n == 1 {
        decimal(n) + " field"@
    } else {
        decimal(n) + " fields"@
    }
}

/// What a conflict comes to.
pub open spec fn summary_of(fields: Seq<Seq<char>>, managers: Seq<Seq<char>>) -> Seq<char> {
    if fields.len() == 0 {
        "This apply conflicts with another field manager."@
    } else if managers.len() == 0 {
        field_count(fields.len()) + " owned by another manager"@
    } else if managers.len() == 1 {
        field_count(fields.len()) + " owned by "@ + managers[0]
    } else {
        field_count(fields.len()) + " owned by "@ + (decimal(managers.len()) + " managers"@)
    }
}

fn counted_fields(n: usize) -> (r: String)
    ensures
        r@ == field_count(n as nat),
{
    if n == 1 {
        two(natural(n as u128).as_str(), " field")
    } else {
        two(natural(n as u128).as_str(), " fields")
    }
}

impl Conflict {
    pub fn summary(&self) -> (r: String)
        ensures
            r@ == summary_of(each(self.fields@), each(self.managers@)),
    {
        assert(each(self.fields@).len() == self.fields@.len());
        assert(each(self.managers@).len() == self.managers@.len());
        if self.fields.len() == 0 {
            return "This apply conflicts with another field manager.".to_owned();
        }
        let count = counted_fields(self.fields.len());
        if self.managers.len() == 0 {
            two(count.as_str(), " owned by another manager")
        } else if self.managers.len() == 1 {
            assert(each(self.managers@)[0] == self.managers@[0]@);
            three(count.as_str(), " owned by ", self.managers[0].as_str())
        } else {
            let owners = two(natural(self.managers.len() as u128).as_str(), " managers");
            three(count.as_str(), " owned by ", owners.as_str())
        }
    }
}

/// A list with a value behind it, unless the value is empty or already there.
pub open spec fn noted(list: Seq<Seq<char>>, value: Seq<char>) -> Seq<Seq<char>> {
    if value.len() > 0 && !list.contains(value) {
        list.push(value)
    } else {
        list
    }
}

/// The quoted name at the front of a fragment and what follows it; nothing where
/// there is no such name or it is empty.
pub open spec fn owner_and_rest(fragment: Seq<char>) -> Option<(Seq<char>, Seq<char>)> {
    if fragment.len() > 0 && fragment[0] == '"' {
        match cut(fragment.drop_first(), "\""@) {
            Some((manager, after)) => if manager.len() > 0 {
                Some((manager, after))
            } else {
                None
            },
            None => None,
        }
    } else {
        None
    }
}

/// The field that follows a manager, behind a colon; it is absent where the
/// fields have lines of their own.
pub open spec fn trailing_field(rest: Seq<char>) -> Option<Seq<char>> {
    match cut(rest, ":"@) {
        Some((_, trailing)) => {
            let field = trimmed(trailing);
            if field.len() > 0 && field[0] == '.' {
                Some(field)
            } else {
                None
            }
        },
        None => None,
    }
}

/// What has been read after one fragment behind `conflict with`.
pub open spec fn fragment_read(c: ConflictView, fragment: Seq<char>) -> ConflictView {
    match owner_and_rest(fragment) {
        Some((manager, rest)) => ConflictView {
            managers: noted(c.managers, manager),
            fields: match trailing_field(rest) {
                Some(field) => noted(c.fields, field),
                None => c.fields,
            },
        },
        None => c,
    }
}

/// What has been read after the first `n` fragments.
pub open spec fn fragments_read(c: ConflictView, fragments: Seq<Seq<char>>) -> ConflictView
    decreases fragments.len(),
{
    if fragments.len() == 0 {
        c
    } else {
        fragment_read(fragments_read(c, fragments.drop_last()), fragments.last())
    }
}

/// The fragments of a line, each behind a `conflict with` or `conflicts with`.
pub open spec fn fragments_of(line: Seq<char>) -> Seq<Seq<char>> {
    parted(replaced(line, "conflicts with "@, "conflict with "@), "conflict with "@).skip(1)
}

/// What has been read after one line: a field of its own behind a dash, or
/// anything else.
pub open spec fn line_read(c: ConflictView, line: Seq<char>) -> ConflictView {
    let line = trimmed(line);
    if "- "@.is_prefix_of(line) {
        ConflictView { fields: noted(c.fields, trimmed(line.skip(2))), ..c }
    } else {
        fragments_read(c, fragments_of(line))
    }
}

/// What has been read after some lines.
pub open spec fn lines_read(list: Seq<Seq<char>>) -> ConflictView
    decreases list.len(),
{
    if list.len() == 0 {
        ConflictView { fields: Seq::empty(), managers: Seq::empty() }
    } else {
        line_read(lines_read(list.drop_last()), list.last())
    }
}

/// The fields and managers that a conflict message names.
pub open spec fn conflict_of(message: Seq<char>) -> ConflictView {
    lines_read(text_lines(message))
}

/// Appends a value, unless it is empty or already there.
pub fn push_unique(values: &mut Vec<String>, value: &str)
    ensures
        each(final(values)@) == noted(each(old(values)@), value@),
{
    if !value.is_empty() && !among(values, value) {
        let ghost before = values@;
        values.push(value.to_owned());
        assert(each(values@) =~= each(before).push(value@));
    }
}

/// Splits `"name" using v1: rest` into the quoted name and what follows it.
pub fn manager_and_rest(fragment: &str) -> (r: Option<(String, String)>)
    ensures
        match r {
            Some((manager, rest)) => owner_and_rest(fragment@) == Some((manager@, rest@)),
            None => owner_and_rest(fragment@) is None,
        },
{
    let cs = chars(fragment);
    if cs.len() == 0 || cs[0] != '"' {
        return None;
    }
    let rest = spelled(&cs, 1, cs.len());
    assert(rest@ =~= fragment@.drop_first());
    match split_once(rest.as_str(), "\"") {
        Some((manager, after)) => if manager.as_str().is_empty() {
            None
        } else {
            Some((manager, after))
        },
        None => None,
    }
}

/// The field that follows a manager.
fn field_after(rest: &str) -> (r: Option<String>)
    ensures
        held(r) == trailing_field(rest@),
{
    match split_once(rest, ":") {
        Some((_, trailing)) => {
            let field = trim(trailing.as_str());
            let cs = chars(field.as_str());
            if cs.len() > 0 && cs[0] == '.' {
                Some(field)
            } else {
                None
            }
        },
        None => None,
    }
}

/// Reads one line of a conflict message.
fn read_line(line: &str, fields: &mut Vec<String>, managers: &mut Vec<String>)
    ensures
        (ConflictView { fields: each(final(fields)@), managers: each(final(managers)@) })
            == line_read(
            (ConflictView { fields: each(old(fields)@), managers: each(old(managers)@) }),
            line@,
        ),
{
    let line = trim(line);
    proof {
        reveal_strlit("- ");
        reveal_strlit("conflict with ");
        reveal_strlit("conflicts with ");
    }
    if let Some(field) = strip_prefix(line.as_str(), "- ") {
        push_unique(fields, trim(field.as_str()).as_str());
        return;
    }
    let ghost start = ConflictView { fields: each(fields@), managers: each(managers@) };
    // `conflict with` and `conflicts with` are both used, depending on the
    // count, and neither contains the other.
    let normalised = replace(line.as_str(), "conflicts with ", "conflict with ");
    let parts = split_text(normalised.as_str(), "conflict with ");
    let ghost all = each(parts@).skip(1);
    let mut i: usize = 1;
    assert(all.take(0) =~= Seq::empty());
    while i < parts.len()
        invariant
            1 <= i,
            i <= parts.len() || (i == 1 && parts.len() == 0),
            all == each(parts@).skip(1),
            (ConflictView { fields: each(fields@), managers: each(managers@) })
                == fragments_read(start, all.take(i - 1)),
        decreases parts.len() - i,
    {
        assert(all.take(i as int).drop_last() =~= all.take(i - 1));
        assert(all.take(i as int).last() == parts@[i as int]@);
        if let Some((manager, rest)) = manager_and_rest(parts[i].as_str()) {
            push_unique(managers, manager.as_str());
            if let Some(field) = field_after(rest.as_str()) {
                push_unique(fields, field.as_str());
            }
        }
        i += 1;
    }
    proof {
        assert(all == fragments_of(line@));
        if parts.len() == 0 {
            assert(all =~= Seq::empty());
            assert(all.take(0) =~= all);
        } else {
            assert(all.take(i - 1) =~= all);
        }
    }
}

/// Reads the API server's conflict message.
///
/// There are two shapes. A single conflict is one line, with the field after the
/// colon:
///
/// ```text
/// Apply failed with 1 conflict: conflict with "argocd-controller" using apps/v1: .spec.replicas
/// ```
///
/// Several conflicts put the fields on their own lines:
///
/// ```text
/// Apply failed with 2 conflicts: conflicts with "kubectl-client-side-apply" using v1:
/// - .spec.replicas
/// - .metadata.labels.team
/// ```
pub fn parse_conflict(message: &str) -> (r: Conflict)
    ensures
        (ConflictView { fields: each(r.fields@), managers: each(r.managers@) }) == conflict_of(
            message@,
        ),
        r.message@ == message@,
        listed_once(each(r.fields@)) && all_said(each(r.fields@), message@),
        listed_once(each(r.managers@)) && all_said(each(r.managers@), message@),
{
    let list = lines(message);
    let ghost all = each(list@);
    let mut fields: Vec<String> = Vec::new();
    let mut managers: Vec<String> = Vec::new();
    let mut i: usize = 0;
    assert(each(fields@) =~= Seq::empty());
    assert(each(managers@) =~= Seq::empty());
    while i < list.len()
        invariant
            i <= list.len(),
            all == each(list@),
            (ConflictView { fields: each(fields@), managers: each(managers@) }) == lines_read(
                all.take(i as int),
            ),
        decreases list.len() - i,
    {
        assert(all.take(i + 1).drop_last() =~= all.take(i as int));
        assert(all.take(i + 1).last() == list@[i as int]@);
        read_line(list[i].as_str(), &mut fields, &mut managers);
        i += 1;
    }
    assert(all.take(i as int) =~= all);
    proof {
        nothing_is_listed_twice(message@);
        what_is_listed_was_said(message@);
    }
    Conflict { fields, managers, message: message.to_owned() }
}

/// No field and no manager is listed twice, and none is empty.
pub open spec fn listed_once(list: Seq<Seq<char>>) -> bool {
    list.no_duplicates() && forall|i: int| 0 <= i < list.len() ==> (#[trigger] list[i]).len() > 0
}

proof fn noted_once(list: Seq<Seq<char>>, value: Seq<char>)
    requires
        listed_once(list),
    ensures
        listed_once(noted(list, value)),
{
    let after = noted(list, value);
    assert forall|i: int, j: int|
        0 <= i < after.len() && 0 <= j < after.len() && i != j implies after[i] != after[j] by {
        if i < list.len() && j < list.len() {
            assert(after[i] == list[i] && after[j] == list[j]);
        } else if i < list.len() {
            assert(list.contains(list[i]));
        } else if j < list.len() {
            assert(list.contains(list[j]));
        }
    }
}

proof fn fragments_once(c: ConflictView, fragments: Seq<Seq<char>>)
    requires
        listed_once(c.fields),
        listed_once(c.managers),
    ensures
        listed_once(fragments_read(c, fragments).fields),
        listed_once(fragments_read(c, fragments).managers),
    decreases fragments.len(),
{
    if fragments.len() > 0 {
        fragments_once(c, fragments.drop_last());
        let before = fragments_read(c, fragments.drop_last());
        if let Some((manager, rest)) = owner_and_rest(fragments.last()) {
            noted_once(before.managers, manager);
            if let Some(field) = trailing_field(rest) {
                noted_once(before.fields, field);
            }
        }
    }
}

proof fn lines_once(list: Seq<Seq<char>>)
    ensures
        listed_once(lines_read(list).fields),
        listed_once(lines_read(list).managers),
    decreases list.len(),
{
    if list.len() > 0 {
        lines_once(list.drop_last());
        let before = lines_read(list.drop_last());
        let line = trimmed(list.last());
        noted_once(before.fields, trimmed(line.skip(2)));
        fragments_once(before, fragments_of(line));
    }
}

/// Whatever the message, no field and no manager is listed twice.
pub proof fn nothing_is_listed_twice(message: Seq<char>)
    ensures
        listed_once(conflict_of(message).fields),
        listed_once(conflict_of(message).managers),
{
    lines_once(text_lines(message));
}

/// Whether everything in a list stands in a text.
pub open spec fn all_said(list: Seq<Seq<char>>, text: Seq<char>) -> bool {
    forall|i: int| 0 <= i < list.len() ==> occurs(#[trigger] list[i], text)
}

proof fn noted_said(list: Seq<Seq<char>>, value: Seq<char>, text: Seq<char>)
    requires
        all_said(list, text),
        occurs(value, text),
    ensures
        all_said(noted(list, value), text),
{
}

proof fn fragments_said(c: ConflictView, fragments: Seq<Seq<char>>, text: Seq<char>)
    requires
        all_said(c.fields, text),
        all_said(c.managers, text),
        all_said(fragments, text),
    ensures
        all_said(fragments_read(c, fragments).fields, text),
        all_said(fragments_read(c, fragments).managers, text),
    decreases fragments.len(),
{
    if fragments.len() > 0 {
        let front = fragments.drop_last();
        let fragment = fragments.last();
        assert(forall|i: int| 0 <= i < front.len() ==> front[i] == fragments[i]);
        fragments_said(c, front, text);
        let before = fragments_read(c, front);
        assert(occurs(fragments[fragments.len() - 1], text));
        if let Some((manager, rest)) = owner_and_rest(fragment) {
            let inner = fragment.drop_first();
            stretch_occurs(fragment, 1, fragment.len() as int);
            occurs_transitive(inner, fragment, text);
            cut_occurs(inner, "\""@);
            occurs_transitive(manager, inner, text);
            occurs_transitive(rest, inner, text);
            noted_said(before.managers, manager, text);
            if let Some((_, trailing)) = cut(rest, ":"@) {
                cut_occurs(rest, ":"@);
                occurs_transitive(trailing, rest, text);
                trimmed_occurs(trailing);
                occurs_transitive(trimmed(trailing), trailing, text);
                noted_said(before.fields, trimmed(trailing), text);
            }
        }
    }
}

/// The words in front of a manager never overlap themselves.
proof fn phrase_is_borderless()
    ensures
        borderless("conflict with "@),
{
    reveal_strlit("conflict with ");
    let phrase = "conflict with "@;
    assert(phrase.len() == 14);
    assert forall|k: int| 0 < k < phrase.len() implies #[trigger] phrase.skip(k) != phrase.take(
        phrase.len() - k,
    ) by {
        assert(phrase.skip(k)[0] == phrase[k]);
        assert(phrase.take(phrase.len() - k)[0] == phrase[0]);
        if k == 6 {
            assert(phrase.skip(k)[1] == 't');
            assert(phrase.take(phrase.len() - k)[1] == 'o');
        } else {
            assert(phrase[k] != 'c');
        }
    }
}

proof fn lines_said(list: Seq<Seq<char>>, text: Seq<char>)
    requires
        all_said(list, text),
    ensures
        all_said(lines_read(list).fields, text),
        all_said(lines_read(list).managers, text),
    decreases list.len(),
{
    if list.len() > 0 {
        let front = list.drop_last();
        assert(forall|i: int| 0 <= i < front.len() ==> front[i] == list[i]);
        lines_said(front, text);
        let before = lines_read(front);
        let line = trimmed(list.last());
        assert(occurs(list[list.len() - 1], text));
        trimmed_occurs(list.last());
        occurs_transitive(line, list.last(), text);
        if "- "@.is_prefix_of(line) {
            reveal_strlit("- ");
            let rest = line.skip(2);
            stretch_occurs(line, 2, line.len() as int);
            occurs_transitive(rest, line, text);
            trimmed_occurs(rest);
            occurs_transitive(trimmed(rest), rest, text);
            noted_said(before.fields, trimmed(rest), text);
        } else {
            phrase_is_borderless();
            rewritten_parts_occur(line, "conflicts with "@, "conflict with "@);
            let parts = parted(
                replaced(line, "conflicts with "@, "conflict with "@),
                "conflict with "@,
            );
            let fragments = fragments_of(line);
            assert forall|i: int| 0 <= i < fragments.len() implies occurs(
                #[trigger] fragments[i],
                text,
            ) by {
                assert(fragments[i] == parts[i + 1]);
                occurs_transitive(parts[i + 1], line, text);
            }
            fragments_said(before, fragments, text);
        }
    }
}

/// Whatever the message, every field and every manager that is listed stands in
/// it word for word.
pub proof fn what_is_listed_was_said(message: Seq<char>)
    ensures
        all_said(conflict_of(message).fields, message),
        all_said(conflict_of(message).managers, message),
{
    lines_occur(message);
    lines_said(text_lines(message), message);
}

/// What came back from an apply.
pub enum Applied {
    /// The object as the server now has it.
    Done(Box<DynamicObject>),
    /// Somebody else owns fields this apply would change. Nothing was written.
    Conflict(Conflict),
}

/// The status code with which the API refuses a conflicting apply.
pub const CONFLICT: u16 = 409;

/// What a refusal of an apply means: a conflict, or nothing that can be told
/// apart from any other failure.
pub fn refusal(code: u16, message: &str) -> (r: Option<Conflict>)
    ensures
        match r {
            Some(conflict) => code == CONFLICT && (ConflictView {
                fields: each(conflict.fields@),
                managers: each(conflict.managers@),
            }) == conflict_of(message@) && conflict.message@ == message@,
            None => code != CONFLICT,
        },
{
    if code == CONFLICT {
        Some(parse_conflict(message))
    } else {
        None
    }
}

} // verus!
