//! The part of JSONPath that `additionalPrinterColumns` actually uses.
//!
//! A CRD's printer columns are JSONPath expressions, but in practice they are
//! field paths: `.spec.replicas`, `.status.phase`, `.metadata.labels.app`. This
//! module evaluates exactly that, dotted names and numeric indices, and
//! declines everything else: an expression with a filter, a recursive descent
//! or a bracket that holds no number resolves to nothing, which is what kubectl
//! shows for a path that does not match.
use vstd::prelude::*;

use crate::base::decimal::{parse_unsigned, unsigned};
use crate::base::json::{model_of, Json, JsonView};
use crate::base::text::{
    chars, cut, each, ends_with, held, pieces, pieces_nonempty, spelled, split, split_once,
    strip_end, strip_prefix, strip_start, stripped_end, stripped_start, trim, trimmed, white_space,
    Class,
};

verus! {

/// One step of a path.
#[derive(Debug, PartialEq, Eq)]
pub enum Segment {
    Field(String),
    Index(usize),
}

/// One step of a path, as a mathematical object.
pub enum Step {
    Field(Seq<char>),
    Index(int),
}

impl View for Segment {
    type V = Step;

    open spec fn view(&self) -> Step {
        match self {
            Segment::Field(name) => Step::Field(name@),
            Segment::Index(index) => Step::Index(*index as int),
        }
    }
}

/// What a list of segments stands for.
pub open spec fn steps(list: Seq<Segment>) -> Seq<Step> {
    list.map_values(|s: Segment| s@)
}

/// An expression without what CRDs put around it: white space, braces, `$` and
/// one leading dot.
pub open spec fn bare(expression: Seq<char>) -> Seq<char> {
    let inside = stripped_end(
        stripped_start(trimmed(expression), Class::Just('{')),
        Class::Just('}'),
    );
    undotted(stripped_start(trimmed(inside), Class::Just('$')))
}

/// A string without the dot in front of it.
pub open spec fn undotted(s: Seq<char>) -> Seq<char> {
    if s.len() > 0 && s[0] == '.' {
        s.drop_first()
    } else {
        s
    }
}

/// Whether a bare expression holds what no field path does: a wildcard, a
/// filter, the current node, a quoted name.
pub open spec fn declined(path: Seq<char>) -> bool {
    ||| path.contains('*')
    ||| path.contains('?')
    ||| path.contains('@')
    ||| path.contains('\'')
}

/// The index behind an opening bracket: digits and one closing bracket.
pub open spec fn index_of(rest: Seq<char>) -> Option<int> {
    if "]"@.is_suffix_of(rest) {
        match unsigned(rest.drop_last()) {
            Some(n) => if n <= usize::MAX {
                Some(n as int)
            } else {
                None
            },
            None => None,
        }
    } else {
        None
    }
}

/// The steps of one part of a path: `containers[0]` is a name and an index. A
/// part with neither, with a bracket that holds no number or with one that was
/// never opened, is none of a field path.
pub open spec fn part_steps(part: Seq<char>) -> Option<Seq<Step>> {
    let (name, rest) = match cut(part, "["@) {
        Some((name, rest)) => (name, Some(rest)),
        None => (part, None),
    };
    let field = if name.len() > 0 {
        seq![Step::Field(name)]
    } else {
        Seq::empty()
    };
    if name.contains(']') {
        None
    } else {
        match rest {
            Some(rest) => match index_of(rest) {
                Some(n) => Some(field.push(Step::Index(n))),
                None => None,
            },
            None => if name.len() > 0 {
                Some(field)
            } else {
                None
            },
        }
    }
}

/// The steps of all parts, or nothing where one of them is none of a field path.
pub open spec fn parts_steps(parts: Seq<Seq<char>>) -> Option<Seq<Step>>
    decreases parts.len(),
{
    if parts.len() == 0 {
        Some(Seq::empty())
    } else {
        match (parts_steps(parts.drop_last()), part_steps(parts.last())) {
            (Some(front), Some(back)) => Some(front + back),
            _ => None,
        }
    }
}

/// The steps of an expression, or nothing where it is no field path. An empty
/// one is none, and neither is one with two dots in a row.
pub open spec fn path_steps(expression: Seq<char>) -> Option<Seq<Step>> {
    let path = bare(expression);
    if declined(path) {
        None
    } else {
        parts_steps(pieces(path, '.'))
    }
}

/// One step into a value.
pub open spec fn stepped(j: JsonView, step: Step) -> Option<JsonView> {
    match step {
        Step::Field(name) => j.get(name),
        Step::Index(index) => j.nth(index),
    }
}

/// All steps into a value, one after the other.
pub open spec fn walked(j: JsonView, path: Seq<Step>) -> Option<JsonView>
    decreases path.len(),
{
    if path.len() == 0 {
        Some(j)
    } else {
        match stepped(j, path[0]) {
            Some(inner) => walked(inner, path.drop_first()),
            None => None,
        }
    }
}

/// What an expression selects of a value.
pub open spec fn selected(expression: Seq<char>, j: JsonView) -> Option<JsonView> {
    match path_steps(expression) {
        Some(path) => walked(j, path),
        None => None,
    }
}

/// The field that a path starts at.
pub open spec fn root_of(expression: Seq<char>) -> Option<Seq<char>> {
    match path_steps(expression) {
        Some(path) => if path.len() > 0 {
            match path[0] {
                Step::Field(name) => Some(name),
                Step::Index(_) => None,
            }
        } else {
            None
        },
        None => None,
    }
}

/// An expression without what CRDs put around it.
fn unwrapped(expression: &str) -> (out: String)
    ensures
        out@ == bare(expression@),
{
    let outer = trim(expression);
    let open = strip_start(outer.as_str(), Class::Just('{'));
    let closed = strip_end(open.as_str(), Class::Just('}'));
    let inner = trim(closed.as_str());
    proof {
        reveal_strlit(".");
    }
    let rooted = strip_start(inner.as_str(), Class::Just('$'));
    match strip_prefix(rooted.as_str(), ".") {
        Some(path) => {
            assert("."@[0] == rooted@.subrange(0, 1)[0]);
            assert(path@ =~= rooted@.drop_first());
            path
        },
        None => {
            assert(rooted@.len() > 0 && rooted@[0] == '.' ==> "."@ =~= rooted@.subrange(0, 1));
            rooted
        },
    }
}

/// Whether one of the characters that no field path holds is in it.
fn has_operator(path: &str) -> (r: bool)
    ensures
        r == (path@.contains('*') || path@.contains('?') || path@.contains('@') || path@.contains(
            '\'',
        )),
{
    let cs = chars(path);
    let mut i: usize = 0;
    while i < cs.len()
        invariant
            i <= cs.len(),
            cs@ == path@,
            forall|k: int|
                0 <= k < i ==> #[trigger] cs@[k] != '*' && cs@[k] != '?' && cs@[k] != '@' && cs@[k]
                    != '\'',
        decreases cs.len() - i,
    {
        let c = cs[i];
        if c == '*' || c == '?' || c == '@' || c == '\'' {
            assert(path@[i as int] == c);
            return true;
        }
        i += 1;
    }
    false
}

/// The index behind an opening bracket.
fn read_index(rest: &str) -> (r: Option<usize>)
    ensures
        (match r {
            Some(n) => Some(n as int),
            None => None,
        }) == index_of(rest@),
{
    if !ends_with(rest, "]") {
        return None;
    }
    proof {
        reveal_strlit("]");
    }
    let cs = chars(rest);
    let digits = spelled(&cs, 0, cs.len() - 1);
    assert(digits@ =~= rest@.drop_last());
    match parse_unsigned(digits.as_str(), usize::MAX as u64) {
        Some(n) => Some(n as usize),
        None => None,
    }
}

/// Whether a closing bracket is in a string.
fn has_closing(name: &str) -> (r: bool)
    ensures
        r == name@.contains(']'),
{
    let cs = chars(name);
    let mut i: usize = 0;
    while i < cs.len()
        invariant
            i <= cs.len(),
            cs@ == name@,
            forall|k: int| 0 <= k < i ==> #[trigger] cs@[k] != ']',
        decreases cs.len() - i,
    {
        if cs[i] == ']' {
            assert(name@[i as int] == ']');
            return true;
        }
        i += 1;
    }
    false
}

/// Appends the steps of one part of a path. Returns whether it is one.
fn read_part(part: &str, out: &mut Vec<Segment>) -> (r: bool)
    ensures
        match part_steps(part@) {
            Some(more) => r && steps(final(out)@) == steps(old(out)@) + more,
            None => !r,
        },
{
    let ghost before = out@;
    let (name, rest): (String, Option<String>) = match split_once(part, "[") {
        Some((name, rest)) => (name, Some(rest)),
        None => (part.to_owned(), None),
    };
    if has_closing(name.as_str()) {
        return false;
    }
    let index = match &rest {
        Some(rest) => match read_index(rest.as_str()) {
            Some(index) => Some(index),
            None => return false,
        },
        None => if name.as_str().is_empty() {
            return false;
        } else {
            None
        },
    };
    let ghost name_chars = name@;
    if !name.as_str().is_empty() {
        out.push(Segment::Field(name));
    }
    if let Some(index) = index {
        out.push(Segment::Index(index));
    }
    assert(steps(out@) =~= steps(before) + part_steps(part@)->0);
    true
}

/// The steps of the first parts decide: once one is none, all are.
proof fn parts_fail_early(parts: Seq<Seq<char>>, n: int)
    requires
        0 <= n <= parts.len(),
        parts_steps(parts.take(n)) is None,
    ensures
        parts_steps(parts) is None,
    decreases parts.len(),
{
    if n == parts.len() {
        assert(parts.take(n) =~= parts);
    } else {
        assert(parts.drop_last().take(n) =~= parts.take(n));
        parts_fail_early(parts.drop_last(), n);
    }
}

/// The steps of an expression, or nothing where it is no field path.
pub fn segments(expression: &str) -> (r: Option<Vec<Segment>>)
    ensures
        match r {
            Some(list) => path_steps(expression@) == Some(steps(list@)),
            None => path_steps(expression@) is None,
        },
{
    let path = unwrapped(expression);
    if has_operator(path.as_str()) {
        return None;
    }
    let parts = split(path.as_str(), '.');
    let ghost all = each(parts@);
    let mut out: Vec<Segment> = Vec::new();
    let mut i: usize = 0;
    assert(steps(out@) =~= Seq::empty());
    while i < parts.len()
        invariant
            i <= parts.len(),
            all == each(parts@),
            path_steps(expression@) == parts_steps(all),
            parts_steps(all.take(i as int)) == Some(steps(out@)),
        decreases parts.len() - i,
    {
        let read = read_part(parts[i].as_str(), &mut out);
        assert(all.take(i + 1).drop_last() =~= all.take(i as int));
        assert(all.take(i + 1).last() == parts@[i as int]@);
        if !read {
            proof {
                parts_fail_early(all, i + 1);
            }
            return None;
        }
        i += 1;
    }
    assert(all.take(i as int) =~= all);
    Some(out)
}

/// Looks up a field path in an object.
///
/// Accepts the forms a CRD is written in: `.spec.replicas`, `spec.replicas` and
/// `{.spec.replicas}`. Returns `None` for a path that does not resolve, and for
/// any expression outside the supported subset.
pub fn evaluate<'a>(expression: &str, object: &'a Json) -> (r: Option<&'a Json>)
    ensures
        model_of(r) == selected(expression@, object@),
{
    let path = match segments(expression) {
        Some(path) => path,
        None => return None,
    };
    let ghost all = steps(path@);
    let mut current: &'a Json = object;
    let mut i: usize = 0;
    assert(all.skip(0) =~= all);
    while i < path.len()
        invariant
            i <= path.len(),
            all == steps(path@),
            selected(expression@, object@) == walked(current@, all.skip(i as int)),
        decreases path.len() - i,
    {
        assert(all.skip(i as int)[0] == path@[i as int]@);
        assert(all.skip(i as int).drop_first() =~= all.skip(i + 1));
        let next = match &path[i] {
            Segment::Field(name) => current.get(name.as_str()),
            Segment::Index(index) => current.nth(*index),
        };
        match next {
            Some(inner) => {
                current = inner;
            },
            None => return None,
        }
        i += 1;
    }
    Some(current)
}

/// Whether a string carries nothing that CRDs put around a path.
pub open spec fn plain(path: Seq<char>) -> bool {
    &&& path.len() > 0
    &&& !white_space(path[0]) && path[0] != '{' && path[0] != '$' && path[0] != '.'
    &&& !white_space(path.last()) && path.last() != '}'
}

/// The spellings that CRDs use select the same: `p`, `.p`, `{.p}` and `$.p`.
pub proof fn spellings_agree(p: Seq<char>, j: JsonView)
    requires
        plain(p),
    ensures
        selected(seq!['.'] + p, j) == selected(p, j),
        selected(seq!['{', '.'] + p + seq!['}'], j) == selected(p, j),
        selected(seq!['$', '.'] + p, j) == selected(p, j),
{
    let dotted = seq!['.'] + p;
    let braced = seq!['{', '.'] + p + seq!['}'];
    let rooted = seq!['$', '.'] + p;
    assert(dotted.drop_first() =~= p);
    assert(bare(p) == p);
    assert(bare(dotted) == p);
    assert(braced.drop_first().drop_last() =~= dotted);
    assert(stripped_start(braced.drop_first(), Class::Just('{')) == braced.drop_first());
    assert(stripped_start(braced, Class::Just('{')) == braced.drop_first());
    assert(stripped_end(dotted, Class::Just('}')) == dotted);
    assert(stripped_end(braced.drop_first(), Class::Just('}')) == dotted);
    assert(bare(braced) == p);
    assert(rooted.drop_first() =~= dotted);
    assert(stripped_start(dotted, Class::Just('$')) == dotted);
    assert(bare(rooted) == p);
}

/// The pieces of two strings with a separator between them.
proof fn pieces_join(p: Seq<char>, separator: char, q: Seq<char>)
    ensures
        pieces(p + seq![separator] + q, separator) == pieces(p, separator) + pieces(q, separator),
    decreases q.len(),
{
    let whole = p + seq![separator] + q;
    if q.len() == 0 {
        assert(whole.drop_last() =~= p);
        assert(pieces(whole, separator) =~= pieces(p, separator) + pieces(q, separator));
    } else {
        pieces_join(p, separator, q.drop_last());
        pieces_nonempty(q.drop_last(), separator);
        assert(whole.drop_last() =~= p + seq![separator] + q.drop_last());
        assert(pieces(whole, separator) =~= pieces(p, separator) + pieces(q, separator));
    }
}

/// The steps of two lists of parts, one behind the other.
proof fn parts_steps_join(a: Seq<Seq<char>>, b: Seq<Seq<char>>)
    ensures
        parts_steps(a + b) == (match (parts_steps(a), parts_steps(b)) {
            (Some(front), Some(back)) => Some(front + back),
            _ => None,
        }),
    decreases b.len(),
{
    if b.len() == 0 {
        assert(a + b =~= a);
        if let Some(front) = parts_steps(a) {
            assert(front + Seq::<Step>::empty() =~= front);
        }
    } else {
        parts_steps_join(a, b.drop_last());
        assert((a + b).drop_last() =~= a + b.drop_last());
        if let (Some(x), Some(y), Some(z)) = (
            parts_steps(a),
            parts_steps(b.drop_last()),
            part_steps(b.last()),
        ) {
            assert((x + y) + z =~= x + (y + z));
        }
    }
}

/// Walking two paths one after the other is walking the longer one.
proof fn walked_join(j: JsonView, a: Seq<Step>, b: Seq<Step>)
    ensures
        walked(j, a + b) == (match walked(j, a) {
            Some(inner) => walked(inner, b),
            None => None,
        }),
    decreases a.len(),
{
    if a.len() == 0 {
        assert(a + b =~= b);
    } else {
        assert((a + b).drop_first() =~= a.drop_first() + b);
        if let Some(inner) = stepped(j, a[0]) {
            walked_join(inner, a.drop_first(), b);
        }
    }
}

/// Paths compose: `p.q` selects what `q` selects of what `p` selects.
pub proof fn paths_compose(p: Seq<char>, q: Seq<char>, j: JsonView)
    requires
        plain(p),
        plain(q),
    ensures
        selected(p + seq!['.'] + q, j) == (match selected(p, j) {
            Some(inner) => selected(q, inner),
            None => None,
        }),
{
    let whole = p + seq!['.'] + q;
    assert(bare(p) == p);
    assert(bare(q) == q);
    assert(whole.last() == q.last());
    assert(bare(whole) == whole);
    assert forall|c: char| c != '.' implies whole.contains(c) == (p.contains(c) || q.contains(c)) by {
        if p.contains(c) {
            let i = choose|i: int| 0 <= i < p.len() && p[i] == c;
            assert(whole[i] == c);
        }
        if q.contains(c) {
            let i = choose|i: int| 0 <= i < q.len() && q[i] == c;
            assert(whole[p.len() + 1 + i] == c);
        }
        if whole.contains(c) {
            let i = choose|i: int| 0 <= i < whole.len() && whole[i] == c;
            if i < p.len() {
                assert(p[i] == c);
            } else {
                assert(i != p.len());
                assert(q[i - p.len() - 1] == c);
            }
        }
    }
    assert(declined(whole) == (declined(p) || declined(q)));
    pieces_join(p, '.', q);
    parts_steps_join(pieces(p, '.'), pieces(q, '.'));
    if let (Some(a), Some(b)) = (path_steps(p), path_steps(q)) {
        walked_join(j, a, b);
    }
}

/// The first segment of a path, which decides what the path is rooted at.
pub fn root(expression: &str) -> (r: Option<String>)
    ensures
        held(r) == root_of(expression@),
{
    match segments(expression) {
        Some(path) => if path.len() > 0 {
            assert(steps(path@)[0] == path@[0]@);
            match &path[0] {
                Segment::Field(name) => Some(name.clone()),
                Segment::Index(_) => None,
            }
        } else {
            None
        },
        None => None,
    }
}

} // verus!
