//! Strings as sequences of characters.
use vstd::prelude::*;
use vstd::string::*;

verus! {

/// `String::push`: the character becomes the last one of the string.
pub assume_specification[ String::push ](s: &mut String, c: char)
    ensures
        final(s)@ == old(s)@.push(c),
;

/// `str`'s `==`: two strings are equal when they hold the same characters.
pub assume_specification[ <str as PartialEq<str>>::eq ](a: &str, b: &str) -> (r: bool)
    ensures
        r == (a@ == b@),
;

/// Whether a character is white space, as Unicode's `White_Space` property
/// lists it.
pub open spec fn white_space(c: char) -> bool {
    ||| '\u{9}' <= c <= '\u{d}'
    ||| c == ' '
    ||| c == '\u{85}'
    ||| c == '\u{a0}'
    ||| c == '\u{1680}'
    ||| '\u{2000}' <= c <= '\u{200a}'
    ||| c == '\u{2028}'
    ||| c == '\u{2029}'
    ||| c == '\u{202f}'
    ||| c == '\u{205f}'
    ||| c == '\u{3000}'
}

/// `char::is_whitespace`: whether the character has Unicode's `White_Space`
/// property.
pub assume_specification[ char::is_whitespace ](c: char) -> (r: bool)
    ensures
        r == white_space(c),
;

/// A string in lower case.
pub uninterp spec fn lower_case(s: Seq<char>) -> Seq<char>;

/// `str::to_lowercase`: Unicode's lower-case mapping, under a name.
#[verifier::external_body]
pub(crate) fn lower(s: &str) -> (r: String)
    ensures
        r@ == lower_case(s@),
{
    s.to_lowercase()
}

/// The order of strings: by the first character that differs, shorter first.
pub open spec fn precedes(a: Seq<char>, b: Seq<char>) -> bool
    decreases a.len(),
{
    if b.len() == 0 {
        false
    } else if a.len() == 0 {
        true
    } else if a[0] == b[0] {
        precedes(a.drop_first(), b.drop_first())
    } else {
        a[0] < b[0]
    }
}

/// No string comes before itself.
pub proof fn precedes_irreflexive(a: Seq<char>)
    ensures
        !precedes(a, a),
    decreases a.len(),
{
    if a.len() > 0 {
        precedes_irreflexive(a.drop_first());
    }
}

/// Of two different strings exactly one comes before the other.
pub proof fn precedes_total(a: Seq<char>, b: Seq<char>)
    ensures
        a != b ==> precedes(a, b) || precedes(b, a),
        precedes(a, b) ==> !precedes(b, a),
    decreases a.len(),
{
    if a.len() > 0 && b.len() > 0 {
        if a[0] == b[0] {
            precedes_total(a.drop_first(), b.drop_first());
            if a.drop_first() == b.drop_first() {
                assert(a =~= seq![a[0]] + a.drop_first());
                assert(b =~= seq![b[0]] + b.drop_first());
            }
        }
    } else if a.len() == 0 && b.len() == 0 {
        assert(a =~= b);
    }
}

/// The order of strings is transitive.
pub proof fn precedes_transitive(a: Seq<char>, b: Seq<char>, c: Seq<char>)
    requires
        precedes(a, b),
        precedes(b, c),
    ensures
        precedes(a, c),
    decreases a.len(),
{
    if a.len() > 0 {
        if a[0] == b[0] && b[0] == c[0] {
            precedes_transitive(a.drop_first(), b.drop_first(), c.drop_first());
        }
    }
}

/// What an optional string holds.
pub open spec fn held(s: Option<String>) -> Option<Seq<char>> {
    match s {
        Some(s) => Some(s@),
        None => None,
    }
}

/// What an optional borrowed string holds.
pub open spec fn lent(s: Option<&str>) -> Option<Seq<char>> {
    match s {
        Some(s) => Some(s@),
        None => None,
    }
}

/// What each string of a list holds.
pub open spec fn each(list: Seq<String>) -> Seq<Seq<char>> {
    list.map_values(|s: String| s@)
}

/// The strings of a list with a separator between them.
pub open spec fn joined(parts: Seq<Seq<char>>, separator: Seq<char>) -> Seq<char>
    decreases parts.len(),
{
    if parts.len() == 0 {
        Seq::empty()
    } else if parts.len() == 1 {
        parts[0]
    } else {
        joined(parts.drop_last(), separator) + separator + parts.last()
    }
}

/// The pieces of a string between the separators: every separator ends one
/// piece and begins the next.
pub open spec fn pieces(s: Seq<char>, separator: char) -> Seq<Seq<char>>
    decreases s.len(),
{
    if s.len() == 0 {
        seq![Seq::empty()]
    } else {
        let before = pieces(s.drop_last(), separator);
        if s.last() == separator {
            before.push(Seq::empty())
        } else {
            before.drop_last().push(before.last().push(s.last()))
        }
    }
}

/// A string has at least one piece.
pub proof fn pieces_nonempty(s: Seq<char>, separator: char)
    ensures
        pieces(s, separator).len() > 0,
    decreases s.len(),
{
    if s.len() > 0 {
        pieces_nonempty(s.drop_last(), separator);
    }
}

/// Whether `needle` stands in `hay` at position `at`.
pub open spec fn stands_at(needle: Seq<char>, hay: Seq<char>, at: int) -> bool {
    0 <= at && at + needle.len() <= hay.len() && hay.subrange(at, at + needle.len()) == needle
}

/// Whether `needle` stands anywhere in `hay`.
pub open spec fn occurs(needle: Seq<char>, hay: Seq<char>) -> bool {
    exists|at: int| stands_at(needle, hay, at)
}

/// Where `needle` first stands in `hay` at or after `from`.
pub open spec fn first_from(needle: Seq<char>, hay: Seq<char>, from: int) -> Option<int>
    decreases hay.len() + 1 - from,
{
    if from + needle.len() > hay.len() {
        None
    } else if stands_at(needle, hay, from) {
        Some(from)
    } else {
        first_from(needle, hay, from + 1)
    }
}

/// What is in front of the first `mark` and what is behind it.
pub open spec fn cut(s: Seq<char>, mark: Seq<char>) -> Option<(Seq<char>, Seq<char>)> {
    match first_from(mark, s, 0) {
        Some(at) => Some((s.subrange(0, at), s.skip(at + mark.len()))),
        None => None,
    }
}

/// A string with every `mark` in it, from the front on, replaced.
pub open spec fn replaced(s: Seq<char>, mark: Seq<char>, by: Seq<char>) -> Seq<char>
    decreases s.len(),
{
    match cut(s, mark) {
        Some((front, back)) => if back.len() < s.len() {
            front + by + replaced(back, mark, by)
        } else {
            s
        },
        None => s,
    }
}

/// The parts of a string between the marks, from the front on.
pub open spec fn parted(s: Seq<char>, mark: Seq<char>) -> Seq<Seq<char>>
    decreases s.len(),
{
    match cut(s, mark) {
        Some((front, back)) => if back.len() < s.len() {
            seq![front] + parted(back, mark)
        } else {
            seq![s]
        },
        None => seq![s],
    }
}

/// A line without the carriage return at its end.
pub open spec fn without_return(line: Seq<char>) -> Seq<char> {
    if line.len() > 0 && line.last() == '\r' {
        line.drop_last()
    } else {
        line
    }
}

/// The lines of a text. A line ends at a line feed, with a carriage return in
/// front of it or without; what follows the last line feed is a line of its own
/// unless it is empty.
pub open spec fn text_lines(s: Seq<char>) -> Seq<Seq<char>> {
    let parts = pieces(s, '\n');
    let ended = parts.drop_last().map_values(|line: Seq<char>| without_return(line));
    if parts.last().len() == 0 {
        ended
    } else {
        ended.push(parts.last())
    }
}

/// The text that bytes hold, with what is no UTF-8 replaced.
pub uninterp spec fn lossy_text(bytes: Seq<u8>) -> Seq<char>;

/// `String::from_utf8_lossy`, under a name. Bytes that are UTF-8 are taken as
/// they are.
#[verifier::external_body]
pub(crate) fn lossy(bytes: &Vec<u8>) -> (r: String)
    ensures
        r@ == lossy_text(bytes@),
        vstd::utf8::valid_utf8(bytes@) ==> r@ == vstd::utf8::decode_utf8(bytes@),
{
    String::from_utf8_lossy(bytes).into_owned()
}

/// A set of characters that can be stripped from an end of a string.
#[derive(Clone, Copy)]
pub enum Class {
    Space,
    Just(char),
}

impl Class {
    pub open spec fn has(self, c: char) -> bool {
        match self {
            Class::Space => white_space(c),
            Class::Just(one) => c == one,
        }
    }

    pub fn holds(&self, c: char) -> (r: bool)
        ensures
            r == self.has(c),
    {
        match self {
            Class::Space => c.is_whitespace(),
            Class::Just(one) => c == *one,
        }
    }
}

/// A string without the leading characters of a class.
pub open spec fn stripped_start(s: Seq<char>, class: Class) -> Seq<char>
    decreases s.len(),
{
    if s.len() > 0 && class.has(s[0]) {
        stripped_start(s.drop_first(), class)
    } else {
        s
    }
}

/// A string without the trailing characters of a class.
pub open spec fn stripped_end(s: Seq<char>, class: Class) -> Seq<char>
    decreases s.len(),
{
    if s.len() > 0 && class.has(s.last()) {
        stripped_end(s.drop_last(), class)
    } else {
        s
    }
}

/// A string without the white space around it.
pub open spec fn trimmed(s: Seq<char>) -> Seq<char> {
    stripped_end(stripped_start(s, Class::Space), Class::Space)
}

/// Whether two strings are the same.
pub fn same(a: &str, b: &str) -> (r: bool)
    ensures
        r == (a@ == b@),
{
    *a == *b
}

/// Whether a string comes before another: they are ordered by the first
/// character in which they differ, and a proper prefix comes before what it is
/// a prefix of.
pub fn less(a: &str, b: &str) -> (r: bool)
    ensures
        r == precedes(a@, b@),
{
    let x = chars(a);
    let y = chars(b);
    let mut i: usize = 0;
    assert(x@.skip(0) =~= a@);
    assert(y@.skip(0) =~= b@);
    while i < x.len() && i < y.len()
        invariant
            i <= x.len(),
            i <= y.len(),
            precedes(a@, b@) == precedes(x@.skip(i as int), y@.skip(i as int)),
        decreases x.len() - i,
    {
        assert(x@.skip(i as int).drop_first() =~= x@.skip(i + 1));
        assert(y@.skip(i as int).drop_first() =~= y@.skip(i + 1));
        if x[i] != y[i] {
            return x[i] < y[i];
        }
        i += 1;
    }
    i < y.len()
}

/// An optional string, borrowed.
pub fn borrowed(s: &Option<String>) -> (r: Option<&str>)
    ensures
        lent(r) == held(*s),
{
    match s {
        Some(s) => Some(s.as_str()),
        None => None,
    }
}

/// An optional borrowed string, owned.
pub fn owned(s: Option<&str>) -> (r: Option<String>)
    ensures
        held(r) == lent(s),
{
    match s {
        Some(s) => Some(s.to_owned()),
        None => None,
    }
}

/// Whether a list holds a string.
pub fn among(list: &Vec<String>, s: &str) -> (r: bool)
    ensures
        r == each(list@).contains(s@),
{
    let mut i: usize = 0;
    while i < list.len()
        invariant
            i <= list.len(),
            forall|k: int| 0 <= k < i ==> #[trigger] list@[k]@ != s@,
        decreases list.len() - i,
    {
        if same(list[i].as_str(), s) {
            assert(each(list@)[i as int] == s@);
            return true;
        }
        i += 1;
    }
    assert forall|k: int| 0 <= k < each(list@).len() implies each(list@)[k] != s@ by {
        assert(each(list@)[k] == list@[k]@);
    }
    false
}

/// A list of strings, copied.
pub fn copies(list: &Vec<String>) -> (r: Vec<String>)
    ensures
        each(r@) == each(list@),
        r@ == list@,
{
    let mut out: Vec<String> = Vec::new();
    let mut i: usize = 0;
    while i < list.len()
        invariant
            i <= list.len(),
            out@ == list@.take(i as int),
        decreases list.len() - i,
    {
        out.push(list[i].clone());
        assert(list@.take(i + 1) =~= list@.take(i as int).push(list@[i as int]));
        i += 1;
    }
    assert(list@.take(i as int) =~= list@);
    out
}

/// How many bytes a string takes.
pub open spec fn byte_length(s: Seq<char>) -> nat {
    vstd::utf8::encode_utf8(s).len()
}

/// How many bytes a string takes.
pub fn bytes(s: &str) -> (r: usize)
    ensures
        r == byte_length(s@),
{
    s.as_bytes().len()
}

/// The characters of a string, one by one.
pub fn chars(s: &str) -> (out: Vec<char>)
    ensures
        out@ == s@,
{
    let mut out: Vec<char> = Vec::new();
    for c in it: s.chars()
        invariant
            it.seq() == s@,
            out@ == it.seq().take(it.index() as int),
    {
        out.push(c);
    }
    assert(out@ =~= s@);
    out
}

/// The string that the characters from `from` up to `to` spell.
pub fn spelled(cs: &Vec<char>, from: usize, to: usize) -> (out: String)
    requires
        from <= to <= cs@.len(),
    ensures
        out@ == cs@.subrange(from as int, to as int),
{
    let mut out = String::new();
    for i in from..to
        invariant
            from <= i <= to <= cs@.len(),
            out@ == cs@.subrange(from as int, i as int),
    {
        out.push(cs[i]);
        assert(cs@.subrange(from as int, i + 1) =~= cs@.subrange(from as int, i as int).push(
            cs@[i as int],
        ));
    }
    out
}

/// Two strings, one after the other.
pub fn two(a: &str, b: &str) -> (out: String)
    ensures
        out@ == a@ + b@,
{
    let mut out = a.to_owned();
    out.append(b);
    out
}

/// Three strings, one after the other.
pub fn three(a: &str, b: &str, c: &str) -> (out: String)
    ensures
        out@ == a@ + b@ + c@,
{
    let mut out = a.to_owned();
    out.append(b);
    out.append(c);
    out
}

/// The strings of a list with a separator between them.
pub fn join(parts: &Vec<String>, separator: &str) -> (out: String)
    ensures
        out@ == joined(each(parts@), separator@),
{
    let mut out = String::new();
    let mut i: usize = 0;
    let ghost all = each(parts@);
    while i < parts.len()
        invariant
            i <= parts.len(),
            all == each(parts@),
            out@ == joined(all.take(i as int), separator@),
        decreases parts.len() - i,
    {
        let ghost next = all.take(i + 1);
        assert(next.drop_last() =~= all.take(i as int));
        assert(next.last() == parts@[i as int]@);
        if i > 0 {
            out.append(separator);
            out.append(parts[i].as_str());
        } else {
            out.append(parts[i].as_str());
            assert(out@ =~= parts@[0]@);
        }
        i += 1;
    }
    assert(all.take(i as int) =~= all);
    out
}

/// The pieces of a string between the separators.
pub fn split(s: &str, separator: char) -> (out: Vec<String>)
    ensures
        each(out@) == pieces(s@, separator),
{
    let cs = chars(s);
    let mut out: Vec<String> = Vec::new();
    let mut start: usize = 0;
    let mut i: usize = 0;
    assert(cs@.take(0) =~= Seq::<char>::empty());
    assert(each(out@).push(cs@.subrange(0, 0)) =~= seq![Seq::empty()]);
    while i < cs.len()
        invariant
            start <= i <= cs.len(),
            pieces(cs@.take(i as int), separator) == each(out@).push(
                cs@.subrange(start as int, i as int),
            ),
        decreases cs.len() - i,
    {
        let ghost next = cs@.take(i + 1);
        assert(next.drop_last() =~= cs@.take(i as int));
        assert(next.last() == cs@[i as int]);
        let ghost before = pieces(cs@.take(i as int), separator);
        assert(before.drop_last() =~= each(out@));
        if cs[i] == separator {
            let ghost earlier = out@;
            out.push(spelled(&cs, start, i));
            assert(each(out@) =~= each(earlier).push(cs@.subrange(start as int, i as int)));
            start = i + 1;
            assert(cs@.subrange(start as int, i + 1) =~= Seq::empty());
        } else {
            assert(cs@.subrange(start as int, i + 1) =~= cs@.subrange(start as int, i as int).push(
                cs@[i as int],
            ));
        }
        i += 1;
    }
    assert(cs@.take(i as int) =~= s@);
    let ghost earlier = out@;
    out.push(spelled(&cs, start, i));
    assert(each(out@) =~= each(earlier).push(cs@.subrange(start as int, i as int)));
    out
}

/// Whether `needle` stands in `hay` at position `at`.
fn is_at(needle: &Vec<char>, hay: &Vec<char>, at: usize) -> (r: bool)
    requires
        at + needle.len() <= hay.len(),
    ensures
        r == stands_at(needle@, hay@, at as int),
{
    let mut k: usize = 0;
    while k < needle.len()
        invariant
            k <= needle@.len(),
            at + needle.len() <= hay.len(),
            forall|m: int| 0 <= m < k ==> hay@[at + m] == #[trigger] needle@[m],
        decreases needle.len() - k,
    {
        if hay[at + k] != needle[k] {
            assert(hay@.subrange(at as int, at + needle@.len())[k as int] != needle@[k as int]);
            return false;
        }
        k += 1;
    }
    assert(hay@.subrange(at as int, at + needle@.len()) =~= needle@);
    true
}

/// Where `needle` first stands in `hay` at or after `from`.
pub fn find(needle: &Vec<char>, hay: &Vec<char>, from: usize) -> (r: Option<usize>)
    ensures
        match r {
            Some(at) => first_from(needle@, hay@, from as int) == Some(at as int) && from <= at && at
                + needle.len() <= hay.len(),
            None => first_from(needle@, hay@, from as int) is None,
        },
{
    let mut at: usize = from;
    while at <= hay.len() && needle.len() <= hay.len() - at
        invariant
            from <= at,
            first_from(needle@, hay@, from as int) == first_from(needle@, hay@, at as int),
        decreases hay.len() + 1 - at,
    {
        if is_at(needle, hay, at) {
            return Some(at);
        }
        if at == hay.len() {
            assert(at + 1 + needle@.len() > hay@.len());
            assert(first_from(needle@, hay@, at + 1) is None);
            return None;
        }
        at += 1;
    }
    None
}

/// A first place exists exactly where the needle occurs.
pub proof fn first_from_finds(needle: Seq<char>, hay: Seq<char>, from: int)
    requires
        0 <= from,
    ensures
        match first_from(needle, hay, from) {
            Some(at) => from <= at && stands_at(needle, hay, at) && forall|k: int|
                from <= k < at ==> !#[trigger] stands_at(needle, hay, k),
            None => forall|k: int| from <= k ==> !#[trigger] stands_at(needle, hay, k),
        },
    decreases hay.len() + 1 - from,
{
    if from + needle.len() > hay.len() {
    } else if stands_at(needle, hay, from) {
    } else {
        first_from_finds(needle, hay, from + 1);
    }
}

/// Whether `needle` stands anywhere in `hay`.
pub fn contains(hay: &str, needle: &str) -> (r: bool)
    ensures
        r == occurs(needle@, hay@),
{
    let n = chars(needle);
    let h = chars(hay);
    proof {
        first_from_finds(n@, h@, 0);
    }
    match find(&n, &h, 0) {
        Some(at) => {
            assert(stands_at(needle@, hay@, at as int));
            true
        },
        None => {
            assert forall|at: int| !stands_at(needle@, hay@, at) by {
                if at >= 0 {
                    assert(!stands_at(n@, h@, at));
                }
            }
            false
        },
    }
}

/// What is in front of the first `mark` and what is behind it.
pub fn split_once(s: &str, mark: &str) -> (r: Option<(String, String)>)
    ensures
        match r {
            Some((front, back)) => cut(s@, mark@) == Some((front@, back@)),
            None => cut(s@, mark@) is None,
        },
{
    let m = chars(mark);
    let h = chars(s);
    match find(&m, &h, 0) {
        Some(at) => {
            let after: usize = at + m.len();
            let front = spelled(&h, 0, at);
            let back = spelled(&h, after, h.len());
            assert(h@.subrange(after as int, h@.len() as int) =~= h@.skip(after as int));
            Some((front, back))
        },
        None => None,
    }
}

/// Whether a string begins with another.
pub fn starts_with(s: &str, prefix: &str) -> (r: bool)
    ensures
        r == prefix@.is_prefix_of(s@),
{
    let p = chars(prefix);
    let h = chars(s);
    if p.len() > h.len() {
        return false;
    }
    let r = is_at(&p, &h, 0);
    assert(h@.subrange(0, p@.len() as int) =~= h@.take(p@.len() as int));
    assert(r == prefix@.is_prefix_of(s@)) by {
        if r {
            assert forall|i: int| 0 <= i < p@.len() implies p@[i] == h@[i] by {
                assert(h@.subrange(0, p@.len() as int)[i] == h@[i]);
            }
            assert(p@ =~= h@.subrange(0, p@.len() as int));
        } else if prefix@.is_prefix_of(s@) {
            assert(h@.subrange(0, p@.len() as int) =~= p@);
        }
    }
    r
}

/// What follows a prefix, if the string begins with it.
pub fn strip_prefix(s: &str, prefix: &str) -> (r: Option<String>)
    ensures
        match r {
            Some(rest) => prefix@.is_prefix_of(s@) && rest@ == s@.skip(prefix@.len() as int),
            None => !prefix@.is_prefix_of(s@),
        },
{
    if starts_with(s, prefix) {
        let h = chars(s);
        let p = chars(prefix);
        let rest = spelled(&h, p.len(), h.len());
        assert(rest@ =~= s@.skip(prefix@.len() as int));
        Some(rest)
    } else {
        None
    }
}

/// Whether a string ends with another.
pub fn ends_with(s: &str, suffix: &str) -> (r: bool)
    ensures
        r == suffix@.is_suffix_of(s@),
{
    let p = chars(suffix);
    let h = chars(s);
    if p.len() > h.len() {
        return false;
    }
    let at: usize = h.len() - p.len();
    let r = is_at(&p, &h, at);
    assert(r == suffix@.is_suffix_of(s@)) by {
        let tail = h@.subrange(at as int, at + p@.len());
        if r {
            assert(p@ == tail);
            assert(p@ =~= h@.subrange(h@.len() - p@.len(), h@.len() as int));
        } else if suffix@.is_suffix_of(s@) {
            assert(tail =~= p@);
        }
    }
    r
}

/// A string without the leading characters of a class.
pub fn strip_start(s: &str, class: Class) -> (out: String)
    ensures
        out@ == stripped_start(s@, class),
{
    let cs = chars(s);
    let mut from: usize = 0;
    assert(cs@.skip(0) =~= cs@);
    while from < cs.len() && class.holds(cs[from])
        invariant
            from <= cs.len(),
            stripped_start(cs@.skip(from as int), class) == stripped_start(s@, class),
        decreases cs.len() - from,
    {
        assert(cs@.skip(from as int).drop_first() =~= cs@.skip(from + 1));
        from += 1;
    }
    let out = spelled(&cs, from, cs.len());
    assert(out@ =~= cs@.skip(from as int));
    out
}

/// A string without the trailing characters of a class.
pub fn strip_end(s: &str, class: Class) -> (out: String)
    ensures
        out@ == stripped_end(s@, class),
{
    let cs = chars(s);
    let mut to: usize = cs.len();
    assert(cs@.take(to as int) =~= cs@);
    while to > 0 && class.holds(cs[to - 1])
        invariant
            to <= cs.len(),
            stripped_end(cs@.take(to as int), class) == stripped_end(s@, class),
        decreases to,
    {
        assert(cs@.take(to as int).drop_last() =~= cs@.take(to - 1));
        to -= 1;
    }
    let out = spelled(&cs, 0, to);
    assert(out@ =~= cs@.take(to as int));
    out
}

/// A string without the white space around it.
pub fn trim(s: &str) -> (out: String)
    ensures
        out@ == trimmed(s@),
{
    let front = strip_start(s, Class::Space);
    strip_end(front.as_str(), Class::Space)
}

/// A string with every `mark` in it, from the front on, replaced.
pub fn replace(s: &str, mark: &str, by: &str) -> (out: String)
    requires
        mark@.len() > 0,
    ensures
        out@ == replaced(s@, mark@, by@),
{
    let mut out = String::new();
    let mut rest = s.to_owned();
    let mut more = true;
    assert(out@ + replaced(rest@, mark@, by@) =~= replaced(s@, mark@, by@));
    while more
        invariant
            mark@.len() > 0,
            more ==> replaced(s@, mark@, by@) == out@ + replaced(rest@, mark@, by@),
            !more ==> replaced(s@, mark@, by@) == out@,
        decreases rest@.len() + (if more { 1int } else { 0int }),
    {
        match split_once(rest.as_str(), mark) {
            Some((front, back)) => {
                proof {
                    cut_shortens(rest@, mark@);
                }
                let ghost before = out@;
                out.append(front.as_str());
                out.append(by);
                assert(before + (front@ + by@ + replaced(back@, mark@, by@)) =~= out@ + replaced(
                    back@,
                    mark@,
                    by@,
                ));
                rest = back;
            },
            None => {
                out.append(rest.as_str());
                more = false;
            },
        }
    }
    out
}

/// What is behind a mark is shorter than the whole.
pub proof fn cut_shortens(s: Seq<char>, mark: Seq<char>)
    requires
        mark.len() > 0,
    ensures
        cut(s, mark) matches Some((front, back)) ==> front.len() < s.len() && back.len() < s.len(),
{
    first_from_finds(mark, s, 0);
}

/// The parts of a string between the marks, from the front on.
pub fn split_text(s: &str, mark: &str) -> (out: Vec<String>)
    requires
        mark@.len() > 0,
    ensures
        each(out@) == parted(s@, mark@),
{
    let mut out: Vec<String> = Vec::new();
    let mut rest = s.to_owned();
    assert(each(out@) + parted(rest@, mark@) =~= parted(s@, mark@));
    loop
        invariant_except_break
            parted(s@, mark@) == each(out@) + parted(rest@, mark@),
        invariant
            mark@.len() > 0,
        ensures
            each(out@) == parted(s@, mark@),
        decreases rest@.len(),
    {
        let ghost before = out@;
        match split_once(rest.as_str(), mark) {
            Some((front, back)) => {
                proof {
                    cut_shortens(rest@, mark@);
                }
                let ghost first = front@;
                out.push(front);
                assert(each(out@) =~= each(before).push(first));
                assert(each(before) + (seq![first] + parted(back@, mark@)) =~= each(out@) + parted(
                    back@,
                    mark@,
                ));
                rest = back;
            },
            None => {
                let ghost last = rest@;
                out.push(rest);
                assert(each(out@) =~= each(before) + seq![last]);
                break ;
            },
        }
    }
    out
}

/// The lines of a text.
pub fn lines(s: &str) -> (out: Vec<String>)
    ensures
        each(out@) == text_lines(s@),
{
    let parts = split(s, '\n');
    let ghost all = each(parts@);
    proof {
        pieces_nonempty(s@, '\n');
    }
    let mut out: Vec<String> = Vec::new();
    let mut i: usize = 0;
    while i + 1 < parts.len()
        invariant
            i < parts.len(),
            all == each(parts@),
            out@.len() == i,
            forall|k: int| 0 <= k < i ==> (#[trigger] out@[k])@ == without_return(all[k]),
        decreases parts.len() - i,
    {
        let cs = chars(parts[i].as_str());
        if cs.len() > 0 && cs[cs.len() - 1] == '\r' {
            let line = spelled(&cs, 0, cs.len() - 1);
            assert(line@ =~= all[i as int].drop_last());
            out.push(line);
        } else {
            out.push(parts[i].clone());
        }
        i += 1;
    }
    let ghost ended = all.drop_last().map_values(|line: Seq<char>| without_return(line));
    assert(each(out@) =~= ended);
    assert(all.last() == parts@[i as int]@);
    if !parts[i].as_str().is_empty() {
        out.push(parts[i].clone());
        assert(each(out@) =~= ended.push(all.last()));
    }
    out
}

} // verus!
