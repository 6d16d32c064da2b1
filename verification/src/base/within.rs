//! What is taken out of a string stands in it.
use vstd::prelude::*;

use crate::base::text::{
    cut, first_from_finds, occurs, parted, pieces, pieces_nonempty, replaced, stands_at,
    stripped_end, stripped_start, text_lines, trimmed, without_return, Class,
};

verus! {

/// A stretch of a string stands in it.
pub proof fn stretch_occurs(s: Seq<char>, from: int, to: int)
    requires
        0 <= from <= to <= s.len(),
    ensures
        occurs(s.subrange(from, to), s),
{
    assert(stands_at(s.subrange(from, to), s, from));
}

/// What stands in a part of a string stands in the string.
pub proof fn occurs_transitive(a: Seq<char>, b: Seq<char>, c: Seq<char>)
    requires
        occurs(a, b),
        occurs(b, c),
    ensures
        occurs(a, c),
{
    let i = choose|i: int| stands_at(a, b, i);
    let j = choose|j: int| stands_at(b, c, j);
    assert(c.subrange(j + i, j + i + a.len()) =~= a) by {
        assert forall|k: int| 0 <= k < a.len() implies c[j + i + k] == #[trigger] a[k] by {
            assert(b[i + k] == b.subrange(i, i + a.len())[k]);
            assert(c[j + (i + k)] == c.subrange(j, j + b.len())[i + k]);
        }
    }
    assert(stands_at(a, c, j + i));
}

pub proof fn occurs_in_itself(s: Seq<char>)
    ensures
        occurs(s, s),
{
    stretch_occurs(s, 0, s.len() as int);
    assert(s.subrange(0, s.len() as int) =~= s);
}

proof fn stripped_start_occurs(s: Seq<char>, class: Class)
    ensures
        occurs(stripped_start(s, class), s),
    decreases s.len(),
{
    occurs_in_itself(s);
    if s.len() > 0 && class.has(s[0]) {
        stripped_start_occurs(s.drop_first(), class);
        stretch_occurs(s, 1, s.len() as int);
        occurs_transitive(stripped_start(s, class), s.drop_first(), s);
    }
}

proof fn stripped_end_occurs(s: Seq<char>, class: Class)
    ensures
        occurs(stripped_end(s, class), s),
    decreases s.len(),
{
    occurs_in_itself(s);
    if s.len() > 0 && class.has(s.last()) {
        stripped_end_occurs(s.drop_last(), class);
        stretch_occurs(s, 0, s.len() - 1);
        occurs_transitive(stripped_end(s, class), s.drop_last(), s);
    }
}

/// What is left of a string without the white space around it stands in it.
pub proof fn trimmed_occurs(s: Seq<char>)
    ensures
        occurs(trimmed(s), s),
{
    stripped_start_occurs(s, Class::Space);
    stripped_end_occurs(stripped_start(s, Class::Space), Class::Space);
    occurs_transitive(trimmed(s), stripped_start(s, Class::Space), s);
}

/// What is in front of a mark and what is behind it stand in the string.
pub proof fn cut_occurs(s: Seq<char>, mark: Seq<char>)
    ensures
        cut(s, mark) matches Some((front, back)) ==> occurs(front, s) && occurs(back, s),
{
    first_from_finds(mark, s, 0);
    if let Some((front, back)) = cut(s, mark) {
        stretch_occurs(s, 0, front.len() as int);
        assert(front =~= s.subrange(0, front.len() as int));
        stretch_occurs(s, s.len() - back.len(), s.len() as int);
        assert(back =~= s.subrange(s.len() - back.len(), s.len() as int));
    }
}

/// Every piece of a string stands in it, and the last one at its end.
pub proof fn pieces_occur(s: Seq<char>, separator: char)
    ensures
        forall|i: int|
            0 <= i < pieces(s, separator).len() ==> occurs(#[trigger] pieces(s, separator)[i], s),
        pieces(s, separator).last().is_suffix_of(s),
    decreases s.len(),
{
    pieces_nonempty(s, separator);
    let all = pieces(s, separator);
    if s.len() == 0 {
        occurs_in_itself(s);
        assert(all[0] =~= s);
    } else {
        let front = s.drop_last();
        let before = pieces(front, separator);
        pieces_occur(front, separator);
        pieces_nonempty(front, separator);
        stretch_occurs(s, 0, s.len() - 1);
        assert(front =~= s.subrange(0, s.len() - 1));
        assert(all.last().is_suffix_of(s));
        assert forall|i: int| 0 <= i < all.len() implies occurs(#[trigger] all[i], s) by {
            if i < all.len() - 1 {
                assert(all[i] == before[i]);
                occurs_transitive(before[i], front, s);
            } else {
                stretch_occurs(s, s.len() - all[i].len(), s.len() as int);
                assert(all[i] =~= s.subrange(s.len() - all[i].len(), s.len() as int));
            }
        }
    }
}

/// Every line of a text stands in it.
pub proof fn lines_occur(s: Seq<char>)
    ensures
        forall|i: int| 0 <= i < text_lines(s).len() ==> occurs(#[trigger] text_lines(s)[i], s),
{
    let parts = pieces(s, '\n');
    pieces_occur(s, '\n');
    pieces_nonempty(s, '\n');
    assert forall|i: int| 0 <= i < text_lines(s).len() implies occurs(
        #[trigger] text_lines(s)[i],
        s,
    ) by {
        if i < parts.len() - 1 {
            let line = parts[i];
            assert(text_lines(s)[i] == without_return(line));
            if line.len() > 0 && line.last() == '\r' {
                stretch_occurs(line, 0, line.len() - 1);
                assert(line.drop_last() =~= line.subrange(0, line.len() - 1));
                occurs_transitive(line.drop_last(), line, s);
            }
        } else {
            assert(text_lines(s)[i] == parts[i]);
        }
    }
}

/// Every part of a string between marks stands in it.
pub proof fn parts_occur(s: Seq<char>, mark: Seq<char>)
    ensures
        forall|i: int|
            0 <= i < parted(s, mark).len() ==> occurs(#[trigger] parted(s, mark)[i], s),
    decreases s.len(),
{
    occurs_in_itself(s);
    cut_occurs(s, mark);
    if let Some((front, back)) = cut(s, mark) {
        if back.len() < s.len() {
            parts_occur(back, mark);
            let all = parted(s, mark);
            assert forall|i: int| 0 <= i < all.len() implies occurs(#[trigger] all[i], s) by {
                if i > 0 {
                    assert(all[i] == parted(back, mark)[i - 1]);
                    occurs_transitive(all[i], back, s);
                }
            }
        }
    }
}

/// Whether no end of a mark is also a beginning of it, so that two marks never
/// overlap.
pub open spec fn borderless(mark: Seq<char>) -> bool {
    mark.len() > 0 && forall|k: int|
        0 < k < mark.len() ==> #[trigger] mark.skip(k) != mark.take(mark.len() - k)
}

/// The parts of two strings with a mark between them.
proof fn parts_join(front: Seq<char>, mark: Seq<char>, back: Seq<char>)
    requires
        borderless(mark),
    ensures
        parted(front + mark + back, mark) == parted(front, mark) + parted(back, mark),
    decreases front.len(),
{
    let whole = front + mark + back;
    first_from_finds(mark, front, 0);
    first_from_finds(mark, whole, 0);
    assert(stands_at(mark, whole, front.len() as int)) by {
        assert(whole.subrange(front.len() as int, (front.len() + mark.len()) as int) =~= mark);
    }
    // A mark that starts in the front ends in it.
    assert forall|at: int|
        0 <= at < front.len() && #[trigger] stands_at(mark, whole, at) implies stands_at(
        mark,
        front,
        at,
    ) by {
        let k = front.len() - at;
        if k < mark.len() {
            assert(mark.skip(k) =~= mark.take(mark.len() - k)) by {
                assert forall|i: int| 0 <= i < mark.len() - k implies mark[k + i] == #[trigger] mark[i] by {
                    assert(whole.subrange(at, at + mark.len())[k + i] == whole[front.len() + i]);
                }
            }
        } else {
            assert(front.subrange(at, at + mark.len()) =~= whole.subrange(at, at + mark.len()));
        }
    }
    assert forall|at: int| #[trigger] stands_at(mark, front, at) implies stands_at(
        mark,
        whole,
        at,
    ) by {
        assert(front.subrange(at, at + mark.len()) =~= whole.subrange(at, at + mark.len()));
    }
    match cut(front, mark) {
        Some((a, b)) => {
            let at = a.len() as int;
            assert(stands_at(mark, front, at));
            assert(cut(whole, mark) == Some((whole.subrange(0, at), whole.skip(at + mark.len()))));
            assert(whole.subrange(0, at) =~= a);
            assert(whole.skip(at + mark.len()) =~= b + mark + back);
            parts_join(b, mark, back);
            assert(parted(whole, mark) =~= parted(front, mark) + parted(back, mark));
        },
        None => {
            let at = front.len() as int;
            assert(cut(whole, mark) == Some((whole.subrange(0, at), whole.skip(at + mark.len()))));
            assert(whole.subrange(0, at) =~= front);
            assert(whole.skip(at + mark.len()) =~= back);
            assert(parted(whole, mark) =~= parted(front, mark) + parted(back, mark));
        },
    }
}

/// Where one mark is rewritten as another, which never overlaps itself, every
/// part between the marks stands in what was there before.
pub proof fn rewritten_parts_occur(s: Seq<char>, mark: Seq<char>, by: Seq<char>)
    requires
        borderless(by),
    ensures
        forall|i: int|
            0 <= i < parted(replaced(s, mark, by), by).len() ==> occurs(
                #[trigger] parted(replaced(s, mark, by), by)[i],
                s,
            ),
    decreases s.len(),
{
    parts_occur(s, by);
    cut_occurs(s, mark);
    if let Some((front, back)) = cut(s, mark) {
        if back.len() < s.len() {
            let rest = replaced(back, mark, by);
            rewritten_parts_occur(back, mark, by);
            parts_occur(front, by);
            parts_join(front, by, rest);
            let all = parted(replaced(s, mark, by), by);
            assert forall|i: int| 0 <= i < all.len() implies occurs(#[trigger] all[i], s) by {
                let n = parted(front, by).len();
                if i < n {
                    assert(all[i] == parted(front, by)[i]);
                    occurs_transitive(all[i], front, s);
                } else {
                    assert(all[i] == parted(rest, by)[i - n]);
                    occurs_transitive(all[i], back, s);
                }
            }
        }
    }
}

} // verus!
