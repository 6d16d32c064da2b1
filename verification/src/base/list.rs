//! Lists that keep only some of their elements.
use vstd::prelude::*;

verus! {

/// What `pick` makes of the elements it accepts, in their order.
pub open spec fn kept<A, B>(list: Seq<A>, pick: spec_fn(A) -> Option<B>) -> Seq<B>
    decreases list.len(),
{
    if list.len() == 0 {
        Seq::empty()
    } else {
        let front = kept(list.drop_last(), pick);
        match pick(list.last()) {
            Some(b) => front.push(b),
            None => front,
        }
    }
}

/// One more element adds what `pick` makes of it.
pub proof fn kept_next<A, B>(list: Seq<A>, at: int, pick: spec_fn(A) -> Option<B>)
    requires
        0 <= at < list.len(),
    ensures
        kept(list.take(at + 1), pick) == (match pick(list[at]) {
            Some(b) => kept(list.take(at), pick).push(b),
            None => kept(list.take(at), pick),
        }),
{
    assert(list.take(at + 1).drop_last() =~= list.take(at));
    assert(list.take(at + 1).last() == list[at]);
}

/// The whole list is its longest beginning, and the shortest one is empty.
pub proof fn kept_bounds<A, B>(list: Seq<A>, pick: spec_fn(A) -> Option<B>)
    ensures
        kept(list.take(0), pick) == Seq::<B>::empty(),
        kept(list.take(list.len() as int), pick) == kept(list, pick),
{
    assert(list.take(list.len() as int) =~= list);
}

/// No more is kept than there is.
pub proof fn kept_no_more<A, B>(list: Seq<A>, pick: spec_fn(A) -> Option<B>)
    ensures
        kept(list, pick).len() <= list.len(),
    decreases list.len(),
{
    if list.len() > 0 {
        kept_no_more(list.drop_last(), pick);
    }
}

/// Everything that is kept was made of an element.
pub proof fn kept_from<A, B>(list: Seq<A>, pick: spec_fn(A) -> Option<B>, b: B)
    requires
        kept(list, pick).contains(b),
    ensures
        exists|i: int| 0 <= i < list.len() && pick(#[trigger] list[i]) == Some(b),
    decreases list.len(),
{
    let k = choose|k: int| 0 <= k < kept(list, pick).len() && kept(list, pick)[k] == b;
    if list.len() > 0 {
        let front = kept(list.drop_last(), pick);
        if k < front.len() {
            assert(front[k] == b);
            kept_from(list.drop_last(), pick, b);
            let i = choose|i: int|
                0 <= i < list.drop_last().len() && pick(#[trigger] list.drop_last()[i]) == Some(b);
            assert(list[i] == list.drop_last()[i]);
        } else {
            assert(list[list.len() - 1] == list.last());
        }
    }
}

/// Every element that is accepted is kept.
pub proof fn kept_holds<A, B>(list: Seq<A>, pick: spec_fn(A) -> Option<B>, i: int)
    requires
        0 <= i < list.len(),
        pick(list[i]) is Some,
    ensures
        kept(list, pick).contains(pick(list[i])->0),
    decreases list.len(),
{
    let front = kept(list.drop_last(), pick);
    if i < list.len() - 1 {
        assert(list.drop_last()[i] == list[i]);
        kept_holds(list.drop_last(), pick, i);
        let b = pick(list[i])->0;
        let k = choose|k: int| 0 <= k < front.len() && front[k] == b;
        assert(kept(list, pick)[k] == b);
    } else {
        assert(kept(list, pick).last() == pick(list[i])->0);
        assert(kept(list, pick)[kept(list, pick).len() - 1] == pick(list[i])->0);
    }
}

/// What `read` makes of every element, or nothing where it refuses one.
pub open spec fn all_read<A, B>(list: Seq<A>, read: spec_fn(A) -> Option<B>) -> Option<Seq<B>>
    decreases list.len(),
{
    if list.len() == 0 {
        Some(Seq::empty())
    } else {
        match (all_read(list.drop_last(), read), read(list.last())) {
            (Some(front), Some(b)) => Some(front.push(b)),
            _ => None,
        }
    }
}

/// One more element is read after the ones in front of it.
pub proof fn all_read_next<A, B>(list: Seq<A>, at: int, read: spec_fn(A) -> Option<B>)
    requires
        0 <= at < list.len(),
    ensures
        all_read(list.take(at + 1), read) == (match (all_read(list.take(at), read), read(list[at])) {
            (Some(front), Some(b)) => Some(front.push(b)),
            _ => None,
        }),
{
    assert(list.take(at + 1).drop_last() =~= list.take(at));
    assert(list.take(at + 1).last() == list[at]);
}

/// Where an element is refused, so is the list.
pub proof fn all_read_refused<A, B>(list: Seq<A>, at: int, read: spec_fn(A) -> Option<B>)
    requires
        0 <= at < list.len(),
        read(list[at]) is None,
    ensures
        all_read(list, read) is None,
    decreases list.len(),
{
    if at < list.len() - 1 {
        assert(list.drop_last()[at] == list[at]);
        all_read_refused(list.drop_last(), at, read);
    }
}

/// Whether a list is in an order.
pub open spec fn ordered<T>(list: Seq<T>, before: spec_fn(T, T) -> bool) -> bool {
    forall|i: int, j: int|
        0 <= i < j < list.len() ==> before(#[trigger] list[i], #[trigger] list[j])
}

/// Whether no two values come before each other.
pub open spec fn one_way<T>(before: spec_fn(T, T) -> bool) -> bool {
    forall|x: T, y: T| #[trigger] before(x, y) ==> !before(y, x)
}

/// What stands at a place of one list stands there in the other.
proof fn ordered_lists_meet<T>(
    one: Seq<T>,
    other: Seq<T>,
    before: spec_fn(T, T) -> bool,
    place: int,
)
    requires
        one_way(before),
        ordered(one, before),
        ordered(other, before),
        forall|x: T| #[trigger] one.contains(x) <==> other.contains(x),
        0 <= place < one.len(),
    ensures
        place < other.len(),
        one[place] == other[place],
    decreases place,
{
    assert forall|k: int| 0 <= k < place implies k < other.len() && one[k] == #[trigger] other[k] by {
        ordered_lists_meet(one, other, before, k);
    }
    assert(one.contains(one[place]));
    assert(other.contains(one[place]));
    let found = choose|k: int| 0 <= k < other.len() && other[k] == one[place];
    if found < place {
        assert(before(one[found], one[place]));
    }
    if found > place {
        assert(other.contains(other[place]));
        assert(one.contains(other[place]));
        let back = choose|k: int| 0 <= k < one.len() && one[k] == other[place];
        assert(before(other[place], other[found]));
        if back < place {
            assert(before(other[back], other[place]));
        } else if back > place {
            assert(before(one[place], one[back]));
        }
    }
}

/// Two lists of the same values in the same order are the same list.
pub proof fn ordered_lists_agree<T>(one: Seq<T>, other: Seq<T>, before: spec_fn(T, T) -> bool)
    requires
        one_way(before),
        ordered(one, before),
        ordered(other, before),
        forall|x: T| #[trigger] one.contains(x) <==> other.contains(x),
    ensures
        one == other,
{
    if one.len() > 0 {
        ordered_lists_meet(one, other, before, one.len() - 1);
    }
    if other.len() > 0 {
        ordered_lists_meet(other, one, before, other.len() - 1);
    }
    assert forall|k: int| 0 <= k < one.len() implies one[k] == other[k] by {
        ordered_lists_meet(one, other, before, k);
    }
    assert(one =~= other);
}

} // verus!
