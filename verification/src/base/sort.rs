//! Stable sorting, by index.
use vstd::prelude::*;
use vstd::relations::{sorted_by, total_ordering};
use vstd::seq_lib::lemma_sorted_unique;

use crate::base::text::{
    each, less, precedes, precedes_irreflexive, precedes_total, precedes_transitive,
};

verus! {

/// Something with positions that can be ordered.
pub trait Ranking {
    /// How many positions there are.
    spec fn count(&self) -> nat;

    /// Whether one position comes before another.
    spec fn order(&self) -> spec_fn(int, int) -> bool;

    fn precedes(&self, i: usize, j: usize) -> (r: bool)
        requires
            i < self.count(),
            j < self.count(),
        ensures
            r == (self.order())(i as int, j as int),
    ;
}

/// A strict order of the positions below `n` in which "neither before the
/// other" is transitive too.
pub open spec fn strict_weak(n: int, before: spec_fn(int, int) -> bool) -> bool {
    &&& forall|i: int| 0 <= i < n ==> !#[trigger] before(i, i)
    &&& forall|i: int, j: int, k: int|
        0 <= i < n && 0 <= j < n && 0 <= k < n && #[trigger] before(i, j) && #[trigger] before(j, k)
            ==> before(i, k)
    &&& forall|i: int, j: int, k: int|
        0 <= i < n && 0 <= j < n && 0 <= k < n && #[trigger] before(i, k) ==> before(i, j)
            || #[trigger] before(j, k)
}

/// Whether position `i` is sorted in front of position `j`: by the order, and
/// where that leaves it open, by the positions themselves.
pub open spec fn ahead(before: spec_fn(int, int) -> bool, i: int, j: int) -> bool {
    before(i, j) || (!before(j, i) && i < j)
}

/// Whether `order` lists the positions from `lo` up to `hi`, each once, the
/// ones in front first.
pub open spec fn sorted_range(
    order: Seq<usize>,
    lo: int,
    hi: int,
    before: spec_fn(int, int) -> bool,
) -> bool {
    &&& order.len() == hi - lo
    &&& forall|a: int| 0 <= a < order.len() ==> lo <= (#[trigger] order[a]) < hi
    &&& forall|p: usize| lo <= p < hi ==> #[trigger] order.contains(p)
    &&& forall|a: int, b: int|
        0 <= a < b < order.len() ==> ahead(before, #[trigger] order[a] as int, #[trigger] order[b] as int)
}

/// The stable sorting of `n` positions.
pub open spec fn sorting(order: Seq<usize>, n: int, before: spec_fn(int, int) -> bool) -> bool {
    sorted_range(order, 0, n, before)
}

proof fn ahead_transitive(n: int, before: spec_fn(int, int) -> bool, i: int, j: int, k: int)
    requires
        strict_weak(n, before),
        0 <= i < n,
        0 <= j < n,
        0 <= k < n,
        ahead(before, i, j),
        ahead(before, j, k),
    ensures
        ahead(before, i, k),
{
    if before(i, j) && before(j, k) {
    } else if before(i, j) {
        assert(before(i, k) || before(k, j));
    } else if before(j, k) {
        assert(before(j, i) || before(i, k));
    } else {
        if before(k, i) {
            assert(before(k, j) || before(j, i));
        }
    }
}

/// A sorting lists every position once.
pub proof fn sorting_distinct(order: Seq<usize>, n: int, before: spec_fn(int, int) -> bool)
    requires
        strict_weak(n, before),
        sorting(order, n, before),
    ensures
        order.no_duplicates(),
{
    assert forall|a: int, b: int| 0 <= a < order.len() && 0 <= b < order.len() && a != b implies order[a]
        != order[b] by {
        if a < b {
            assert(ahead(before, order[a] as int, order[b] as int));
        } else {
            assert(ahead(before, order[b] as int, order[a] as int));
        }
    }
}

/// There is only one stable sorting.
pub proof fn sorting_unique(
    one: Seq<usize>,
    other: Seq<usize>,
    n: int,
    before: spec_fn(int, int) -> bool,
)
    requires
        strict_weak(n, before),
        sorting(one, n, before),
        sorting(other, n, before),
    ensures
        one == other,
{
    assert forall|k: int| 0 <= k < one.len() implies one[k] == other[k] by {
        sorting_agrees(one, other, n, before, k);
    }
    assert(one =~= other);
}

proof fn sorting_agrees(
    one: Seq<usize>,
    other: Seq<usize>,
    n: int,
    before: spec_fn(int, int) -> bool,
    k: int,
)
    requires
        strict_weak(n, before),
        sorting(one, n, before),
        sorting(other, n, before),
        0 <= k < n,
    ensures
        forall|m: int| 0 <= m <= k ==> one[m] == other[m],
    decreases k,
{
    if k > 0 {
        sorting_agrees(one, other, n, before, k - 1);
    }
    let p = one[k];
    let q = other[k];
    if p != q {
        assert(other.contains(p));
        let a = choose|a: int| 0 <= a < other.len() && other[a] == p;
        assert(one.contains(q));
        let b = choose|b: int| 0 <= b < one.len() && one[b] == q;
        sorting_distinct(one, n, before);
        sorting_distinct(other, n, before);
        if a < k {
            assert(one[a] == other[a]);
        }
        if b < k {
            assert(one[b] == other[b]);
        }
        assert(ahead(before, other[k] as int, other[a] as int));
        assert(ahead(before, one[k] as int, one[b] as int));
        assert(false);
    }
}

/// Merges two sorted halves.
fn merge<R: Ranking>(
    left: &Vec<usize>,
    right: &Vec<usize>,
    ranking: &R,
    Ghost(lo): Ghost<int>,
    Ghost(mid): Ghost<int>,
    Ghost(hi): Ghost<int>,
    Ghost(n): Ghost<int>,
    Ghost(before): Ghost<spec_fn(int, int) -> bool>,
) -> (out: Vec<usize>)
    requires
        0 <= lo <= mid <= hi <= n,
        strict_weak(n, before),
        sorted_range(left@, lo, mid, before),
        sorted_range(right@, mid, hi, before),
        n == ranking.count(),
        before == ranking.order(),
    ensures
        sorted_range(out@, lo, hi, before),
{
    let mut out: Vec<usize> = Vec::new();
    let mut a: usize = 0;
    let mut b: usize = 0;
    while a < left.len() || b < right.len()
        invariant
            0 <= lo <= mid <= hi <= n,
            strict_weak(n, before),
            sorted_range(left@, lo, mid, before),
            sorted_range(right@, mid, hi, before),
            n == ranking.count(),
            before == ranking.order(),
            a <= left.len(),
            b <= right.len(),
            out@.len() == a + b,
            forall|x: int| 0 <= x < out@.len() ==> lo <= (#[trigger] out@[x]) < hi,
            forall|x: int| 0 <= x < a ==> out@.contains(#[trigger] left@[x]),
            forall|x: int| 0 <= x < b ==> out@.contains(#[trigger] right@[x]),
            forall|x: int, y: int|
                0 <= x < out@.len() && a <= y < left@.len() ==> ahead(
                    before,
                    #[trigger] out@[x] as int,
                    #[trigger] left@[y] as int,
                ),
            forall|x: int, y: int|
                0 <= x < out@.len() && b <= y < right@.len() ==> ahead(
                    before,
                    #[trigger] out@[x] as int,
                    #[trigger] right@[y] as int,
                ),
            forall|x: int, y: int|
                0 <= x < y < out@.len() ==> ahead(
                    before,
                    #[trigger] out@[x] as int,
                    #[trigger] out@[y] as int,
                ),
        decreases left.len() - a + right.len() - b,
    {
        let take_left = if a == left.len() {
            false
        } else if b == right.len() {
            true
        } else {
            !ranking.precedes(right[b], left[a])
        };
        let ghost earlier = out@;
        if take_left {
            let next: usize = left[a];
            proof {
                assert forall|y: int| b <= y < right@.len() implies ahead(
                    before,
                    next as int,
                    #[trigger] right@[y] as int,
                ) by {
                    assert(ahead(before, next as int, right@[b as int] as int));
                    if y > b {
                        assert(ahead(before, right@[b as int] as int, right@[y] as int));
                        ahead_transitive(n, before, next as int, right@[b as int] as int, right@[y] as int);
                    }
                }
            }
            out.push(next);
            a += 1;
        } else {
            let next: usize = right[b];
            proof {
                assert forall|y: int| a <= y < left@.len() implies ahead(
                    before,
                    next as int,
                    #[trigger] left@[y] as int,
                ) by {
                    assert(ahead(before, next as int, left@[a as int] as int));
                    if y > a {
                        assert(ahead(before, left@[a as int] as int, left@[y] as int));
                        ahead_transitive(n, before, next as int, left@[a as int] as int, left@[y] as int);
                    }
                }
            }
            out.push(next);
            b += 1;
        }
        proof {
            assert forall|p: usize| earlier.contains(p) implies out@.contains(p) by {
                let w = choose|w: int| 0 <= w < earlier.len() && earlier[w] == p;
                assert(out@[w] == p);
            }
            assert(out@[out@.len() - 1] == out@.last());
            assert(out@.contains(out@.last()));
        }
    }
    proof {
        assert forall|p: usize| lo <= p < hi implies #[trigger] out@.contains(p) by {
            if p < mid {
                assert(left@.contains(p));
                let w = choose|w: int| 0 <= w < left@.len() && left@[w] == p;
                assert(out@.contains(left@[w]));
            } else {
                assert(right@.contains(p));
                let w = choose|w: int| 0 <= w < right@.len() && right@[w] == p;
                assert(out@.contains(right@[w]));
            }
        }
    }
    out
}

fn sort_range<R: Ranking>(
    lo: usize,
    hi: usize,
    ranking: &R,
    Ghost(n): Ghost<int>,
    Ghost(before): Ghost<spec_fn(int, int) -> bool>,
) -> (out: Vec<usize>)
    requires
        lo <= hi <= n,
        strict_weak(n, before),
        n == ranking.count(),
        before == ranking.order(),
    ensures
        sorted_range(out@, lo as int, hi as int, before),
    decreases hi - lo,
{
    if lo == hi {
        return Vec::new();
    }
    if hi - lo == 1 {
        let mut out: Vec<usize> = Vec::new();
        out.push(lo);
        assert forall|p: usize| lo <= p < hi implies #[trigger] out@.contains(p) by {
            assert(out@[0] == p);
        }
        return out;
    }
    let mid: usize = lo + (hi - lo) / 2;
    let left = sort_range(lo, mid, ranking, Ghost(n), Ghost(before));
    let right = sort_range(mid, hi, ranking, Ghost(n), Ghost(before));
    merge(
        &left,
        &right,
        ranking,
        Ghost(lo as int),
        Ghost(mid as int),
        Ghost(hi as int),
        Ghost(n),
        Ghost(before),
    )
}

/// Sorts `n` positions: what the ranking puts first comes first, and what it
/// leaves open stays in the order of the positions.
pub fn sort<R: Ranking>(n: usize, ranking: &R) -> (out: Vec<usize>)
    requires
        n == ranking.count(),
        strict_weak(n as int, ranking.order()),
    ensures
        sorting(out@, n as int, ranking.order()),
{
    sort_range(0, n, ranking, Ghost(n as int), Ghost(ranking.order()))
}

/// A list in the order of the given positions.
pub open spec fn arranged<T>(list: Seq<T>, order: Seq<usize>) -> Seq<T> {
    Seq::new(order.len(), |k: int| list[order[k] as int])
}

/// Arranging a list by all of its positions, each once, loses and repeats
/// nothing.
pub proof fn arranged_multiset<T>(list: Seq<T>, order: Seq<usize>)
    requires
        order.len() == list.len(),
        list.len() <= usize::MAX,
        order.no_duplicates(),
        forall|k: int| 0 <= k < order.len() ==> (#[trigger] order[k]) < list.len(),
        forall|p: usize| p < list.len() ==> #[trigger] order.contains(p),
    ensures
        arranged(list, order).to_multiset() == list.to_multiset(),
    decreases list.len(),
{
    broadcast use vstd::seq_lib::group_to_multiset_ensures;
    broadcast use vstd::multiset::group_multiset_axioms;

    if list.len() == 0 {
        assert(arranged(list, order) =~= list);
    } else {
        let last = (list.len() - 1) as usize;
        assert(order.contains(last)) by {
            assert(order[0] < list.len());
            assert(last < list.len());
        }
        let at = choose|at: int| 0 <= at < order.len() && order[at] == last;
        let rest = order.remove(at);
        let front = list.drop_last();
        assert forall|k: int| 0 <= k < rest.len() implies (#[trigger] rest[k]) < front.len() by {
            let was = if k < at {
                k
            } else {
                k + 1
            };
            assert(rest[k] == order[was]);
            assert(order[was] != order[at]);
        }
        assert forall|p: usize| p < front.len() implies #[trigger] rest.contains(p) by {
            assert(order.contains(p));
            let w = choose|w: int| 0 <= w < order.len() && order[w] == p;
            if w < at {
                assert(rest[w] == p);
            } else {
                assert(rest[w - 1] == p);
            }
        }
        assert(rest.no_duplicates()) by {
            assert forall|a: int, b: int|
                0 <= a < rest.len() && 0 <= b < rest.len() && a != b implies rest[a]
                != rest[b] by {
                let wa = if a < at {
                    a
                } else {
                    a + 1
                };
                let wb = if b < at {
                    b
                } else {
                    b + 1
                };
                assert(order[wa] != order[wb]);
            }
        }
        arranged_multiset(front, rest);
        let whole = arranged(list, order);
        assert(whole.remove(at) =~= arranged(front, rest));
        assert(whole[at] == list.last());
        assert(whole.remove(at).to_multiset() == whole.to_multiset().remove(list.last()));
        assert(whole.to_multiset().count(list.last()) > 0) by {
            assert(whole.contains(whole[at]));
        }
        assert(whole.to_multiset() =~= whole.to_multiset().remove(list.last()).insert(list.last()));
        assert(list =~= front.push(list.last()));
        assert(list.to_multiset() =~= front.to_multiset().insert(list.last()));
    }
}

/// An order of values, as one of the positions of a list.
pub open spec fn by_position<T>(
    list: Seq<T>,
    before: spec_fn(T, T) -> bool,
) -> spec_fn(int, int) -> bool {
    |i: int, j: int| before(list[i], list[j])
}

/// A list in order; what the order leaves open stays as it was.
pub open spec fn sorted_list<T>(list: Seq<T>, before: spec_fn(T, T) -> bool) -> Seq<T> {
    arranged(
        list,
        choose|order: Seq<usize>|
            sorting(order, list.len() as int, by_position(list, before)),
    )
}

/// A strict order of values in which "neither before the other" is transitive.
pub open spec fn weak_order<T>(before: spec_fn(T, T) -> bool) -> bool {
    &&& forall|a: T| !#[trigger] before(a, a)
    &&& forall|a: T, b: T, c: T| #[trigger] before(a, b) && #[trigger] before(b, c) ==> before(a, c)
    &&& forall|a: T, b: T, c: T| #[trigger] before(a, c) ==> before(a, b) || #[trigger] before(b, c)
}

/// An order of values orders the positions of every list.
pub proof fn positions_weak<T>(list: Seq<T>, before: spec_fn(T, T) -> bool)
    requires
        weak_order(before),
    ensures
        strict_weak(list.len() as int, by_position(list, before)),
{
    let at = by_position(list, before);
    let n = list.len() as int;
    assert forall|i: int, j: int, k: int|
        0 <= i < n && 0 <= j < n && 0 <= k < n && #[trigger] at(i, k) implies at(i, j)
        || #[trigger] at(j, k) by {
        assert(before(list[i], list[k]));
        assert(before(list[i], list[j]) || before(list[j], list[k]));
    }
    assert forall|i: int, j: int, k: int|
        0 <= i < n && 0 <= j < n && 0 <= k < n && #[trigger] at(i, j) && #[trigger] at(
            j,
            k,
        ) implies at(i, k) by {
        assert(before(list[i], list[j]) && before(list[j], list[k]));
    }
    assert forall|i: int| 0 <= i < n implies !#[trigger] at(i, i) by {
        assert(!before(list[i], list[i]));
    }
}

/// A sorting of the positions arranges the list in order.
pub proof fn sorting_arranges<T>(list: Seq<T>, order: Seq<usize>, before: spec_fn(T, T) -> bool)
    requires
        weak_order(before),
        sorting(order, list.len() as int, by_position(list, before)),
    ensures
        arranged(list, order) == sorted_list(list, before),
{
    positions_weak(list, before);
    let chosen = choose|order: Seq<usize>|
        sorting(order, list.len() as int, by_position(list, before));
    sorting_unique(order, chosen, list.len() as int, by_position(list, before));
}

/// Every strict weak order of positions has a stable sorting.
pub proof fn sorting_exists(n: int, before: spec_fn(int, int) -> bool) -> (order: Seq<usize>)
    requires
        0 <= n <= usize::MAX,
        strict_weak(n, before),
    ensures
        sorting(order, n, before),
    decreases n,
{
    if n == 0 {
        Seq::empty()
    } else {
        let p = (n - 1) as usize;
        let rest = sorting_exists(n - 1, before);
        let k = insertion(rest, p as int, before, 0);
        insertion_bounds(rest, p as int, before, 0);
        let order = rest.insert(k, p);
        assert forall|q: usize| 0 <= q < n implies #[trigger] order.contains(q) by {
            if q == p {
                assert(order[k] == p);
            } else {
                assert(rest.contains(q));
                let w = choose|w: int| 0 <= w < rest.len() && rest[w] == q;
                if w < k {
                    assert(order[w] == q);
                } else {
                    assert(order[w + 1] == q);
                }
            }
        }
        assert forall|a: int, b: int| 0 <= a < b < order.len() implies ahead(
            before,
            #[trigger] order[a] as int,
            #[trigger] order[b] as int,
        ) by {
            let x = if a < k {
                a
            } else {
                a - 1
            };
            let y = if b < k {
                b
            } else {
                b - 1
            };
            if a != k && b != k {
                assert(order[a] == rest[x] && order[b] == rest[y]);
            } else if a == k {
                assert(order[b] == rest[y]);
                assert(before(p as int, rest[k] as int));
                if y > k {
                    assert(ahead(before, rest[k] as int, rest[y] as int));
                    ahead_transitive(n, before, p as int, rest[k] as int, rest[y] as int);
                }
            } else {
                assert(order[a] == rest[a]);
                assert(!before(p as int, rest[a] as int));
            }
        }
        assert forall|a: int| 0 <= a < order.len() implies 0 <= (#[trigger] order[a]) < n by {
            if a < k {
                assert(order[a] == rest[a]);
            } else if a > k {
                assert(order[a] == rest[a - 1]);
            }
        }
        order
    }
}

/// The first place from `k` on that a position comes before.
spec fn insertion(rest: Seq<usize>, p: int, before: spec_fn(int, int) -> bool, k: int) -> int
    decreases rest.len() - k,
{
    if k >= rest.len() || before(p, rest[k] as int) {
        k
    } else {
        insertion(rest, p, before, k + 1)
    }
}

proof fn insertion_bounds(rest: Seq<usize>, p: int, before: spec_fn(int, int) -> bool, k: int)
    requires
        0 <= k <= rest.len(),
        forall|a: int| 0 <= a < k ==> !before(p, #[trigger] rest[a] as int),
    ensures
        k <= insertion(rest, p, before, k) <= rest.len(),
        forall|a: int| 0 <= a < insertion(rest, p, before, k) ==> !before(p, #[trigger] rest[a] as int),
        insertion(rest, p, before, k) < rest.len() ==> before(
            p,
            rest[insertion(rest, p, before, k)] as int,
        ),
    decreases rest.len() - k,
{
    if k < rest.len() && !before(p, rest[k] as int) {
        insertion_bounds(rest, p, before, k + 1);
    }
}

/// Sorting a list loses and repeats nothing, and leaves no element behind one
/// that it comes before.
pub proof fn sorted_list_sorts<T>(list: Seq<T>, before: spec_fn(T, T) -> bool)
    requires
        weak_order(before),
        list.len() <= usize::MAX,
    ensures
        sorted_list(list, before).len() == list.len(),
        sorted_list(list, before).to_multiset() == list.to_multiset(),
        forall|a: int, b: int|
            0 <= a < b < list.len() ==> !before(
                #[trigger] sorted_list(list, before)[b],
                #[trigger] sorted_list(list, before)[a],
            ),
{
    positions_weak(list, before);
    let order = sorting_exists(list.len() as int, by_position(list, before));
    sorting_arranges(list, order, before);
    sorting_distinct(order, list.len() as int, by_position(list, before));
    arranged_multiset(list, order);
    assert forall|a: int, b: int| 0 <= a < b < list.len() implies !before(
        #[trigger] sorted_list(list, before)[b],
        #[trigger] sorted_list(list, before)[a],
    ) by {
        let at = by_position(list, before);
        assert(ahead(at, order[a] as int, order[b] as int));
        if before(list[order[b] as int], list[order[a] as int]) {
            assert(at(order[b] as int, order[a] as int));
            if at(order[a] as int, order[b] as int) {
                assert(before(list[order[a] as int], list[order[b] as int]));
                assert(before(list[order[a] as int], list[order[a] as int]));
            }
        }
    }
}

/// The order of strings, as one that a sort can use.
pub open spec fn text_order() -> spec_fn(Seq<char>, Seq<char>) -> bool {
    |a: Seq<char>, b: Seq<char>| !precedes(b, a)
}

/// The strings of a list in order.
pub open spec fn ascending(list: Seq<Seq<char>>) -> Seq<Seq<char>> {
    list.sort_by(text_order())
}

/// The order of strings is total.
pub proof fn text_order_total()
    ensures
        total_ordering(text_order()),
{
    let leq = text_order();
    assert forall|a: Seq<char>| #[trigger] leq(a, a) by {
        precedes_irreflexive(a);
    }
    assert forall|a: Seq<char>, b: Seq<char>| #[trigger] leq(a, b) && #[trigger] leq(b, a) implies a
        == b by {
        precedes_total(a, b);
    }
    assert forall|a: Seq<char>, b: Seq<char>| #[trigger] leq(a, b) || #[trigger] leq(b, a) by {
        precedes_total(a, b);
    }
    assert forall|a: Seq<char>, b: Seq<char>, c: Seq<char>| #[trigger]
        leq(a, b) && #[trigger] leq(b, c) implies leq(a, c) by {
        if precedes(c, a) {
            precedes_total(b, c);
            if b == c {
            } else {
                precedes_transitive(b, c, a);
            }
        }
    }
}

/// The order of the strings of a list is one that [`sort`] takes.
pub proof fn text_positions_weak(list: Seq<Seq<char>>)
    ensures
        strict_weak(list.len() as int, |i: int, j: int| precedes(list[i], list[j])),
{
    let before = |i: int, j: int| precedes(list[i], list[j]);
    let n = list.len() as int;
    assert forall|i: int| 0 <= i < n implies !#[trigger] before(i, i) by {
        precedes_irreflexive(list[i]);
    }
    assert forall|i: int, j: int, k: int|
        0 <= i < n && 0 <= j < n && 0 <= k < n && #[trigger] before(i, j) && #[trigger] before(
            j,
            k,
        ) implies before(i, k) by {
        precedes_transitive(list[i], list[j], list[k]);
    }
    assert forall|i: int, j: int, k: int|
        0 <= i < n && 0 <= j < n && 0 <= k < n && #[trigger] before(i, k) implies before(i, j)
        || #[trigger] before(j, k) by {
        precedes_total(list[i], list[j]);
        if !before(i, j) && list[i] != list[j] {
            precedes_transitive(list[j], list[i], list[k]);
        }
    }
}

/// The positions of a list of strings.
struct Strings<'a> {
    list: &'a Vec<String>,
}

impl<'a> Ranking for Strings<'a> {
    closed spec fn count(&self) -> nat {
        self.list@.len()
    }

    closed spec fn order(&self) -> spec_fn(int, int) -> bool {
        let all = each(self.list@);
        |i: int, j: int| precedes(all[i], all[j])
    }

    fn precedes(&self, i: usize, j: usize) -> (r: bool) {
        less(self.list[i].as_str(), self.list[j].as_str())
    }
}

/// Sorts strings.
pub fn sort_strings(list: &Vec<String>) -> (out: Vec<String>)
    ensures
        each(out@) == ascending(each(list@)),
{
    let ghost all = each(list@);
    let strings = Strings { list };
    let ghost before = strings.order();
    proof {
        text_positions_weak(all);
    }
    let order = sort(list.len(), &strings);
    let mut out: Vec<String> = Vec::new();
    let mut k: usize = 0;
    while k < order.len()
        invariant
            k <= order.len(),
            out@.len() == k,
            all == each(list@),
            sorting(order@, list@.len() as int, before),
            forall|m: int| 0 <= m < k ==> (#[trigger] out@[m])@ == list@[order@[m] as int]@,
        decreases order.len() - k,
    {
        out.push(list[order[k]].clone());
        k += 1;
    }
    proof {
        let leq = text_order();
        sorting_distinct(order@, all.len() as int, before);
        arranged_multiset(all, order@);
        assert(each(out@) =~= arranged(all, order@));
        text_order_total();
        all.lemma_sort_by_ensures(leq);
        assert(sorted_by(each(out@), leq)) by {
            assert forall|a: int, b: int| 0 <= a < b < each(out@).len() implies #[trigger] leq(
                each(out@)[a],
                each(out@)[b],
            ) by {
                assert(ahead(before, order@[a] as int, order@[b] as int));
                precedes_total(all[order@[a] as int], all[order@[b] as int]);
            }
        }
        lemma_sorted_unique(each(out@), ascending(all), leq);
    }
    out
}

} // verus!
