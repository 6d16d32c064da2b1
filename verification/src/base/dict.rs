//! A map that keeps its entries in the order of their keys.
use vstd::prelude::*;

use crate::base::text::{
    less, precedes, precedes_irreflexive, precedes_total, precedes_transitive, same,
};

verus! {

/// What a key is ordered by: texts that may be absent.
pub type Row = Seq<Option<Seq<char>>>;

/// The order of texts that may be absent: an absent one comes first.
pub open spec fn option_below(a: Option<Seq<char>>, b: Option<Seq<char>>) -> bool {
    match (a, b) {
        (None, Some(_)) => true,
        (Some(a), Some(b)) => precedes(a, b),
        _ => false,
    }
}

/// The order of rows: by the first text that differs.
pub open spec fn row_below(a: Row, b: Row) -> bool
    decreases a.len(),
{
    if b.len() == 0 {
        false
    } else if a.len() == 0 {
        true
    } else if a[0] == b[0] {
        row_below(a.drop_first(), b.drop_first())
    } else {
        option_below(a[0], b[0])
    }
}

proof fn option_below_total(a: Option<Seq<char>>, b: Option<Seq<char>>)
    ensures
        a != b ==> option_below(a, b) || option_below(b, a),
        option_below(a, b) ==> !option_below(b, a) && a != b,
{
    if let (Some(a), Some(b)) = (a, b) {
        precedes_total(a, b);
    }
}

/// An optional text does not come before itself.
pub proof fn option_below_strict(a: Option<Seq<char>>, b: Option<Seq<char>>)
    ensures
        a == b ==> !option_below(a, b),
{
    option_below_total(a, b);
}

/// Of two different rows exactly one comes before the other.
pub proof fn row_below_total(a: Row, b: Row)
    ensures
        a != b ==> row_below(a, b) || row_below(b, a),
        row_below(a, b) ==> !row_below(b, a),
        !row_below(a, a),
    decreases a.len(),
{
    if a.len() > 0 {
        row_below_total(a.drop_first(), a.drop_first());
    }
    if a.len() > 0 && b.len() > 0 {
        option_below_total(a[0], b[0]);
        if a[0] == b[0] {
            row_below_total(a.drop_first(), b.drop_first());
            if a.drop_first() == b.drop_first() {
                assert(a =~= seq![a[0]] + a.drop_first());
                assert(b =~= seq![b[0]] + b.drop_first());
            }
        }
    } else if a.len() == 0 && b.len() == 0 {
        assert(a =~= b);
    }
}

/// The order of rows is transitive.
pub proof fn row_below_transitive(a: Row, b: Row, c: Row)
    requires
        row_below(a, b),
        row_below(b, c),
    ensures
        row_below(a, c),
    decreases a.len(),
{
    if a.len() > 0 {
        if a[0] == b[0] && b[0] == c[0] {
            row_below_transitive(a.drop_first(), b.drop_first(), c.drop_first());
        } else if a[0] != b[0] && b[0] != c[0] {
            option_below_total(a[0], b[0]);
            if let (Some(x), Some(y), Some(z)) = (a[0], b[0], c[0]) {
                precedes_transitive(x, y, z);
                precedes_irreflexive(x);
            }
        }
    }
}

/// Something that a [`Dict`] can be keyed by.
pub trait Key: Sized + View {
    /// What the key is ordered by.
    spec fn row(v: Self::V) -> Row;

    /// Different keys have different rows.
    proof fn row_injective(a: Self::V, b: Self::V)
        requires
            Self::row(a) == Self::row(b),
        ensures
            a == b,
    ;

    fn less(&self, other: &Self) -> (r: bool)
        ensures
            r == row_below(Self::row(self@), Self::row(other@)),
    ;
}

/// Whether one optional text comes before another.
pub fn option_less(a: Option<&str>, b: Option<&str>) -> (r: bool)
    ensures
        r == option_below(crate::base::text::lent(a), crate::base::text::lent(b)),
{
    match (a, b) {
        (None, Some(_)) => true,
        (Some(a), Some(b)) => less(a, b),
        _ => false,
    }
}

/// Whether two optional texts are the same.
pub fn option_same(a: Option<&str>, b: Option<&str>) -> (r: bool)
    ensures
        r == (crate::base::text::lent(a) == crate::base::text::lent(b)),
{
    match (a, b) {
        (None, None) => true,
        (Some(a), Some(b)) => same(a, b),
        _ => false,
    }
}

/// A text as a key.
pub struct Text {
    pub text: String,
}

impl View for Text {
    type V = Seq<char>;

    open spec fn view(&self) -> Seq<char> {
        self.text@
    }
}

impl Key for Text {
    open spec fn row(v: Seq<char>) -> Row {
        seq![Some(v)]
    }

    proof fn row_injective(a: Seq<char>, b: Seq<char>) {
        assert(Self::row(a)[0] == Self::row(b)[0]);
    }

    fn less(&self, other: &Self) -> (r: bool) {
        proof {
            reveal_with_fuel(row_below, 2);
            precedes_irreflexive(self@);
        }
        less(self.text.as_str(), other.text.as_str())
    }
}

/// Whether the keys of a list of entries are in ascending order, each once.
pub open spec fn in_order<K: Key, V>(list: Seq<(K, V)>) -> bool {
    forall|i: int, j: int|
        0 <= i < j < list.len() ==> row_below(
            K::row((#[trigger] list[i]).0@),
            K::row((#[trigger] list[j]).0@),
        )
}

/// The map that a list of entries describes.
pub open spec fn map_of<K: Key, V>(list: Seq<(K, V)>) -> Map<K::V, V>
    decreases list.len(),
{
    if list.len() == 0 {
        Map::empty()
    } else {
        map_of(list.drop_last()).insert(list.last().0@, list.last().1)
    }
}

/// The keys of a list are those of its map, and no others.
pub proof fn map_of_keys<K: Key, V>(list: Seq<(K, V)>, key: K::V)
    ensures
        map_of(list).dom().contains(key) <==> exists|i: int|
            0 <= i < list.len() && (#[trigger] list[i]).0@ == key,
    decreases list.len(),
{
    if list.len() > 0 {
        let front = list.drop_last();
        map_of_keys(front, key);
        if exists|i: int| 0 <= i < front.len() && (#[trigger] front[i]).0@ == key {
            let i = choose|i: int| 0 <= i < front.len() && (#[trigger] front[i]).0@ == key;
            assert(list[i].0@ == key);
        }
        if exists|i: int| 0 <= i < list.len() && (#[trigger] list[i]).0@ == key {
            let i = choose|i: int| 0 <= i < list.len() && (#[trigger] list[i]).0@ == key;
            if i < front.len() {
                assert(front[i].0@ == key);
            } else {
                assert(list.last().0@ == key);
            }
        }
        assert(list[list.len() - 1] == list.last());
    }
}

/// The value of a key in the map is that of its entry.
pub proof fn map_of_value<K: Key, V>(list: Seq<(K, V)>, i: int)
    requires
        in_order(list),
        0 <= i < list.len(),
    ensures
        map_of(list).dom().contains(list[i].0@),
        map_of(list)[list[i].0@] == list[i].1,
    decreases list.len(),
{
    let front = list.drop_last();
    if i < list.len() - 1 {
        assert(in_order(front)) by {
            assert forall|a: int, b: int| 0 <= a < b < front.len() implies row_below(
                K::row((#[trigger] front[a]).0@),
                K::row((#[trigger] front[b]).0@),
            ) by {
                assert(front[a] == list[a] && front[b] == list[b]);
            }
        }
        map_of_value(front, i);
        assert(front[i] == list[i]);
        assert(row_below(K::row(list[i].0@), K::row(list[list.len() - 1].0@)));
        row_below_total(K::row(list[i].0@), K::row(list[i].0@));
        assert(list[i].0@ != list.last().0@);
    }
}

/// A map has as many keys as its list has entries.
pub proof fn map_of_len<K: Key, V>(list: Seq<(K, V)>)
    requires
        in_order(list),
    ensures
        map_of(list).dom().finite(),
        map_of(list).dom().len() == list.len(),
    decreases list.len(),
{
    if list.len() > 0 {
        let front = list.drop_last();
        assert(in_order(front)) by {
            assert forall|a: int, b: int| 0 <= a < b < front.len() implies row_below(
                K::row((#[trigger] front[a]).0@),
                K::row((#[trigger] front[b]).0@),
            ) by {
                assert(front[a] == list[a] && front[b] == list[b]);
            }
        }
        map_of_len(front);
        map_of_keys(front, list.last().0@);
        if map_of(front).dom().contains(list.last().0@) {
            let i = choose|i: int|
                0 <= i < front.len() && (#[trigger] front[i]).0@ == list.last().0@;
            assert(front[i] == list[i]);
            assert(row_below(K::row(list[i].0@), K::row(list[list.len() - 1].0@)));
            row_below_total(K::row(list[i].0@), K::row(list[i].0@));
        }
        assert(map_of(list).dom() =~= map_of(front).dom().insert(list.last().0@));
    }
}

/// A map that keeps its entries in the order of their keys.
pub struct Dict<K: Key, V> {
    list: Vec<(K, V)>,
}

impl<K: Key, V> View for Dict<K, V> {
    type V = Map<K::V, V>;

    closed spec fn view(&self) -> Map<K::V, V> {
        map_of(self.list@)
    }
}

impl<K: Key, V> Dict<K, V> {
    #[verifier::type_invariant]
    closed spec fn ordered(self) -> bool {
        in_order(self.list@)
    }

    /// The entries, in the order of their keys.
    pub closed spec fn entries(&self) -> Seq<(K, V)> {
        self.list@
    }

    pub fn new() -> (r: Dict<K, V>)
        ensures
            r@ == Map::<K::V, V>::empty(),
            r.entries().len() == 0,
    {
        Dict { list: Vec::new() }
    }

    /// How many entries there are.
    pub fn len(&self) -> (r: usize)
        ensures
            r == self.entries().len(),
            r == self@.dom().len(),
            self@.dom().finite(),
            self@ == map_of(self.entries()),
            in_order(self.entries()),
    {
        proof {
            use_type_invariant(&*self);
            map_of_len(self.list@);
        }
        self.list.len()
    }

    /// The key of an entry.
    pub fn key(&self, i: usize) -> (r: &K)
        requires
            i < self.entries().len(),
        ensures
            *r == self.entries()[i as int].0,
    {
        &self.list[i].0
    }

    /// The value of an entry.
    pub fn value(&self, i: usize) -> (r: &V)
        requires
            i < self.entries().len(),
        ensures
            *r == self.entries()[i as int].1,
    {
        &self.list[i].1
    }

    /// How many entries have a key below the given one, and whether the next
    /// entry has that key.
    fn place(&self, key: &K) -> (r: (usize, bool))
        ensures
            r.0 <= self.list@.len(),
            forall|i: int|
                0 <= i < r.0 ==> row_below(K::row((#[trigger] self.list@[i]).0@), K::row(key@)),
            r.1 ==> r.0 < self.list@.len() && self.list@[r.0 as int].0@ == key@,
            !r.1 ==> forall|i: int|
                r.0 <= i < self.list@.len() ==> row_below(
                    K::row(key@),
                    K::row((#[trigger] self.list@[i]).0@),
                ),
    {
        proof {
            use_type_invariant(&*self);
        }
        let mut lo: usize = 0;
        let mut hi: usize = self.list.len();
        while lo < hi
            invariant
                in_order(self.list@),
                lo <= hi <= self.list@.len(),
                forall|i: int|
                    0 <= i < lo ==> row_below(K::row((#[trigger] self.list@[i]).0@), K::row(key@)),
                forall|i: int|
                    hi <= i < self.list@.len() ==> !row_below(
                        K::row((#[trigger] self.list@[i]).0@),
                        K::row(key@),
                    ),
            decreases hi - lo,
        {
            let mid: usize = lo + (hi - lo) / 2;
            if self.list[mid].0.less(key) {
                proof {
                    assert forall|i: int| 0 <= i < mid + 1 implies row_below(
                        K::row((#[trigger] self.list@[i]).0@),
                        K::row(key@),
                    ) by {
                        if i < mid {
                            row_below_transitive(
                                K::row(self.list@[i].0@),
                                K::row(self.list@[mid as int].0@),
                                K::row(key@),
                            );
                        }
                    }
                }
                lo = mid + 1;
            } else {
                proof {
                    assert forall|i: int| mid <= i < self.list@.len() implies !row_below(
                        K::row((#[trigger] self.list@[i]).0@),
                        K::row(key@),
                    ) by {
                        if i > mid && row_below(K::row(self.list@[i].0@), K::row(key@)) {
                            row_below_transitive(
                                K::row(self.list@[mid as int].0@),
                                K::row(self.list@[i].0@),
                                K::row(key@),
                            );
                        }
                    }
                }
                hi = mid;
            }
        }
        if lo < self.list.len() && !key.less(&self.list[lo].0) {
            proof {
                row_below_total(K::row(self.list@[lo as int].0@), K::row(key@));
                K::row_injective(self.list@[lo as int].0@, key@);
            }
            (lo, true)
        } else {
            proof {
                assert forall|i: int| lo <= i < self.list@.len() implies row_below(
                    K::row(key@),
                    K::row((#[trigger] self.list@[i]).0@),
                ) by {
                    if i > lo {
                        row_below_transitive(
                            K::row(key@),
                            K::row(self.list@[lo as int].0@),
                            K::row(self.list@[i].0@),
                        );
                    }
                }
            }
            (lo, false)
        }
    }

    /// The value under a key.
    pub fn get(&self, key: &K) -> (r: Option<&V>)
        ensures
            match r {
                Some(v) => self@.dom().contains(key@) && self@[key@] == *v,
                None => !self@.dom().contains(key@),
            },
    {
        let (at, found) = self.place(key);
        proof {
            use_type_invariant(&*self);
        }
        if found {
            proof {
                map_of_value(self.list@, at as int);
            }
            Some(&self.list[at].1)
        } else {
            proof {
                self.absent(key@, at as int);
            }
            None
        }
    }

    /// A key between two neighbours is not in the map.
    proof fn absent(&self, key: K::V, at: int)
        requires
            0 <= at <= self.list@.len(),
            forall|i: int|
                0 <= i < at ==> row_below(K::row((#[trigger] self.list@[i]).0@), K::row(key)),
            forall|i: int|
                at <= i < self.list@.len() ==> row_below(
                    K::row(key),
                    K::row((#[trigger] self.list@[i]).0@),
                ),
        ensures
            !self@.dom().contains(key),
    {
        map_of_keys(self.list@, key);
        row_below_total(K::row(key), K::row(key));
        if self@.dom().contains(key) {
            let i = choose|i: int| 0 <= i < self.list@.len() && (#[trigger] self.list@[i]).0@ == key;
            assert(row_below(K::row(self.list@[i].0@), K::row(key)) || row_below(
                K::row(key),
                K::row(self.list@[i].0@),
            ));
        }
    }

    /// Puts a value under a key, in place of the one that was there.
    pub fn insert(&mut self, key: K, value: V)
        ensures
            final(self)@ == old(self)@.insert(key@, value),
    {
        let (at, found) = self.place(&key);
        let ghost before = self.list@;
        let ghost k = key@;
        proof {
            use_type_invariant(&*self);
            if !found {
                self.absent(k, at as int);
            }
        }
        if found {
            let mut list: Vec<(K, V)> = Vec::new();
            core::mem::swap(&mut list, &mut self.list);
            list.set(at, (key, value));
            proof {
                assert(list@[at as int].0@ == k && list@[at as int].1 == value);
                assert forall|i: int| 0 <= i < before.len() && i != at implies list@.contains(
                    #[trigger] before[i],
                ) && before.contains(list@[i]) by {
                    assert(list@[i] == before[i]);
                }
                assert forall|i: int, j: int| 0 <= i < j < list@.len() implies row_below(
                    K::row((#[trigger] list@[i]).0@),
                    K::row((#[trigger] list@[j]).0@),
                ) by {
                    assert(list@[i].0@ == before[i].0@);
                    assert(list@[j].0@ == before[j].0@);
                }
                map_after(before, list@, k, value);
            }
            self.list = list;
        } else {
            let mut list: Vec<(K, V)> = Vec::new();
            core::mem::swap(&mut list, &mut self.list);
            list.insert(at, (key, value));
            proof {
                assert(list@[at as int].0@ == k && list@[at as int].1 == value);
                assert forall|i: int| 0 <= i < before.len() implies list@.contains(
                    #[trigger] before[i],
                ) by {
                    let j = if i < at {
                        i
                    } else {
                        i + 1
                    };
                    assert(list@[j] == before[i]);
                }
                assert forall|i: int| 0 <= i < list@.len() && i != at implies before.contains(
                    #[trigger] list@[i],
                ) by {
                    let j = if i < at {
                        i
                    } else {
                        i - 1
                    };
                    assert(before[j] == list@[i]);
                }
                assert forall|i: int, j: int| 0 <= i < j < list@.len() implies row_below(
                    K::row((#[trigger] list@[i]).0@),
                    K::row((#[trigger] list@[j]).0@),
                ) by {
                    if i < at {
                        assert(list@[i] == before[i]);
                    } else if i > at {
                        assert(list@[i] == before[i - 1]);
                    }
                    if j < at {
                        assert(list@[j] == before[j]);
                    } else if j > at {
                        assert(list@[j] == before[j - 1]);
                    }
                }
                map_after(before, list@, k, value);
            }
            self.list = list;
        }
    }

    /// Takes a key out, and hands out its value where it was there.
    pub fn remove(&mut self, key: &K) -> (r: Option<V>)
        ensures
            match r {
                Some(v) => old(self)@.dom().contains(key@) && v == old(self)@[key@],
                None => !old(self)@.dom().contains(key@),
            },
            final(self)@ == old(self)@.remove(key@),
    {
        let (at, found) = self.place(key);
        let ghost before = self.list@;
        proof {
            use_type_invariant(&*self);
        }
        if !found {
            proof {
                self.absent(key@, at as int);
                assert(self@ =~= self@.remove(key@));
            }
            return None;
        }
        let mut list: Vec<(K, V)> = Vec::new();
        core::mem::swap(&mut list, &mut self.list);
        let (_, value) = list.remove(at);
        proof {
            map_of_value(before, at as int);
            assert forall|i: int, j: int| 0 <= i < j < list@.len() implies row_below(
                K::row((#[trigger] list@[i]).0@),
                K::row((#[trigger] list@[j]).0@),
            ) by {
                let a = if i < at {
                    i
                } else {
                    i + 1
                };
                let b = if j < at {
                    j
                } else {
                    j + 1
                };
                assert(list@[i] == before[a]);
                assert(list@[j] == before[b]);
            }
            map_without(before, list@, at as int);
        }
        self.list = list;
        Some(value)
    }
}

/// What a list of optional texts holds.
pub open spec fn row_of(list: Seq<Option<&str>>) -> Row {
    list.map_values(|s: Option<&str>| crate::base::text::lent(s))
}

/// Whether one row comes before another.
pub fn row_less(a: &Vec<Option<&str>>, b: &Vec<Option<&str>>) -> (r: bool)
    ensures
        r == row_below(row_of(a@), row_of(b@)),
{
    let ghost x = row_of(a@);
    let ghost y = row_of(b@);
    let mut i: usize = 0;
    assert(x.skip(0) =~= x);
    assert(y.skip(0) =~= y);
    while i < a.len() && i < b.len()
        invariant
            i <= a.len(),
            i <= b.len(),
            x == row_of(a@),
            y == row_of(b@),
            row_below(x, y) == row_below(x.skip(i as int), y.skip(i as int)),
        decreases a.len() - i,
    {
        assert(x.skip(i as int)[0] == crate::base::text::lent(a@[i as int]));
        assert(y.skip(i as int)[0] == crate::base::text::lent(b@[i as int]));
        assert(x.skip(i as int).drop_first() =~= x.skip(i + 1));
        assert(y.skip(i as int).drop_first() =~= y.skip(i + 1));
        if !option_same(a[i], b[i]) {
            return option_less(a[i], b[i]);
        }
        i += 1;
    }
    assert(x.len() == a@.len() && y.len() == b@.len());
    i < b.len()
}

/// Entries with one key given a new value describe the map with that value.
proof fn map_after<K: Key, V>(before: Seq<(K, V)>, after: Seq<(K, V)>, key: K::V, value: V)
    requires
        in_order(before),
        in_order(after),
        exists|i: int| 0 <= i < after.len() && (#[trigger] after[i]).0@ == key && after[i].1 == value,
        forall|i: int|
            0 <= i < after.len() && (#[trigger] after[i]).0@ != key ==> before.contains(after[i]),
        forall|i: int|
            0 <= i < before.len() && (#[trigger] before[i]).0@ != key ==> after.contains(before[i]),
    ensures
        map_of(after) == map_of(before).insert(key, value),
{
    let old_map = map_of(before);
    let new_map = map_of(after);
    assert forall|k: K::V| new_map.dom().contains(k) <==> old_map.insert(key, value).dom().contains(
        k,
    ) by {
        map_of_keys(before, k);
        map_of_keys(after, k);
        if k != key {
            if new_map.dom().contains(k) {
                let i = choose|i: int| 0 <= i < after.len() && (#[trigger] after[i]).0@ == k;
                assert(before.contains(after[i]));
                let j = choose|j: int| 0 <= j < before.len() && before[j] == after[i];
                assert(before[j].0@ == k);
            }
            if old_map.dom().contains(k) {
                let i = choose|i: int| 0 <= i < before.len() && (#[trigger] before[i]).0@ == k;
                assert(after.contains(before[i]));
                let j = choose|j: int| 0 <= j < after.len() && after[j] == before[i];
                assert(after[j].0@ == k);
            }
        }
    }
    assert forall|k: K::V| new_map.dom().contains(k) implies #[trigger] new_map[k]
        == old_map.insert(key, value)[k] by {
        map_of_keys(after, k);
        let i = choose|i: int| 0 <= i < after.len() && (#[trigger] after[i]).0@ == k;
        map_of_value(after, i);
        if k == key {
            let w = choose|w: int|
                0 <= w < after.len() && (#[trigger] after[w]).0@ == key && after[w].1 == value;
            map_of_value(after, w);
        } else {
            assert(before.contains(after[i]));
            let j = choose|j: int| 0 <= j < before.len() && before[j] == after[i];
            map_of_value(before, j);
        }
    }
    assert(new_map =~= old_map.insert(key, value));
}

/// Entries without one of them describe the map without its key.
proof fn map_without<K: Key, V>(before: Seq<(K, V)>, after: Seq<(K, V)>, at: int)
    requires
        in_order(before),
        in_order(after),
        0 <= at < before.len(),
        after == before.remove(at),
    ensures
        map_of(after) == map_of(before).remove(before[at].0@),
{
    let key = before[at].0@;
    let old_map = map_of(before);
    let new_map = map_of(after);
    row_below_total(K::row(key), K::row(key));
    assert forall|i: int| 0 <= i < after.len() implies (#[trigger] after[i]).0@ != key
        && before.contains(after[i]) by {
        let j = if i < at {
            i
        } else {
            i + 1
        };
        assert(after[i] == before[j]);
        if i < at {
            assert(row_below(K::row(before[j].0@), K::row(before[at].0@)));
        } else {
            assert(row_below(K::row(before[at].0@), K::row(before[j].0@)));
        }
    }
    assert forall|k: K::V| new_map.dom().contains(k) <==> old_map.remove(key).dom().contains(k) by {
        map_of_keys(before, k);
        map_of_keys(after, k);
        if new_map.dom().contains(k) {
            let i = choose|i: int| 0 <= i < after.len() && (#[trigger] after[i]).0@ == k;
            assert(before.contains(after[i]));
            let j = choose|j: int| 0 <= j < before.len() && before[j] == after[i];
            assert(before[j].0@ == k);
        }
        if k != key && old_map.dom().contains(k) {
            let i = choose|i: int| 0 <= i < before.len() && (#[trigger] before[i]).0@ == k;
            if i < at {
                assert(after[i] == before[i]);
            } else {
                assert(after[i - 1] == before[i]);
            }
        }
    }
    assert forall|k: K::V| new_map.dom().contains(k) implies #[trigger] new_map[k] == old_map.remove(
        key,
    )[k] by {
        map_of_keys(after, k);
        let i = choose|i: int| 0 <= i < after.len() && (#[trigger] after[i]).0@ == k;
        map_of_value(after, i);
        assert(before.contains(after[i]));
        let j = choose|j: int| 0 <= j < before.len() && before[j] == after[i];
        map_of_value(before, j);
    }
    assert(new_map =~= old_map.remove(key));
}

} // verus!
