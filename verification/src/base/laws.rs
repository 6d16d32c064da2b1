//! What the rest of the library relies on: how texts, numbers, JSON and time
//! behave.
use vstd::prelude::*;

use crate::base::decimal::{decimal, digits, number, signed};
use crate::base::dict::{row_below, Row};
use crate::base::json::{lookup, JsonView};
use crate::base::meta::{
    entry, json_bool, json_int, json_list, json_map, json_owners, json_str, json_strs, json_time,
    meta_json, owner_json, MetaView, OwnerView,
};
use crate::base::text::{
    cut, first_from, first_from_finds, joined, occurs, pieces, pieces_nonempty, precedes,
    precedes_irreflexive, stands_at, stripped_end, stripped_start, trimmed, white_space, Class,
};
use crate::base::time::{timestamp_text, whole_seconds};

verus! {

/// The whole seconds of a span leave less than a second of it, on the side of
/// zero.
pub proof fn whole_seconds_leave_less_than_one(nanoseconds: int)
    ensures
        nanoseconds >= 0 ==> 0 <= nanoseconds - whole_seconds(nanoseconds) * 1_000_000_000
            < 1_000_000_000,
        nanoseconds <= 0 ==> -1_000_000_000 < nanoseconds - whole_seconds(nanoseconds)
            * 1_000_000_000 <= 0,
{
}

proof fn lookup_finds(entries: Seq<(Seq<char>, JsonView)>, key: Seq<char>, k: int)
    requires
        0 <= k <= entries.len(),
        k < entries.len() ==> entries[k].0 == key,
        forall|i: int| 0 <= i < k ==> (#[trigger] entries[i]).0 != key,
    ensures
        lookup(entries, key) == (if k < entries.len() {
            Some(entries[k].1)
        } else {
            None
        }),
    decreases k,
{
    if k > 0 {
        assert(entries[0].0 != key);
        assert forall|i: int| 0 <= i < k - 1 implies (#[trigger] entries.drop_first()[i]).0
            != key by {
            assert(entries.drop_first()[i] == entries[i + 1]);
        }
        lookup_finds(entries.drop_first(), key, k - 1);
    }
}

/// A field of an object is its first entry of that name, and missing where it
/// has none; nothing else has fields.
pub proof fn a_field_is_the_first_of_its_name(
    j: JsonView,
    entries: Seq<(Seq<char>, JsonView)>,
    key: Seq<char>,
    k: int,
)
    requires
        0 <= k <= entries.len(),
        k < entries.len() ==> entries[k].0 == key,
        forall|i: int| 0 <= i < k ==> (#[trigger] entries[i]).0 != key,
    ensures
        JsonView::Object(entries).get(key) == (if k < entries.len() {
            Some(entries[k].1)
        } else {
            None
        }),
        !(j is Object) ==> j.get(key) is None,
{
    lookup_finds(entries, key, k);
}

/// Putting texts together: one stands as it is, and each further one comes
/// behind the others and a separator.
pub proof fn joining_adds_one(parts: Seq<Seq<char>>, part: Seq<char>, separator: Seq<char>)
    ensures
        joined(Seq::empty(), separator).len() == 0,
        joined(seq![part], separator) == part,
        parts.len() > 0 ==> joined(parts.push(part), separator) == joined(parts, separator)
            + separator + part,
{
    assert(parts.push(part).drop_last() =~= parts);
}

/// The pieces between separators hold no separator, and with the separators
/// between them they are the text again.
pub proof fn pieces_join_again(s: Seq<char>, separator: char)
    ensures
        joined(pieces(s, separator), seq![separator]) == s,
        forall|i: int|
            0 <= i < pieces(s, separator).len() ==> !(#[trigger] pieces(s, separator)[i]).contains(
                separator,
            ),
    decreases s.len(),
{
    let all = pieces(s, separator);
    if s.len() == 0 {
        assert(all[0].len() == 0);
        assert(joined(all, seq![separator]) =~= s);
    } else {
        let front = s.drop_last();
        let before = pieces(front, separator);
        pieces_join_again(front, separator);
        pieces_nonempty(front, separator);
        assert(front.push(s.last()) =~= s);
        if s.last() == separator {
            assert(all.drop_last() =~= before);
            assert(joined(all, seq![separator]) =~= front + seq![separator] + Seq::empty());
            assert(joined(all, seq![separator]) =~= s);
        } else {
            let last = before.last().push(s.last());
            assert(all.drop_last() =~= before.drop_last());
            assert(all.last() == last);
            if all.len() == 1 {
                assert(joined(before, seq![separator]) == before[0]);
                assert(joined(all, seq![separator]) =~= s);
            } else {
                assert(joined(all, seq![separator]) =~= joined(before.drop_last(), seq![separator])
                    + seq![separator] + last);
                assert(joined(all, seq![separator]) =~= s);
            }
            assert forall|i: int| 0 <= i < all.len() implies !(#[trigger] all[i]).contains(
                separator,
            ) by {
                if i < all.len() - 1 {
                    assert(all[i] == before[i]);
                } else {
                    assert(!before[before.len() - 1].contains(separator));
                    if last.contains(separator) {
                        let k = choose|k: int| 0 <= k < last.len() && last[k] == separator;
                        assert(k < before.last().len());
                        assert(before.last()[k] == separator);
                    }
                }
            }
        }
    }
}

/// A text is cut at the first place where the mark stands, and not at all where
/// it stands nowhere.
pub proof fn a_cut_is_at_the_first_mark(s: Seq<char>, mark: Seq<char>)
    ensures
        match cut(s, mark) {
            Some((front, back)) => s == front + mark + back && forall|k: int|
                0 <= k < front.len() ==> !#[trigger] stands_at(mark, s, k),
            None => !occurs(mark, s),
        },
{
    first_from_finds(mark, s, 0);
    if let Some((front, back)) = cut(s, mark) {
        let at = front.len() as int;
        assert(stands_at(mark, s, at));
        assert(s =~= front + mark + back) by {
            assert(s.subrange(at, at + mark.len()) == mark);
            assert forall|i: int| 0 <= i < mark.len() implies s[at + i] == mark[i] by {
                assert(s.subrange(at, at + mark.len())[i] == mark[i]);
            }
        }
    }
}

proof fn start_stripped(s: Seq<char>, class: Class)
    ensures
        ({
            let rest = stripped_start(s, class);
            &&& rest.len() <= s.len()
            &&& s.skip(s.len() - rest.len()) == rest
            &&& rest.len() > 0 ==> !class.has(rest[0])
            &&& forall|i: int| 0 <= i < s.len() - rest.len() ==> class.has(#[trigger] s[i])
        }),
    decreases s.len(),
{
    if s.len() > 0 && class.has(s[0]) {
        start_stripped(s.drop_first(), class);
        let rest = stripped_start(s, class);
        assert(s.skip(s.len() - rest.len()) =~= s.drop_first().skip(s.len() - 1 - rest.len()));
        assert forall|i: int| 0 <= i < s.len() - rest.len() implies class.has(#[trigger] s[i]) by {
            if i > 0 {
                assert(s.drop_first()[i - 1] == s[i]);
            }
        }
    } else {
        assert(s.skip(0) =~= s);
    }
}

proof fn end_stripped(s: Seq<char>, class: Class)
    ensures
        ({
            let rest = stripped_end(s, class);
            &&& rest.len() <= s.len()
            &&& s.take(rest.len() as int) == rest
            &&& rest.len() > 0 ==> !class.has(rest.last())
            &&& forall|i: int| rest.len() <= i < s.len() ==> class.has(#[trigger] s[i])
        }),
    decreases s.len(),
{
    if s.len() > 0 && class.has(s.last()) {
        end_stripped(s.drop_last(), class);
        let rest = stripped_end(s, class);
        assert(s.take(rest.len() as int) =~= s.drop_last().take(rest.len() as int));
        assert forall|i: int| rest.len() <= i < s.len() implies class.has(#[trigger] s[i]) by {
            if i < s.len() - 1 {
                assert(s.drop_last()[i] == s[i]);
            }
        }
    } else {
        assert(s.take(s.len() as int) =~= s);
    }
}

/// Trimming takes white space from both ends, all of it and nothing else.
pub proof fn trimming_takes_only_space(s: Seq<char>) -> (at: int)
    ensures
        0 <= at <= s.len() - trimmed(s).len(),
        s.subrange(at, at + trimmed(s).len()) == trimmed(s),
        forall|i: int|
            (0 <= i < at || at + trimmed(s).len() <= i < s.len()) ==> white_space(#[trigger] s[i]),
        trimmed(s).len() > 0 ==> !white_space(trimmed(s)[0]) && !white_space(trimmed(s).last()),
{
    let rest = stripped_start(s, Class::Space);
    start_stripped(s, Class::Space);
    end_stripped(rest, Class::Space);
    let at = s.len() - rest.len();
    assert(s.subrange(at, at + trimmed(s).len()) =~= trimmed(s)) by {
        assert(rest =~= s.skip(at));
        assert(trimmed(s) =~= rest.take(trimmed(s).len() as int));
    }
    assert forall|i: int|
        (0 <= i < at || at + trimmed(s).len() <= i < s.len()) implies white_space(
        #[trigger] s[i],
    ) by {
        if i < at {
            assert(Class::Space.has(s[i]));
        } else {
            assert(s[i] == rest[i - at]);
            assert(Class::Space.has(rest[i - at]));
        }
    }
    if trimmed(s).len() > 0 {
        assert(trimmed(s)[0] == rest[0]);
        assert(!Class::Space.has(rest[0]));
    }
    at
}

/// Of two texts that begin alike the one with the smaller next character comes
/// first, and one that the other begins with comes before it.
pub proof fn texts_are_ordered_by_their_first_difference(
    common: Seq<char>,
    x: char,
    y: char,
    a: Seq<char>,
    b: Seq<char>,
)
    ensures
        x != y ==> (precedes(common + seq![x] + a, common + seq![y] + b) <==> x < y),
        a.len() > 0 ==> precedes(common, common + a) && !precedes(common + a, common),
    decreases common.len(),
{
    let one = common + seq![x] + a;
    let two = common + seq![y] + b;
    if common.len() == 0 {
        assert(one[0] == x && two[0] == y);
        assert(common + a =~= a);
    } else {
        let rest = common.drop_first();
        texts_are_ordered_by_their_first_difference(rest, x, y, a, b);
        assert(one.drop_first() =~= rest + seq![x] + a);
        assert(two.drop_first() =~= rest + seq![y] + b);
        assert((common + a).drop_first() =~= rest + a);
    }
}

/// Rows come by their first text, and by the next where that is the same. One
/// without a text comes before one with it.
pub proof fn rows_are_ordered_by_their_first_difference(a: Row, b: Row, x: Seq<char>, y: Seq<char>)
    ensures
        precedes(x, y) ==> row_below(seq![Some(x)] + a, seq![Some(y)] + b),
        row_below(seq![None::<Seq<char>>] + a, seq![Some(y)] + b),
        !row_below(seq![Some(x)] + a, seq![None::<Seq<char>>] + b),
        row_below(seq![Some(x)] + a, seq![Some(x)] + b) == row_below(a, b),
        row_below(seq![None::<Seq<char>>] + a, seq![None::<Seq<char>>] + b) == row_below(a, b),
{
    precedes_irreflexive(x);
    assert((seq![Some(x)] + a).drop_first() =~= a);
    assert((seq![Some(x)] + b).drop_first() =~= b);
    assert((seq![None::<Seq<char>>] + a).drop_first() =~= a);
    assert((seq![None::<Seq<char>>] + b).drop_first() =~= b);
}

/// A number is written digit by digit: the digits of its tenth part, and then
/// its last digit. A negative one has a minus sign in front.
pub proof fn numbers_are_written_digit_by_digit(n: nat, d: nat)
    requires
        d < 10,
    ensures
        decimal(d).len() == 1,
        decimal(d)[0] as int == '0' as int + d,
        n > 0 ==> decimal(10 * n + d) == decimal(n) + decimal(d),
        n > 0 ==> signed(-(n as int)) == seq!['-'] + decimal(n),
        signed(n as int) == decimal(n),
{
    if n > 0 {
        let m = 10 * n + d;
        assert(m / 10 == n && m % 10 == d);
        assert(decimal(m) =~= decimal(n) + decimal(d));
    }
}

/// A number is read digit by digit, and only from digits.
pub proof fn numbers_are_read_digit_by_digit(s: Seq<char>, c: char)
    ensures
        digits(seq![c]) == (if '0' <= c <= '9' {
            Some((c as int - '0' as int) as nat)
        } else {
            None
        }),
        digits(s) is Some && '0' <= c <= '9' ==> digits(s.push(c)) == Some(
            (digits(s)->0 * 10 + (c as int - '0' as int)) as nat,
        ),
        digits(s) is None && s.len() > 0 ==> digits(s.push(c)) is None,
        !('0' <= c <= '9') ==> digits(s.push(c)) is None,
        digits(s) is Some ==> number(seq!['-'] + s) == Some(-(digits(s)->0 as int)),
{
    assert(s.push(c).drop_last() =~= s);
    assert((seq!['-'] + s).drop_first() =~= s);
    if s.len() == 0 {
        assert(s.push(c) =~= seq![c]);
    }
}

proof fn mark_found(s: Seq<char>, mark: Seq<char>, from: int, k: int)
    requires
        0 <= from <= k,
        stands_at(mark, s, k),
        forall|i: int| from <= i < k ==> !#[trigger] stands_at(mark, s, i),
    ensures
        first_from(mark, s, from) == Some(k),
    decreases k - from,
{
    if from < k {
        mark_found(s, mark, from + 1, k);
    }
}

/// A text is cut at a mark into what stands in front of it and what stands
/// behind it, where the mark stands nowhere before that.
pub proof fn a_mark_parts_a_text(front: Seq<char>, mark: Seq<char>, back: Seq<char>)
    requires
        forall|i: int|
            0 <= i < front.len() ==> !#[trigger] stands_at(mark, front + mark + back, i),
    ensures
        cut(front + mark + back, mark) == Some((front, back)),
{
    let s = front + mark + back;
    let k = front.len() as int;
    assert(s.subrange(k, k + mark.len()) =~= mark);
    mark_found(s, mark, 0, k);
    assert(s.subrange(0, k) =~= front);
    assert(s.skip(k + mark.len()) =~= back);
}

/// Splitting at a separator takes off the last piece: what follows the last
/// separator.
pub proof fn the_last_piece_follows_the_last_separator(
    front: Seq<char>,
    separator: char,
    last: Seq<char>,
)
    requires
        !last.contains(separator),
    ensures
        pieces(last, separator) == seq![last],
        pieces(front.push(separator) + last, separator) == pieces(front, separator).push(last),
    decreases last.len(),
{
    if last.len() == 0 {
        assert(last =~= Seq::empty());
        assert(front.push(separator) + last =~= front.push(separator));
        assert(front.push(separator).drop_last() =~= front);
    } else {
        let most = last.drop_last();
        assert forall|i: int| 0 <= i < most.len() implies most[i] != separator by {
            assert(last.contains(last[i]));
        }
        assert(last.contains(last.last()));
        the_last_piece_follows_the_last_separator(front, separator, most);
        assert(most.push(last.last()) =~= last);
        assert(seq![most].drop_last() =~= Seq::empty());
        assert(pieces(last, separator) =~= seq![last]);
        let s = front.push(separator) + last;
        assert(s.drop_last() =~= front.push(separator) + most);
        let before = pieces(front, separator).push(most);
        assert(before.drop_last() =~= pieces(front, separator));
    }
}

/// What metadata says: each of its fields under its name, as far as it is there.
pub open spec fn fields_of(m: MetaView) -> Seq<(Seq<char>, Option<JsonView>)> {
    seq![
        ("annotations"@, json_map(m.annotations)),
        ("creationTimestamp"@, json_time(m.creation_timestamp)),
        ("deletionGracePeriodSeconds"@, json_int(m.deletion_grace_period_seconds)),
        ("deletionTimestamp"@, json_time(m.deletion_timestamp)),
        ("finalizers"@, json_strs(m.finalizers)),
        ("generateName"@, json_str(m.generate_name)),
        ("generation"@, json_int(m.generation)),
        ("labels"@, json_map(m.labels)),
        ("managedFields"@, json_list(m.managed_fields)),
        ("name"@, json_str(m.name)),
        ("namespace"@, json_str(m.namespace)),
        ("ownerReferences"@, json_owners(m.owner_references)),
        ("resourceVersion"@, json_str(m.resource_version)),
        ("selfLink"@, json_str(m.self_link)),
        ("uid"@, json_str(m.uid)),
    ]
}

spec fn written(fields: Seq<(Seq<char>, Option<JsonView>)>) -> Seq<(Seq<char>, JsonView)>
    decreases fields.len(),
{
    if fields.len() == 0 {
        Seq::empty()
    } else {
        written(fields.drop_last()) + entry(fields.last().0, fields.last().1)
    }
}

proof fn written_next(fields: Seq<(Seq<char>, Option<JsonView>)>, at: int)
    requires
        0 <= at < fields.len(),
    ensures
        written(fields.take(at + 1)) == written(fields.take(at)) + entry(
            fields[at].0,
            fields[at].1,
        ),
{
    assert(fields.take(at + 1).drop_last() =~= fields.take(at));
}

proof fn found_in_either(
    front: Seq<(Seq<char>, JsonView)>,
    back: Seq<(Seq<char>, JsonView)>,
    key: Seq<char>,
)
    ensures
        lookup(front + back, key) == (if lookup(front, key) is Some {
            lookup(front, key)
        } else {
            lookup(back, key)
        }),
    decreases front.len(),
{
    if front.len() == 0 {
        assert(front + back =~= back);
    } else {
        assert((front + back).drop_first() =~= front.drop_first() + back);
        found_in_either(front.drop_first(), back, key);
    }
}

proof fn found_in_written(fields: Seq<(Seq<char>, Option<JsonView>)>, k: int)
    requires
        0 <= k <= fields.len(),
        forall|i: int, j: int|
            0 <= i < j < fields.len() ==> (#[trigger] fields[i]).0 != (#[trigger] fields[j]).0,
    ensures
        k < fields.len() ==> lookup(written(fields), fields[k].0) == fields[k].1,
        forall|key: Seq<char>|
            (forall|i: int| 0 <= i < fields.len() ==> (#[trigger] fields[i]).0 != key)
                ==> #[trigger] lookup(written(fields), key) is None,
    decreases fields.len(),
{
    if fields.len() > 0 {
        let front = fields.drop_last();
        let last = fields.last();
        let tail = entry(last.0, last.1);
        assert forall|i: int, j: int| 0 <= i < j < front.len() implies (#[trigger] front[i]).0 != (
        #[trigger] front[j]).0 by {
            assert(front[i] == fields[i] && front[j] == fields[j]);
        }
        assert forall|key: Seq<char>| #[trigger] lookup(tail, key) == (if last.0 == key {
            last.1
        } else {
            None
        }) by {
            reveal_with_fuel(lookup, 2);
            if tail.len() > 0 {
                assert(tail[0] == (last.0, last.1->0));
                assert(tail.drop_first() =~= Seq::empty());
            }
        }
        assert forall|key: Seq<char>|
            (forall|i: int| 0 <= i < fields.len() ==> (#[trigger] fields[i]).0 != key) implies (
        #[trigger] lookup(written(fields), key)) is None by {
            found_in_written(front, front.len() as int);
            found_in_either(written(front), tail, key);
            assert forall|i: int| 0 <= i < front.len() implies (#[trigger] front[i]).0 != key by {
                assert(front[i] == fields[i]);
            }
            assert(fields[fields.len() - 1].0 != key);
        }
        if k < fields.len() {
            let key = fields[k].0;
            found_in_either(written(front), tail, key);
            if k < front.len() {
                found_in_written(front, k);
                assert(front[k] == fields[k]);
                assert(fields[fields.len() - 1] == last);
            } else {
                found_in_written(front, front.len() as int);
                assert forall|i: int| 0 <= i < front.len() implies (#[trigger] front[i]).0
                    != key by {
                    assert(front[i] == fields[i]);
                }
            }
        }
    }
}

/// A time goes to the API to the second, in the form that it takes times in.
pub proof fn times_are_written_to_the_second(at: int)
    ensures
        json_time(Some(at)) == Some(JsonView::Str(timestamp_text(at, "%Y-%m-%dT%H:%M:%SZ"@))),
        json_time(None) is None,
{
}

/// Metadata is written with each of its fields under its name and with nothing
/// else. A field that is not there is not written.
pub proof fn metadata_is_written_by_name(m: MetaView, k: int, key: Seq<char>)
    requires
        0 <= k < 15,
    ensures
        meta_json(m).get(fields_of(m)[k].0) == fields_of(m)[k].1,
        (forall|i: int| 0 <= i < 15 ==> (#[trigger] fields_of(m)[i]).0 != key) ==> meta_json(
            m,
        ).get(key) is None,
{
    let fields = fields_of(m);
    reveal_strlit("annotations");
    reveal_strlit("creationTimestamp");
    reveal_strlit("deletionGracePeriodSeconds");
    reveal_strlit("deletionTimestamp");
    reveal_strlit("finalizers");
    reveal_strlit("generateName");
    reveal_strlit("generation");
    reveal_strlit("labels");
    reveal_strlit("managedFields");
    reveal_strlit("name");
    reveal_strlit("namespace");
    reveal_strlit("ownerReferences");
    reveal_strlit("resourceVersion");
    reveal_strlit("selfLink");
    reveal_strlit("uid");
    assert("annotations"@.len() == 11 && "creationTimestamp"@.len() == 17 && "deletionGracePeriodSeconds"@.len() == 26
        && "deletionTimestamp"@.len() == 17 && "finalizers"@.len() == 10 && "generateName"@.len() == 12
        && "generation"@.len() == 10 && "labels"@.len() == 6 && "managedFields"@.len() == 13 && "name"@.len() == 4
        && "namespace"@.len() == 9 && "ownerReferences"@.len() == 15 && "resourceVersion"@.len() == 15
        && "selfLink"@.len() == 8 && "uid"@.len() == 3);
    assert("creationTimestamp"@[0] == 'c' && "deletionTimestamp"@[0] == 'd');
    assert("finalizers"@[0] == 'f' && "generation"@[0] == 'g');
    assert("ownerReferences"@[0] == 'o' && "resourceVersion"@[0] == 'r');
    assert forall|i: int, j: int| 0 <= i < j < fields.len() implies (#[trigger] fields[i]).0 != (
    #[trigger] fields[j]).0 by {}
    found_in_written(fields, k);
    assert(meta_json(m)->Object_0 =~= written(fields)) by {
        assert(written(fields.take(0)) =~= Seq::empty());
        assert(Seq::empty() + entry(fields[0].0, fields[0].1) =~= entry(fields[0].0, fields[0].1));
        written_next(fields, 0);
        written_next(fields, 1);
        written_next(fields, 2);
        written_next(fields, 3);
        written_next(fields, 4);
        written_next(fields, 5);
        written_next(fields, 6);
        written_next(fields, 7);
        written_next(fields, 8);
        written_next(fields, 9);
        written_next(fields, 10);
        written_next(fields, 11);
        written_next(fields, 12);
        written_next(fields, 13);
        written_next(fields, 14);
        assert(fields.take(15) =~= fields);
    }
}

/// What a field of metadata holds is written as it is: texts and numbers, labels
/// by their keys, lists in their order, and an owner by its name.
pub proof fn metadata_values_are_written_as_they_are(
    text: Seq<char>,
    number: i64,
    map: Seq<(Seq<char>, Seq<char>)>,
    texts: Seq<Seq<char>>,
    items: Seq<JsonView>,
    owners: Seq<OwnerView>,
    i: int,
)
    ensures
        json_str(Some(text)) == Some(JsonView::Str(text)) && json_str(None) is None,
        json_int(Some(number)) == Some(JsonView::Int(number as int)) && json_int(None) is None,
        json_list(Some(items)) == Some(JsonView::Array(items)) && json_list(None) is None,
        json_map(None) is None && json_strs(None) is None && json_owners(None) is None,
        json_map(Some(map)) matches Some(JsonView::Object(entries)) && entries.len() == map.len()
            && (0 <= i < map.len() ==> entries[i] == (map[i].0, JsonView::Str(map[i].1))),
        json_strs(Some(texts)) matches Some(JsonView::Array(list)) && list.len() == texts.len() && (0
            <= i < texts.len() ==> list[i] == JsonView::Str(texts[i])),
        json_owners(Some(owners)) matches Some(JsonView::Array(list)) && list.len() == owners.len()
            && (0 <= i < owners.len() ==> {
            let o = owners[i];
            &&& list[i].get("apiVersion"@) == Some(JsonView::Str(o.api_version))
            &&& list[i].get("kind"@) == Some(JsonView::Str(o.kind))
            &&& list[i].get("name"@) == Some(JsonView::Str(o.name))
            &&& list[i].get("uid"@) == Some(JsonView::Str(o.uid))
            &&& list[i].get("controller"@) == (match o.controller {
                Some(b) => Some(JsonView::Bool(b)),
                None => None,
            })
            &&& list[i].get("blockOwnerDeletion"@) == (match o.block_owner_deletion {
                Some(b) => Some(JsonView::Bool(b)),
                None => None,
            })
        }),
{
    if 0 <= i < owners.len() {
        let o = owners[i];
        let fields = seq![
            ("apiVersion"@, Some(JsonView::Str(o.api_version))),
            ("blockOwnerDeletion"@, json_bool(o.block_owner_deletion)),
            ("controller"@, json_bool(o.controller)),
            ("kind"@, Some(JsonView::Str(o.kind))),
            ("name"@, Some(JsonView::Str(o.name))),
            ("uid"@, Some(JsonView::Str(o.uid))),
        ];
        reveal_strlit("apiVersion");
        reveal_strlit("blockOwnerDeletion");
        reveal_strlit("controller");
        reveal_strlit("kind");
        reveal_strlit("name");
        reveal_strlit("uid");
        assert("apiVersion"@.len() == 10 && "blockOwnerDeletion"@.len() == 18 && "controller"@.len()
            == 10 && "kind"@.len() == 4 && "name"@.len() == 4 && "uid"@.len() == 3);
        assert("apiVersion"@[0] == 'a' && "controller"@[0] == 'c');
        assert("kind"@[0] == 'k' && "name"@[0] == 'n');
        assert(owner_json(o)->Object_0 =~= written(fields)) by {
            assert(written(fields.take(0)) =~= Seq::empty());
            assert(Seq::empty() + entry(fields[0].0, fields[0].1) =~= entry(
                fields[0].0,
                fields[0].1,
            ));
            written_next(fields, 0);
            written_next(fields, 1);
            written_next(fields, 2);
            written_next(fields, 3);
            written_next(fields, 4);
            written_next(fields, 5);
            assert(fields.take(6) =~= fields);
        }
        found_in_written(fields, 0);
        found_in_written(fields, 1);
        found_in_written(fields, 2);
        found_in_written(fields, 3);
        found_in_written(fields, 4);
        found_in_written(fields, 5);
    }
}

} // verus!
