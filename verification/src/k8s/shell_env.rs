//! Recovering the user's real `PATH`.
//!
//! An application that was not launched from a terminal has the bare system
//! default `PATH`, and kubeconfig `exec` credential plugins then fail with a "no
//! such file or directory" that points at nothing the user recognises. So the
//! user's shell is asked what `PATH` should be. Being interactive it may print
//! things, so the answer is delimited by a marker and everything around it is
//! thrown away.
use vstd::prelude::*;

use crate::base::laws::{
    a_cut_is_at_the_first_mark, a_mark_parts_a_text, the_last_piece_follows_the_last_separator,
};
use crate::base::list::{kept, kept_bounds, kept_next};
use crate::base::text::{
    among, cut, each, held, join, joined, lent, occurs, pieces, same, split, split_once, stands_at,
    three, trim, trimmed,
};

verus! {

/// How long one shell is waited for, in seconds.
pub const SHELL_TIMEOUT: u64 = 5;

/// Wraps the answer so that whatever an rc file printed can be discarded.
pub const MARKER: &'static str = "__beacon_path_7f3a__";

/// What the shell is asked to run: print its `PATH` between two markers.
pub fn script() -> (r: String)
    ensures
        r@ == "printf '%s%s%s' '"@ + MARKER@ + ("' \"$PATH\" '"@ + MARKER@ + "'"@),
{
    three("printf '%s%s%s' '", MARKER, three("' \"$PATH\" '", MARKER, "'").as_str())
}

/// The flags that a shell is started with, one attempt after the other; no
/// attempt where there is no shell.
pub open spec fn attempts_of(shell: Option<Seq<char>>) -> Seq<Seq<Seq<char>>> {
    match shell {
        Some(shell) => if shell.len() == 0 {
            Seq::empty()
        } else {
            seq![seq!["-i"@, "-l"@, "-c"@], seq!["-l"@, "-c"@]]
        },
        None => Seq::empty(),
    }
}

/// The flags that a shell is started with, one attempt after the other.
///
/// Interactive and login first, because that is where most people set `PATH`.
/// The login-only attempt is the fallback: a shell that rejects `-i` without a
/// terminal fails immediately, and an rc file slow enough to time out is one
/// that it does not read at all.
pub fn attempts(shell: Option<&str>) -> (out: Vec<Vec<String>>)
    ensures
        out@.map_values(|flags: Vec<String>| each(flags@)) == attempts_of(lent(shell)),
{
    let mut out: Vec<Vec<String>> = Vec::new();
    let known = match shell {
        Some(shell) => !shell.is_empty(),
        None => false,
    };
    if known {
        let first: Vec<String> = vec!["-i".to_owned(), "-l".to_owned(), "-c".to_owned()];
        assert(each(first@) =~= seq!["-i"@, "-l"@, "-c"@]);
        let second: Vec<String> = vec!["-l".to_owned(), "-c".to_owned()];
        assert(each(second@) =~= seq!["-l"@, "-c"@]);
        out.push(first);
        out.push(second);
    }
    assert(out@.map_values(|flags: Vec<String>| each(flags@)) =~= attempts_of(lent(shell)));
    out
}

/// What stands between the first two markers, without the white space around
/// it; nothing where a marker is missing or nothing stands there.
pub open spec fn answer(stdout: Seq<char>) -> Option<Seq<char>> {
    match cut(stdout, MARKER@) {
        Some((_, rest)) => match cut(rest, MARKER@) {
            Some((path, _)) => if trimmed(path).len() > 0 {
                Some(trimmed(path))
            } else {
                None
            },
            None => None,
        },
        None => None,
    }
}

/// Pulls the answer out from between the two markers.
pub fn extract(stdout: &str) -> (r: Option<String>)
    ensures
        held(r) == answer(stdout@),
{
    let rest = match split_once(stdout, MARKER) {
        Some((_, rest)) => rest,
        None => return None,
    };
    let path = match split_once(rest.as_str(), MARKER) {
        Some((path, _)) => path,
        None => return None,
    };
    let path = trim(path.as_str());
    if path.as_str().is_empty() {
        None
    } else {
        Some(path)
    }
}

pub open spec fn filled_reader() -> spec_fn(Seq<char>) -> Option<Seq<char>> {
    |s: Seq<char>|
        if s.len() > 0 {
            Some(s)
        } else {
            None
        }
}

/// The entries of a search path, without empty ones.
pub open spec fn path_entries(path: Seq<char>) -> Seq<Seq<char>> {
    kept(pieces(path, ':'), filled_reader())
}

/// A list with those of some extras behind it that it does not hold yet.
pub open spec fn with_extras(list: Seq<Seq<char>>, extras: Seq<Seq<char>>) -> Seq<Seq<char>>
    decreases extras.len(),
{
    if extras.len() == 0 {
        list
    } else {
        let before = with_extras(list, extras.drop_last());
        if before.contains(extras.last()) {
            before
        } else {
            before.push(extras.last())
        }
    }
}

/// The entries of the merged search path: the shell's first, then what the
/// current environment has that the shell did not mention.
pub open spec fn merged_entries(shell_path: Seq<char>, current: Seq<char>) -> Seq<Seq<char>> {
    with_extras(path_entries(shell_path), path_entries(current))
}

/// The merged search path. Nothing where it is the current one and the shell
/// named every entry of it.
pub open spec fn merged_path(shell_path: Seq<char>, current: Seq<char>) -> Option<Seq<char>> {
    let list = merged_entries(shell_path, current);
    if joined(list, ":"@) == current && list.len() == path_entries(shell_path).len() {
        None
    } else {
        Some(joined(list, ":"@))
    }
}

/// Extras go behind the list, and everything ends up in it.
proof fn extras_behind(list: Seq<Seq<char>>, extras: Seq<Seq<char>>)
    ensures
        with_extras(list, extras).len() >= list.len(),
        with_extras(list, extras).take(list.len() as int) == list,
        forall|i: int| 0 <= i < extras.len() ==> with_extras(list, extras).contains(#[trigger] extras[i]),
        forall|i: int|
            list.len() <= i < with_extras(list, extras).len() ==> extras.contains(
                #[trigger] with_extras(list, extras)[i],
            ),
        forall|i: int, j: int|
            0 <= i < j < with_extras(list, extras).len() && list.len() <= j ==> (
                #[trigger] with_extras(list, extras)[i]) != (#[trigger] with_extras(list, extras)[j]),
    decreases extras.len(),
{
    if extras.len() == 0 {
        assert(list.take(list.len() as int) =~= list);
    } else {
        let front = extras.drop_last();
        extras_behind(list, front);
        let before = with_extras(list, front);
        let after = with_extras(list, extras);
        assert(after.take(list.len() as int) =~= before.take(list.len() as int));
        assert forall|i: int| 0 <= i < extras.len() implies after.contains(#[trigger] extras[i]) by {
            if i < front.len() {
                assert(extras[i] == front[i]);
                let w = choose|w: int| 0 <= w < before.len() && before[w] == front[i];
                assert(after[w] == front[i]);
            } else if !before.contains(extras.last()) {
                assert(after[before.len() as int] == extras.last());
            }
        }
        assert forall|i: int| list.len() <= i < after.len() implies extras.contains(
            #[trigger] after[i],
        ) by {
            if i < before.len() {
                assert(after[i] == before[i]);
                let w = choose|w: int| 0 <= w < front.len() && front[w] == before[i];
                assert(extras[w] == before[i]);
            } else {
                assert(extras[extras.len() - 1] == after[i]);
            }
        }
        assert forall|i: int, j: int|
            0 <= i < j < after.len() && list.len() <= j implies (#[trigger] after[i]) != (
        #[trigger] after[j]) by {
            if j < before.len() {
                assert(after[i] == before[i] && after[j] == before[j]);
            } else {
                assert(after[i] == before[i]);
                assert(before.contains(before[i]));
            }
        }
    }
}

/// Merging keeps everything: the shell's entries come first and in their order,
/// every entry of the current path is there, what follows the shell's entries
/// comes from the current path, and none of it is there twice.
pub proof fn merging_keeps_every_entry(shell_path: Seq<char>, current: Seq<char>)
    ensures
        path_entries(shell_path).is_prefix_of(merged_entries(shell_path, current)),
        forall|i: int|
            0 <= i < path_entries(current).len() ==> merged_entries(shell_path, current).contains(
                #[trigger] path_entries(current)[i],
            ),
        forall|i: int, j: int|
            0 <= i < j < merged_entries(shell_path, current).len() && path_entries(shell_path).len()
                <= j ==> (#[trigger] merged_entries(shell_path, current)[i]) != (
            #[trigger] merged_entries(shell_path, current)[j]),
{
    let list = path_entries(shell_path);
    let all = merged_entries(shell_path, current);
    extras_behind(list, path_entries(current));
    assert forall|i: int| 0 <= i < list.len() implies list[i] == all[i] by {
        assert(all.take(list.len() as int)[i] == all[i]);
    }
}

/// No entry of a search path is empty.
pub proof fn entries_are_filled(path: Seq<char>, i: int)
    requires
        0 <= i < path_entries(path).len(),
    ensures
        path_entries(path)[i].len() > 0,
{
    let entries = path_entries(path);
    assert(entries.contains(entries[i]));
    crate::base::list::kept_from(pieces(path, ':'), filled_reader(), entries[i]);
}

/// The entries of a search path.
fn entries(path: &str) -> (out: Vec<String>)
    ensures
        each(out@) == path_entries(path@),
{
    let parts = split(path, ':');
    let ghost all = each(parts@);
    let mut out: Vec<String> = Vec::new();
    let mut i: usize = 0;
    assert(each(out@) =~= Seq::empty());
    proof {
        kept_bounds(all, filled_reader());
    }
    while i < parts.len()
        invariant
            i <= parts.len(),
            all == each(parts@),
            each(out@) == kept(all.take(i as int), filled_reader()),
        decreases parts.len() - i,
    {
        proof {
            kept_next(all, i as int, filled_reader());
            assert(all[i as int] == parts@[i as int]@);
        }
        if !parts[i].as_str().is_empty() {
            let ghost before = out@;
            out.push(parts[i].clone());
            assert(each(out@) =~= each(before).push(parts@[i as int]@));
        }
        i += 1;
    }
    out
}

/// Puts the login shell's entries first, then appends anything the current
/// environment has that the shell did not mention. Returns `None` where that is
/// the current path and the shell named every entry of it.
pub fn merge_paths(shell_path: &str, current: &str) -> (r: Option<String>)
    ensures
        held(r) == merged_path(shell_path@, current@),
{
    let mut merged = entries(shell_path);
    let extras = entries(current);
    let ghost first = each(merged@);
    let ghost all = each(extras@);
    let mut added_anything = false;
    let mut i: usize = 0;
    assert(all.take(0) =~= Seq::empty());
    while i < extras.len()
        invariant
            i <= extras.len(),
            all == each(extras@),
            first == path_entries(shell_path@),
            each(merged@) == with_extras(first, all.take(i as int)),
            merged@.len() >= first.len(),
            added_anything == (merged@.len() > first.len()),
        decreases extras.len() - i,
    {
        assert(all.take(i + 1).drop_last() =~= all.take(i as int));
        assert(all.take(i + 1).last() == extras@[i as int]@);
        if !among(&merged, extras[i].as_str()) {
            let ghost before = merged@;
            merged.push(extras[i].clone());
            assert(each(merged@) =~= each(before).push(extras@[i as int]@));
            added_anything = true;
        }
        i += 1;
    }
    assert(all.take(i as int) =~= all);
    assert(each(merged@).len() == merged@.len());
    let result = join(&merged, ":");
    if same(result.as_str(), current) && !added_anything {
        return None;
    }
    Some(result)
}

/// The merged search path, where it is another than the current one.
pub open spec fn changed(shell_path: Seq<char>, current: Seq<char>) -> Option<Seq<char>> {
    let path = joined(merged_entries(shell_path, current), ":"@);
    if path == current {
        None
    } else {
        Some(path)
    }
}

/// The search path to take on, where it is another than the current one.
pub fn changed_path(shell_path: &str, current: &str) -> (r: Option<String>)
    ensures
        held(r) == changed(shell_path@, current@),
{
    match merge_paths(shell_path, current) {
        Some(merged) => if same(merged.as_str(), current) {
            None
        } else {
            Some(merged)
        },
        None => None,
    }
}

/// The answer is what the shell printed between the two markers, whatever stands
/// around them. A shell that printed no marker gave none.
pub proof fn the_answer_stands_between_the_markers(
    noise: Seq<char>,
    path: Seq<char>,
    rest: Seq<char>,
)
    requires
        forall|i: int|
            0 <= i < noise.len() ==> !#[trigger] stands_at(
                "__beacon_path_7f3a__"@,
                noise + "__beacon_path_7f3a__"@ + (path + "__beacon_path_7f3a__"@ + rest),
                i,
            ),
        forall|i: int|
            0 <= i < path.len() ==> !#[trigger] stands_at(
                "__beacon_path_7f3a__"@,
                path + "__beacon_path_7f3a__"@ + rest,
                i,
            ),
    ensures
        answer(noise + "__beacon_path_7f3a__"@ + (path + "__beacon_path_7f3a__"@ + rest)) == (
        if trimmed(path).len() > 0 {
            Some(trimmed(path))
        } else {
            None
        }),
        !occurs("__beacon_path_7f3a__"@, noise) ==> answer(noise) is None,
{
    a_mark_parts_a_text(noise, "__beacon_path_7f3a__"@, path + "__beacon_path_7f3a__"@ + rest);
    a_mark_parts_a_text(path, "__beacon_path_7f3a__"@, rest);
    a_cut_is_at_the_first_mark(noise, "__beacon_path_7f3a__"@);
    if let Some((x, y)) = cut(noise, "__beacon_path_7f3a__"@) {
        let k = x.len() as int;
        assert(noise.subrange(k, k + "__beacon_path_7f3a__"@.len()) =~= "__beacon_path_7f3a__"@);
        assert(stands_at("__beacon_path_7f3a__"@, noise, k));
    }
}

/// A shell is asked interactively first, and then as a login shell alone; where
/// none is known nothing is asked.
pub proof fn a_shell_is_asked_twice(shell: Seq<char>)
    ensures
        attempts_of(None).len() == 0,
        shell.len() == 0 ==> attempts_of(Some(shell)).len() == 0,
        shell.len() > 0 ==> attempts_of(Some(shell)).len() == 2 && attempts_of(Some(shell))[0]
            == seq!["-i"@, "-l"@, "-c"@] && attempts_of(Some(shell))[1] == seq!["-l"@, "-c"@],
{
}

/// The entries of a search path are what colons part, without the empty ones.
pub proof fn colons_part_a_path(front: Seq<char>, entry: Seq<char>)
    requires
        !entry.contains(':'),
    ensures
        path_entries(entry) == (if entry.len() > 0 {
            seq![entry]
        } else {
            Seq::empty()
        }),
        path_entries(front.push(':') + entry) == (if entry.len() > 0 {
            path_entries(front).push(entry)
        } else {
            path_entries(front)
        }),
{
    the_last_piece_follows_the_last_separator(front, ':', entry);
    assert(seq![entry].drop_last() =~= Seq::empty());
    let all = pieces(front, ':').push(entry);
    assert(all.drop_last() =~= pieces(front, ':'));
    let pick = filled_reader();
    assert(kept(seq![entry].drop_last(), pick) =~= Seq::empty());
    assert(seq![entry].last() == entry);
    assert(Seq::<Seq<char>>::empty().push(entry) =~= seq![entry]);
}

/// The path that comes of merging is the entries with colons between them. None
/// comes of it where that is the path there is and the shell had every entry.
pub proof fn a_merged_path_is_its_entries(shell_path: Seq<char>, current: Seq<char>)
    ensures
        ({
            let path = joined(merged_entries(shell_path, current), ":"@);
            let known = forall|i: int|
                0 <= i < path_entries(current).len() ==> path_entries(shell_path).contains(
                    #[trigger] path_entries(current)[i],
                );
            &&& path == current && known ==> merged_path(shell_path, current) is None
            &&& !(path == current && known) ==> merged_path(shell_path, current) == Some(path)
            &&& path == current ==> changed(shell_path, current) is None
            &&& path != current ==> changed(shell_path, current) == Some(path)
        }),
{
    let list = path_entries(shell_path);
    let extras = path_entries(current);
    let all = merged_entries(shell_path, current);
    extras_behind(list, extras);
    let known = forall|i: int| 0 <= i < extras.len() ==> list.contains(#[trigger] extras[i]);
    if known && all.len() > list.len() {
        let last = all[list.len() as int];
        assert(extras.contains(last));
        let i = choose|i: int| 0 <= i < extras.len() && extras[i] == last;
        assert(list.contains(extras[i]));
        let k = choose|k: int| 0 <= k < list.len() && list[k] == last;
        assert(all.take(list.len() as int)[k] == all[k]);
    }
    if !known && all.len() == list.len() {
        assert(all.take(list.len() as int) =~= all);
    }
}

} // verus!
