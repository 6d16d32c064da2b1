//! Fuzzy matching.
use vstd::prelude::*;

use nucleo_matcher::pattern::{CaseMatching, Normalization, Pattern};
use nucleo_matcher::{Config, Utf32Str};

use crate::base::sort::{
    ahead, arranged, by_position, positions_weak, sort, sorted_list, sorted_list_sorts,
    sorting_arranges, sorting_exists, weak_order, Ranking,
};
use crate::base::text::{
    byte_length, bytes, chars, each, less, precedes, precedes_irreflexive, precedes_total,
    precedes_transitive,
};

verus! {

/// `nucleo_matcher::Matcher`: scratch space for matching, only carried through.
#[verifier::external_type_specification]
#[verifier::external_body]
pub struct ExMatcher(nucleo_matcher::Matcher);

/// A matcher, with the configuration that everything here is searched with. It
/// owns scratch buffers, so one is kept and reused.
pub struct Searcher {
    inner: nucleo_matcher::Matcher,
}

/// How well a pattern matches a text; nothing where it does not.
pub uninterp spec fn fuzzy_score(pattern: Seq<char>, text: Seq<char>) -> Option<u32>;

/// `nucleo_matcher::Matcher::new` with the default configuration.
#[verifier::external_body]
fn new_matcher() -> (r: nucleo_matcher::Matcher) {
    nucleo_matcher::Matcher::new(Config::DEFAULT)
}

/// How long the words of a pattern are once they are read.
pub struct Lengths {
    /// The word that the pattern ends in.
    pub word: nat,
    pub longest: nat,
    /// All words together.
    pub total: nat,
    /// Whether the next character is behind a backslash.
    pub escaped: bool,
}

/// The lengths after one more character: a space ends a word unless a backslash
/// is in front of it, and a backslash may be read as two characters.
pub open spec fn lengthened(l: Lengths, c: char) -> Lengths {
    let more: nat = if c == ' ' {
        0
    } else if c == '\\' {
        2
    } else {
        1
    };
    let word: nat = if c == ' ' && !l.escaped {
        0
    } else {
        l.word + more
    };
    Lengths {
        word,
        longest: if word > l.longest {
            word
        } else {
            l.longest
        },
        total: l.total + more,
        escaped: c == '\\',
    }
}

/// How long the words of a pattern are.
pub open spec fn lengths(pattern: Seq<char>) -> Lengths
    decreases pattern.len(),
{
    if pattern.len() == 0 {
        Lengths { word: 0, longest: 0, total: 0, escaped: false }
    } else {
        lengthened(lengths(pattern.drop_last()), pattern.last())
    }
}

/// How long a word of a pattern may be.
pub const MAX_WORD: usize = 2048;

/// How long the words of a pattern may be together.
pub const MAX_PATTERN: usize = 100_000_000;

/// Whether a pattern can be matched against a text: the matcher takes texts of
/// up to 2^32 - 1 characters, adds up the score of a word in 16 bits and those
/// of all words in 32.
pub open spec fn matchable(pattern: Seq<char>, text: Seq<char>) -> bool {
    &&& byte_length(text) <= u32::MAX
    &&& lengths(pattern).longest <= MAX_WORD
    &&& lengths(pattern).total <= MAX_PATTERN
}

/// `nucleo_matcher`'s `Pattern::parse` and `Pattern::score`, with smart case
/// and smart normalization, under a name. The score is that of the pattern and
/// the text alone: what a matcher was used for before does not count. It panics
/// on a text of 2^32 characters or more. The first character of a word scores at
/// most 36 and each one after it at most 26, summed without a test, so the words
/// are bounded: one of 2048 characters scores at most 53258, and words that come
/// to 100 million characters together score less than 2^32.
#[verifier::external_body]
fn pattern_score(pattern: &str, text: &str, matcher: &mut nucleo_matcher::Matcher) -> (r: Option<u32>)
    requires
        matchable(pattern@, text@),
    ensures
        r == fuzzy_score(pattern@, text@),
{
    let parsed = Pattern::parse(pattern, CaseMatching::Smart, Normalization::Smart);
    parsed.score(Utf32Str::new(text, &mut Vec::new()), matcher)
}

/// How well a pattern matches a text; one that cannot be matched does not.
pub open spec fn score_of(pattern: Seq<char>, text: Seq<char>) -> Option<u32> {
    if matchable(pattern, text) {
        fuzzy_score(pattern, text)
    } else {
        None
    }
}

/// Whether the words of a pattern are short enough.
fn fits(pattern: &str) -> (r: bool)
    ensures
        r == (lengths(pattern@).longest <= MAX_WORD && lengths(pattern@).total <= MAX_PATTERN),
{
    let cs = chars(pattern);
    let mut word: usize = 0;
    let mut total: usize = 0;
    let mut escaped = false;
    let mut i: usize = 0;
    assert(cs@.take(0) =~= Seq::empty());
    while i < cs.len()
        invariant
            i <= cs.len(),
            cs@ == pattern@,
            word <= MAX_WORD,
            total <= MAX_PATTERN,
            ({
                let l = lengths(cs@.take(i as int));
                l.word == word && l.total == total && l.escaped == escaped && l.longest <= MAX_WORD
            }),
        decreases cs.len() - i,
    {
        assert(cs@.take(i + 1).drop_last() =~= cs@.take(i as int));
        assert(cs@.take(i + 1).last() == cs@[i as int]);
        let c = cs[i];
        let more: usize = if c == ' ' {
            0
        } else if c == '\\' {
            2
        } else {
            1
        };
        word = if c == ' ' && !escaped {
            0
        } else {
            word + more
        };
        total = total + more;
        escaped = c == '\\';
        i += 1;
        if word > MAX_WORD || total > MAX_PATTERN {
            proof {
                lengths_grow(cs@, i as int);
            }
            return false;
        }
    }
    assert(cs@.take(i as int) =~= pattern@);
    true
}

/// The words of the front of a pattern are no longer than those of the whole.
proof fn lengths_grow(pattern: Seq<char>, n: int)
    requires
        0 <= n <= pattern.len(),
    ensures
        lengths(pattern.take(n)).longest <= lengths(pattern).longest,
        lengths(pattern.take(n)).total <= lengths(pattern).total,
    decreases pattern.len(),
{
    if n == pattern.len() {
        assert(pattern.take(n) =~= pattern);
    } else {
        assert(pattern.drop_last().take(n) =~= pattern.take(n));
        lengths_grow(pattern.drop_last(), n);
    }
}

impl Searcher {
    /// A matcher. One per view, reused across keystrokes.
    pub fn new() -> (r: Searcher) {
        Searcher { inner: new_matcher() }
    }

    /// How well a pattern matches a text; nothing where one of them is longer
    /// than the matcher takes.
    pub fn score(&mut self, pattern: &str, text: &str) -> (r: Option<u32>)
        ensures
            r == score_of(pattern@, text@),
    {
        if bytes(text) <= u32::MAX as usize && fits(pattern) {
            pattern_score(pattern, text, &mut self.inner)
        } else {
            None
        }
    }
}

/// A candidate that matches: its score, its label and its place.
pub struct Hit {
    pub score: u32,
    pub label: Seq<char>,
    pub place: int,
}

/// What matches, in the order of the candidates.
pub open spec fn hits(labels: Seq<Seq<char>>, scores: Seq<Option<u32>>) -> Seq<Hit>
    decreases labels.len(),
{
    if labels.len() == 0 {
        Seq::empty()
    } else {
        let before = hits(labels.drop_last(), scores);
        let at = labels.len() - 1;
        match scores[at] {
            Some(score) => before.push(Hit { score, label: labels[at], place: at as int }),
            None => before,
        }
    }
}

/// Better matches first; equal ones by label, so that they do not reshuffle
/// between keystrokes.
pub open spec fn better() -> spec_fn(Hit, Hit) -> bool {
    |a: Hit, b: Hit| a.score > b.score || (a.score == b.score && precedes(a.label, b.label))
}

/// The places of the candidates that match, best first; what score and label
/// leave open stays in the order of the candidates.
pub open spec fn best_places(labels: Seq<Seq<char>>, scores: Seq<Option<u32>>) -> Seq<int> {
    sorted_list(hits(labels, scores), better()).map_values(|h: Hit| h.place)
}

/// The order of matches is one that a sort takes.
pub proof fn better_weak()
    ensures
        weak_order(better()),
{
    let before = better();
    assert forall|a: Hit| !#[trigger] before(a, a) by {
        precedes_irreflexive(a.label);
    }
    assert forall|a: Hit, b: Hit, c: Hit| #[trigger] before(a, b) && #[trigger] before(
        b,
        c,
    ) implies before(a, c) by {
        if a.score == b.score && b.score == c.score {
            precedes_transitive(a.label, b.label, c.label);
        }
    }
    assert forall|a: Hit, b: Hit, c: Hit| #[trigger] before(a, c) implies before(a, b)
        || #[trigger] before(b, c) by {
        if a.score == b.score && b.score == c.score {
            precedes_total(a.label, b.label);
            if !precedes(a.label, b.label) && a.label != b.label {
                precedes_transitive(b.label, a.label, c.label);
            }
        }
    }
}

/// The hits are the candidates that match, in their order.
proof fn hits_are_matches(labels: Seq<Seq<char>>, scores: Seq<Option<u32>>)
    requires
        labels.len() <= scores.len(),
    ensures
        hits(labels, scores).len() <= labels.len(),
        forall|k: int|
            0 <= k < hits(labels, scores).len() ==> {
                let h = #[trigger] hits(labels, scores)[k];
                0 <= h.place < labels.len() && scores[h.place] == Some(h.score)
            },
        forall|i: int, j: int|
            0 <= i < j < hits(labels, scores).len() ==> (#[trigger] hits(labels, scores)[i]).place
                < (#[trigger] hits(labels, scores)[j]).place,
        forall|p: int|
            0 <= p < labels.len() && (#[trigger] scores[p]) is Some ==> exists|k: int|
                0 <= k < hits(labels, scores).len() && (#[trigger] hits(labels, scores)[k]).place
                    == p,
    decreases labels.len(),
{
    if labels.len() > 0 {
        let front = labels.drop_last();
        hits_are_matches(front, scores);
        let before = hits(front, scores);
        let all = hits(labels, scores);
        let at = labels.len() - 1;
        assert forall|p: int| 0 <= p < labels.len() && (#[trigger] scores[p]) is Some implies exists|
            k: int,
        |
            0 <= k < all.len() && (#[trigger] all[k]).place == p by {
            if p < at {
                let k = choose|k: int| 0 <= k < before.len() && (#[trigger] before[k]).place == p;
                assert(all[k] == before[k]);
            } else {
                assert(all[all.len() - 1].place == p);
            }
        }
    }
}

/// Ranking lists every candidate that matches, each once, and no other, and none
/// in front of one with a better score.
pub proof fn every_match_is_ranked_once(labels: Seq<Seq<char>>, scores: Seq<Option<u32>>)
    requires
        labels.len() == scores.len(),
        labels.len() <= usize::MAX,
    ensures
        forall|p: int| #[trigger]
            best_places(labels, scores).contains(p) <==> 0 <= p < scores.len() && scores[p] is Some,
        best_places(labels, scores).no_duplicates(),
        forall|a: int, b: int|
            0 <= a < b < best_places(labels, scores).len()
                ==> scores[#[trigger] best_places(labels, scores)[a]]->0
                >= scores[#[trigger] best_places(labels, scores)[b]]->0,
{
    broadcast use vstd::seq_lib::group_to_multiset_ensures;
    broadcast use vstd::multiset::group_multiset_axioms;

    let found = hits(labels, scores);
    let sorted = sorted_list(found, better());
    let places = best_places(labels, scores);
    hits_are_matches(labels, scores);
    better_weak();
    sorted_list_sorts(found, better());
    assert forall|h: Hit| #[trigger] sorted.contains(h) <==> found.contains(h) by {
        assert(sorted.to_multiset().count(h) == found.to_multiset().count(h));
    }
    assert(found.no_duplicates());
    found.lemma_multiset_has_no_duplicates();
    sorted.lemma_multiset_has_no_duplicates_conv();
    assert forall|k: int| 0 <= k < sorted.len() implies {
        let h = #[trigger] sorted[k];
        0 <= h.place < labels.len() && scores[h.place] == Some(h.score) && found.contains(h)
    } by {
        assert(sorted.contains(sorted[k]));
    }
    assert forall|p: int| #[trigger] places.contains(p) <==> 0 <= p < scores.len()
        && scores[p] is Some by {
        if places.contains(p) {
            let k = choose|k: int| 0 <= k < places.len() && places[k] == p;
            assert(places[k] == sorted[k].place);
        }
        if 0 <= p < scores.len() && scores[p] is Some {
            let k = choose|k: int| 0 <= k < found.len() && (#[trigger] found[k]).place == p;
            assert(found.contains(found[k]));
            assert(sorted.contains(found[k]));
            let m = choose|m: int| 0 <= m < sorted.len() && sorted[m] == found[k];
            assert(places[m] == p);
        }
    }
    assert forall|a: int, b: int|
        0 <= a < places.len() && 0 <= b < places.len() && a != b implies places[a] != places[b] by {
        if places[a] == places[b] {
            let i = choose|i: int| 0 <= i < found.len() && found[i] == sorted[a];
            let j = choose|j: int| 0 <= j < found.len() && found[j] == sorted[b];
            assert(found[i].place == found[j].place);
            assert(i == j);
            assert(sorted[a] == sorted[b]);
        }
    }
    assert forall|a: int, b: int| 0 <= a < b < places.len() implies scores[#[trigger] places[a]]->0
        >= scores[#[trigger] places[b]]->0 by {
        let before = better();
        assert(!before(sorted[b], sorted[a]));
        assert(places[a] == sorted[a].place && places[b] == sorted[b].place);
    }
}

/// Of two candidates the one ranked first has the better score, or the label in
/// front where their scores are the same, or its place where the labels are too.
pub proof fn places_are_ordered(labels: Seq<Seq<char>>, scores: Seq<Option<u32>>)
    requires
        labels.len() == scores.len(),
        labels.len() <= usize::MAX,
    ensures
        forall|a: int, b: int|
            0 <= a < b < best_places(labels, scores).len() ==> {
                let p = #[trigger] best_places(labels, scores)[a];
                let q = #[trigger] best_places(labels, scores)[b];
                ||| scores[p]->0 > scores[q]->0
                ||| scores[p]->0 == scores[q]->0 && (precedes(labels[p], labels[q]) || (labels[p]
                    == labels[q] && p < q))
            },
{
    let found = hits(labels, scores);
    hits_are_matches(labels, scores);
    hits_carry_labels(labels, scores);
    better_weak();
    positions_weak(found, better());
    let order = sorting_exists(found.len() as int, by_position(found, better()));
    sorting_arranges(found, order, better());
    let places = best_places(labels, scores);
    assert forall|a: int, b: int| 0 <= a < b < places.len() implies {
        let p = #[trigger] places[a];
        let q = #[trigger] places[b];
        ||| scores[p]->0 > scores[q]->0
        ||| scores[p]->0 == scores[q]->0 && (precedes(labels[p], labels[q]) || (labels[p]
            == labels[q] && p < q))
    } by {
        let at = by_position(found, better());
        let x = found[order[a] as int];
        let y = found[order[b] as int];
        assert(ahead(at, order[a] as int, order[b] as int));
        assert(places[a] == x.place && places[b] == y.place);
        precedes_total(x.label, y.label);
    }
}

/// A hit carries the label of its place.
proof fn hits_carry_labels(labels: Seq<Seq<char>>, scores: Seq<Option<u32>>)
    requires
        labels.len() <= scores.len(),
    ensures
        forall|k: int|
            0 <= k < hits(labels, scores).len() ==> {
                let h = #[trigger] hits(labels, scores)[k];
                h.label == labels[h.place]
            },
    decreases labels.len(),
{
    if labels.len() > 0 {
        hits_carry_labels(labels.drop_last(), scores);
        hits_are_matches(labels.drop_last(), scores);
        let before = hits(labels.drop_last(), scores);
        let all = hits(labels, scores);
        assert forall|k: int| 0 <= k < all.len() implies (#[trigger] all[k]).label
            == labels[all[k].place] by {
            if k < before.len() {
                assert(all[k] == before[k]);
            }
        }
    }
}

/// The matches among some candidates.
struct Found<'a> {
    labels: &'a Vec<String>,
    scores: &'a Vec<u32>,
    places: &'a Vec<usize>,
}

impl<'a> Found<'a> {
    spec fn list(&self) -> Seq<Hit> {
        Seq::new(
            self.places@.len(),
            |i: int|
                Hit {
                    score: self.scores@[i],
                    label: each(self.labels@)[self.places@[i] as int],
                    place: self.places@[i] as int,
                },
        )
    }
}

impl<'a> Ranking for Found<'a> {
    closed spec fn count(&self) -> nat {
        if self.scores@.len() == self.places@.len() && (forall|i: int|
            0 <= i < self.places@.len() ==> (#[trigger] self.places@[i]) < self.labels@.len()) {
            self.places@.len()
        } else {
            0
        }
    }

    closed spec fn order(&self) -> spec_fn(int, int) -> bool {
        by_position(self.list(), better())
    }

    fn precedes(&self, i: usize, j: usize) -> (r: bool) {
        let a: u32 = self.scores[i];
        let b: u32 = self.scores[j];
        a > b || (a == b && less(
            self.labels[self.places[i]].as_str(),
            self.labels[self.places[j]].as_str(),
        ))
    }
}

/// Puts the candidates that match in order, best first.
pub fn rank_scores(labels: &Vec<String>, scores: &Vec<Option<u32>>) -> (out: Vec<usize>)
    requires
        labels@.len() == scores@.len(),
    ensures
        out@.len() == best_places(each(labels@), scores@).len(),
        forall|i: int|
            0 <= i < out@.len() ==> (#[trigger] out@[i]) < labels@.len() && out@[i] == best_places(
                each(labels@),
                scores@,
            )[i],
{
    let ghost all = each(labels@);
    let mut found_scores: Vec<u32> = Vec::new();
    let mut places: Vec<usize> = Vec::new();
    let mut i: usize = 0;
    let ghost mut list: Seq<Hit> = Seq::empty();
    assert(all.take(0) =~= Seq::empty());
    while i < labels.len()
        invariant
            i <= labels@.len(),
            labels@.len() == scores@.len(),
            all == each(labels@),
            found_scores@.len() == places@.len(),
            list.len() == places@.len(),
            list == hits(all.take(i as int), scores@),
            forall|k: int|
                0 <= k < places@.len() ==> (#[trigger] places@[k]) < i && list[k] == (Hit {
                    score: found_scores@[k],
                    label: all[places@[k] as int],
                    place: places@[k] as int,
                }),
        decreases labels.len() - i,
    {
        proof {
            assert(all.take(i + 1).drop_last() =~= all.take(i as int));
            assert(all.take(i + 1)[i as int] == all[i as int]);
        }
        if let Some(score) = scores[i] {
            found_scores.push(score);
            places.push(i);
            proof {
                list = list.push(Hit { score, label: all[i as int], place: i as int });
            }
        }
        i += 1;
    }
    assert(all.take(i as int) =~= all);
    let found = Found { labels, scores: &found_scores, places: &places };
    proof {
        assert(found.list() =~= list);
        better_weak();
        positions_weak(list, better());
        assert(found.count() == places@.len());
    }
    let order = sort(places.len(), &found);
    let mut out: Vec<usize> = Vec::new();
    let mut k: usize = 0;
    while k < order.len()
        invariant
            k <= order@.len(),
            out@.len() == k,
            order@.len() == places@.len(),
            forall|m: int| 0 <= m < order@.len() ==> (#[trigger] order@[m]) < places@.len(),
            forall|m: int| 0 <= m < k ==> (#[trigger] out@[m]) == places@[order@[m] as int],
        decreases order.len() - k,
    {
        out.push(places[order[k]]);
        k += 1;
    }
    proof {
        sorting_arranges(list, order@, better());
        assert(best_places(all, scores@) =~= arranged(list, order@).map_values(|h: Hit| h.place));
    }
    out
}

/// The scores of some labels against a pattern.
pub open spec fn scores_of(pattern: Seq<char>, labels: Seq<Seq<char>>) -> Seq<Option<u32>> {
    labels.map_values(|label: Seq<char>| score_of(pattern, label))
}

/// Scores labels against a pattern.
pub fn score_all(pattern: &str, labels: &Vec<String>, matcher: &mut Searcher) -> (out: Vec<
    Option<u32>,
>)
    ensures
        out@ == scores_of(pattern@, each(labels@)),
{
    let mut out: Vec<Option<u32>> = Vec::new();
    let mut i: usize = 0;
    while i < labels.len()
        invariant
            i <= labels.len(),
            out@.len() == i,
            forall|k: int| 0 <= k < i ==> (#[trigger] out@[k]) == score_of(pattern@, labels@[k]@),
        decreases labels.len() - i,
    {
        out.push(matcher.score(pattern, labels[i].as_str()));
        i += 1;
    }
    assert(out@ =~= scores_of(pattern@, each(labels@)));
    out
}

} // verus!
