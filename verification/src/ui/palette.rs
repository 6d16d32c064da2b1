//! The command palette.
//!
//! What it lists is decided by a prefix:
//!
//! ```text
//! (nothing)   objects of the kind currently on screen
//! @           resource kinds, including CRDs
//! #           namespaces
//! ctx         clusters
//! >           commands
//! ```
//!
//! Matching inside a section is fuzzy, so `@dep` finds Deployment and
//! `#kube-sys` finds kube-system.
use std::sync::Arc;

use vstd::prelude::*;

use crate::base::decimal::{decimal, natural};
use crate::base::text::{
    chars, each, held, lent, same, spelled, strip_end, strip_prefix, stripped_end, three, two,
    Class,
};
use crate::k8s::discovery::{named, Kind, KindView};
use crate::k8s::ops::{description, Operation};
use crate::k8s::store::{ref_text, share, ObjectRef, RefView};
use crate::k8s::ClusterId;
use crate::ui::actions::{choice_views, ChoiceView};
use crate::ui::fuzzy::{best_places, rank_scores, score_all, scores_of, Searcher};

verus! {

/// How many matches the palette will show. Beyond this nobody is reading the
/// list, they are typing more.
pub const LIMIT: usize = 50;

/// What the palette is listing.
#[derive(Debug, Clone, Copy, PartialEq, Eq, Structural)]
pub enum Section {
    Objects,
    Kinds,
    Namespaces,
    Clusters,
    Commands,
}

/// The section that a query selects and the text to match. `ctx` alone, still
/// being typed, already shows the clusters.
pub open spec fn parsed_query(query: Seq<char>) -> (Section, Seq<char>) {
    if "ctx "@.is_prefix_of(query) {
        (Section::Clusters, query.skip(4))
    } else if query == "ctx"@ {
        (Section::Clusters, Seq::empty())
    } else if query.len() > 0 && query[0] == '@' {
        (Section::Kinds, query.drop_first())
    } else if query.len() > 0 && query[0] == '#' {
        (Section::Namespaces, query.drop_first())
    } else if query.len() > 0 && query[0] == '>' {
        (Section::Commands, query.drop_first())
    } else {
        (Section::Objects, query)
    }
}

/// A prefix chooses the section, and what follows it is what is matched.
pub proof fn a_prefix_chooses_its_section(text: Seq<char>)
    ensures
        parsed_query("@"@ + text) == (Section::Kinds, text),
        parsed_query("#"@ + text) == (Section::Namespaces, text),
        parsed_query(">"@ + text) == (Section::Commands, text),
        parsed_query("ctx "@ + text) == (Section::Clusters, text),
{
    reveal_strlit("@");
    reveal_strlit("#");
    reveal_strlit(">");
    reveal_strlit("ctx ");
    reveal_strlit("ctx");
    let kinds = "@"@ + text;
    let namespaces = "#"@ + text;
    let commands = ">"@ + text;
    assert(kinds[0] == '@' && namespaces[0] == '#' && commands[0] == '>');
    assert("ctx "@[0] == 'c' && "ctx"@[0] == 'c');
    assert(kinds.drop_first() =~= text);
    assert(namespaces.drop_first() =~= text);
    assert(commands.drop_first() =~= text);
    assert(("ctx "@ + text).skip(4) =~= text);
}

impl Section {
    /// Splits a query into the section it selects and the text to match.
    ///
    /// `ctx` is a word rather than a symbol because it is the rarest of the five
    /// and the symbols are better spent on the common ones.
    pub fn parse(query: &str) -> (r: (Section, String))
        ensures
            (r.0, r.1@) == parsed_query(query@),
    {
        proof {
            reveal_strlit("ctx ");
        }
        if let Some(rest) = strip_prefix(query, "ctx ") {
            return (Section::Clusters, rest);
        }
        if same(query, "ctx") {
            return (Section::Clusters, String::new());
        }
        let cs = chars(query);
        if cs.len() > 0 {
            let rest = spelled(&cs, 1, cs.len());
            assert(rest@ =~= query@.drop_first());
            if cs[0] == '@' {
                return (Section::Kinds, rest);
            }
            if cs[0] == '#' {
                return (Section::Namespaces, rest);
            }
            if cs[0] == '>' {
                return (Section::Commands, rest);
            }
        }
        (Section::Objects, query.to_owned())
    }

    pub fn placeholder(&self, current_kind: Option<&str>) -> (r: String)
        ensures
            r@ == (match self {
                Section::Objects => match current_kind {
                    Some(kind) => "Search "@ + kind@ + "s…   @ kind   # namespace   > command"@,
                    None => "@ kind   # namespace   ctx cluster   > command"@,
                },
                Section::Kinds => "Jump to a resource kind"@,
                Section::Namespaces => "Scope to a namespace"@,
                Section::Clusters => "Switch cluster"@,
                Section::Commands => "Run a command"@,
            }),
    {
        match self {
            Section::Objects => match current_kind {
                Some(kind) => three("Search ", kind, "s…   @ kind   # namespace   > command"),
                None => "@ kind   # namespace   ctx cluster   > command".to_owned(),
            },
            Section::Kinds => "Jump to a resource kind".to_owned(),
            Section::Namespaces => "Scope to a namespace".to_owned(),
            Section::Clusters => "Switch cluster".to_owned(),
            Section::Commands => "Run a command".to_owned(),
        }
    }

    pub fn heading(&self) -> (r: &'static str)
        ensures
            r@ == (match self {
                Section::Objects => "Objects"@,
                Section::Kinds => "Kinds"@,
                Section::Namespaces => "Namespaces"@,
                Section::Clusters => "Clusters"@,
                Section::Commands => "Commands"@,
            }),
    {
        match self {
            Section::Objects => "Objects",
            Section::Kinds => "Kinds",
            Section::Namespaces => "Namespaces",
            Section::Clusters => "Clusters",
            Section::Commands => "Commands",
        }
    }
}

/// Something the palette can do that is not navigation.
#[derive(Debug, Clone, Copy, PartialEq, Eq, Structural)]
pub enum Action {
    ToggleTheme,
    ToggleDetails,
    ClearFilter,
    CopyName,
    NewTab,
    CloseTab,
}

/// Every action, in the order it is listed.
pub open spec fn all_actions() -> Seq<Action> {
    seq![
        Action::ToggleTheme,
        Action::ToggleDetails,
        Action::ClearFilter,
        Action::CopyName,
        Action::NewTab,
        Action::CloseTab,
    ]
}

/// What an action is called.
pub open spec fn action_label(action: Action) -> Seq<char> {
    match action {
        Action::ToggleTheme => "Toggle light and dark"@,
        Action::ToggleDetails => "Show or hide the details panel"@,
        Action::ClearFilter => "Clear the search filter"@,
        Action::CopyName => "Copy the selected object's name"@,
        Action::NewTab => "Another tab on the cluster in front"@,
        Action::CloseTab => "Close this tab"@,
    }
}

impl Action {
    pub const ALL: [Action; 6] = [
        Action::ToggleTheme,
        Action::ToggleDetails,
        Action::ClearFilter,
        Action::CopyName,
        Action::NewTab,
        Action::CloseTab,
    ];

    pub fn label(&self) -> (r: &'static str)
        ensures
            r@ == action_label(*self),
    {
        match self {
            Action::ToggleTheme => "Toggle light and dark",
            Action::ToggleDetails => "Show or hide the details panel",
            Action::ClearFilter => "Clear the search filter",
            Action::CopyName => "Copy the selected object's name",
            Action::NewTab => "Another tab on the cluster in front",
            Action::CloseTab => "Close this tab",
        }
    }
}

/// What the user picked.
#[derive(Debug, PartialEq, Eq)]
pub enum Choice {
    Kind(Arc<Kind>),
    /// `None` is every namespace.
    Namespace(Option<String>),
    Cluster(ClusterId),
    Object(ObjectRef),
    Action(Action),
    /// Something that changes the cluster, aimed at the selected object.
    Operation(Operation),
    /// Forward a port the selected pod declares.
    Forward { remote_port: u16 },
}

/// What the user picked, as a mathematical object.
pub enum PickView {
    Kind(KindView),
    Namespace(Option<Seq<char>>),
    Cluster(Seq<char>),
    Object(RefView),
    Action(Action),
    Operation(Operation),
    Forward { remote_port: u16 },
}

impl View for Choice {
    type V = PickView;

    open spec fn view(&self) -> PickView {
        match self {
            Choice::Kind(kind) => PickView::Kind(kind@),
            Choice::Namespace(namespace) => PickView::Namespace(held(*namespace)),
            Choice::Cluster(cluster) => PickView::Cluster(cluster@),
            Choice::Object(object) => PickView::Object(object@),
            Choice::Action(action) => PickView::Action(*action),
            Choice::Operation(operation) => PickView::Operation(*operation),
            Choice::Forward { remote_port } => PickView::Forward { remote_port: *remote_port },
        }
    }
}

impl Choice {
    /// A copy.
    pub fn copy(&self) -> (r: Choice)
        ensures
            r@ == self@,
    {
        match self {
            Choice::Kind(kind) => Choice::Kind(share(kind)),
            Choice::Namespace(namespace) => Choice::Namespace(namespace.clone()),
            Choice::Cluster(cluster) => Choice::Cluster(cluster.copy()),
            Choice::Object(object) => Choice::Object(object.copy()),
            Choice::Action(action) => Choice::Action(*action),
            Choice::Operation(operation) => Choice::Operation(*operation),
            Choice::Forward { remote_port } => Choice::Forward { remote_port: *remote_port },
        }
    }
}

/// What becomes of the palette.
#[derive(Debug, PartialEq, Eq)]
pub enum PaletteEvent {
    Chose(Choice),
    Dismissed,
}

/// What becomes of the palette, as a mathematical object.
pub enum OutcomeView {
    Chose(PickView),
    Dismissed,
}

impl View for PaletteEvent {
    type V = OutcomeView;

    open spec fn view(&self) -> OutcomeView {
        match self {
            PaletteEvent::Chose(choice) => OutcomeView::Chose(choice@),
            PaletteEvent::Dismissed => OutcomeView::Dismissed,
        }
    }
}

/// What a list of picks stands for.
pub open spec fn pick_views(list: Seq<Choice>) -> Seq<PickView> {
    list.map_values(|c: Choice| c@)
}

/// What labelled picks stand for.
pub open spec fn candidate_views(list: Seq<(String, Choice)>) -> Seq<(Seq<char>, PickView)> {
    list.map_values(|c: (String, Choice)| (c.0@, c.1@))
}

/// Everything the palette can offer, snapshotted when it opens: a list that
/// changed underneath the highlighted row would confirm the wrong thing.
pub struct Sources {
    pub kinds: Vec<Arc<Kind>>,
    pub namespaces: Vec<String>,
    pub clusters: Vec<ClusterId>,
    pub objects: Vec<ObjectRef>,
    /// What can be done to the selected object, already marked with whether this
    /// user may do it. Empty when nothing is selected.
    pub operations: Vec<crate::ui::actions::Choice>,
    /// The ports the selected pod declares.
    pub ports: Vec<u16>,
    /// The kind on screen, for the placeholder.
    pub current_kind: Option<String>,
}

/// Everything the palette can offer, as a mathematical object.
pub struct SourcesView {
    pub kinds: Seq<KindView>,
    pub namespaces: Seq<Seq<char>>,
    pub clusters: Seq<Seq<char>>,
    pub objects: Seq<RefView>,
    pub operations: Seq<ChoiceView>,
    pub ports: Seq<u16>,
    pub current_kind: Option<Seq<char>>,
}

impl View for Sources {
    type V = SourcesView;

    open spec fn view(&self) -> SourcesView {
        SourcesView {
            kinds: self.kinds@.map_values(|k: Arc<Kind>| k@),
            namespaces: each(self.namespaces@),
            clusters: self.clusters@.map_values(|c: ClusterId| c@),
            objects: self.objects@.map_values(|o: ObjectRef| o@),
            operations: choice_views(self.operations@),
            ports: self.ports@,
            current_kind: held(self.current_kind),
        }
    }
}

pub open spec fn forward_label(port: u16) -> Seq<char> {
    "Forward port "@ + decimal(port as nat)
}

/// What a section offers, each with its label, in the order it is listed without
/// a query.
pub open spec fn candidates_of(s: SourcesView, section: Section) -> Seq<(Seq<char>, PickView)> {
    match section {
        Section::Objects => s.objects.map_values(|o: RefView| (ref_text(o), PickView::Object(o))),
        Section::Kinds => s.kinds.map_values(|k: KindView| (named(k), PickView::Kind(k))),
        Section::Namespaces => seq![("All namespaces"@, PickView::Namespace(None))]
            + s.namespaces.map_values(|n: Seq<char>| (n, PickView::Namespace(Some(n)))),
        Section::Clusters => s.clusters.map_values(|c: Seq<char>| (c, PickView::Cluster(c))),
        Section::Commands => s.operations.map_values(
            |c: ChoiceView|
                (stripped_end(c.label, Class::Just('…')), PickView::Operation(c.operation)),
        ) + s.ports.map_values(
            |p: u16| (forward_label(p), PickView::Forward { remote_port: p }),
        ) + all_actions().map_values(|a: Action| (action_label(a), PickView::Action(a))),
    }
}

/// The labels of candidates.
pub open spec fn labels_of(candidates: Seq<(Seq<char>, PickView)>) -> Seq<Seq<char>> {
    candidates.map_values(|c: (Seq<char>, PickView)| c.0)
}

/// At most `limit` of a list.
pub open spec fn capped<T>(list: Seq<T>, limit: int) -> Seq<T> {
    if list.len() <= limit {
        list
    } else {
        list.take(limit)
    }
}

/// The candidates with the given scores, best first, at most `limit` of them.
pub open spec fn best_picks(
    candidates: Seq<(Seq<char>, PickView)>,
    scores: Seq<Option<u32>>,
    limit: int,
) -> Seq<PickView> {
    capped(
        best_places(labels_of(candidates), scores).map_values(|p: int| candidates[p].1),
        limit,
    )
}

/// What is listed for a needle. An empty one keeps the given order, which is
/// what makes `@` on its own show the kinds in the order the sidebar does.
pub open spec fn ranked(
    candidates: Seq<(Seq<char>, PickView)>,
    needle: Seq<char>,
    limit: int,
) -> Seq<PickView> {
    if needle.len() == 0 {
        capped(candidates.map_values(|c: (Seq<char>, PickView)| c.1), limit)
    } else {
        best_picks(candidates, scores_of(needle, labels_of(candidates)), limit)
    }
}

/// The list never grows beyond its limit.
pub proof fn the_list_is_capped(
    candidates: Seq<(Seq<char>, PickView)>,
    needle: Seq<char>,
    limit: int,
)
    requires
        limit >= 0,
    ensures
        ranked(candidates, needle, limit).len() <= limit,
{
}

/// Every action is reachable from the command section.
pub proof fn every_action_is_a_command(s: SourcesView, action: Action)
    ensures
        candidates_of(s, Section::Commands).contains(
            (action_label(action), PickView::Action(action)),
        ),
{
    let all = candidates_of(s, Section::Commands);
    let lead = s.operations.len() + s.ports.len();
    let k = match action {
        Action::ToggleTheme => 0int,
        Action::ToggleDetails => 1int,
        Action::ClearFilter => 2int,
        Action::CopyName => 3int,
        Action::NewTab => 4int,
        Action::CloseTab => 5int,
    };
    assert(all_actions()[k] == action);
    assert(all[lead + k] == (action_label(action), PickView::Action(action)));
}

/// The candidates with the given scores, best first, at most `limit` of them.
pub fn rank_scored(
    candidates: &Vec<(String, Choice)>,
    scores: &Vec<Option<u32>>,
    limit: usize,
) -> (out: Vec<Choice>)
    requires
        candidates@.len() == scores@.len(),
    ensures
        pick_views(out@) == best_picks(candidate_views(candidates@), scores@, limit as int),
{
    let ghost all = candidate_views(candidates@);
    let labels = candidate_labels(candidates);
    assert(each(labels@).len() == labels@.len());
    let places = rank_scores(&labels, scores);
    let mut out: Vec<Choice> = Vec::new();
    let mut i: usize = 0;
    while i < places.len() && i < limit
        invariant
            i <= places@.len(),
            i <= limit,
            out@.len() == i,
            all == candidate_views(candidates@),
            forall|k: int| 0 <= k < places@.len() ==> (#[trigger] places@[k]) < candidates@.len(),
            forall|k: int| 0 <= k < i ==> (#[trigger] out@[k])@ == all[places@[k] as int].1,
        decreases places.len() - i,
    {
        out.push(candidates[places[i]].1.copy());
        i += 1;
    }
    assert(pick_views(out@) =~= best_picks(all, scores@, limit as int));
    out
}

fn candidate_labels(candidates: &Vec<(String, Choice)>) -> (out: Vec<String>)
    ensures
        each(out@) == labels_of(candidate_views(candidates@)),
{
    let mut out: Vec<String> = Vec::new();
    let mut i: usize = 0;
    while i < candidates.len()
        invariant
            i <= candidates.len(),
            out@.len() == i,
            forall|k: int| 0 <= k < i ==> (#[trigger] out@[k])@ == candidates@[k].0@,
        decreases candidates.len() - i,
    {
        out.push(candidates[i].0.clone());
        i += 1;
    }
    assert(each(out@) =~= labels_of(candidate_views(candidates@)));
    out
}

/// Scores candidates against a needle, best first.
pub fn rank(
    candidates: &Vec<(String, Choice)>,
    needle: &str,
    matcher: &mut Searcher,
    limit: usize,
) -> (out: Vec<Choice>)
    ensures
        pick_views(out@) == ranked(candidate_views(candidates@), needle@, limit as int),
{
    let ghost all = candidate_views(candidates@);
    if needle.is_empty() {
        let mut out: Vec<Choice> = Vec::new();
        let mut i: usize = 0;
        while i < candidates.len() && i < limit
            invariant
                i <= candidates@.len(),
                i <= limit,
                out@.len() == i,
                forall|k: int| 0 <= k < i ==> (#[trigger] out@[k])@ == candidates@[k].1@,
            decreases candidates.len() - i,
        {
            out.push(candidates[i].1.copy());
            i += 1;
        }
        assert(pick_views(out@) =~= ranked(all, needle@, limit as int));
        return out;
    }
    let labels = candidate_labels(candidates);
    let scores = score_all(needle, &labels, matcher);
    assert(scores@.len() == candidates@.len());
    rank_scored(candidates, &scores, limit)
}

impl Sources {
    /// Nothing to offer.
    pub fn new() -> (r: Sources)
        ensures
            r@.kinds.len() == 0,
            r@.namespaces.len() == 0,
            r@.clusters.len() == 0,
            r@.objects.len() == 0,
            r@.operations.len() == 0,
            r@.ports.len() == 0,
            r@.current_kind is None,
    {
        Sources {
            kinds: Vec::new(),
            namespaces: Vec::new(),
            clusters: Vec::new(),
            objects: Vec::new(),
            operations: Vec::new(),
            ports: Vec::new(),
            current_kind: None,
        }
    }

    /// What a section offers, each with its label.
    pub fn candidates(&self, section: Section) -> (out: Vec<(String, Choice)>)
        ensures
            candidate_views(out@) == candidates_of(self@, section),
    {
        match section {
            Section::Objects => self.object_candidates(),
            Section::Kinds => self.kind_candidates(),
            Section::Namespaces => self.namespace_candidates(),
            Section::Clusters => self.cluster_candidates(),
            Section::Commands => self.command_candidates(),
        }
    }

    fn object_candidates(&self) -> (out: Vec<(String, Choice)>)
        ensures
            candidate_views(out@) == candidates_of(self@, Section::Objects),
    {
        let mut out: Vec<(String, Choice)> = Vec::new();
        let mut i: usize = 0;
        while i < self.objects.len()
            invariant
                i <= self.objects.len(),
                out@.len() == i,
                forall|k: int|
                    0 <= k < i ==> (#[trigger] out@[k]).0@ == ref_text(self.objects@[k]@)
                        && out@[k].1@ == PickView::Object(self.objects@[k]@),
            decreases self.objects.len() - i,
        {
            out.push((self.objects[i].to_text(), Choice::Object(self.objects[i].copy())));
            i += 1;
        }
        assert(candidate_views(out@) =~= candidates_of(self@, Section::Objects));
        out
    }

    fn kind_candidates(&self) -> (out: Vec<(String, Choice)>)
        ensures
            candidate_views(out@) == candidates_of(self@, Section::Kinds),
    {
        let mut out: Vec<(String, Choice)> = Vec::new();
        let mut i: usize = 0;
        while i < self.kinds.len()
            invariant
                i <= self.kinds.len(),
                out@.len() == i,
                forall|k: int|
                    0 <= k < i ==> (#[trigger] out@[k]).0@ == named(self.kinds@[k]@)
                        && out@[k].1@ == PickView::Kind(self.kinds@[k]@),
            decreases self.kinds.len() - i,
        {
            out.push((self.kinds[i].display_name(), Choice::Kind(share(&self.kinds[i]))));
            i += 1;
        }
        assert(candidate_views(out@) =~= candidates_of(self@, Section::Kinds));
        out
    }

    fn namespace_candidates(&self) -> (out: Vec<(String, Choice)>)
        ensures
            candidate_views(out@) == candidates_of(self@, Section::Namespaces),
    {
        let mut out: Vec<(String, Choice)> = Vec::new();
        out.push(("All namespaces".to_owned(), Choice::Namespace(None)));
        let mut i: usize = 0;
        while i < self.namespaces.len()
            invariant
                i <= self.namespaces.len(),
                out@.len() == i + 1,
                out@[0].0@ == "All namespaces"@,
                out@[0].1@ == PickView::Namespace(None),
                forall|k: int|
                    1 <= k < i + 1 ==> (#[trigger] out@[k]).0@ == self.namespaces@[k - 1]@
                        && out@[k].1@ == PickView::Namespace(Some(self.namespaces@[k - 1]@)),
            decreases self.namespaces.len() - i,
        {
            out.push(
                (self.namespaces[i].clone(), Choice::Namespace(Some(self.namespaces[i].clone()))),
            );
            i += 1;
        }
        assert(candidate_views(out@) =~= candidates_of(self@, Section::Namespaces));
        out
    }

    fn cluster_candidates(&self) -> (out: Vec<(String, Choice)>)
        ensures
            candidate_views(out@) == candidates_of(self@, Section::Clusters),
    {
        let mut out: Vec<(String, Choice)> = Vec::new();
        let mut i: usize = 0;
        while i < self.clusters.len()
            invariant
                i <= self.clusters.len(),
                out@.len() == i,
                forall|k: int|
                    0 <= k < i ==> (#[trigger] out@[k]).0@ == self.clusters@[k]@ && out@[k].1@
                        == PickView::Cluster(self.clusters@[k]@),
            decreases self.clusters.len() - i,
        {
            out.push(
                (self.clusters[i].as_str().to_owned(), Choice::Cluster(self.clusters[i].copy())),
            );
            i += 1;
        }
        assert(candidate_views(out@) =~= candidates_of(self@, Section::Clusters));
        out
    }

    fn command_candidates(&self) -> (out: Vec<(String, Choice)>)
        ensures
            candidate_views(out@) == candidates_of(self@, Section::Commands),
    {
        let mut out: Vec<(String, Choice)> = Vec::new();
        let ghost n = self.operations@.len();
        let ghost m = self.ports@.len();
        let mut i: usize = 0;
        while i < self.operations.len()
            invariant
                i <= self.operations.len(),
                out@.len() == i,
                forall|k: int|
                    0 <= k < i ==> (#[trigger] out@[k]).0@ == stripped_end(
                        self.operations@[k].label@,
                        Class::Just('…'),
                    ) && out@[k].1@ == PickView::Operation(self.operations@[k].operation),
            decreases self.operations.len() - i,
        {
            let choice = &self.operations[i];
            out.push(
                (
                    strip_end(choice.label.as_str(), Class::Just('…')),
                    Choice::Operation(choice.operation),
                ),
            );
            i += 1;
        }
        let mut p: usize = 0;
        while p < self.ports.len()
            invariant
                p <= self.ports.len(),
                n == self.operations@.len(),
                out@.len() == n + p,
                forall|k: int|
                    0 <= k < n ==> (#[trigger] out@[k]).0@ == stripped_end(
                        self.operations@[k].label@,
                        Class::Just('…'),
                    ) && out@[k].1@ == PickView::Operation(self.operations@[k].operation),
                forall|k: int|
                    n <= k < n + p ==> (#[trigger] out@[k]).0@ == forward_label(self.ports@[k - n])
                        && out@[k].1@ == (PickView::Forward { remote_port: self.ports@[k - n] }),
            decreases self.ports.len() - p,
        {
            let port: u16 = self.ports[p];
            out.push(
                (
                    two("Forward port ", natural(port as u128).as_str()),
                    Choice::Forward { remote_port: port },
                ),
            );
            p += 1;
        }
        let actions: Vec<Action> = vec![
            Action::ToggleTheme,
            Action::ToggleDetails,
            Action::ClearFilter,
            Action::CopyName,
            Action::NewTab,
            Action::CloseTab,
        ];
        assert(actions@ =~= all_actions());
        let mut a: usize = 0;
        while a < actions.len()
            invariant
                a <= actions.len(),
                actions@ == all_actions(),
                n == self.operations@.len(),
                m == self.ports@.len(),
                out@.len() == n + m + a,
                forall|k: int|
                    0 <= k < n ==> (#[trigger] out@[k]).0@ == stripped_end(
                        self.operations@[k].label@,
                        Class::Just('…'),
                    ) && out@[k].1@ == PickView::Operation(self.operations@[k].operation),
                forall|k: int|
                    n <= k < n + m ==> (#[trigger] out@[k]).0@ == forward_label(self.ports@[k - n])
                        && out@[k].1@ == (PickView::Forward { remote_port: self.ports@[k - n] }),
                forall|k: int|
                    n + m <= k < n + m + a ==> (#[trigger] out@[k]).0@ == action_label(
                        all_actions()[k - n - m],
                    ) && out@[k].1@ == PickView::Action(all_actions()[k - n - m]),
            decreases actions.len() - a,
        {
            let action = actions[a];
            out.push((action.label().to_owned(), Choice::Action(action)));
            a += 1;
        }
        assert(candidate_views(out@) =~= candidates_of(self@, Section::Commands));
        out
    }
}

/// The first offer of an operation from `k` on.
pub open spec fn offer_of(list: Seq<ChoiceView>, op: Operation, k: int) -> Option<ChoiceView>
    decreases list.len() - k,
{
    if k >= list.len() {
        None
    } else if list[k].operation == op {
        Some(list[k])
    } else {
        offer_of(list, op, k + 1)
    }
}

/// Why a pick is offered but refused.
pub open spec fn blocked_by(s: SourcesView, pick: PickView) -> Option<Seq<char>> {
    match pick {
        PickView::Operation(op) => match offer_of(s.operations, op, 0) {
            Some(offer) => if offer.allowed {
                None
            } else {
                offer.blocked_because
            },
            None => None,
        },
        _ => None,
    }
}

/// What a pick is called.
pub open spec fn pick_label(pick: PickView) -> Seq<char> {
    match pick {
        PickView::Object(object) => ref_text(object),
        PickView::Kind(kind) => named(kind),
        PickView::Namespace(None) => "All namespaces"@,
        PickView::Namespace(Some(namespace)) => namespace,
        PickView::Cluster(cluster) => cluster,
        PickView::Action(action) => action_label(action),
        PickView::Operation(op) => description(op),
        PickView::Forward { remote_port } => forward_label(remote_port),
    }
}

/// The palette.
pub struct Palette {
    sources: Sources,
    section: Section,
    matches: Vec<Choice>,
    matcher: Searcher,
}

/// The palette, as a mathematical object.
pub struct PaletteView {
    pub sources: SourcesView,
    pub section: Section,
    pub matches: Seq<PickView>,
}

impl View for Palette {
    type V = PaletteView;

    closed spec fn view(&self) -> PaletteView {
        PaletteView {
            sources: self.sources@,
            section: self.section,
            matches: pick_views(self.matches@),
        }
    }
}

/// What the palette lists for a query.
pub open spec fn listed(s: SourcesView, query: Seq<char>) -> PaletteView {
    let (section, needle) = parsed_query(query);
    PaletteView {
        sources: s,
        section,
        matches: ranked(candidates_of(s, section), needle, LIMIT as int),
    }
}

/// What confirming a row of the list gives: the pick there, unless it is refused.
pub open spec fn confirmed(p: PaletteView, row: int) -> Option<OutcomeView> {
    if 0 <= row < p.matches.len() && blocked_by(p.sources, p.matches[row]) is None {
        Some(OutcomeView::Chose(p.matches[row]))
    } else {
        None
    }
}

impl Palette {
    /// A palette with nothing to offer but its own commands.
    pub fn new() -> (r: Palette)
        ensures
            r@ == listed(r@.sources, Seq::empty()),
            r@.sources.objects.len() == 0,
            r@.sources.kinds.len() == 0,
            r@.sources.namespaces.len() == 0,
            r@.sources.clusters.len() == 0,
            r@.sources.operations.len() == 0,
            r@.sources.ports.len() == 0,
            r@.sources.current_kind is None,
    {
        let mut palette = Palette {
            sources: Sources::new(),
            section: Section::Objects,
            matches: Vec::new(),
            matcher: Searcher::new(),
        };
        palette.show_all();
        palette
    }

    fn show_all(&mut self)
        ensures
            final(self)@ == listed(old(self)@.sources, Seq::empty()),
    {
        let empty = String::new();
        self.refresh(empty.as_str());
    }

    /// Fills the palette and clears whatever was typed last time.
    pub fn open(&mut self, sources: Sources)
        ensures
            final(self)@ == listed(sources@, Seq::empty()),
    {
        self.sources = sources;
        self.show_all();
    }

    /// Recomputes the list for a query.
    pub fn refresh(&mut self, query: &str)
        ensures
            final(self)@ == listed(old(self)@.sources, query@),
    {
        let (section, needle) = Section::parse(query);
        self.section = section;
        let candidates = self.sources.candidates(section);
        self.matches = rank(&candidates, needle.as_str(), &mut self.matcher, LIMIT);
    }

    /// What is listed.
    pub fn matches(&self) -> (r: &Vec<Choice>)
        ensures
            pick_views(r@) == self@.matches,
    {
        &self.matches
    }

    /// The section that is listed.
    pub fn section(&self) -> (r: Section)
        ensures
            r == self@.section,
    {
        self.section
    }

    /// What the palette offers.
    pub fn sources(&self) -> (r: &Sources)
        ensures
            r@ == self@.sources,
    {
        &self.sources
    }

    /// Takes a row of the list. A row that is refused is not taken, and neither
    /// is one that is not there.
    pub fn confirm(&self, row: usize) -> (r: Option<PaletteEvent>)
        ensures
            match r {
                Some(event) => confirmed(self@, row as int) == Some(event@),
                None => confirmed(self@, row as int) is None,
            },
    {
        if row >= self.matches.len() {
            return None;
        }
        let choice = &self.matches[row];
        assert(self@.matches[row as int] == choice@);
        match self.blocked(choice) {
            Some(_) => None,
            None => Some(PaletteEvent::Chose(choice.copy())),
        }
    }

    /// Whether a choice is offered but refused, and why.
    pub fn blocked(&self, choice: &Choice) -> (r: Option<&str>)
        ensures
            lent(r) == blocked_by(self@.sources, choice@),
    {
        let operation = match choice {
            Choice::Operation(operation) => *operation,
            _ => return None,
        };
        let ghost offers = self@.sources.operations;
        let mut i: usize = 0;
        while i < self.sources.operations.len()
            invariant
                i <= self.sources.operations@.len(),
                choice@ == PickView::Operation(operation),
                offers == self@.sources.operations,
                offers == choice_views(self.sources.operations@),
                offer_of(offers, operation, 0) == offer_of(offers, operation, i as int),
            decreases self.sources.operations@.len() - i,
        {
            let offer = &self.sources.operations[i];
            assert(offers[i as int] == offer@);
            if offer.operation == operation {
                return if offer.allowed {
                    None
                } else {
                    offer.tooltip()
                };
            }
            i += 1;
        }
        None
    }

    /// The label for a choice.
    pub fn label(&self, choice: &Choice) -> (r: String)
        ensures
            r@ == pick_label(choice@),
    {
        match choice {
            Choice::Object(object) => object.to_text(),
            Choice::Kind(kind) => kind.display_name(),
            Choice::Namespace(namespace) => match namespace {
                Some(namespace) => namespace.clone(),
                None => "All namespaces".to_owned(),
            },
            Choice::Cluster(cluster) => cluster.as_str().to_owned(),
            Choice::Action(action) => action.label().to_owned(),
            Choice::Operation(operation) => operation.describe(),
            Choice::Forward { remote_port } => two(
                "Forward port ",
                natural(*remote_port as u128).as_str(),
            ),
        }
    }
}

} // verus!
