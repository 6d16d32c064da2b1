//! What this user is allowed to do.
//!
//! An action the cluster will refuse is shown greyed out with the reason,
//! rather than enabled and then failing with a 403. Two properties of RBAC
//! matter here and both are easy to get wrong:
//!
//! * A rule on `pods` does not grant `pods/log`. Subresources are named
//!   separately, so "can list pods" says nothing about "can read logs".
//! * The answer can be admittedly incomplete: a webhook authorizer cannot
//!   enumerate its rules. When that happens the action is enabled anyway: a 403
//!   the user can read beats a button they cannot press for a reason nobody can
//!   explain.
use std::sync::Arc;

use vstd::prelude::*;

pub mod verbs;

use crate::base::dict::{option_less, row_below, Dict, Key, Row};
use crate::base::text::{borrowed, cut, each, held, lent, occurs, owned, same, split_once};

verus! {

/// One rule that applies to the user.
#[derive(Debug, PartialEq, Eq)]
pub struct ResourceRule {
    pub verbs: Vec<String>,
    pub api_groups: Option<Vec<String>>,
    pub resources: Option<Vec<String>>,
    pub resource_names: Option<Vec<String>>,
}

/// One rule, as a mathematical object. A list that is absent is empty.
pub struct RuleView {
    pub verbs: Seq<Seq<char>>,
    pub api_groups: Seq<Seq<char>>,
    pub resources: Seq<Seq<char>>,
    pub resource_names: Seq<Seq<char>>,
}

/// What an optional list holds.
pub open spec fn listed(list: Option<Vec<String>>) -> Seq<Seq<char>> {
    match list {
        Some(list) => each(list@),
        None => Seq::empty(),
    }
}

impl View for ResourceRule {
    type V = RuleView;

    open spec fn view(&self) -> RuleView {
        RuleView {
            verbs: each(self.verbs@),
            api_groups: listed(self.api_groups),
            resources: listed(self.resources),
            resource_names: listed(self.resource_names),
        }
    }
}

/// Whether a list names something, by itself or by a wildcard.
pub open spec fn names(values: Seq<Seq<char>>, wanted: Seq<char>) -> bool {
    values.contains("*"@) || values.contains(wanted)
}

/// Whether a pattern reaches a resource: `*` is every resource and every
/// subresource, `*/log` is that subresource of any resource, and anything else
/// is only what it says.
pub open spec fn reaches(pattern: Seq<char>, wanted: Seq<char>) -> bool {
    match cut(pattern, "/"@) {
        Some((front, sub)) => if front == "*"@ {
            match cut(wanted, "/"@) {
                Some((_, wanted_sub)) => wanted_sub == sub,
                None => false,
            }
        } else {
            pattern == "*"@ || pattern == wanted
        },
        None => pattern == "*"@ || pattern == wanted,
    }
}

/// Whether one of the patterns reaches a resource.
pub open spec fn any_reaches(patterns: Seq<Seq<char>>, wanted: Seq<char>) -> bool {
    exists|i: int| 0 <= i < patterns.len() && reaches(#[trigger] patterns[i], wanted)
}

/// Whether a rule grants a verb on a resource. One that is narrowed to specific
/// names cannot answer a question about the kind as a whole.
pub open spec fn grants(
    rule: RuleView,
    verb: Seq<char>,
    group: Seq<char>,
    resource: Seq<char>,
) -> bool {
    names(rule.verbs, verb) && names(rule.api_groups, group) && any_reaches(
        rule.resources,
        resource,
    ) && rule.resource_names.len() == 0
}

/// What a user may do in one namespace.
#[derive(Debug, PartialEq, Eq)]
pub struct Rules {
    rules: Vec<ResourceRule>,
    /// The server said it could not enumerate everything.
    incomplete: bool,
}

/// What a user may do, as a mathematical object.
pub struct RulesView {
    pub rules: Seq<RuleView>,
    pub incomplete: bool,
}

impl View for Rules {
    type V = RulesView;

    closed spec fn view(&self) -> RulesView {
        RulesView {
            rules: self.rules@.map_values(|r: ResourceRule| r@),
            incomplete: self.incomplete,
        }
    }
}

/// Whether a verb is permitted on a resource: by a rule, or because the answer
/// is incomplete.
pub open spec fn permits(
    rules: RulesView,
    verb: Seq<char>,
    group: Seq<char>,
    resource: Seq<char>,
) -> bool {
    rules.incomplete || exists|i: int|
        0 <= i < rules.rules.len() && grants(#[trigger] rules.rules[i], verb, group, resource)
}

/// Whether a list names something, by itself or by a wildcard.
pub fn contains(values: &Vec<String>, wanted: &str) -> (r: bool)
    ensures
        r == names(each(values@), wanted@),
{
    let mut i: usize = 0;
    while i < values.len()
        invariant
            i <= values.len(),
            forall|k: int|
                0 <= k < i ==> (#[trigger] each(values@)[k]) != "*"@ && each(values@)[k] != wanted@,
        decreases values.len() - i,
    {
        assert(each(values@)[i as int] == values@[i as int]@);
        if same(values[i].as_str(), "*") || same(values[i].as_str(), wanted) {
            return true;
        }
        i += 1;
    }
    false
}

/// Resource matching, including the two wildcard forms RBAC allows.
pub fn resources_match(patterns: &Vec<String>, wanted: &str) -> (r: bool)
    ensures
        r == any_reaches(each(patterns@), wanted@),
{
    let wanted_parts = split_once(wanted, "/");
    let mut i: usize = 0;
    while i < patterns.len()
        invariant
            i <= patterns.len(),
            match wanted_parts {
                Some((front, back)) => cut(wanted@, "/"@) == Some((front@, back@)),
                None => cut(wanted@, "/"@) is None,
            },
            forall|k: int| 0 <= k < i ==> !reaches(#[trigger] each(patterns@)[k], wanted@),
        decreases patterns.len() - i,
    {
        assert(each(patterns@)[i as int] == patterns@[i as int]@);
        let pattern = patterns[i].as_str();
        let plain = same(pattern, "*") || same(pattern, wanted);
        let hit = match split_once(pattern, "/") {
            Some((front, sub)) => if same(front.as_str(), "*") {
                match &wanted_parts {
                    Some((_, wanted_sub)) => same(wanted_sub.as_str(), sub.as_str()),
                    None => false,
                }
            } else {
                plain
            },
            None => plain,
        };
        if hit {
            return true;
        }
        i += 1;
    }
    false
}

fn matches(rule: &ResourceRule, verb: &str, group: &str, resource: &str) -> (r: bool)
    ensures
        r == grants(rule@, verb@, group@, resource@),
{
    let none: Vec<String> = Vec::new();
    assert(each(none@) =~= Seq::empty());
    let groups = match &rule.api_groups {
        Some(groups) => groups,
        None => &none,
    };
    let resources = match &rule.resources {
        Some(resources) => resources,
        None => &none,
    };
    let names_given = match &rule.resource_names {
        Some(names) => names.len() > 0,
        None => false,
    };
    contains(&rule.verbs, verb) && contains(groups, group) && resources_match(resources, resource)
        && !names_given
}

impl Rules {
    pub fn new(rules: Vec<ResourceRule>, incomplete: bool) -> (r: Rules)
        ensures
            r@ == (RulesView { rules: rules@.map_values(|r: ResourceRule| r@), incomplete }),
    {
        Rules { rules, incomplete }
    }

    /// What stands for an answer that did not come: a cluster that will not
    /// answer is not one where every button should be disabled.
    pub fn unknown() -> (r: Rules)
        ensures
            r@.rules.len() == 0,
            r@.incomplete,
    {
        Rules { rules: Vec::new(), incomplete: true }
    }

    /// Whether a verb is permitted on a resource.
    ///
    /// `resource` is the plural name, optionally with a subresource:
    /// `deployments`, or `deployments/scale`.
    pub fn allows(&self, verb: &str, group: &str, resource: &str) -> (r: bool)
        ensures
            r == permits(self@, verb@, group@, resource@),
    {
        if self.incomplete {
            return true;
        }
        let mut i: usize = 0;
        while i < self.rules.len()
            invariant
                i <= self.rules.len(),
                forall|k: int|
                    0 <= k < i ==> !grants(#[trigger] self@.rules[k], verb@, group@, resource@),
            decreases self.rules.len() - i,
        {
            assert(self@.rules[i as int] == self.rules@[i as int]@);
            if matches(&self.rules[i], verb, group, resource) {
                return true;
            }
            i += 1;
        }
        false
    }

    /// Whether the answer is a guess. The window says so rather than pretending.
    pub fn is_incomplete(&self) -> (r: bool)
        ensures
            r == self@.incomplete,
    {
        self.incomplete
    }
}

/// A rule on a resource does not reach its subresources: only a wildcard or the
/// subresource itself does.
pub proof fn bare_rule_does_not_reach_subresources(
    rules: RulesView,
    verb: Seq<char>,
    group: Seq<char>,
    resource: Seq<char>,
)
    requires
        !rules.incomplete,
        occurs("/"@, resource),
        forall|i: int, k: int|
            0 <= i < rules.rules.len() && 0 <= k < rules.rules[i].resources.len() ==> !occurs(
                "/"@,
                #[trigger] rules.rules[i].resources[k],
            ) && rules.rules[i].resources[k] != "*"@,
    ensures
        !permits(rules, verb, group, resource),
{
    assert forall|i: int| 0 <= i < rules.rules.len() implies !grants(
        #[trigger] rules.rules[i],
        verb,
        group,
        resource,
    ) by {
        let rule = rules.rules[i];
        assert forall|k: int| 0 <= k < rule.resources.len() implies !reaches(
            #[trigger] rule.resources[k],
            resource,
        ) by {
            let pattern = rules.rules[i].resources[k];
            crate::base::text::first_from_finds("/"@, pattern, 0);
            if cut(pattern, "/"@) is Some {
                let at = crate::base::text::first_from("/"@, pattern, 0)->0;
                assert(crate::base::text::stands_at("/"@, pattern, at));
            }
        }
    }
}

/// An incomplete answer permits everything.
pub proof fn incomplete_permits_everything(
    rules: RulesView,
    verb: Seq<char>,
    group: Seq<char>,
    resource: Seq<char>,
)
    requires
        rules.incomplete,
    ensures
        permits(rules, verb, group, resource),
{
}

/// A full wildcard grants every resource and subresource of its groups.
pub proof fn wildcard_reaches_everything(
    rule: RuleView,
    group: Seq<char>,
    resource: Seq<char>,
    verb: Seq<char>,
)
    requires
        rule.verbs.contains("*"@),
        rule.resources.contains("*"@),
        names(rule.api_groups, group),
        rule.resource_names.len() == 0,
    ensures
        grants(rule, verb, group, resource),
{
    let k = choose|k: int| 0 <= k < rule.resources.len() && rule.resources[k] == "*"@;
    assert(reaches(rule.resources[k], resource)) by {
        reveal_strlit("*");
        reveal_strlit("/");
        crate::base::text::first_from_finds("/"@, "*"@, 0);
        if cut("*"@, "/"@) is Some {
            let at = crate::base::text::first_from("/"@, "*"@, 0)->0;
            assert(crate::base::text::stands_at("/"@, "*"@, at));
            assert("*"@.subrange(at, at + 1)[0] == "*"@[at]);
        }
    }
}

/// A namespace, or the whole cluster.
pub struct Scope {
    pub namespace: Option<String>,
}

impl View for Scope {
    type V = Option<Seq<char>>;

    open spec fn view(&self) -> Option<Seq<char>> {
        held(self.namespace)
    }
}

impl Key for Scope {
    open spec fn row(v: Option<Seq<char>>) -> Row {
        seq![v]
    }

    proof fn row_injective(a: Option<Seq<char>>, b: Option<Seq<char>>) {
        assert(Self::row(a)[0] == Self::row(b)[0]);
    }

    fn less(&self, other: &Self) -> (r: bool) {
        proof {
            reveal_with_fuel(row_below, 2);
            crate::base::dict::option_below_strict(self@, other@);
        }
        option_less(borrowed(&self.namespace), borrowed(&other.namespace))
    }
}

/// The rules for each namespace somebody has looked at, asked once.
pub struct Access {
    /// Keyed by namespace; `None` is the cluster scope.
    known: Dict<Scope, Arc<Rules>>,
}

impl View for Access {
    type V = Map<Option<Seq<char>>, Arc<Rules>>;

    closed spec fn view(&self) -> Map<Option<Seq<char>>, Arc<Rules>> {
        self.known@
    }
}

impl Access {
    pub fn new() -> (r: Access)
        ensures
            r@ == Map::<Option<Seq<char>>, Arc<Rules>>::empty(),
    {
        Access { known: Dict::new() }
    }

    pub fn get(&self, namespace: Option<&str>) -> (r: Option<&Arc<Rules>>)
        ensures
            match r {
                Some(rules) => self@.dom().contains(lent(namespace)) && self@[lent(namespace)]
                    == *rules,
                None => !self@.dom().contains(lent(namespace)),
            },
    {
        self.known.get(&Scope { namespace: owned(namespace) })
    }

    pub fn insert(&mut self, namespace: Option<String>, rules: Arc<Rules>)
        ensures
            final(self)@ == old(self)@.insert(held(namespace), rules),
    {
        self.known.insert(Scope { namespace }, rules);
    }
}

} // verus!
