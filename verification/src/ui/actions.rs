//! What can be done to the selected object, and whether this user may do it.
//!
//! Two reasons an action may be missing, and they are not the same thing. A
//! `ConfigMap` has no replicas, so `Scale` is not offered at all. A user without
//! `delete` on pods sees `Delete`, greyed, saying so.
use vstd::prelude::*;
use vstd::string::*;

use crate::base::json::{
    field, int_of, integer_at, items_of, models, part, Json, JsonView,
};
use crate::base::list::{kept, kept_bounds, kept_from, kept_next};
use crate::base::text::{borrowed, held, lent};
use crate::k8s::access::{permits, Rules, RulesView};
use crate::k8s::discovery::{Kind, KindView};
use crate::k8s::ops::{applies, resource_of, verb_of, Operation};

verus! {

/// One entry in the actions menu.
#[derive(Debug, PartialEq, Eq)]
pub struct Choice {
    pub operation: Operation,
    pub label: String,
    pub allowed: bool,
    /// Why not, for the tooltip. `None` when it is allowed.
    pub blocked_because: Option<String>,
}

/// One entry in the actions menu, as a mathematical object.
pub struct ChoiceView {
    pub operation: Operation,
    pub label: Seq<char>,
    pub allowed: bool,
    pub blocked_because: Option<Seq<char>>,
}

impl View for Choice {
    type V = ChoiceView;

    open spec fn view(&self) -> ChoiceView {
        ChoiceView {
            operation: self.operation,
            label: self.label@,
            allowed: self.allowed,
            blocked_because: held(self.blocked_because),
        }
    }
}

/// What a list of entries stands for.
pub open spec fn choice_views(list: Seq<Choice>) -> Seq<ChoiceView> {
    list.map_values(|c: Choice| c@)
}

impl Choice {
    /// What the palette and the context menu both show.
    pub fn tooltip(&self) -> (r: Option<&str>)
        ensures
            lent(r) == self@.blocked_because,
    {
        borrowed(&self.blocked_because)
    }
}

/// The label of an operation. Scaling asks for the number, so its label ends in
/// an ellipsis the way a menu item that opens a prompt should.
pub open spec fn label_of(op: Operation) -> Seq<char> {
    match op {
        Operation::Delete => "Delete"@,
        Operation::Restart => "Restart"@,
        Operation::Scale { .. } => "Scale…"@,
        Operation::Apply => "Apply"@,
    }
}

/// The sentence shown on a disabled action, phrased as the RBAC question that
/// was asked.
pub open spec fn refusal_of(op: Operation, plural: Seq<char>) -> Seq<char> {
    "You do not have "@ + verb_of(op) + " on "@ + resource_of(op, plural) + " in this namespace"@
}

/// Whether a user may do something. Everything is enabled until the answer
/// arrives: a menu that flickers from disabled to enabled teaches people to
/// distrust the greying.
pub open spec fn may(rules: Option<RulesView>, op: Operation, kind: KindView) -> bool {
    match rules {
        Some(rules) => permits(
            rules,
            verb_of(op),
            kind.resource.group,
            resource_of(op, kind.resource.plural),
        ),
        None => true,
    }
}

/// The menu entry of an operation.
pub open spec fn choice_of(rules: Option<RulesView>, op: Operation, kind: KindView) -> ChoiceView {
    ChoiceView {
        operation: op,
        label: label_of(op),
        allowed: may(rules, op, kind),
        blocked_because: if may(rules, op, kind) {
            None
        } else {
            Some(refusal_of(op, kind.resource.plural))
        },
    }
}

/// The operations of the menu.
pub open spec fn offered(replicas: i32) -> Seq<Operation> {
    seq![Operation::Restart, Operation::Scale { replicas }, Operation::Delete]
}

pub open spec fn choice_maker(
    rules: Option<RulesView>,
    kind: KindView,
) -> spec_fn(Operation) -> Option<ChoiceView> {
    |op: Operation|
        if applies(op, kind.resource.group, kind.resource.kind) {
            Some(choice_of(rules, op, kind))
        } else {
            None
        }
}

/// The menu of a kind: the operations that make sense for it, each marked with
/// whether this user may perform it.
pub open spec fn menu(kind: KindView, rules: Option<RulesView>, replicas: i32) -> Seq<ChoiceView> {
    kept(offered(replicas), choice_maker(rules, kind))
}

/// What optional rules stand for.
pub open spec fn rules_of(rules: Option<&Rules>) -> Option<RulesView> {
    match rules {
        Some(rules) => Some(rules@),
        None => None,
    }
}

pub fn label(operation: &Operation) -> (r: String)
    ensures
        r@ == label_of(*operation),
{
    match operation {
        Operation::Delete => "Delete".to_owned(),
        Operation::Restart => "Restart".to_owned(),
        Operation::Scale { .. } => "Scale…".to_owned(),
        Operation::Apply => "Apply".to_owned(),
    }
}

fn refusal(operation: &Operation, kind: &Kind) -> (r: String)
    ensures
        r@ == refusal_of(*operation, kind@.resource.plural),
{
    let mut out = "You do not have ".to_owned();
    out.append(operation.verb());
    out.append(" on ");
    out.append(operation.resource(kind.resource.plural.as_str()).as_str());
    out.append(" in this namespace");
    out
}

fn allowed(kind: &Kind, rules: Option<&Rules>, operation: &Operation) -> (r: bool)
    ensures
        r == may(rules_of(rules), *operation, kind@),
{
    match rules {
        Some(rules) => rules.allows(
            operation.verb(),
            kind.resource.group.as_str(),
            operation.resource(kind.resource.plural.as_str()).as_str(),
        ),
        None => true,
    }
}

/// The actions that make sense for a kind, each marked with whether this user
/// may perform it.
///
/// `rules` is `None` while the permission answer is still in flight. `replicas`
/// is the object's current replica count, so that a scale prompt can open on the
/// number that is actually set.
pub fn available(kind: &Kind, rules: Option<&Rules>, replicas: i32) -> (out: Vec<Choice>)
    ensures
        choice_views(out@) == menu(kind@, rules_of(rules), replicas),
{
    let operations: Vec<Operation> = vec![
        Operation::Restart,
        Operation::Scale { replicas },
        Operation::Delete,
    ];
    let ghost all = offered(replicas);
    let ghost maker = choice_maker(rules_of(rules), kind@);
    assert(operations@ =~= all);
    let mut out: Vec<Choice> = Vec::new();
    let mut i: usize = 0;
    assert(choice_views(out@) =~= Seq::empty());
    proof {
        kept_bounds(all, maker);
    }
    while i < operations.len()
        invariant
            i <= operations.len(),
            all == operations@,
            maker == choice_maker(rules_of(rules), kind@),
            choice_views(out@) == kept(all.take(i as int), maker),
        decreases operations.len() - i,
    {
        proof {
            kept_next(all, i as int, maker);
        }
        let operation = operations[i];
        if operation.applies_to(kind.resource.group.as_str(), kind.resource.kind.as_str()) {
            let is_allowed = allowed(kind, rules, &operation);
            let choice = Choice {
                operation,
                label: label(&operation),
                allowed: is_allowed,
                blocked_because: if is_allowed {
                    None
                } else {
                    Some(refusal(&operation, kind))
                },
            };
            let ghost before = out@;
            let ghost added = choice@;
            out.push(choice);
            assert(choice_views(out@) =~= choice_views(before).push(added));
        }
        i += 1;
    }
    out
}

/// Whether this user may apply an edited manifest for a kind.
///
/// Separate from [`available`] because Apply is reached from the YAML pane
/// rather than from a menu.
pub fn may_apply(kind: &Kind, rules: Option<&Rules>) -> (r: bool)
    ensures
        r == may(rules_of(rules), Operation::Apply, kind@),
{
    allowed(kind, rules, &Operation::Apply)
}

/// An action says why it is refused exactly when it is.
pub proof fn refused_actions_say_why(
    kind: KindView,
    rules: Option<RulesView>,
    replicas: i32,
    i: int,
)
    requires
        0 <= i < menu(kind, rules, replicas).len(),
    ensures
        menu(kind, rules, replicas)[i].blocked_because is Some <==> !menu(
            kind,
            rules,
            replicas,
        )[i].allowed,
        applies(
            menu(kind, rules, replicas)[i].operation,
            kind.resource.group,
            kind.resource.kind,
        ),
{
    let list = menu(kind, rules, replicas);
    let maker = choice_maker(rules, kind);
    assert(list.contains(list[i]));
    kept_from(offered(replicas), maker, list[i]);
}

/// Everything is enabled while the answer is in flight.
pub proof fn nothing_is_refused_in_flight(kind: KindView, replicas: i32, i: int)
    requires
        0 <= i < menu(kind, None, replicas).len(),
    ensures
        menu(kind, None, replicas)[i].allowed,
        menu(kind, None, replicas)[i].blocked_because is None,
        may(None, Operation::Apply, kind),
{
    let list = menu(kind, None, replicas);
    let maker = choice_maker(None, kind);
    assert(list.contains(list[i]));
    kept_from(offered(replicas), maker, list[i]);
}

/// The number of a declared port.
pub open spec fn port_number(j: JsonView) -> Option<u16> {
    match int_of(j.get("containerPort"@)) {
        Some(n) => if 0 <= n <= u16::MAX {
            Some(n as u16)
        } else {
            None
        },
        None => None,
    }
}

pub open spec fn number_reader() -> spec_fn(JsonView) -> Option<u16> {
    |j: JsonView| port_number(j)
}

/// The ports that containers declare, one container after the other.
pub open spec fn declared_ports(containers: Seq<JsonView>) -> Seq<u16>
    decreases containers.len(),
{
    if containers.len() == 0 {
        Seq::empty()
    } else {
        declared_ports(containers.drop_last()) + kept(
            items_of(containers.last().get("ports"@)),
            number_reader(),
        )
    }
}

/// The ports that a pod declares.
pub open spec fn ports_of(data: JsonView) -> Seq<u16> {
    declared_ports(items_of(part(data.get("spec"@), "containers"@)))
}

/// Appends the ports that one container declares.
fn container_ports(container: &Json, out: &mut Vec<u16>)
    ensures
        final(out)@ == old(out)@ + kept(items_of(container@.get("ports"@)), number_reader()),
{
    let ghost before = out@;
    let ghost all = items_of(container@.get("ports"@));
    let items = match container.get("ports") {
        Some(ports) => match ports.as_array() {
            Some(items) => items,
            None => {
                assert(out@ =~= before + kept(all, number_reader()));
                return;
            },
        },
        None => {
            assert(out@ =~= before + kept(all, number_reader()));
            return;
        },
    };
    let mut i: usize = 0;
    proof {
        kept_bounds(all, number_reader());
        assert(out@ =~= before + Seq::empty());
    }
    while i < items.len()
        invariant
            i <= items@.len(),
            all == models(items@),
            out@ == before + kept(all.take(i as int), number_reader()),
        decreases items@.len() - i,
    {
        proof {
            kept_next(all, i as int, number_reader());
            assert(all[i as int] == items@[i as int]@);
        }
        if let Some(n) = integer_at(items[i].get("containerPort")) {
            if 0 <= n && n <= u16::MAX as i64 {
                out.push(n as u16);
                assert(out@ =~= before + kept(all.take(i + 1), number_reader()));
            }
        }
        i += 1;
    }
    assert(all.take(i as int) =~= all);
}

/// The ports that a pod declares, for forwarding.
pub fn ports(data: &Json) -> (out: Vec<u16>)
    ensures
        out@ == ports_of(data@),
{
    let ghost all = items_of(part(data@.get("spec"@), "containers"@));
    let mut out: Vec<u16> = Vec::new();
    if let Some(containers) = field(data.get("spec"), "containers") {
        if let Some(items) = containers.as_array() {
            let mut i: usize = 0;
            assert(all.take(0) =~= Seq::empty());
            while i < items.len()
                invariant
                    i <= items@.len(),
                    all == models(items@),
                    out@ == declared_ports(all.take(i as int)),
                decreases items@.len() - i,
            {
                assert(all.take(i + 1).drop_last() =~= all.take(i as int));
                assert(all.take(i + 1).last() == items@[i as int]@);
                container_ports(&items[i], &mut out);
                i += 1;
            }
            assert(all.take(i as int) =~= all);
        }
    }
    out
}

} // verus!
