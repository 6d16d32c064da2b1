//! The question asked before something is changed.
//!
//! A delete needs confirming: it has no undo, and the object's name is repeated
//! back so that the wrong row cannot be deleted by reflex. A scale needs a
//! number, opened on the count that is currently set. Restarting asks nothing.
use vstd::prelude::*;

use crate::base::decimal::{integer, number, parse_signed, signed};
use crate::base::text::{three, trim, trimmed, two};
use crate::k8s::ops::{description, Operation};
use crate::k8s::store::{ref_text, ObjectRef};

verus! {

/// What is being asked, and about what.
#[derive(Debug, PartialEq, Eq)]
pub struct Ask {
    pub operation: Operation,
    pub target: ObjectRef,
    pub kind: String,
}

/// The question's title.
pub open spec fn title_of(op: Operation, kind: Seq<char>) -> Seq<char> {
    match op {
        Operation::Delete => "Delete this "@ + kind + "?"@,
        Operation::Scale { .. } => "Scale this "@ + kind,
        _ => description(op),
    }
}

/// What the question says of its target.
pub open spec fn body_of(op: Operation, target: Seq<char>) -> Seq<char> {
    match op {
        Operation::Delete => target
            + " will be deleted. There is no undo — if a controller owns it, it will be recreated; if not, it is gone."@,
        _ => target,
    }
}

/// What the button that goes ahead says.
pub open spec fn button_of(op: Operation) -> Seq<char> {
    match op {
        Operation::Delete => "Delete"@,
        Operation::Scale { .. } => "Scale"@,
        _ => "Confirm"@,
    }
}

impl Ask {
    pub fn title(&self) -> (r: String)
        ensures
            r@ == title_of(self.operation, self.kind@),
    {
        match self.operation {
            Operation::Delete => three("Delete this ", self.kind.as_str(), "?"),
            Operation::Scale { .. } => two("Scale this ", self.kind.as_str()),
            _ => self.operation.describe(),
        }
    }

    pub fn body(&self) -> (r: String)
        ensures
            r@ == body_of(self.operation, ref_text(self.target@)),
    {
        match self.operation {
            Operation::Delete => two(
                self.target.to_text().as_str(),
                " will be deleted. There is no undo — if a controller owns it, it will be recreated; if not, it is gone.",
            ),
            _ => self.target.to_text(),
        }
    }

    /// What the button that goes ahead says.
    pub fn button(&self) -> (r: &'static str)
        ensures
            r@ == button_of(self.operation),
    {
        match self.operation {
            Operation::Delete => "Delete",
            Operation::Scale { .. } => "Scale",
            _ => "Confirm",
        }
    }

    pub fn needs_a_number(&self) -> (r: bool)
        ensures
            r == (self.operation is Scale),
    {
        matches!(self.operation, Operation::Scale { .. })
    }

    pub fn is_destructive(&self) -> (r: bool)
        ensures
            r == (self.operation is Delete),
    {
        matches!(self.operation, Operation::Delete)
    }
}

/// What becomes of a question.
#[derive(Debug, PartialEq, Eq)]
pub enum PromptEvent {
    /// Go ahead, with the operation as the user finally set it.
    Confirmed(Operation),
    Cancelled,
}

/// A question that is on screen.
pub struct Prompt {
    pub ask: Ask,
}

/// The operation with what the user typed folded in: nothing where the text is
/// no number of replicas.
pub open spec fn resolved(op: Operation, typed: Seq<char>) -> Option<Operation> {
    match op {
        Operation::Scale { .. } => match number(trimmed(typed)) {
            Some(n) => if 0 <= n <= i32::MAX {
                Some(Operation::Scale { replicas: n as i32 })
            } else {
                None
            },
            None => None,
        },
        other => Some(other),
    }
}

impl Prompt {
    pub fn new(ask: Ask) -> (r: Prompt)
        ensures
            r.ask == ask,
    {
        Prompt { ask }
    }

    /// What the field for the number starts with.
    pub fn start(&self) -> (r: String)
        ensures
            r@ == (match self.ask.operation {
                Operation::Scale { replicas } => signed(
                    if replicas > 0 {
                        replicas as int
                    } else {
                        0
                    },
                ),
                _ => Seq::empty(),
            }),
    {
        match self.ask.operation {
            Operation::Scale { replicas } => integer(
                if replicas > 0 {
                    replicas as i64
                } else {
                    0
                },
            ),
            _ => String::new(),
        }
    }

    /// The operation with whatever the user typed folded in.
    ///
    /// A number that does not parse keeps the prompt open rather than scaling to
    /// something nobody asked for.
    pub fn resolve(&self, typed: &str) -> (r: Option<Operation>)
        ensures
            r == resolved(self.ask.operation, typed@),
    {
        match self.ask.operation {
            Operation::Scale { .. } => match parse_signed(
                trim(typed).as_str(),
                i32::MAX as i64,
            ) {
                Some(n) => if n >= 0 {
                    Some(Operation::Scale { replicas: n as i32 })
                } else {
                    None
                },
                None => None,
            },
            other => Some(other),
        }
    }

    /// What confirming comes to: nothing while the text is no number.
    pub fn confirm(&self, typed: &str) -> (r: Option<PromptEvent>)
        ensures
            match r {
                Some(PromptEvent::Confirmed(op)) => resolved(self.ask.operation, typed@)
                    == Some(op),
                Some(PromptEvent::Cancelled) => false,
                None => resolved(self.ask.operation, typed@) is None,
            },
    {
        match self.resolve(typed) {
            Some(operation) => Some(PromptEvent::Confirmed(operation)),
            None => None,
        }
    }
}

} // verus!
