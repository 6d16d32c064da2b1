//! Which clusters can be connected to, and which one is current.
use vstd::prelude::*;

use crate::base::list::{kept, kept_bounds, kept_next};
use crate::base::text::{held, same};
use crate::k8s::ClusterId;

verus! {

/// The body of a context in a kubeconfig.
#[derive(Debug, PartialEq, Eq)]
pub struct Context {
    pub cluster: String,
    pub user: Option<String>,
    pub namespace: Option<String>,
}

/// A context in a kubeconfig. One without a body is malformed.
#[derive(Debug, PartialEq, Eq)]
pub struct NamedContext {
    pub name: String,
    pub context: Option<Context>,
}

/// The part of a merged kubeconfig that names its contexts, in file order.
#[derive(Debug, PartialEq, Eq)]
pub struct Kubeconfig {
    pub current_context: Option<String>,
    pub contexts: Vec<NamedContext>,
}

impl Default for Kubeconfig {
    fn default() -> (r: Kubeconfig)
        ensures
            r.current_context is None,
            r.contexts@.len() == 0,
    {
        Kubeconfig { current_context: None, contexts: Vec::new() }
    }
}

/// A context in a kubeconfig, as a mathematical object.
pub struct NamedView {
    pub name: Seq<char>,
    pub context: Option<(Seq<char>, Option<Seq<char>>, Option<Seq<char>>)>,
}

impl View for NamedContext {
    type V = NamedView;

    open spec fn view(&self) -> NamedView {
        NamedView {
            name: self.name@,
            context: match self.context {
                Some(c) => Some((c.cluster@, held(c.user), held(c.namespace))),
                None => None,
            },
        }
    }
}

/// One connectable context, flattened into what the window displays.
#[derive(Debug, PartialEq, Eq)]
pub struct ContextEntry {
    pub id: ClusterId,
    pub cluster: String,
    pub user: Option<String>,
    /// The context's default namespace. `None` means the context did not pin
    /// one, in which case `default` applies.
    pub namespace: Option<String>,
    pub is_current: bool,
}

/// One connectable context, as a mathematical object.
pub struct EntryView {
    pub id: Seq<char>,
    pub cluster: Seq<char>,
    pub user: Option<Seq<char>>,
    pub namespace: Option<Seq<char>>,
    pub is_current: bool,
}

impl View for ContextEntry {
    type V = EntryView;

    open spec fn view(&self) -> EntryView {
        EntryView {
            id: self.id@,
            cluster: self.cluster@,
            user: held(self.user),
            namespace: held(self.namespace),
            is_current: self.is_current,
        }
    }
}

/// What a list of entries stands for.
pub open spec fn entry_views(list: Seq<ContextEntry>) -> Seq<EntryView> {
    list.map_values(|e: ContextEntry| e@)
}

/// The entry that a context makes; none where it has no body.
pub open spec fn entry_of(named: NamedView, current: Option<Seq<char>>) -> Option<EntryView> {
    match named.context {
        Some((cluster, user, namespace)) => Some(
            EntryView {
                id: named.name,
                cluster,
                user,
                namespace,
                is_current: current == Some(named.name),
            },
        ),
        None => None,
    }
}

pub open spec fn entry_reader(current: Option<Seq<char>>) -> spec_fn(NamedView) -> Option<
    EntryView,
> {
    |named: NamedView| entry_of(named, current)
}

/// What the contexts of a kubeconfig stand for.
pub open spec fn named_views(list: Seq<NamedContext>) -> Seq<NamedView> {
    list.map_values(|n: NamedContext| n@)
}

/// The entries of a kubeconfig, in its order.
pub open spec fn entries_of(config: Kubeconfig) -> Seq<EntryView> {
    kept(named_views(config.contexts@), entry_reader(held(config.current_context)))
}

impl ContextEntry {
    /// The namespace a fresh connection should start in.
    pub fn initial_namespace(&self) -> (r: &str)
        ensures
            r@ == (match self@.namespace {
                Some(namespace) => namespace,
                None => "default"@,
            }),
    {
        match &self.namespace {
            Some(namespace) => namespace.as_str(),
            None => "default",
        }
    }
}

/// Every context in the merged kubeconfig, in file order.
///
/// Order matters: users recognise their kubeconfig by its layout, so this is
/// never sorted.
#[derive(Debug, PartialEq, Eq)]
pub struct Contexts {
    entries: Vec<ContextEntry>,
}

impl View for Contexts {
    type V = Seq<EntryView>;

    closed spec fn view(&self) -> Seq<EntryView> {
        entry_views(self.entries@)
    }
}

impl Contexts {
    pub fn from_kubeconfig(kubeconfig: &Kubeconfig) -> (r: Contexts)
        ensures
            r@ == entries_of(*kubeconfig),
    {
        let ghost current = held(kubeconfig.current_context);
        let ghost all = named_views(kubeconfig.contexts@);
        let mut entries: Vec<ContextEntry> = Vec::new();
        let mut i: usize = 0;
        assert(entry_views(entries@) =~= Seq::empty());
        proof {
            kept_bounds(all, entry_reader(current));
        }
        while i < kubeconfig.contexts.len()
            invariant
                i <= kubeconfig.contexts.len(),
                all == named_views(kubeconfig.contexts@),
                current == held(kubeconfig.current_context),
                entry_views(entries@) == kept(all.take(i as int), entry_reader(current)),
            decreases kubeconfig.contexts.len() - i,
        {
            let named = &kubeconfig.contexts[i];
            proof {
                kept_next(all, i as int, entry_reader(current));
                assert(all[i as int] == named@);
            }
            // A context without a body is malformed; kubectl ignores it rather
            // than failing the whole file.
            if let Some(context) = &named.context {
                let is_current = match &kubeconfig.current_context {
                    Some(current) => same(current.as_str(), named.name.as_str()),
                    None => false,
                };
                let entry = ContextEntry {
                    id: ClusterId::new(named.name.as_str()),
                    cluster: context.cluster.clone(),
                    user: context.user.clone(),
                    namespace: context.namespace.clone(),
                    is_current,
                };
                let ghost before = entries@;
                let ghost added = entry@;
                entries.push(entry);
                assert(entry_views(entries@) =~= entry_views(before).push(added));
            }
            i += 1;
        }
        Contexts { entries }
    }

    pub fn entries(&self) -> (r: &Vec<ContextEntry>)
        ensures
            entry_views(r@) == self@,
    {
        &self.entries
    }

    /// The first entry that is current.
    pub fn current(&self) -> (r: Option<&ContextEntry>)
        ensures
            match r {
                Some(entry) => exists|i: int|
                    0 <= i < self@.len() && self@[i] == entry@ && self@[i].is_current && forall|
                        k: int,
                    |
                        0 <= k < i ==> !(#[trigger] self@[k]).is_current,
                None => forall|k: int| 0 <= k < self@.len() ==> !(#[trigger] self@[k]).is_current,
            },
    {
        let mut i: usize = 0;
        while i < self.entries.len()
            invariant
                i <= self.entries.len(),
                self@.len() == self.entries@.len(),
                forall|k: int| 0 <= k < i ==> !(#[trigger] self@[k]).is_current,
            decreases self.entries.len() - i,
        {
            assert(self@[i as int] == self.entries@[i as int]@);
            if self.entries[i].is_current {
                return Some(&self.entries[i]);
            }
            i += 1;
        }
        None
    }

    /// The first entry of a cluster.
    pub fn get(&self, id: &ClusterId) -> (r: Option<&ContextEntry>)
        ensures
            match r {
                Some(entry) => exists|i: int|
                    0 <= i < self@.len() && self@[i] == entry@ && self@[i].id == id@ && forall|
                        k: int,
                    |
                        0 <= k < i ==> (#[trigger] self@[k]).id != id@,
                None => forall|k: int| 0 <= k < self@.len() ==> (#[trigger] self@[k]).id != id@,
            },
    {
        let mut i: usize = 0;
        while i < self.entries.len()
            invariant
                i <= self.entries.len(),
                self@.len() == self.entries@.len(),
                forall|k: int| 0 <= k < i ==> (#[trigger] self@[k]).id != id@,
            decreases self.entries.len() - i,
        {
            assert(self@[i as int] == self.entries@[i as int]@);
            if self.entries[i].id.same(id) {
                return Some(&self.entries[i]);
            }
            i += 1;
        }
        None
    }

    pub fn is_empty(&self) -> (r: bool)
        ensures
            r == (self@.len() == 0),
    {
        self.entries.len() == 0
    }
}

} // verus!
