//! What the client knows of a cluster.
use vstd::prelude::*;

use crate::base::text::same;

pub mod access;
pub mod config;
pub mod connection;
pub mod discovery;
pub mod error;
pub mod exec;
pub mod forward;
pub mod helm;
pub mod laws;
pub mod logs;
pub mod metrics;
pub mod ops;
pub mod resources;
pub mod session;
pub mod shell_env;
pub mod store;
pub mod terminal;
pub mod text_laws;
pub mod watch;

verus! {

/// Identifies one cluster connection. This is the kubeconfig context name,
/// which is the only identifier the user actually recognises.
#[derive(Debug, PartialEq, Eq, PartialOrd, Ord, Hash)]
pub struct ClusterId(String);

impl View for ClusterId {
    type V = Seq<char>;

    closed spec fn view(&self) -> Seq<char> {
        self.0@
    }
}

impl ClusterId {
    pub fn new(context_name: &str) -> (r: ClusterId)
        ensures
            r@ == context_name@,
    {
        ClusterId(context_name.to_owned())
    }

    pub fn as_str(&self) -> (r: &str)
        ensures
            r@ == self@,
    {
        self.0.as_str()
    }

    /// Whether two name the same cluster.
    pub fn same(&self, other: &ClusterId) -> (r: bool)
        ensures
            r == (self@ == other@),
    {
        same(self.0.as_str(), other.0.as_str())
    }

    /// A copy.
    pub fn copy(&self) -> (r: ClusterId)
        ensures
            r@ == self@,
    {
        ClusterId(self.0.clone())
    }
}

} // verus!
