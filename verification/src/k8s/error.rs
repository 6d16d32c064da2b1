//! What went wrong, written for somebody who has to fix it.
use vstd::prelude::*;
use vstd::string::*;

use crate::base::text::{contains, each, join, joined, occurs, three, two};
use crate::k8s::ClusterId;

verus! {

/// The failures of the client.
#[derive(Debug, PartialEq, Eq)]
pub enum Error {
    NoKubeconfig { searched: Vec<String> },
    Kubeconfig(String),
    UnknownContext(String),
    Api(String),
    Forward { what: String, cause: String },
    /// A connection attempt that failed, already carrying everything needed to
    /// act on it. See [`diagnose`].
    Connect { context: String, diagnosis: String },
}

/// A text in quotes, with what cannot be printed escaped.
pub uninterp spec fn quoted(text: Seq<char>) -> Seq<char>;

/// `str`'s `Debug`, through `format!`, under a name.
#[verifier::external_body]
fn quote(text: &str) -> (r: String)
    ensures
        r@ == quoted(text@),
{
    format!("{text:?}")
}

/// Each text in quotes.
pub open spec fn quoted_all(list: Seq<Seq<char>>) -> Seq<Seq<char>> {
    list.map_values(|s: Seq<char>| quoted(s))
}

/// What an error says.
pub open spec fn message_of(e: Error) -> Seq<char> {
    match e {
        Error::NoKubeconfig { searched } => "no kubeconfig found (looked at ["@ + joined(
            quoted_all(each(searched@)),
            ", "@,
        ) + "]); set KUBECONFIG or create ~/.kube/config"@,
        Error::Kubeconfig(cause) => "failed to read kubeconfig: "@ + cause@,
        Error::UnknownContext(context) => "context "@ + quoted(context@)
            + " is not present in the kubeconfig"@,
        Error::Api(cause) => "kubernetes api: "@ + cause@,
        Error::Forward { what, cause } => what@ + ": "@ + cause@,
        Error::Connect { context, diagnosis } => "could not connect to "@ + context@ + (": "@
            + diagnosis@),
    }
}

/// Why authentication failed, as far as it matters to the reader.
#[derive(Debug, Clone, Copy, PartialEq, Eq, Structural)]
pub enum AuthFailure {
    /// The credential plugin could not be started.
    ExecStart,
    /// The credential plugin ran and failed.
    ExecRun,
    /// The kubeconfig names a plugin without a command.
    MissingCommand,
    /// Anything else.
    Other,
}

/// One error of a chain: what it says, and how authentication failed where it
/// is such a failure.
#[derive(Debug, PartialEq, Eq)]
pub struct Cause {
    pub message: String,
    pub auth: Option<AuthFailure>,
}

/// What the errors of a chain say.
pub open spec fn messages(chain: Seq<Cause>) -> Seq<Seq<char>> {
    chain.map_values(|c: Cause| c.message@)
}

/// What is left of a chain of messages: the first, and each that the last one
/// left does not already contain.
pub open spec fn distinct(chain: Seq<Seq<char>>) -> Seq<Seq<char>>
    decreases chain.len(),
{
    if chain.len() <= 1 {
        chain
    } else {
        let front = distinct(chain.drop_last());
        if occurs(chain.last(), front.last()) {
            front
        } else {
            front.push(chain.last())
        }
    }
}

/// Whether the first authentication failure of a chain from `k` on is that of a
/// credential plugin.
pub open spec fn exec_failure(chain: Seq<Cause>, k: int) -> bool
    decreases chain.len() - k,
{
    if k >= chain.len() {
        false
    } else {
        match chain[k].auth {
            Some(AuthFailure::Other) => false,
            Some(_) => true,
            None => exec_failure(chain, k + 1),
        }
    }
}

/// What a chain of errors says, with the search path where a credential plugin
/// was not run.
pub open spec fn diagnosis_of(chain: Seq<Cause>, path: Option<Seq<char>>) -> Seq<char> {
    let said = joined(distinct(messages(chain)), ": "@);
    if exec_failure(chain, 0) {
        said + ("\nthis context authenticates with an exec credential plugin, and Beacon searched PATH="@
            + (match path {
            Some(path) => path,
            None => "<unset>"@,
        }))
    } else {
        said
    }
}

/// Whether the failure was a kubeconfig `exec` plugin that could not be run.
pub fn is_exec_plugin_failure(chain: &Vec<Cause>) -> (r: bool)
    ensures
        r == exec_failure(chain@, 0),
{
    let mut i: usize = 0;
    while i < chain.len()
        invariant
            i <= chain.len(),
            exec_failure(chain@, 0) == exec_failure(chain@, i as int),
        decreases chain.len() - i,
    {
        if let Some(auth) = chain[i].auth {
            return match auth {
                AuthFailure::Other => false,
                _ => true,
            };
        }
        i += 1;
    }
    false
}

/// Renders an error the way somebody who has to fix it needs to read it: the
/// whole chain, without the causes that restate what was just said. `chain`
/// starts with the error itself; `path` is the program search path.
pub fn diagnose(chain: &Vec<Cause>, path: Option<&str>) -> (out: String)
    ensures
        out@ == diagnosis_of(chain@, crate::base::text::lent(path)),
{
    let ghost all = messages(chain@);
    let mut said: Vec<String> = Vec::new();
    let mut i: usize = 0;
    assert(each(said@) =~= distinct(all.take(0)));
    while i < chain.len()
        invariant
            i <= chain.len(),
            all == messages(chain@),
            each(said@) == distinct(all.take(i as int)),
            i > 0 ==> said@.len() > 0,
        decreases chain.len() - i,
    {
        let ghost next = all.take(i + 1);
        assert(next.drop_last() =~= all.take(i as int));
        assert(next.last() == chain@[i as int].message@);
        let ghost before = said@;
        if i == 0 {
            said.push(chain[i].message.clone());
            assert(each(said@) =~= next);
        } else {
            let last: usize = said.len() - 1;
            assert(each(said@).last() == said@[last as int]@);
            // An error that restates its cause verbatim makes the chain harder
            // to read, not easier.
            if !contains(said[last].as_str(), chain[i].message.as_str()) {
                said.push(chain[i].message.clone());
                assert(each(said@) =~= each(before).push(chain@[i as int].message@));
            }
        }
        i += 1;
    }
    assert(all.take(i as int) =~= all);
    let mut out = join(&said, ": ");
    if is_exec_plugin_failure(chain) {
        let path: &str = match path {
            Some(path) => path,
            None => "<unset>",
        };
        let hint = two(
            "\nthis context authenticates with an exec credential plugin, and Beacon searched PATH=",
            path,
        );
        out.append(hint.as_str());
    }
    out
}

impl Error {
    pub fn connect(context: &ClusterId, chain: &Vec<Cause>, path: Option<&str>) -> (r: Error)
        ensures
            r matches Error::Connect { context: named, diagnosis } && named@ == context@
                && diagnosis@ == diagnosis_of(chain@, crate::base::text::lent(path)),
    {
        Error::Connect {
            context: context.as_str().to_owned(),
            diagnosis: diagnose(chain, path),
        }
    }

    /// What the error says.
    pub fn message(&self) -> (out: String)
        ensures
            out@ == message_of(*self),
    {
        match self {
            Error::NoKubeconfig { searched } => {
                let mut parts: Vec<String> = Vec::new();
                let mut i: usize = 0;
                while i < searched.len()
                    invariant
                        i <= searched.len(),
                        parts@.len() == i,
                        forall|k: int|
                            0 <= k < i ==> (#[trigger] parts@[k])@ == quoted(searched@[k]@),
                    decreases searched.len() - i,
                {
                    parts.push(quote(searched[i].as_str()));
                    i += 1;
                }
                assert(each(parts@) =~= quoted_all(each(searched@)));
                three(
                    "no kubeconfig found (looked at [",
                    join(&parts, ", ").as_str(),
                    "]); set KUBECONFIG or create ~/.kube/config",
                )
            },
            Error::Kubeconfig(cause) => two("failed to read kubeconfig: ", cause.as_str()),
            Error::UnknownContext(context) => three(
                "context ",
                quote(context.as_str()).as_str(),
                " is not present in the kubeconfig",
            ),
            Error::Api(cause) => two("kubernetes api: ", cause.as_str()),
            Error::Forward { what, cause } => three(what.as_str(), ": ", cause.as_str()),
            Error::Connect { context, diagnosis } => three(
                "could not connect to ",
                context.as_str(),
                two(": ", diagnosis.as_str()).as_str(),
            ),
        }
    }
}

} // verus!
