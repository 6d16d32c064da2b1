//! Reading a status string as a colour.
//!
//! Kubernetes has no enum for this, and the set of values is open: any waiting
//! reason a kubelet invents ends up in it. So the mapping is a table of what is
//! known plus a rule for the rest, and the rule matters more than the table: an
//! unrecognised status must read as unknown, never as healthy.
use vstd::prelude::*;

use crate::base::text::{chars, same, starts_with, strip_prefix};
use crate::ui::theme::Tone;

verus! {

pub open spec fn is_healthy(status: Seq<char>) -> bool {
    status == "Running"@ || status == "Active"@ || status == "Bound"@ || status == "Ready"@
}

/// Finished and inert. Not a problem, but not worth the eye it would draw.
pub open spec fn is_finished(status: Seq<char>) -> bool {
    status == "Completed"@ || status == "Succeeded"@ || status == "Terminated"@
}

pub open spec fn is_progressing(status: Seq<char>) -> bool {
    status == "Pending"@ || status == "ContainerCreating"@ || status == "PodInitializing"@ || status
        == "Terminating"@ || status == "ContainerStatusUnknown"@ || status == "Released"@
}

/// Reachable, wrong, and usually the user's to fix.
pub open spec fn is_warning(status: Seq<char>) -> bool {
    status == "NotReady"@ || status == "Unknown"@ || status == "SchedulingGated"@ || status
        == "Evicted"@ || status == "NodeLost"@ || status == "ImagePullBackOff"@ || status
        == "ErrImagePull"@ || status == "ErrImageNeverPull"@ || status == "InvalidImageName"@
        || status == "CreateContainerConfigError"@ || status == "CreateContainerError"@ || status
        == "ContainerCannotRun"@
}

/// Failed, or a container that died without the kubelet naming a reason.
pub open spec fn is_critical(status: Seq<char>) -> bool {
    status == "Error"@ || status == "Failed"@ || status == "CrashLoopBackOff"@ || status
        == "OOMKilled"@ || status == "DeadlineExceeded"@ || status == "RunContainerError"@ || status
        == "StartError"@ || "ExitCode:"@.is_prefix_of(status) || "Signal:"@.is_prefix_of(status)
}

/// Whether everything from `k` on up to a slash, a colon or the end is a digit.
pub open spec fn counts_from(rest: Seq<char>, k: int) -> bool
    decreases rest.len() - k,
{
    if k >= rest.len() || rest[k] == '/' || rest[k] == ':' {
        true
    } else {
        '0' <= rest[k] && rest[k] <= '9' && counts_from(rest, k + 1)
    }
}

/// The tone of a status. Initialization has its own: `Init:ImagePullBackOff` is
/// a failure, `Init:1/3` is just progress.
pub open spec fn tone_of(status: Seq<char>) -> Tone
    decreases status.len(),
{
    if "Init:"@.is_prefix_of(status) && "Init:"@.len() > 0 {
        let rest = status.skip("Init:"@.len() as int);
        if counts_from(rest, 0) {
            Tone::Progressing
        } else {
            tone_of(rest)
        }
    } else if is_healthy(status) {
        Tone::Healthy
    } else if is_finished(status) {
        Tone::Unknown
    } else if is_progressing(status) {
        Tone::Progressing
    } else if is_warning(status) {
        Tone::Warning
    } else if is_critical(status) {
        Tone::Critical
    } else {
        Tone::Unknown
    }
}

fn counts(rest: &str) -> (r: bool)
    ensures
        r == counts_from(rest@, 0),
{
    let cs = chars(rest);
    let mut i: usize = 0;
    while i < cs.len()
        invariant
            i <= cs.len(),
            cs@ == rest@,
            counts_from(rest@, 0) == counts_from(rest@, i as int),
        decreases cs.len() - i,
    {
        if cs[i] == '/' || cs[i] == ':' {
            return true;
        }
        if !('0' <= cs[i] && cs[i] <= '9') {
            return false;
        }
        i += 1;
    }
    true
}

/// The tone for a value of the `Status` column.
pub fn tone(status: &str) -> (r: Tone)
    ensures
        r == tone_of(status@),
    decreases status@.len(),
{
    proof {
        reveal_strlit("Init:");
    }
    if let Some(rest) = strip_prefix(status, "Init:") {
        return if counts(rest.as_str()) {
            Tone::Progressing
        } else {
            tone(rest.as_str())
        };
    }
    if same(status, "Running") || same(status, "Active") || same(status, "Bound") || same(
        status,
        "Ready",
    ) {
        Tone::Healthy
    } else if same(status, "Completed") || same(status, "Succeeded") || same(status, "Terminated") {
        Tone::Unknown
    } else if same(status, "Pending") || same(status, "ContainerCreating") || same(
        status,
        "PodInitializing",
    ) || same(status, "Terminating") || same(status, "ContainerStatusUnknown") || same(
        status,
        "Released",
    ) {
        Tone::Progressing
    } else if same(status, "NotReady") || same(status, "Unknown") || same(status, "SchedulingGated")
        || same(status, "Evicted") || same(status, "NodeLost") || same(status, "ImagePullBackOff")
        || same(status, "ErrImagePull") || same(status, "ErrImageNeverPull") || same(
        status,
        "InvalidImageName",
    ) || same(status, "CreateContainerConfigError") || same(status, "CreateContainerError") || same(
        status,
        "ContainerCannotRun",
    ) {
        Tone::Warning
    } else if same(status, "Error") || same(status, "Failed") || same(status, "CrashLoopBackOff")
        || same(status, "OOMKilled") || same(status, "DeadlineExceeded") || same(
        status,
        "RunContainerError",
    ) || same(status, "StartError") || starts_with(status, "ExitCode:") || starts_with(
        status,
        "Signal:",
    ) {
        Tone::Critical
    } else {
        Tone::Unknown
    }
}

/// A status without the marks of initialization in front of it.
pub open spec fn without_init(status: Seq<char>) -> Seq<char>
    decreases status.len(),
{
    if "Init:"@.is_prefix_of(status) && "Init:"@.len() > 0 {
        without_init(status.skip("Init:"@.len() as int))
    } else {
        status
    }
}

/// Only a status that is known to be healthy reads as healthy.
pub proof fn unknown_never_reads_as_healthy(status: Seq<char>)
    requires
        tone_of(status) == Tone::Healthy,
    ensures
        is_healthy(without_init(status)),
    decreases status.len(),
{
    if "Init:"@.is_prefix_of(status) && "Init:"@.len() > 0 {
        unknown_never_reads_as_healthy(status.skip("Init:"@.len() as int));
    }
}

} // verus!
