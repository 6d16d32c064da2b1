//! What a colour says.
//!
//! No view picks a literal colour: it says how well something is doing, and how
//! that looks is decided here and nowhere else.
use vstd::prelude::*;

verus! {

/// How well something is doing.
#[derive(Debug, Clone, Copy, PartialEq, Eq, Structural)]
pub enum Tone {
    /// Running, Ready, Bound, Active.
    Healthy,
    /// Pending, ContainerCreating, Terminating, rolling out.
    Progressing,
    /// Reachable but not right: NotReady nodes, restart loops, evictions.
    Warning,
    /// Failed, CrashLoopBackOff, Error, disconnected.
    Critical,
    /// No information yet.
    Unknown,
}

/// A colour of the theme.
#[derive(Debug, Clone, Copy, PartialEq, Eq, Structural)]
pub enum Swatch {
    Background,
    Foreground,
    Muted,
    MutedForeground,
    Danger,
    Success,
    Warning,
    Primary,
    Info,
}

impl Tone {
    /// The colour of a status label.
    pub fn swatch(&self) -> (r: Swatch)
        ensures
            r == (match self {
                Tone::Healthy => Swatch::Success,
                Tone::Progressing => Swatch::Primary,
                Tone::Warning => Swatch::Warning,
                Tone::Critical => Swatch::Danger,
                Tone::Unknown => Swatch::MutedForeground,
            }),
    {
        match self {
            Tone::Healthy => Swatch::Success,
            Tone::Progressing => Swatch::Primary,
            Tone::Warning => Swatch::Warning,
            Tone::Critical => Swatch::Danger,
            Tone::Unknown => Swatch::MutedForeground,
        }
    }
}

} // verus!
