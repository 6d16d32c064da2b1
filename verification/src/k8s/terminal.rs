//! An interactive shell in a container.
use vstd::prelude::*;

use crate::k8s::exec::{failure_message, start_failure, Status};

verus! {

/// What the container wrote, and what became of the session.
#[derive(Debug, PartialEq, Eq)]
pub enum TerminalEvent {
    Output(Vec<u8>),
    /// The shell exited, which ends the session.
    Closed,
    Failed(String),
}

/// The commands a shell session starts with.
///
/// Tried in order, because a container may have neither: distroless images have
/// no shell at all, and `bash` is far from universal.
pub const SHELLS: [&'static str; 3] = ["/bin/bash", "/bin/sh", "sh"];

/// What a session hears of.
#[derive(Debug, PartialEq, Eq)]
pub enum Heard {
    /// The API server did not run the command.
    Refused(String),
    /// It did, but opened no stream to write to or none to read from.
    NoStreams,
    /// Something came from the shell; nothing is the end of its output.
    Output(Vec<u8>),
    /// Its output could not be read.
    Unreadable,
    /// Keystrokes; none are to come where there are none.
    Typed(Option<Vec<u8>>),
    /// Whether keystrokes could be written.
    Written(bool),
    /// Another size of the pane; none are to come where there is none.
    Size(Option<(u16, u16)>),
    /// Whether the pane took what it was told.
    Told(bool),
}

/// What a session does next.
#[derive(Debug, PartialEq, Eq)]
pub enum Next {
    /// Wait for whatever is next.
    Wait,
    /// Tell the pane, and go on.
    Tell(TerminalEvent),
    /// Tell the pane, and be done.
    Fail(TerminalEvent),
    /// Write keystrokes to the shell.
    Write(Vec<u8>),
    /// Tell the container how big the pane is.
    Resize(u16, u16),
    /// Ask how the shell ended, and tell the pane what [`closing`] makes of it.
    Close,
    /// Be done without a word: the pane is gone, and dropping everything is what
    /// ends the shell.
    Leave,
}

/// What a session does about what it hears: the end of the output, keystrokes
/// that cannot be written and a closed input end it, a pane that is gone ends it
/// silently.
pub fn session_step(heard: Heard) -> (r: Next)
    ensures
        match heard {
            Heard::Refused(error) => r == Next::Fail(TerminalEvent::Failed(error)),
            Heard::NoStreams => r matches Next::Fail(TerminalEvent::Failed(error)) && error@
                == "the API server did not open a terminal"@,
            Heard::Output(bytes) => if bytes@.len() == 0 {
                r is Close
            } else {
                r == Next::Tell(TerminalEvent::Output(bytes))
            },
            Heard::Unreadable => r is Close,
            Heard::Typed(Some(bytes)) => r == Next::Write(bytes),
            Heard::Typed(None) => r is Close,
            Heard::Written(done) => if done {
                r is Wait
            } else {
                r is Close
            },
            Heard::Size(Some((columns, rows))) => r == Next::Resize(columns, rows),
            Heard::Size(None) => r is Wait,
            Heard::Told(taken) => if taken {
                r is Wait
            } else {
                r is Leave
            },
        },
{
    match heard {
        Heard::Refused(error) => Next::Fail(TerminalEvent::Failed(error)),
        Heard::NoStreams => Next::Fail(
            TerminalEvent::Failed("the API server did not open a terminal".to_owned()),
        ),
        Heard::Output(bytes) => if bytes.len() == 0 {
            Next::Close
        } else {
            Next::Tell(TerminalEvent::Output(bytes))
        },
        Heard::Unreadable => Next::Close,
        Heard::Typed(Some(bytes)) => Next::Write(bytes),
        Heard::Typed(None) => Next::Close,
        Heard::Written(done) => if done {
            Next::Wait
        } else {
            Next::Close
        },
        Heard::Size(Some((columns, rows))) => Next::Resize(columns, rows),
        Heard::Size(None) => Next::Wait,
        Heard::Told(taken) => if taken {
            Next::Wait
        } else {
            Next::Leave
        },
    }
}

/// What becomes of a session whose stream has ended: a shell that could not
/// start is a failure, one that exited, with whatever code, is an ordinary
/// ending.
pub fn closing(status: Option<&Status>) -> (r: TerminalEvent)
    ensures
        match status {
            Some(status) => match start_failure(*status) {
                Some(message) => r matches TerminalEvent::Failed(text) && text@ == message,
                None => r is Closed,
            },
            None => r is Closed,
        },
{
    match status {
        Some(status) => match failure_message(status) {
            Some(message) => TerminalEvent::Failed(message),
            None => TerminalEvent::Closed,
        },
        None => TerminalEvent::Closed,
    }
}

} // verus!
