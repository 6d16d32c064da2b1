use beacon::k8s::exec::{failure_message, Status};
use beacon::k8s::terminal::{closing, session_step, Heard, Next, TerminalEvent, SHELLS};

/// A container with no shell is the case this exists for: the session
/// opens, closes immediately, and the only explanation is on the status
/// channel.
#[test]
fn a_shell_that_could_not_start_is_reported() {
    let failed = Status {
        status: Some("Failure".into()),
        reason: Some("InternalError".into()),
        message: Some("exec: \"/bin/sh\": stat /bin/sh: no such file or directory".into()),
    };
    assert!(failure_message(&failed).is_some());

    // A shell that ran and exited is not a failure to report.
    let exited = Status {
        status: Some("Failure".into()),
        reason: Some("NonZeroExitCode".into()),
        message: Some("command terminated with non-zero exit code".into()),
    };
    assert!(failure_message(&exited).is_none());
}

/// Distroless images have no shell at all, so the list has to be tried
/// rather than assumed.
#[test]
fn the_shell_list_starts_with_the_nicest_one() {
    assert_eq!(SHELLS[0], "/bin/bash");
    assert!(SHELLS.contains(&"/bin/sh"));
}

#[test]
fn a_session_ends_with_what_the_status_says() {
    let failed = Status {
        status: Some("Failure".into()),
        reason: None,
        message: Some("no shell".into()),
    };
    assert_eq!(closing(Some(&failed)), TerminalEvent::Failed("no shell".into()));
    assert_eq!(closing(Some(&Status::default())), TerminalEvent::Closed);
    assert_eq!(closing(None), TerminalEvent::Closed);
}

#[test]
fn a_session_ends_for_one_of_these_reasons() {
    let failed = |text: &str| Next::Fail(TerminalEvent::Failed(text.to_string()));
    assert_eq!(session_step(Heard::Refused("403".into())), failed("403"));
    assert_eq!(
        session_step(Heard::NoStreams),
        failed("the API server did not open a terminal")
    );
    assert_eq!(session_step(Heard::Output(Vec::new())), Next::Close);
    assert_eq!(session_step(Heard::Unreadable), Next::Close);
    assert_eq!(session_step(Heard::Typed(None)), Next::Close);
    assert_eq!(session_step(Heard::Written(false)), Next::Close);
    assert_eq!(session_step(Heard::Told(false)), Next::Leave);
}

#[test]
fn a_session_carries_both_ways() {
    assert_eq!(
        session_step(Heard::Output(b"hi".to_vec())),
        Next::Tell(TerminalEvent::Output(b"hi".to_vec()))
    );
    assert_eq!(
        session_step(Heard::Typed(Some(b"ls".to_vec()))),
        Next::Write(b"ls".to_vec())
    );
    assert_eq!(session_step(Heard::Size(Some((80, 24)))), Next::Resize(80, 24));
    assert_eq!(session_step(Heard::Size(None)), Next::Wait);
    assert_eq!(session_step(Heard::Written(true)), Next::Wait);
    assert_eq!(session_step(Heard::Told(true)), Next::Wait);
}
