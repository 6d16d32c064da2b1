use beacon::k8s::error::Error;
use beacon::k8s::exec::{
    abandoned, check, failure_message, finished, rendered, split, wants_more, Output, Status,
    MAX_OUTPUT,
};

fn status(state: &str, reason: Option<&str>, message: &str) -> Status {
    Status {
        status: Some(state.to_string()),
        reason: reason.map(str::to_string),
        message: Some(message.to_string()),
    }
}

#[test]
fn a_command_splits_on_whitespace() {
    assert_eq!(split("ls -la /etc"), ["ls", "-la", "/etc"]);
    assert_eq!(split("  env  "), ["env"]);
    assert!(split("").is_empty());
    assert!(split("   ").is_empty());
}

/// Paths have spaces in them, so quoting has to work even though this is
/// not a shell.
#[test]
fn quoting_keeps_an_argument_together() {
    assert_eq!(
        split(r#"cat "/etc/my config.yaml""#),
        ["cat", "/etc/my config.yaml"]
    );
    assert_eq!(
        split("sh -c 'echo hello world'"),
        ["sh", "-c", "echo hello world"]
    );
}

/// An empty string is an argument. Dropping it silently would change what
/// the command means.
#[test]
fn an_empty_quoted_argument_survives() {
    assert_eq!(split(r#"sh -c "" x"#), ["sh", "-c", "", "x"]);
}

#[test]
fn quotes_inside_a_word_do_not_split_it() {
    assert_eq!(split(r#"echo a"b c"d"#), ["echo", "ab cd"]);
}

/// A command that could not start says so only on the status channel.
/// Without reading it, `ls` in a distroless image looks identical to a
/// command that ran and printed nothing.
#[test]
fn a_command_that_could_not_start_is_reported() {
    let failed = status(
        "Failure",
        Some("InternalError"),
        "exec: \"ls\": executable file not found in $PATH",
    );
    assert!(
        failure_message(&failed)
            .expect("a message")
            .contains("executable file not found")
    );
}

/// A command that ran and exited non-zero has already written its own
/// diagnosis to stderr; repeating the status on top of it is noise.
#[test]
fn a_non_zero_exit_is_left_to_stderr() {
    assert!(
        failure_message(&status(
            "Failure",
            Some("NonZeroExitCode"),
            "command terminated with non-zero exit code"
        ))
        .is_none()
    );
}

#[test]
fn a_successful_command_has_no_failure_message() {
    assert!(failure_message(&status("Success", None, "")).is_none());
    assert!(failure_message(&Status::default()).is_none());
}

#[test]
fn output_reads_as_one_stream() {
    let only_out = Output {
        stdout: "hello".into(),
        ..Default::default()
    };
    assert_eq!(only_out.combined(), "hello");

    let both = Output {
        stdout: "hello".into(),
        stderr: "oh no".into(),
        note: None,
    };
    assert_eq!(both.combined(), "hello\noh no");

    assert!(Output::default().is_empty());
    assert_eq!(Output::default().combined(), "");
}

/// Whatever does not hold a quote stays one argument between quotes.
#[test]
fn quoted_text_is_one_word() {
    for text in ["", "a b", "it's", "tab\there", "\u{3000}"] {
        assert_eq!(split(&format!("\"{text}\"")), [text]);
    }
    assert_eq!(split("plain"), ["plain"]);
}

#[test]
fn an_unclosed_quote_runs_to_the_end() {
    assert_eq!(split("echo 'a b"), ["echo", "a b"]);
    assert_eq!(split("'"), [""]);
}

#[test]
fn an_empty_command_is_refused() {
    assert!(check(&vec!["ls".to_string()]).is_ok());
    assert_eq!(
        check(&Vec::new()),
        Err(Error::Forward {
            what: "nothing to run".into(),
            cause: "the command was empty".into()
        })
    );
}

#[test]
fn output_is_cut_at_the_limit() {
    assert!(wants_more(&vec![0; MAX_OUTPUT - 1]));
    assert!(!wants_more(&vec![0; MAX_OUTPUT]));
    assert_eq!(rendered(vec![b'x'; MAX_OUTPUT + 7]).len(), MAX_OUTPUT);
    assert_eq!(rendered(vec![b'a', 0xff, b'b']), "a\u{fffd}b");
}

/// What the status channel says stands under what the command wrote.
#[test]
fn a_finished_command_reports_its_failure() {
    assert_eq!(
        finished("out".into(), "err".into(), None),
        Output {
            stdout: "out".into(),
            stderr: "err".into(),
            note: None
        }
    );
    let failed = finished(String::new(), String::new(), Some("no such file".into()));
    assert_eq!(failed.stderr, "no such file");
    assert_eq!(abandoned().note.as_deref(), Some("Stopped after 30s."));
}

#[test]
fn splitting_gives_back_quoted_arguments() {
    let arguments = ["cat", "", "/etc/my config.yaml", "it's", "  "];
    let quoted: Vec<String> = arguments.iter().map(|a| format!("\"{a}\"")).collect();
    assert_eq!(split(&quoted.join(" ")), arguments);
}
