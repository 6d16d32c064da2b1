use beacon::k8s::shell_env::{attempts, changed_path, extract, merge_paths, script, MARKER};

#[test]
fn the_answer_survives_a_chatty_rc_file() {
    let stdout = format!("Welcome!\nnode: v22\n{MARKER}/opt/homebrew/bin:/usr/bin{MARKER}");
    assert_eq!(extract(&stdout).unwrap(), "/opt/homebrew/bin:/usr/bin");
}

#[test]
fn output_without_markers_is_not_a_path() {
    // A shell that died before running the script prints its own error,
    // and taking that as PATH would be worse than keeping what we have.
    assert!(extract("zsh: can't find terminal definition").is_none());
}

#[test]
fn a_half_written_answer_is_refused() {
    assert!(extract(&format!("{MARKER}/opt/homebrew/bin")).is_none());
}

#[test]
fn an_empty_path_is_not_an_answer() {
    assert!(extract(&format!("{MARKER}{MARKER}")).is_none());
}

#[test]
fn shell_entries_come_first() {
    let merged = merge_paths("/opt/homebrew/bin:/usr/bin", "/usr/bin:/bin").unwrap();
    assert_eq!(merged, "/opt/homebrew/bin:/usr/bin:/bin");
}

#[test]
fn keeps_entries_the_shell_did_not_report() {
    let merged = merge_paths("/usr/bin", "/usr/bin:/my/project/bin").unwrap();
    assert_eq!(merged, "/usr/bin:/my/project/bin");
}

#[test]
fn does_not_duplicate_entries() {
    let merged = merge_paths("/usr/bin:/bin", "/bin:/usr/bin").unwrap();
    assert_eq!(merged, "/usr/bin:/bin");
}

#[test]
fn identical_paths_are_a_noop() {
    assert!(merge_paths("/usr/bin:/bin", "/usr/bin:/bin").is_none());
}

#[test]
fn ignores_empty_segments() {
    let merged = merge_paths("/usr/bin::", ":/bin:").unwrap();
    assert_eq!(merged, "/usr/bin:/bin");
}

#[test]
fn the_script_prints_the_path_between_markers() {
    assert_eq!(
        script(),
        format!("printf '%s%s%s' '{MARKER}' \"$PATH\" '{MARKER}'")
    );
}

#[test]
fn a_shell_is_asked_twice() {
    assert_eq!(attempts(Some("/bin/zsh")), [vec!["-i", "-l", "-c"], vec!["-l", "-c"]]);
    assert!(attempts(Some("")).is_empty());
    assert!(attempts(None).is_empty());
}

/// Merging keeps every entry of both, and the shell's come first.
#[test]
fn merging_keeps_what_either_has() {
    let merged = merge_paths("/b:/a", "/c::/a").unwrap();
    assert_eq!(merged, "/b:/a:/c");
}

/// A path that stays as it is is none to take on.
#[test]
fn only_another_path_is_taken_on() {
    assert_eq!(changed_path("/usr/bin", "/usr/bin:/my/project/bin"), None);
    assert_eq!(changed_path("/usr/bin:/bin", "/usr/bin:/bin"), None);
    assert_eq!(
        changed_path("/opt/bin", "/usr/bin").as_deref(),
        Some("/opt/bin:/usr/bin")
    );
}
