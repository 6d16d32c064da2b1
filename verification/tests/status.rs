use beacon::ui::status::tone;
use beacon::ui::theme::Tone;

#[test]
fn the_common_states() {
    assert_eq!(tone("Running"), Tone::Healthy);
    assert_eq!(tone("Pending"), Tone::Progressing);
    assert_eq!(tone("CrashLoopBackOff"), Tone::Critical);
    assert_eq!(tone("ImagePullBackOff"), Tone::Warning);
}

/// Half the rows of a cluster running CronJobs are completed pods. They are
/// fine, and colouring them green would drown out the ones that are not.
#[test]
fn a_finished_pod_is_not_highlighted() {
    assert_eq!(tone("Completed"), Tone::Unknown);
    assert_eq!(tone("Succeeded"), Tone::Unknown);
}

/// `Init:` covers both progress and failure, and they must not look alike.
#[test]
fn initialization_separates_progress_from_failure() {
    assert_eq!(tone("Init:0/3"), Tone::Progressing);
    assert_eq!(tone("Init:2/2"), Tone::Progressing);
    assert_eq!(tone("Init:ImagePullBackOff"), Tone::Warning);
    assert_eq!(tone("Init:CrashLoopBackOff"), Tone::Critical);
    assert_eq!(tone("Init:ExitCode:1"), Tone::Critical);
    assert_eq!(tone("Init:Signal:9"), Tone::Critical);
}

#[test]
fn a_container_that_died_unexplained_is_critical() {
    assert_eq!(tone("ExitCode:137"), Tone::Critical);
    assert_eq!(tone("Signal:9"), Tone::Critical);
}

/// New waiting reasons appear with every Kubernetes release. Whatever they
/// are, they must not arrive pretending to be healthy.
#[test]
fn an_unrecognised_status_is_unknown() {
    assert_eq!(tone("SomeNewKubeletReason"), Tone::Unknown);
    assert_eq!(tone(""), Tone::Unknown);
}
