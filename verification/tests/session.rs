use beacon::k8s::session::{Health, HealthState};

fn state() -> HealthState {
    HealthState::new(Health::Connected)
}

fn error() -> String {
    kube::runtime::watcher::Error::NoResourceVersion.to_string()
}

#[test]
fn one_failing_watch_degrades_the_session() {
    let mut state = state();
    let pods = state.reporter("Pod");

    state.failed(pods, &error());
    assert_eq!(state.health().label(), "Degraded");
    assert!(state.health().reason().unwrap().starts_with("Pod: "));

    state.healthy(pods);
    assert_eq!(state.health(), Health::Connected);
}

/// A watch retrying in a loop reports every attempt. Counting each one
/// would leave the session permanently degraded after it recovered.
#[test]
fn repeated_failures_from_one_watch_count_once() {
    let mut state = state();
    let pods = state.reporter("Pod");

    state.failed(pods, &error());
    state.failed(pods, &error());
    state.failed(pods, &error());
    state.healthy(pods);

    assert_eq!(state.health(), Health::Connected);
}

/// The session recovers only once every failing watch has.
#[test]
fn the_session_recovers_with_the_last_watch() {
    let mut state = state();
    let pods = state.reporter("Pod");
    let nodes = state.reporter("Node");

    state.failed(pods, &error());
    state.failed(nodes, &error());

    state.healthy(pods);
    assert_eq!(state.health().label(), "Degraded");

    state.healthy(nodes);
    assert_eq!(state.health(), Health::Connected);
}

/// Navigating away aborts a watch wherever it happens to be, including in
/// the middle of failing.
#[test]
fn dropping_a_failing_watch_clears_its_failure() {
    let mut state = state();

    let pods = state.reporter("Pod");
    state.failed(pods, &error());
    assert_eq!(state.health().label(), "Degraded");

    state.ended(pods);
    assert_eq!(state.health(), Health::Connected);
}

/// The session is degraded exactly as long as some watch is failing.
#[test]
fn health_follows_the_watches() {
    let mut state = HealthState::new(Health::Connecting);
    assert_eq!(state.health(), Health::Connecting);
    let pods = state.reporter("Pod");
    let nodes = state.reporter("Node");
    state.healthy(pods);
    assert_eq!(state.health(), Health::Connecting, "nothing was failing");
    state.failed(pods, "first");
    state.failed(nodes, "second");
    assert_eq!(
        state.health(),
        Health::Degraded {
            reason: "Node: second".into()
        }
    );
    state.ended(pods);
    assert_eq!(state.health().label(), "Degraded");
    state.ended(nodes);
    assert_eq!(state.health(), Health::Connected);
}
