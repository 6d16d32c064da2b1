use beacon::k8s::config::{Context, Contexts, Kubeconfig, NamedContext};
use beacon::k8s::session::Health;
use beacon::k8s::ClusterId;
use beacon::ui::app::{tab_prefix, BeaconApp, Routed, TabState};
use beacon::ui::palette::{Action, Choice};
use beacon::ui::theme::Tone;

fn id(name: &str) -> ClusterId {
    ClusterId::new(name)
}

fn contexts() -> Contexts {
    Contexts::from_kubeconfig(&Kubeconfig {
        current_context: Some("staging".into()),
        contexts: ["prod", "staging", "dev"]
            .map(|name| NamedContext {
                name: name.into(),
                context: Some(Context {
                    cluster: format!("{name}-cluster"),
                    user: None,
                    namespace: (name == "prod").then_some("payments".to_string()),
                }),
            })
            .into_iter()
            .collect(),
    })
}

fn app() -> BeaconApp {
    BeaconApp::new(Ok(contexts())).0
}

fn clusters(app: &BeaconApp) -> Vec<&str> {
    app.tabs().iter().map(|tab| tab.cluster.as_str()).collect()
}

#[test]
fn a_window_opens_on_the_current_context() {
    let (app, request) = BeaconApp::new(Ok(contexts()));
    assert_eq!(clusters(&app), ["staging"]);
    let request = request.expect("a connection has to be made");
    assert_eq!(request.cluster, id("staging"));
    assert_eq!(request.tab, app.tabs()[0].id);
    assert_eq!(app.clusters(), [id("prod"), id("staging"), id("dev")]);
    assert_eq!(app.namespace_for(&id("prod")).as_deref(), Some("payments"));

    let (app, request) = BeaconApp::new(Err("no kubeconfig".into()));
    assert!(app.tabs().is_empty() && request.is_none());
    assert!(app.clusters().is_empty());
    assert_eq!(app.body().map(|(_, _, text)| text).as_deref(), Some("no kubeconfig"));
}

/// Going to a cluster that has a tab brings that tab up.
#[test]
fn going_somewhere_twice_opens_one_tab() {
    let mut app = app();
    assert!(app.go_to(id("prod")).is_some());
    assert_eq!(clusters(&app), ["staging", "prod"]);
    assert_eq!(app.active(), 1);
    app.go_to(id("staging"));
    assert_eq!(app.active(), 0);
    app.go_to(id("prod"));
    assert_eq!((clusters(&app).len(), app.active()), (2, 1));
}

#[test]
fn a_connection_that_is_known_is_not_made_again() {
    let mut app = app();
    let tab = app.tabs()[0].id;
    assert!(app.finish(tab, &id("staging"), Ok(())));
    assert!(matches!(app.tabs()[0].state, TabState::Connected { visible: true }));
    assert!(app.open(id("staging")).is_none(), "there is a session already");
    assert_eq!(clusters(&app), ["staging", "staging"]);
}

#[test]
fn a_failed_connection_stays_in_its_tab() {
    let mut app = app();
    let tab = app.tabs()[0].id;
    app.finish(tab, &id("staging"), Err("refused".into()));
    assert!(matches!(&app.tabs()[0].state, TabState::Failed(error) if error == "refused"));
    assert_eq!(
        app.body().map(|(tone, _, text)| (tone, text)),
        Some((Tone::Critical, "refused".to_string()))
    );
}

/// The answer for a tab that was closed or pointed elsewhere meanwhile is not
/// shown in it.
#[test]
fn a_late_answer_is_not_shown() {
    let mut app = app();
    let tab = app.tabs()[0].id;
    app.retarget(id("prod"));
    assert!(!app.finish(tab, &id("staging"), Ok(())));
    assert!(matches!(app.tabs()[0].state, TabState::Connecting));
    app.close(0);
    assert!(!app.finish(tab, &id("prod"), Ok(())));
}

#[test]
fn stepping_wraps_around() {
    let mut app = app();
    app.open(id("prod"));
    app.open(id("dev"));
    assert_eq!(app.active(), 2);
    app.step(true);
    assert_eq!(app.active(), 0);
    app.step(false);
    assert_eq!(app.active(), 2);
}

/// Closing another tab keeps the one in front in front.
#[test]
fn closing_keeps_the_front() {
    let mut app = app();
    app.open(id("prod"));
    app.open(id("dev"));
    app.activate(1);
    app.close(0);
    assert_eq!(clusters(&app)[app.active()], "prod");
    let last = app.tabs()[1].id;
    app.close_tab(last);
    assert_eq!(clusters(&app), ["prod"]);
    app.close(0);
    assert!(app.tabs().is_empty());
}

#[test]
fn a_new_tab_is_on_the_same_cluster() {
    let mut app = app();
    app.go_to(id("prod"));
    app.new_tab();
    assert_eq!(clusters(&app), ["staging", "prod", "prod"]);
    assert_ne!(app.tabs()[1].id, app.tabs()[2].id);
    assert_eq!(app.index_of(app.tabs()[2].id), Some(2));
    assert_eq!(app.index_of(99), None);
}

#[test]
fn a_pick_goes_where_it_belongs() {
    let mut app = app();
    app.toggle_palette();
    assert!(app.palette_open());
    app.dismiss_palette();
    assert!(!app.palette_open());
    app.toggle_palette();
    assert!(matches!(app.route(Choice::Namespace(None)), Routed::Nowhere));
    assert!(!app.palette_open(), "picking closes the palette");

    let tab = app.tabs()[0].id;
    app.finish(tab, &id("staging"), Ok(()));
    assert!(matches!(app.route(Choice::Namespace(None)), Routed::View(_)));
    assert!(matches!(
        app.route(Choice::Action(Action::ToggleTheme)),
        Routed::ToggleTheme
    ));
    assert!(matches!(
        app.route(Choice::Cluster(id("prod"))),
        Routed::Went(Some(_))
    ));
    assert_eq!(clusters(&app)[app.active()], "prod");

    assert!(matches!(
        app.route(Choice::Action(Action::NewTab)),
        Routed::Went(Some(_))
    ));
    assert_eq!(clusters(&app), ["staging", "prod", "prod"]);
    assert!(matches!(
        app.route(Choice::Action(Action::CloseTab)),
        Routed::Went(None)
    ));
    assert_eq!(clusters(&app), ["staging", "prod"]);
}

/// Closing a tab keeps the connection, so that coming back is instant.
#[test]
fn a_closed_tab_leaves_its_session() {
    let mut app = app();
    let tab = app.tabs()[0].id;
    app.finish(tab, &id("staging"), Ok(()));
    app.close(0);
    assert!(app.go_to(id("staging")).is_none(), "there is nothing to connect");
    assert!(app.body().is_none(), "and it is on screen");
}

#[test]
fn the_status_bar_reads_the_session() {
    let mut app = app();
    assert_eq!(
        app.status("", &Health::Connecting, 0, 0),
        (Tone::Progressing, "connecting".to_string())
    );
    let tab = app.tabs()[0].id;
    app.finish(tab, &id("staging"), Ok(()));
    assert_eq!(
        app.status("https://staging", &Health::Connected, 2, 0),
        (Tone::Healthy, "https://staging · Connected · 2 watches".to_string())
    );
    app.open(id("staging"));
    let degraded = Health::Degraded {
        reason: "Pod: gone".into(),
    };
    assert_eq!(
        app.status("https://staging", &degraded, 2, 1),
        (
            Tone::Warning,
            "https://staging · Degraded — Pod: gone · 2 watches · 2 tabs · 1 forwarding"
                .to_string()
        )
    );
}

#[test]
fn a_tab_says_how_it_is_doing() {
    assert_eq!(tab_prefix(&TabState::Connecting, "Pod"), "connecting ·");
    assert_eq!(tab_prefix(&TabState::Failed("x".into()), "Pod"), "unreachable ·");
    assert_eq!(tab_prefix(&TabState::Connected { visible: true }, "Pod"), "Pod ·");
}
