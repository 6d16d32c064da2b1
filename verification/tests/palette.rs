use std::sync::Arc;

use beacon::k8s::discovery::Kind;
use beacon::k8s::ops::Operation;
use beacon::k8s::resources::{ApiResource, GroupVersionKind};
use beacon::k8s::store::ObjectRef;
use beacon::k8s::ClusterId;
use beacon::ui::catalog::matcher;
use beacon::ui::palette::{
    rank, rank_scored, Action, Choice, Palette, PaletteEvent, Section, Sources,
};

fn kind(group: &str, name: &str) -> Arc<Kind> {
    Arc::new(Kind {
        resource: ApiResource::from_gvk_with_plural(
            &GroupVersionKind::gvk(group, "v1", name),
            &format!("{}s", name.to_lowercase()),
        ),
        namespaced: true,
        verbs: vec!["list".into(), "watch".into()],
    })
}

#[test]
fn a_prefix_chooses_the_section() {
    assert_eq!(Section::parse("api-7f9"), (Section::Objects, "api-7f9".to_string()));
    assert_eq!(Section::parse("@dep"), (Section::Kinds, "dep".to_string()));
    assert_eq!(Section::parse("#kube"), (Section::Namespaces, "kube".to_string()));
    assert_eq!(Section::parse(">theme"), (Section::Commands, "theme".to_string()));
    assert_eq!(Section::parse("ctx prod"), (Section::Clusters, "prod".to_string()));
}

/// A bare prefix is a section with no filter, which is how the palette
/// doubles as a menu.
#[test]
fn a_bare_prefix_lists_the_whole_section() {
    assert_eq!(Section::parse("@"), (Section::Kinds, "".to_string()));
    assert_eq!(Section::parse("#"), (Section::Namespaces, "".to_string()));
    assert_eq!(Section::parse(">"), (Section::Commands, "".to_string()));
    assert_eq!(Section::parse(""), (Section::Objects, "".to_string()));
}

/// `ctx` is three characters typed one at a time; the clusters should
/// appear on the third, not only after the space.
#[test]
fn the_cluster_prefix_works_before_its_space() {
    assert_eq!(Section::parse("ctx"), (Section::Clusters, "".to_string()));
    assert_eq!(Section::parse("ctx "), (Section::Clusters, "".to_string()));
    assert_eq!(Section::parse("ctx pro"), (Section::Clusters, "pro".to_string()));
}

/// A name that merely starts with those letters is not the prefix.
#[test]
fn a_word_starting_with_ctx_is_still_an_object() {
    assert_eq!(Section::parse("ctxd-api"), (Section::Objects, "ctxd-api".to_string()));
}

fn candidates() -> Vec<(String, Choice)> {
    vec![
        ("Pod".into(), Choice::Kind(kind("", "Pod"))),
        (
            "Deployment (apps)".into(),
            Choice::Kind(kind("apps", "Deployment")),
        ),
        (
            "DaemonSet (apps)".into(),
            Choice::Kind(kind("apps", "DaemonSet")),
        ),
    ]
}

fn labels(choices: &[Choice]) -> Vec<String> {
    choices
        .iter()
        .map(|choice| match choice {
            Choice::Kind(kind) => kind.display_name(),
            Choice::Action(action) => action.label().to_string(),
            other => format!("{other:?}"),
        })
        .collect()
}

#[test]
fn ranking_puts_the_best_match_first() {
    let found = rank(&candidates(), "dep", &mut matcher(), 50);
    assert_eq!(
        labels(&found).first().map(String::as_str),
        Some("Deployment (apps)")
    );
}

/// With nothing typed the section keeps the order it was given, which is
/// the sidebar's order for kinds.
#[test]
fn an_empty_query_preserves_the_given_order() {
    let found = rank(&candidates(), "", &mut matcher(), 50);
    assert_eq!(
        labels(&found),
        ["Pod", "Deployment (apps)", "DaemonSet (apps)"]
    );
}

/// A cluster with five thousand pods must not put five thousand rows in
/// front of somebody who has typed one character.
#[test]
fn the_list_is_capped() {
    let many: Vec<(String, Choice)> = (0..5_000)
        .map(|index| (format!("pod-{index:05}"), Choice::Kind(kind("", "Pod"))))
        .collect();

    assert_eq!(
        rank(&many, "", &mut matcher(), 50).len(),
        50
    );
    assert_eq!(
        rank(&many, "pod", &mut matcher(), 50).len(),
        50
    );
}

#[test]
fn a_query_matching_nothing_returns_nothing() {
    assert!(rank(&candidates(), "zzzz", &mut matcher(), 50).is_empty());
}

#[test]
fn every_action_is_reachable_from_the_command_section() {
    let candidates: Vec<(String, Choice)> = Action::ALL
        .iter()
        .map(|action| (action.label().to_string(), Choice::Action(*action)))
        .collect();

    for action in Action::ALL {
        let found = rank(
            &candidates,
            action.label(),
            &mut matcher(),
            50,
        );
        assert_eq!(
            labels(&found).first().map(String::as_str),
            Some(action.label()),
            "{action:?}"
        );
    }
}

#[test]
fn the_best_scores_come_first() {
    let found = rank_scored(&candidates(), &vec![Some(1), None, Some(2)], 50);
    assert_eq!(labels(&found), ["DaemonSet (apps)", "Pod"]);
    assert_eq!(rank_scored(&candidates(), &vec![Some(1); 3], 2).len(), 2);
}

fn sources() -> Sources {
    Sources {
        kinds: vec![kind("", "Pod"), kind("apps", "Deployment")],
        namespaces: vec!["default".into(), "kube-system".into()],
        clusters: vec![ClusterId::new("prod")],
        objects: vec![ObjectRef::new(Some("default".into()), "api")],
        operations: vec![beacon::ui::actions::Choice {
            operation: Operation::Delete,
            label: "Delete".into(),
            allowed: false,
            blocked_because: Some("no".into()),
        }],
        ports: vec![8080],
        current_kind: Some("Pod".into()),
    }
}

#[test]
fn a_section_lists_what_the_view_offers() {
    let mut palette = Palette::new();
    assert!(palette.matches().is_empty());
    palette.open(sources());
    assert_eq!(palette.section(), Section::Objects);
    assert_eq!(
        palette.matches(),
        &[Choice::Object(ObjectRef::new(Some("default".into()), "api"))]
    );

    palette.refresh("#");
    assert_eq!(palette.matches()[0], Choice::Namespace(None));
    assert_eq!(palette.matches().len(), 3);

    palette.refresh("@dep");
    assert_eq!(palette.section(), Section::Kinds);
    assert_eq!(palette.matches(), &[Choice::Kind(kind("apps", "Deployment"))]);

    palette.refresh("ctx");
    assert_eq!(palette.matches(), &[Choice::Cluster(ClusterId::new("prod"))]);

    palette.refresh(">");
    assert!(palette.matches().contains(&Choice::Forward { remote_port: 8080 }));
    let delete = Choice::Operation(Operation::Delete);
    assert!(palette.matches().contains(&delete));
    assert_eq!(palette.blocked(&delete), Some("no"));
    assert_eq!(palette.blocked(&Choice::Action(Action::CopyName)), None);
}

#[test]
fn a_placeholder_names_what_is_searched() {
    let kinds = Section::Kinds.placeholder(Some("Pod"));
    let objects = Section::Objects.placeholder(Some("Pod"));
    assert!(objects.contains("Pod"), "{objects}");
    assert_ne!(kinds, objects);
    assert_eq!(Palette::new().label(&Choice::Forward { remote_port: 80 }), "Forward port 80");
}

/// Whatever follows a prefix is what is matched.
#[test]
fn a_prefix_leaves_the_rest_as_it_is() {
    for text in ["", "dep", " x", "@", "ctx "] {
        assert_eq!(Section::parse(&format!("@{text}")), (Section::Kinds, text.to_string()));
        assert_eq!(Section::parse(&format!("ctx {text}")), (Section::Clusters, text.to_string()));
    }
}

/// A row that is refused is not taken, and neither is one that is not there.
#[test]
fn only_an_allowed_row_is_taken() {
    let mut palette = Palette::new();
    palette.open(sources());
    assert_eq!(
        palette.confirm(0),
        Some(PaletteEvent::Chose(Choice::Object(ObjectRef::new(Some("default".into()), "api"))))
    );
    assert_eq!(palette.confirm(1), None);

    palette.refresh(">");
    for (row, choice) in palette.matches().iter().enumerate() {
        let refused = *choice == Choice::Operation(Operation::Delete);
        assert_eq!(palette.confirm(row).is_none(), refused);
    }
}
