use beacon::base::json::Json;
use beacon::k8s::ops::{
    manager_and_rest, parse_conflict, push_unique, refusal, restart_patch, scale_patch, Conflict,
    Operation,
};

fn json(text: &str) -> Json {
    Json::parse(text.as_bytes()).expect("valid JSON")
}

#[test]
fn operations_need_the_verb_the_api_checks() {
    assert_eq!(Operation::Delete.verb(), "delete");
    assert_eq!(Operation::Apply.verb(), "patch");
    assert_eq!(Operation::Restart.verb(), "patch");
    assert_eq!(Operation::Scale { replicas: 3 }.verb(), "patch");
}

/// Permission to patch a Deployment is not permission to scale one -- RBAC
/// names the subresource separately.
#[test]
fn scaling_asks_about_the_scale_subresource() {
    assert_eq!(
        Operation::Scale { replicas: 3 }.resource("deployments"),
        "deployments/scale"
    );
    assert_eq!(Operation::Delete.resource("deployments"), "deployments");
    assert_eq!(Operation::Apply.resource("pods"), "pods");
}

/// Offering "Scale" on a ConfigMap is a menu item that cannot work.
#[test]
fn scale_and_restart_only_apply_to_workloads() {
    let scale = Operation::Scale { replicas: 1 };
    assert!(scale.applies_to("apps", "Deployment"));
    assert!(scale.applies_to("apps", "StatefulSet"));
    assert!(
        !scale.applies_to("apps", "DaemonSet"),
        "a DaemonSet has no replicas"
    );
    assert!(!scale.applies_to("", "ConfigMap"));

    assert!(Operation::Restart.applies_to("apps", "DaemonSet"));
    assert!(!Operation::Restart.applies_to("", "Pod"));

    // Anything can be deleted or applied, including a CRD's objects.
    assert!(Operation::Delete.applies_to("argoproj.io", "Application"));
    assert!(Operation::Apply.applies_to("argoproj.io", "Application"));
}

/// Verbatim from an API server refusing an apply.
const TWO_CONFLICTS: &str = r#"Apply failed with 2 conflicts: conflicts with "kubectl-client-side-apply" using v1:
- .spec.replicas
- .metadata.labels.team"#;

/// Also verbatim, from a k3s 1.33 apiserver refusing a one-field apply.
/// The single-conflict form puts the field on the same line, which the
/// multi-line parse alone silently missed.
const ONE_CONFLICT: &str = r#"Apply failed with 1 conflict: conflict with "argocd-controller" using apps/v1: .spec.replicas"#;

#[test]
fn a_single_conflict_is_one_line() {
    let conflict = parse_conflict(ONE_CONFLICT);

    assert_eq!(conflict.fields, [".spec.replicas"]);
    assert_eq!(conflict.managers, ["argocd-controller"]);
    assert_eq!(conflict.summary(), "1 field owned by argocd-controller");
}

#[test]
fn a_conflict_names_its_fields_and_its_owner() {
    let conflict = parse_conflict(TWO_CONFLICTS);

    assert_eq!(conflict.fields, [".spec.replicas", ".metadata.labels.team"]);
    assert_eq!(conflict.managers, ["kubectl-client-side-apply"]);
    assert_eq!(
        conflict.summary(),
        "2 fields owned by kubectl-client-side-apply"
    );
}

#[test]
fn a_conflict_with_several_owners_counts_them() {
    let message = r#"Apply failed with 3 conflicts: conflicts with "argocd-controller" using apps/v1:
- .spec.replicas
conflicts with "kubectl-client-side-apply" using apps/v1:
- .spec.template.spec.containers[name="app"].image
- .metadata.annotations.note"#;

    let conflict = parse_conflict(message);
    assert_eq!(conflict.fields.len(), 3);
    assert_eq!(
        conflict.managers,
        ["argocd-controller", "kubectl-client-side-apply"]
    );
    assert_eq!(conflict.summary(), "3 fields owned by 2 managers");
}

#[test]
fn one_conflicting_field_reads_as_one() {
    let message = r#"Apply failed with 1 conflict: conflicts with "argocd-controller" using apps/v1:
- .spec.replicas"#;
    assert_eq!(
        parse_conflict(message).summary(),
        "1 field owned by argocd-controller"
    );
}

/// A field must not be counted twice because it appeared in both forms.
#[test]
fn a_field_is_never_listed_twice() {
    let message = r#"conflict with "a" using v1: .spec.replicas
- .spec.replicas"#;
    assert_eq!(parse_conflict(message).fields, [".spec.replicas"]);
}

/// The message format is not a contract. An unparseable one still has to
/// produce something a person can read, and the original is kept for that.
#[test]
fn an_unrecognised_message_is_still_reported() {
    let conflict = parse_conflict("something else went wrong");

    assert!(conflict.fields.is_empty());
    assert!(conflict.managers.is_empty());
    assert_eq!(conflict.message, "something else went wrong");
    assert_eq!(
        conflict.summary(),
        "This apply conflicts with another field manager."
    );
}

#[test]
fn a_manager_is_never_listed_twice() {
    let message = r#"conflicts with "same" using v1:
- .a
conflicts with "same" using v1:
- .b"#;
    assert_eq!(parse_conflict(message).managers, ["same"]);
}

#[test]
fn operations_say_what_they_do() {
    assert_eq!(Operation::Delete.describe(), "Delete");
    assert_eq!(Operation::Restart.describe(), "Restart");
    assert_eq!(
        Operation::Scale { replicas: -1 }.describe(),
        "Scale to -1"
    );
}

#[test]
fn a_restart_is_a_patch_of_the_template() {
    assert_eq!(
        restart_patch("2026-09-20T12:00:00Z"),
        json(
            r#"{ "spec": { "template": { "metadata": { "annotations": {
                "kubectl.kubernetes.io/restartedAt": "2026-09-20T12:00:00Z"
            } } } } }"#
        )
    );
    assert_eq!(scale_patch(4), json(r#"{ "spec": { "replicas": 4 } }"#));
}

#[test]
fn only_a_conflict_is_reported_as_one() {
    assert_eq!(refusal(409, ONE_CONFLICT), Some(parse_conflict(ONE_CONFLICT)));
    assert_eq!(refusal(403, ONE_CONFLICT), None);
}

#[test]
fn a_list_holds_each_value_once() {
    let mut values = Vec::new();
    for value in ["b", "a", "", "b", "a", "c"] {
        push_unique(&mut values, value);
    }
    assert_eq!(values, ["b", "a", "c"]);
}

#[test]
fn a_manager_is_what_stands_in_quotes() {
    assert_eq!(
        manager_and_rest(r#""argo" using v1: .spec"#),
        Some(("argo".into(), " using v1: .spec".into()))
    );
    assert_eq!(manager_and_rest(r#""" using v1"#), None);
    assert_eq!(manager_and_rest("argo"), None);
    assert_eq!(manager_and_rest(r#""argo"#), None);
}

/// A summary never names a manager that it did not read.
#[test]
fn fields_without_an_owner_are_still_counted() {
    let conflict = Conflict {
        fields: vec![".a".into()],
        managers: vec![],
        message: String::new(),
    };
    assert_eq!(conflict.summary(), "1 field owned by another manager");
}

/// What is listed is what the message says, word for word.
#[test]
fn what_is_listed_stands_in_the_message() {
    for message in [
        "Apply failed with 1 conflict: conflict with \"a\" using v1: .spec.replicas",
        "conflicts with \"x conflicts with y\": .a",
        "conflicts with conflict with \"b\": .c",
        "nothing that is known",
    ] {
        let read = parse_conflict(message);
        for listed in read.fields.iter().chain(&read.managers) {
            assert!(message.contains(listed.as_str()), "{listed:?} of {message:?}");
        }
        assert_eq!(read.message, message);
    }
    let unknown = parse_conflict("nothing that is known");
    assert!(unknown.fields.is_empty() && unknown.managers.is_empty());
}
