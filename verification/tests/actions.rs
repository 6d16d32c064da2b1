use beacon::k8s::access::{ResourceRule, Rules};
use beacon::k8s::discovery::Kind;
use beacon::k8s::ops::Operation;
use beacon::k8s::resources::{ApiResource, GroupVersionKind};
use beacon::ui::actions::{available, label, may_apply, Choice};

fn kind(group: &str, name: &str, plural: &str) -> Kind {
    Kind {
        resource: ApiResource::from_gvk_with_plural(
            &GroupVersionKind::gvk(group, "v1", name),
            plural,
        ),
        namespaced: true,
        verbs: vec!["list".into(), "watch".into()],
    }
}

fn labels(choices: &[Choice]) -> Vec<&str> {
    choices.iter().map(|choice| choice.label.as_str()).collect()
}

fn rules(grants: &[(&str, &str, &str)]) -> Rules {
    Rules::new(
        grants
            .iter()
            .map(|(verb, group, resource)| ResourceRule {
                verbs: vec![verb.to_string()],
                api_groups: Some(vec![group.to_string()]),
                resources: Some(vec![resource.to_string()]),
                resource_names: None,
            })
            .collect(),
        false,
    )
}

#[test]
fn a_deployment_can_be_restarted_scaled_and_deleted() {
    let kind = kind("apps", "Deployment", "deployments");
    let all = rules(&[
        ("patch", "apps", "deployments"),
        ("patch", "apps", "deployments/scale"),
        ("delete", "apps", "deployments"),
    ]);

    let choices = available(&kind, Some(&all), 3);
    assert_eq!(labels(&choices), ["Restart", "Scale…", "Delete"]);
    assert!(choices.iter().all(|choice| choice.allowed));
}

/// A ConfigMap has no replicas and no pod template. Those actions are
/// absent, not disabled -- there is nothing to explain.
#[test]
fn actions_that_cannot_apply_are_not_offered() {
    let choices = available(&kind("", "ConfigMap", "configmaps"), None, 0);
    assert_eq!(labels(&choices), ["Delete"]);
}

/// Scaling is a subresource, so patching a Deployment does not grant it.
/// This is the case the greying exists for.
#[test]
fn scaling_is_disabled_without_the_scale_subresource() {
    let kind = kind("apps", "Deployment", "deployments");
    let partial = rules(&[
        ("patch", "apps", "deployments"),
        ("delete", "apps", "deployments"),
    ]);

    let choices = available(&kind, Some(&partial), 3);
    let scale = choices
        .iter()
        .find(|choice| choice.label == "Scale…")
        .expect("scale is offered");

    assert!(!scale.allowed);
    assert_eq!(
        scale.tooltip(),
        Some("You do not have patch on deployments/scale in this namespace")
    );

    let restart = choices
        .iter()
        .find(|choice| choice.label == "Restart")
        .expect("restart is offered");
    assert!(restart.allowed, "patch on the resource itself is granted");
}

#[test]
fn a_reader_can_do_nothing() {
    let kind = kind("", "Pod", "pods");
    let read_only = rules(&[("get", "", "pods"), ("list", "", "pods")]);

    let choices = available(&kind, Some(&read_only), 0);
    assert_eq!(labels(&choices), ["Delete"]);
    assert!(!choices[0].allowed);
    assert!(!may_apply(&kind, Some(&read_only)));
}

/// Until the answer arrives, nothing is greyed. A menu that flickers from
/// disabled to enabled teaches people to ignore the greying.
#[test]
fn everything_is_enabled_while_the_answer_is_in_flight() {
    let kind = kind("apps", "Deployment", "deployments");
    let choices = available(&kind, None, 1);

    assert!(choices.iter().all(|choice| choice.allowed));
    assert!(choices.iter().all(|choice| choice.tooltip().is_none()));
    assert!(may_apply(&kind, None));
}

/// The prompt opens on the number that is set, not on zero.
#[test]
fn scale_carries_the_current_replica_count() {
    let choices = available(&kind("apps", "Deployment", "deployments"), None, 7);
    let scale = choices
        .iter()
        .find(|choice| choice.label == "Scale…")
        .expect("scale is offered");

    assert_eq!(scale.operation, Operation::Scale { replicas: 7 });
}

/// Whatever is refused says why, and nothing else does.
#[test]
fn a_refusal_is_explained() {
    for grants in [&[][..], &[("delete", "apps", "deployments")][..]] {
        let kind = kind("apps", "Deployment", "deployments");
        for choice in available(&kind, Some(&rules(grants)), 1) {
            assert_eq!(choice.allowed, choice.tooltip().is_none());
        }
    }
}

#[test]
fn every_operation_has_a_label() {
    assert_eq!(label(&Operation::Restart), "Restart");
    assert_eq!(label(&Operation::Scale { replicas: 9 }), "Scale…");
    assert_eq!(label(&Operation::Delete), "Delete");
}
