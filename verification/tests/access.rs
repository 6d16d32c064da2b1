use std::sync::Arc;

use beacon::k8s::access::{Access, ResourceRule, Rules};

fn strings(list: &[&str]) -> Vec<String> {
    list.iter().map(|s| s.to_string()).collect()
}

fn rule(verbs: &[&str], groups: &[&str], resources: &[&str]) -> ResourceRule {
    ResourceRule {
        verbs: strings(verbs),
        api_groups: Some(strings(groups)),
        resources: Some(strings(resources)),
        resource_names: None,
    }
}

fn rules(rules: Vec<ResourceRule>) -> Rules {
    Rules::new(rules, false)
}

#[test]
fn an_exact_rule_grants_exactly_what_it_names() {
    let rules = rules(vec![rule(&["get", "list"], &[""], &["pods"])]);

    assert!(rules.allows("get", "", "pods"));
    assert!(rules.allows("list", "", "pods"));
    assert!(!rules.allows("delete", "", "pods"), "verb not granted");
    assert!(!rules.allows("get", "apps", "pods"), "wrong group");
    assert!(!rules.allows("get", "", "services"), "wrong resource");
}

/// The rule everybody misremembers: listing pods is not reading their logs.
#[test]
fn a_rule_on_a_resource_does_not_reach_its_subresources() {
    let rules = rules(vec![rule(&["get"], &[""], &["pods"])]);
    assert!(rules.allows("get", "", "pods"));
    assert!(!rules.allows("get", "", "pods/log"));

    let with_logs = rules_with_logs();
    assert!(with_logs.allows("get", "", "pods/log"));
}

fn rules_with_logs() -> Rules {
    rules(vec![rule(&["get"], &[""], &["pods", "pods/log"])])
}

/// `*/scale` is how a role grants scaling across every workload kind.
#[test]
fn a_subresource_wildcard_matches_that_subresource_anywhere() {
    let rules = rules(vec![rule(&["update"], &["apps"], &["*/scale"])]);

    assert!(rules.allows("update", "apps", "deployments/scale"));
    assert!(rules.allows("update", "apps", "statefulsets/scale"));
    assert!(
        !rules.allows("update", "apps", "deployments"),
        "the wildcard is about the subresource, not the resource"
    );
}

#[test]
fn a_full_wildcard_grants_everything_in_its_groups() {
    let rules = rules(vec![rule(&["*"], &["*"], &["*"])]);

    assert!(rules.allows("delete", "apps", "deployments"));
    assert!(rules.allows("get", "", "pods/log"));
    assert!(rules.allows("patch", "argoproj.io", "applications"));
}

/// The core group is the empty string, and a rule for `apps` must not
/// answer for it.
#[test]
fn the_core_group_is_its_own_group() {
    let rules = rules(vec![rule(&["get"], &["apps"], &["*"])]);
    assert!(rules.allows("get", "apps", "deployments"));
    assert!(!rules.allows("get", "", "pods"));
}

/// A rule limited to named objects cannot answer a question about the kind,
/// so it is ignored rather than counted as a grant.
#[test]
fn a_rule_narrowed_to_names_does_not_grant_the_kind() {
    let mut narrowed = rule(&["delete"], &[""], &["pods"]);
    narrowed.resource_names = Some(vec!["only-this-one".into()]);

    assert!(!rules(vec![narrowed]).allows("delete", "", "pods"));
}

/// A webhook authorizer cannot enumerate its rules. Disabling everything
/// would make Beacon useless against exactly the clusters that use one.
#[test]
fn an_incomplete_answer_allows_everything() {
    let unknown = Rules::new(Vec::new(), true);

    assert!(unknown.allows("delete", "apps", "deployments"));
    assert!(unknown.is_incomplete());
}

/// No rules and a complete answer is a real "no".
#[test]
fn no_rules_grants_nothing() {
    let none = rules(Vec::new());
    assert!(!none.allows("get", "", "pods"));
    assert!(!none.is_incomplete());
}

#[test]
fn the_cache_separates_namespaces_from_the_cluster_scope() {
    let mut access = Access::new();
    access.insert(
        None,
        Arc::new(rules(vec![rule(&["get"], &[""], &["nodes"])])),
    );
    access.insert(
        Some("kube-system".into()),
        Arc::new(rules(vec![rule(&["get"], &[""], &["pods"])])),
    );

    assert!(access.get(None).unwrap().allows("get", "", "nodes"));
    assert!(!access.get(None).unwrap().allows("get", "", "pods"));
    assert!(
        access
            .get(Some("kube-system"))
            .unwrap()
            .allows("get", "", "pods")
    );
    assert!(access.get(Some("default")).is_none(), "not asked yet");
}

#[test]
fn an_unasked_question_is_an_incomplete_answer() {
    assert!(Rules::unknown().is_incomplete());
    assert!(Rules::unknown().allows("patch", "apps", "deployments/scale"));
}

/// The wildcard before a subresource needs a subresource to match.
#[test]
fn a_rule_without_groups_or_resources_grants_nothing() {
    let mut bare = rule(&["get"], &[""], &["pods"]);
    bare.api_groups = None;
    assert!(!rules(vec![bare]).allows("get", "", "pods"));

    let mut bare = rule(&["get"], &[""], &["pods"]);
    bare.resources = None;
    assert!(!rules(vec![bare]).allows("get", "", "pods"));
}
