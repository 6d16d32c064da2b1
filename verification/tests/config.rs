use beacon::k8s::config::{Context, Contexts, Kubeconfig, NamedContext};
use beacon::k8s::ClusterId;

const SAMPLE: &str = r#"
apiVersion: v1
kind: Config
current-context: staging
clusters:
  - name: prod-cluster
    cluster:
      server: https://prod.example.com
  - name: staging-cluster
    cluster:
      server: https://staging.example.com
users:
  - name: prod-user
  - name: staging-user
contexts:
  - name: prod
    context:
      cluster: prod-cluster
      user: prod-user
      namespace: payments
  - name: staging
    context:
      cluster: staging-cluster
      user: staging-user
  - name: broken
"#;

/// What the library reads of a kubeconfig file.
fn read(yaml: &str) -> Kubeconfig {
    let file = kube::config::Kubeconfig::from_yaml(yaml).expect("sample parses");
    Kubeconfig {
        current_context: file.current_context,
        contexts: file
            .contexts
            .into_iter()
            .map(|named| NamedContext {
                name: named.name,
                context: named.context.map(|context| Context {
                    cluster: context.cluster,
                    user: context.user,
                    namespace: context.namespace,
                }),
            })
            .collect(),
    }
}

fn sample() -> Contexts {
    Contexts::from_kubeconfig(&read(SAMPLE))
}

#[test]
fn keeps_file_order_and_skips_bodyless_contexts() {
    let contexts = sample();
    let names: Vec<_> = contexts
        .entries()
        .iter()
        .map(|e| e.id.as_str().to_string())
        .collect();
    assert_eq!(names, ["prod", "staging"]);
}

#[test]
fn marks_only_the_current_context() {
    let contexts = sample();
    assert_eq!(contexts.current().map(|e| e.id.as_str()), Some("staging"));
    assert_eq!(
        contexts.entries().iter().filter(|e| e.is_current).count(),
        1
    );
}

#[test]
fn falls_back_to_default_namespace() {
    let contexts = sample();
    let prod = contexts.get(&ClusterId::new("prod")).unwrap();
    let staging = contexts.get(&ClusterId::new("staging")).unwrap();
    assert_eq!(prod.initial_namespace(), "payments");
    assert_eq!(staging.initial_namespace(), "default");
}

#[test]
fn empty_kubeconfig_is_not_an_error() {
    let contexts = Contexts::from_kubeconfig(&Kubeconfig::default());
    assert!(contexts.is_empty());
    assert!(contexts.current().is_none());
}

#[test]
fn an_unknown_context_is_not_found() {
    assert!(sample().get(&ClusterId::new("broken")).is_none());
    assert!(sample().get(&ClusterId::new("elsewhere")).is_none());
}
