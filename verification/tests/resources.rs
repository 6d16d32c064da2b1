use beacon::k8s::resources::{event, namespace, pod};

/// Type erasure has to produce exactly the strings that build an API path,
/// because everything downstream treats them as data.
#[test]
fn core_kinds_erase_to_the_right_paths() {
    let pod = pod();
    assert_eq!(pod.group, "");
    assert_eq!(pod.version, "v1");
    assert_eq!(pod.api_version, "v1");
    assert_eq!(pod.kind, "Pod");
    assert_eq!(pod.plural, "pods");

    assert_eq!(namespace().plural, "namespaces");
    assert_eq!(event().plural, "events");
}
