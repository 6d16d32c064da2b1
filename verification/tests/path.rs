use beacon::base::json::Json;
use beacon::columns::path::{evaluate, root};

fn json(text: &str) -> Json {
    Json::parse(text.as_bytes()).expect("valid JSON")
}

fn object() -> Json {
    json(
        r#"{
            "spec": { "replicas": 3, "template": { "name": "web" } },
            "status": { "phase": "Running", "conditions": [{ "type": "Ready" }] }
        }"#,
    )
}

#[test]
fn reads_a_dotted_path() {
    assert_eq!(evaluate(".spec.replicas", &object()), Some(&json(r#"3"#)));
    assert_eq!(
        evaluate(".spec.template.name", &object()),
        Some(&json(r#""web""#))
    );
}

/// CRDs are written with and without the leading dot, and sometimes wrapped
/// in braces borrowed from `kubectl -o jsonpath`.
#[test]
fn accepts_the_spellings_crds_use() {
    for expression in [
        ".status.phase",
        "status.phase",
        "{.status.phase}",
        "$.status.phase",
    ] {
        assert_eq!(
            evaluate(expression, &object()),
            Some(&json(r#""Running""#)),
            "for {expression:?}"
        );
    }
}

#[test]
fn reads_an_index() {
    assert_eq!(
        evaluate(".status.conditions[0].type", &object()),
        Some(&json(r#""Ready""#))
    );
}

#[test]
fn a_path_that_does_not_exist_resolves_to_nothing() {
    assert_eq!(evaluate(".spec.missing", &object()), None);
    assert_eq!(evaluate(".status.conditions[9]", &object()), None);
}

/// Expressions outside the subset must resolve to nothing rather than to
/// something plausible but wrong.
#[test]
fn unsupported_expressions_are_declined() {
    for expression in [
        ".status.conditions[?(@.type==\"Ready\")].status",
        ".spec.containers[*].image",
        "..name",
        "",
        "{}",
    ] {
        assert_eq!(evaluate(expression, &object()), None, "for {expression:?}");
    }
}

#[test]
fn root_names_what_the_path_starts_at() {
    assert_eq!(root(".metadata.labels.app"), Some("metadata".to_string()));
    assert_eq!(root("status.phase"), Some("status".to_string()));
    assert_eq!(root(".spec.containers[*].image"), None);
}

/// Two dots are a recursive descent, wherever they stand.
#[test]
fn a_recursive_descent_is_declined() {
    let object = json(r#"{"spec":{"replicas":3}}"#);
    for expression in ["..spec", "$..spec", "{..spec}", "spec..replicas", "...spec", ".spec."] {
        assert_eq!(evaluate(expression, &object), None, "for {expression:?}");
    }
}

/// A bracket is an index or nothing that is known.
#[test]
fn a_bracket_without_a_number_is_declined() {
    let object = json(r#"{"spec":{"replicas":3},"list":[[1,2]]}"#);
    for expression in [".spec[name]", ".spec[]", ".spec[0", ".spec]", ".list[0][1]", ".spec[-1]"] {
        assert_eq!(evaluate(expression, &object), None, "for {expression:?}");
    }
    assert_eq!(evaluate(".list[0]", &object), Some(&json("[1,2]")));
    assert_eq!(root(".spec[name]"), None);
}

#[test]
fn paths_compose() {
    let object = object();
    let status = evaluate("status", &object).expect("a status");
    assert_eq!(
        evaluate("status.conditions[0].type", &object),
        evaluate("conditions[0].type", status)
    );
}
