use std::io::Write as _;

use base64::engine::general_purpose::STANDARD;
use base64::Engine as _;
use beacon::base::json::Json;
use beacon::base::meta::ObjectMeta;
use beacon::k8s::helm::{
    decode, describe, inflate, latest, layer, read, releases, selector, Layer, Release,
};
use beacon::k8s::resources::DynamicObject;

fn json(text: &str) -> Json {
    Json::parse(text.as_bytes()).expect("valid JSON")
}

fn release_of(name: &str, namespace: &str, revision: i64, status: &str, version: &str) -> Json {
    json(&format!(
        r#"{{
            "name": "{name}",
            "namespace": "{namespace}",
            "version": {revision},
            "info": {{ "status": "{status}", "last_deployed": "2026-09-01T10:00:00Z" }},
            "chart": {{ "metadata": {{
                "name": "argo-workflows",
                "version": "{version}",
                "appVersion": "v3.6.2"
            }} }}
        }}"#
    ))
}

fn release_json(name: &str, namespace: &str, revision: i64, status: &str) -> Json {
    release_of(name, namespace, revision, status, "0.45.0")
}

fn object(name: &str, namespace: &str, data: Json) -> DynamicObject {
    DynamicObject {
        types: Some(("v1".into(), "Secret".into())),
        metadata: ObjectMeta {
            name: Some(name.into()),
            namespace: Some(namespace.into()),
            ..ObjectMeta::default()
        },
        data,
    }
}

fn gzipped(bytes: &[u8]) -> Vec<u8> {
    let mut encoder = flate2::write::GzEncoder::new(Vec::new(), flate2::Compression::default());
    encoder.write_all(bytes).expect("gzip");
    encoder.finish().expect("gzip")
}

fn secret(release: &Json, gzip: bool) -> DynamicObject {
    let json_text = release.to_text().into_bytes();
    let payload = if gzip { gzipped(&json_text) } else { json_text };

    // Twice, the way a real release Secret is: Helm encodes the payload
    // and the API encodes the Secret value on top of it.
    let encoded = STANDARD.encode(STANDARD.encode(payload));
    let namespace = release.get("namespace").and_then(|n| n.as_str()).unwrap_or("default");
    object(
        "sh.helm.release.v1.x.v1",
        namespace,
        json(&format!(r#"{{ "data": {{ "release": "{encoded}" }} }}"#)),
    )
}

#[test]
fn a_release_reads_the_way_helm_list_prints_it() {
    let parsed = read(&secret(
        &release_json("argo-workflows", "argo", 13, "deployed"),
        true,
    ))
    .expect("a release");

    assert_eq!(parsed.name, "argo-workflows");
    assert_eq!(parsed.namespace, "argo");
    assert_eq!(parsed.revision, 13);
    assert_eq!(parsed.status, "deployed");
    assert_eq!(parsed.chart, "argo-workflows-0.45.0");
    assert_eq!(parsed.app_version, "v3.6.2");
    assert_eq!(parsed.updated.as_deref(), Some("2026-09-01T10:00:00Z"));
}

/// Releases from old Helm versions are not compressed, which is why the
/// gzip magic number is checked rather than assumed.
#[test]
fn an_uncompressed_release_still_reads() {
    let parsed = read(&secret(
        &release_json("old", "default", 1, "deployed"),
        false,
    ))
    .expect("a release");
    assert_eq!(parsed.name, "old");
}

/// Helm keeps one Secret per revision. A chart upgraded twenty times is
/// one row, not twenty.
#[test]
fn only_the_newest_revision_of_each_release_is_listed() {
    let releases = latest(
        &[
            release_json("argo-workflows", "argo", 10, "superseded"),
            release_json("argo-workflows", "argo", 13, "deployed"),
            release_json("argo-workflows", "argo", 11, "superseded"),
            release_json("traefik", "kube-system", 1, "deployed"),
        ]
        .iter()
        .filter_map(|release| read(&secret(release, true)))
        .collect(),
    );

    assert_eq!(releases.len(), 2);
    let argo = &releases[0];
    assert_eq!(argo.namespace, "argo");
    assert_eq!(argo.revision, 13);
    assert_eq!(argo.status, "deployed");
}

/// The same release name in two namespaces is two releases.
#[test]
fn namespaces_keep_releases_apart() {
    let releases = latest(
        &[
            release_json("shared", "a", 1, "deployed"),
            release_json("shared", "b", 2, "deployed"),
        ]
        .iter()
        .filter_map(|release| read(&secret(release, true)))
        .collect(),
    );

    assert_eq!(releases.len(), 2);
    assert_eq!(releases[0].namespace, "a");
    assert_eq!(releases[1].namespace, "b");
}

/// The number of base64 layers is not something anybody documents, so
/// both the real depth and a shallower one have to work.
#[test]
fn the_payload_is_peeled_rather_than_counted() {
    let release = release_json("layers", "default", 1, "deployed");
    let json = release.to_text().into_bytes();

    assert_eq!(
        decode(&STANDARD.encode(STANDARD.encode(&json))),
        Some(release.copy()),
        "two layers, as a Secret has"
    );
    assert_eq!(
        decode(&STANDARD.encode(&json)),
        Some(release),
        "one layer, if the caller already peeled one"
    );
}

/// A Secret that is not a release, or one that is corrupt, is skipped
/// rather than taking the list down with it.
#[test]
fn unreadable_secrets_are_skipped() {
    let empty = object("x", "default", Json::Null);
    assert!(read(&empty).is_none());

    let nonsense = object(
        "x",
        "default",
        json(r#"{ "data": { "release": "not base64 at all !!" } }"#),
    );
    assert!(read(&nonsense).is_none());
}

#[test]
fn a_chart_without_a_version_is_still_named() {
    let release = release_of("bare", "default", 1, "deployed", "");
    let parsed = read(&secret(&release, true)).expect("a release");
    assert_eq!(parsed.chart, "argo-workflows");
}

#[test]
fn a_layer_is_told_by_its_first_bytes() {
    assert_eq!(layer(&b"{}".to_vec()), Layer::Object);
    assert_eq!(layer(&gzipped(b"{}")), Layer::Gzip);
    assert_eq!(layer(&b"e30=".to_vec()), Layer::Encoded);
}

#[test]
fn inflating_undoes_gzip() {
    assert_eq!(inflate(&gzipped(b"hello")), Some(b"hello".to_vec()));
    assert_eq!(inflate(&b"hello".to_vec()), None);
}

#[test]
fn secrets_that_hold_no_release_are_skipped() {
    let secrets = vec![
        secret(&release_json("b", "x", 2, "deployed"), true),
        object("x", "default", Json::Null),
        secret(&release_json("a", "x", 1, "deployed"), false),
    ];
    let names: Vec<String> = releases(&secrets).into_iter().map(|r| r.name).collect();
    assert_eq!(names, ["a", "b"]);
    assert_eq!(selector(), "type=helm.sh/release.v1");
}

/// Too many layers is not a release.
#[test]
fn peeling_stops() {
    let mut payload = b"{}".to_vec();
    for _ in 0..5 {
        payload = STANDARD.encode(&payload).into_bytes();
    }
    let text = String::from_utf8(payload).expect("base64 is ASCII");
    assert_eq!(decode(&text), None);
}

#[test]
fn a_release_without_a_name_is_not_one() {
    assert_eq!(describe(&json(r#"{ "version": 3 }"#), Some("default")), None);
    let bare = json(r#"{ "name": "x", "chart": { "metadata": { "name": "app" } } }"#);
    let bare = describe(&bare, Some("team")).expect("a release");
    assert_eq!(bare.namespace, "team");
    assert_eq!(bare.chart, "app");
    assert_eq!(bare.status, "unknown");
    assert_eq!((bare.revision, bare.updated), (0, None));
}

fn release(name: &str, namespace: &str, revision: i64) -> Release {
    describe(
        &release_json(name, namespace, revision, "deployed"),
        Some(namespace),
    )
    .expect("a release")
}

/// One row for each release, with its highest revision, whatever the order.
#[test]
fn the_newest_revision_wins_in_any_order() {
    let list = latest(&vec![
        release("b", "x", 2),
        release("a", "x", 1),
        release("b", "x", 9),
        release("a", "x", 7),
        release("b", "x", 3),
    ]);
    let rows: Vec<(String, i64)> = list.iter().map(|r| (r.name.clone(), r.revision)).collect();
    assert_eq!(rows, [("a".to_string(), 7), ("b".to_string(), 9)]);
}
