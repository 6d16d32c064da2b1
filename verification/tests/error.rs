use std::error::Error as _;

use beacon::k8s::error::{diagnose, AuthFailure, Cause, Error};
use beacon::k8s::ClusterId;

const PATH: Option<&str> = Some("/usr/bin:/bin");

#[derive(Debug)]
struct Layer {
    message: String,
    source: Option<Box<Layer>>,
}

impl std::fmt::Display for Layer {
    fn fmt(&self, f: &mut std::fmt::Formatter<'_>) -> std::fmt::Result {
        f.write_str(&self.message)
    }
}

impl std::error::Error for Layer {
    fn source(&self) -> Option<&(dyn std::error::Error + 'static)> {
        self.source.as_deref().map(|source| source as &dyn std::error::Error)
    }
}

fn layer(message: &str, source: Option<Layer>) -> Layer {
    Layer {
        message: message.to_string(),
        source: source.map(Box::new),
    }
}

fn auth(error: &(dyn std::error::Error + 'static)) -> Option<AuthFailure> {
    match error.downcast_ref::<kube::Error>() {
        Some(kube::Error::Auth(kube::client::AuthError::AuthExecStart(_))) => {
            Some(AuthFailure::ExecStart)
        }
        _ => None,
    }
}

/// An error and what caused it, outermost first.
fn chain(error: &(dyn std::error::Error + 'static)) -> Vec<Cause> {
    let mut causes = Vec::new();
    let mut current = Some(error);
    while let Some(error) = current {
        causes.push(Cause {
            message: error.to_string(),
            auth: auth(error),
        });
        current = error.source();
    }
    causes
}

#[test]
fn a_diagnosis_reads_the_whole_chain() {
    let error = layer(
        "auth error",
        Some(layer(
            "unable to run auth exec",
            Some(layer("no such file or directory", None)),
        )),
    );

    assert_eq!(
        diagnose(&chain(&error), None),
        "auth error: unable to run auth exec: no such file or directory"
    );
}

/// kube wraps errors whose `Display` already contains the cause. Printing
/// both turns a two-line diagnosis into a stutter.
#[test]
fn a_diagnosis_does_not_repeat_a_restated_cause() {
    let error = layer(
        "failed to read kubeconfig: file is empty",
        Some(layer("file is empty", None)),
    );

    assert_eq!(diagnose(&chain(&error), None), "failed to read kubeconfig: file is empty");
}

/// The PATH hint is the entire point of the diagnosis for exec plugins, and
/// it must not appear on unrelated failures.
#[test]
fn only_exec_plugin_failures_get_the_path_hint() {
    let plain = layer("connection refused", None);
    assert!(!diagnose(&chain(&plain), PATH).contains("PATH="));

    let exec = kube::Error::Auth(kube::client::AuthError::AuthExecStart(std::io::Error::new(
        std::io::ErrorKind::NotFound,
        "no such file or directory",
    )));
    let diagnosis = diagnose(&chain(&exec), PATH);
    assert!(diagnosis.contains("exec credential plugin"), "{diagnosis}");
    assert!(diagnosis.contains("PATH="), "{diagnosis}");
}

fn cause(message: &str, auth: Option<AuthFailure>) -> Cause {
    Cause {
        message: message.to_string(),
        auth,
    }
}

#[test]
fn the_path_hint_follows_the_chain() {
    for auth in [
        AuthFailure::ExecStart,
        AuthFailure::ExecRun,
        AuthFailure::MissingCommand,
    ] {
        let causes = vec![cause("outer", None), cause("inner", Some(auth))];
        let text = diagnose(&causes, PATH);
        assert!(text.starts_with("outer: inner"), "{text}");
        assert!(text.contains("/usr/bin:/bin"), "{text}");
    }
    let causes = vec![cause("token expired", Some(AuthFailure::Other))];
    assert_eq!(diagnose(&causes, PATH), "token expired");
}

#[test]
fn every_error_says_what_happened() {
    assert_eq!(
        Error::NoKubeconfig {
            searched: vec!["/home/me/.kube/config".into(), "a\"b".into()]
        }
        .message(),
        r#"no kubeconfig found (looked at ["/home/me/.kube/config", "a\"b"]); set KUBECONFIG or create ~/.kube/config"#
    );
    assert_eq!(
        Error::Kubeconfig("bad yaml".into()).message(),
        "failed to read kubeconfig: bad yaml"
    );
    assert_eq!(
        Error::UnknownContext("prod".into()).message(),
        r#"context "prod" is not present in the kubeconfig"#
    );
    assert_eq!(Error::Api("gone".into()).message(), "kubernetes api: gone");
    assert_eq!(
        Error::Forward {
            what: "could not bind 127.0.0.1:80".into(),
            cause: "denied".into()
        }
        .message(),
        "could not bind 127.0.0.1:80: denied"
    );
    assert_eq!(
        Error::connect(
            &ClusterId::new("prod"),
            &vec![cause("connection refused", None)],
            None
        )
        .message(),
        "could not connect to prod: connection refused"
    );
}
