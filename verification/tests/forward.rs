use beacon::k8s::forward::{address_unknown, listening_failed, Forward, Forwards};

fn forward(local: u16, namespace: &str, pod: &str, remote: u16) -> Forward {
    Forward {
        id: 0,
        namespace: namespace.to_string(),
        pod: pod.to_string(),
        remote_port: remote,
        local_port: local,
        connections: 0,
        failure: None,
    }
}

/// The local port is the whole point of the row: it is what you paste into
/// a browser, and with port 0 it is the only place the answer exists.
#[test]
fn a_forward_reads_as_an_address_and_a_destination() {
    let forward = forward(52310, "argocd", "argocd-server-abc", 8080);

    assert_eq!(forward.address(), "127.0.0.1:52310");
    assert_eq!(
        forward.describe(),
        "127.0.0.1:52310 → argocd/argocd-server-abc:8080"
    );
}

/// The connection counter must come back down however a tunnel ends, or

#[test]
fn forwards_are_listed_in_the_order_they_were_opened() {
    let mut forwards = Forwards::new();
    assert!(forwards.is_empty());

    for (index, port) in [8080u16, 5432, 6379].into_iter().enumerate() {
        forwards.open("default", "api", port, 10000 + index as u16);
    }

    let listed = forwards.list();
    assert_eq!(listed.len(), 3);
    assert_eq!(
        listed.iter().map(|f| f.remote_port).collect::<Vec<_>>(),
        [8080, 5432, 6379]
    );

    forwards.close(listed[1].id);
    assert_eq!(
        forwards
            .list()
            .iter()
            .map(|f| f.remote_port)
            .collect::<Vec<_>>(),
        [8080, 6379]
    );
}

/// A forward to a pod that no longer exists accepts connections and fails
/// them, which looks like a broken service rather than a stale forward.
#[test]
fn forwards_to_a_gone_pod_are_closed() {
    let mut forwards = Forwards::new();

    for (pod, port) in [("api-1", 8080u16), ("api-1", 9090), ("api-2", 8080)] {
        forwards.open("default", pod, port, 10000);
    }

    forwards.close_for_pod("default", "api-1");

    let left = forwards.list();
    assert_eq!(left.len(), 1);
    assert_eq!(left[0].pod, "api-2");
}

#[test]
fn a_forward_that_cannot_listen_says_where() {
    assert_eq!(
        listening_failed(8080, "in use").message(),
        "could not listen on 127.0.0.1:8080: in use"
    );
    assert_eq!(
        address_unknown("gone").message(),
        "could not read the local address: gone"
    );
}

/// The count belongs to one forward, and an identifier is never used again.
#[test]
fn connections_are_counted_by_forward() {
    let mut forwards = Forwards::new();
    let first = forwards.open("default", "api", 80, 10000);
    let second = forwards.open("default", "web", 80, 10001);
    forwards.set_connections(second.id, 3);
    let counts: Vec<usize> = forwards.list().iter().map(|f| f.connections).collect();
    assert_eq!(counts, [0, 3]);

    forwards.close(first.id);
    forwards.set_connections(first.id, 9);
    let third = forwards.open("default", "db", 80, 10002);
    assert!(third.id > second.id);
    assert_eq!(forwards.list().len(), 2);
}
