//! Tests for the round-robin pool and the selector.

use std::sync::Arc;

use carrier2::{
    BackendPool, Carrier2, GefyraClient, GefyraPeer, GefyraRequest, MatchAndCondition,
    MatchOrCondition, MatchPath, MatchRule, MatchType, SelectionSource,
};

fn client(key: &str, address: &str, path_prefix: &str) -> GefyraClient {
    GefyraClient {
        key: key.to_string(),
        peer: GefyraPeer {
            address: address.to_string(),
            use_tls: false,
            sni: "".to_string(),
        },
        matching_rules: MatchOrCondition {
            or_rules: vec![MatchAndCondition {
                and_match: vec![MatchRule::Path(
                    MatchPath::new(path_prefix.to_string(), MatchType::PrefixLookup).unwrap(),
                )],
            }],
        },
    }
}

fn request(path_and_query: &str) -> GefyraRequest {
    GefyraRequest { path_and_query: path_and_query.to_string(), headers: Vec::new() }
}

#[test]
fn first_registered_tenant_wins() {
    let router = Carrier2 {
        gefyra_clients: vec![
            client("tenant-x", "x.local:80", "/svc"),
            client("tenant-y", "y.local:80", "/svc"),
        ],
        cluster_upstream: None,
    };
    let selection = router.upstream_peer(&request("/svc/a")).unwrap();
    assert_eq!(selection.peer.address, "x.local:80");
    assert!(matches!(selection.source, SelectionSource::Client { index: 0 }));
}

#[test]
fn later_tenant_still_reachable_when_earlier_misses() {
    let router = Carrier2 {
        gefyra_clients: vec![
            client("tenant-x", "x.local:80", "/only-x"),
            client("tenant-y", "y.local:80", "/svc"),
        ],
        cluster_upstream: None,
    };
    let selection = router.upstream_peer(&request("/svc/a")).unwrap();
    assert_eq!(selection.peer.address, "y.local:80");
    assert!(matches!(selection.source, SelectionSource::Client { index: 1 }));
}

#[test]
fn round_robin_visits_each_backend_once_then_wraps() {
    let pool = BackendPool::new(
        vec!["a:80".to_string(), "b:80".to_string(), "c:80".to_string()],
        false,
        "".to_string(),
    );
    let first = pool.next().unwrap();
    let second = pool.next().unwrap();
    let third = pool.next().unwrap();
    assert_eq!(first.address, "a:80");
    assert_eq!(second.address, "b:80");
    assert_eq!(third.address, "c:80");
    let again = pool.next().unwrap();
    assert_eq!(again.address, "a:80");
}

#[test]
fn empty_pool_reports_empty() {
    let pool = BackendPool::new(Vec::new(), false, "".to_string());
    assert!(pool.next().is_err());
    assert!(pool.pick(7).is_err());
    assert_eq!(pool.len(), 0);
}

#[test]
fn pool_peers_carry_the_pool_tls_settings() {
    let pool = BackendPool::new(
        vec!["a:443".to_string()],
        true,
        "cluster.local".to_string(),
    );
    let peer = pool.next().unwrap();
    assert_eq!(peer.address, "a:443");
    assert!(peer.use_tls);
    assert_eq!(peer.sni, "cluster.local");
}

#[test]
fn empty_rule_set_tenant_alone_yields_no_upstream() {
    let tenant = GefyraClient {
        key: "silent".to_string(),
        peer: GefyraPeer {
            address: "s.local:80".to_string(),
            use_tls: false,
            sni: "".to_string(),
        },
        matching_rules: MatchOrCondition { or_rules: Vec::new() },
    };
    let router = Carrier2 { gefyra_clients: vec![tenant], cluster_upstream: None };
    assert!(router.upstream_peer(&request("/anything")).is_err());
    assert!(router.upstream_peer(&request("/")).is_err());
}

#[test]
fn fallback_pool_answers_when_no_tenant_matches() {
    let router = Carrier2 {
        gefyra_clients: vec![client("tenant-x", "x.local:80", "/only-x")],
        cluster_upstream: Some(BackendPool::new(
            vec!["fb.local:80".to_string()],
            false,
            "".to_string(),
        )),
    };
    let selection = router.upstream_peer(&request("/elsewhere")).unwrap();
    assert_eq!(selection.peer.address, "fb.local:80");
    assert!(matches!(selection.source, SelectionSource::ClusterFallback));
}

#[test]
fn configured_but_empty_pool_yields_no_upstream() {
    let router = Carrier2 {
        gefyra_clients: Vec::new(),
        cluster_upstream: Some(BackendPool::new(Vec::new(), false, "".to_string())),
    };
    assert!(router.upstream_peer(&request("/")).is_err());
}

#[test]
fn shared_round_robin_is_fair_over_whole_revolutions() {
    let backends: Vec<String> = (0..4).map(|i| format!("b{}:80", i)).collect();
    let pool = Arc::new(BackendPool::new(backends.clone(), false, "".to_string()));
    let k = 200;
    let total = k * backends.len();
    let mut counts = vec![0usize; backends.len()];
    for _ in 0..total {
        let address = pool.next().unwrap().address;
        let slot = backends.iter().position(|b| *b == address).unwrap();
        counts[slot] += 1;
    }
    for count in counts {
        assert_eq!(count, k);
    }
}
