use strand::config::Config;
use strand::digits::{format_u64, parse_u64};
use strand::fleetlock::{check_fleetlock_header, str_eq, ClientParams, Request, Response};
use strand::strategies::{
    drain_decisions, eviction_failure, init_strategies, priorities_of, should_evict,
    sort_indices_asc, sort_indices_desc, Kubernetes, Priority, Strategy, Workload,
};
use strand::Error;

#[test]
fn parse_accepts_exactly_decimal_u64() {
    assert_eq!(parse_u64("0"), Some(0));
    assert_eq!(parse_u64("007"), Some(7));
    assert_eq!(parse_u64("100"), Some(100));
    assert_eq!(parse_u64("18446744073709551615"), Some(u64::MAX));
    assert_eq!(parse_u64("18446744073709551616"), None);
    assert_eq!(parse_u64(""), None);
    assert_eq!(parse_u64("12a"), None);
    assert_eq!(parse_u64("-1"), None);
    assert_eq!(parse_u64(" 1"), None);
}

#[test]
fn format_round_trips() {
    assert_eq!(format_u64(0), "0");
    assert_eq!(format_u64(7), "7");
    assert_eq!(format_u64(100), "100");
    assert_eq!(format_u64(u64::MAX), "18446744073709551615");
    for n in [0u64, 1, 9, 10, 99, 100, 12345, u64::MAX] {
        assert_eq!(parse_u64(&format_u64(n)), Some(n));
    }
}

#[test]
fn header_gate() {
    assert!(check_fleetlock_header(Some("true")).is_ok());
    assert!(matches!(check_fleetlock_header(Some("false")), Err(Error::Value(_))));
    assert!(matches!(check_fleetlock_header(Some("TRUE")), Err(Error::Value(_))));
    assert!(matches!(check_fleetlock_header(None), Err(Error::Value(_))));
}

#[test]
fn str_eq_compares_contents() {
    assert!(str_eq("abc", "abc"));
    assert!(!str_eq("abc", "abd"));
    assert!(!str_eq("abc", "abcd"));
    assert!(str_eq("", ""));
}

#[test]
fn error_slugs_and_statuses() {
    let held = Error::Held("bob".to_string());
    assert_eq!(held.slug(), "err_lock");
    assert_eq!(held.status_code(), 404);
    assert_eq!(held.message(), "lock held by bob");

    let value = Error::Value("oops".to_string());
    assert_eq!(value.slug(), "err_value");
    assert_eq!(value.status_code(), 500);
    assert_eq!(value.message(), "bad value: oops");

    assert_eq!(Error::NotFound.slug(), "err_kube_api");
    assert_eq!(Error::Upstream("timeout".to_string()).slug(), "err_kube_api");
    assert_eq!(Error::Impossible.slug(), "err_impossible");
    assert_eq!(Error::Unknown.slug(), "err_unknown");

    let (status, body) = held.into_response_parts();
    assert_eq!(status, 404);
    assert_eq!(body.kind, "err_lock");
    assert_eq!(body.value, "lock held by bob");
}

#[test]
fn success_responses() {
    let acquired = Response::lock_acquired();
    assert_eq!(acquired.kind, "lock_acquired");
    assert_eq!(acquired.value, "successfully acquired lock, ok to reboot");
    let released = Response::lock_released();
    assert_eq!(released.kind, "lock_released");
    assert_eq!(released.value, "successfully released lock, no more retries needed");
}

#[test]
fn default_config() {
    let c = Config::default();
    assert_eq!(c.api_version, "v1alpha1");
    assert_eq!(c.kind, "StrandConfig");
    assert_eq!(c.lock.name, "zincati-strand-lock");
    assert_eq!(c.lock.namespace, "strand");
}

#[test]
fn strategy_registry_builds_drain_for_request() {
    let req = Request {
        client_params: ClientParams { group: "workers".to_string(), id: "node-a".to_string() },
    };
    let strategies = init_strategies(&req);
    assert_eq!(strategies.len(), 1);
    assert_eq!(strategies[0].node, "node-a");
    assert_eq!(strategies[0].priority(), Priority { pre: 100, post: 300 });
    assert_eq!(strategies[0].poll_interval_secs(), 10);
    assert_eq!(strategies[0].timeout_interval_secs(), 600);
    let prios = priorities_of(&strategies);
    assert_eq!(prios, vec![Priority { pre: 100, post: 300 }]);
    let k = Kubernetes::new("node-b".to_string());
    assert_eq!(k.node, "node-b");
}

#[test]
fn daemon_owned_workloads_are_exempt() {
    let daemon = Workload {
        name: "log-agent-xyz".to_string(),
        owner_kinds: vec!["DaemonSet".to_string()],
    };
    let web = Workload {
        name: "web-1".to_string(),
        owner_kinds: vec!["ReplicaSet".to_string()],
    };
    let bare = Workload { name: "bare".to_string(), owner_kinds: vec![] };
    assert!(!should_evict(&daemon));
    assert!(should_evict(&web));
    assert!(should_evict(&bare));

    // The drain ignores the daemon workload even if evicting it would
    // have failed, and succeeds when all others evict.
    let pods = vec![
        Workload { name: "log-agent-xyz".to_string(), owner_kinds: vec!["DaemonSet".to_string()] },
        Workload { name: "web-1".to_string(), owner_kinds: vec!["ReplicaSet".to_string()] },
    ];
    assert!(drain_decisions(&pods, &vec![false, true]).is_ok());

    // The first eviction failure of a non-exempt workload aborts the
    // drain with an error naming it.
    match drain_decisions(&pods, &vec![false, false]) {
        Err(Error::Value(m)) => assert_eq!(m, "failed to evict web-1"),
        other => panic!("expected an eviction failure, got {:?}", other),
    }
    match eviction_failure(&web) {
        Error::Value(m) => assert_eq!(m, "failed to evict web-1"),
        other => panic!("expected a value error, got {:?}", other),
    }
}

#[test]
fn sort_orders_and_keeps_ties_stable() {
    let keys: Vec<u64> = vec![50, 100, 50, 300];
    let desc = sort_indices_desc(&keys);
    assert_eq!(desc, vec![3, 1, 0, 2]);
    let asc = sort_indices_asc(&keys);
    assert_eq!(asc, vec![0, 2, 1, 3]);

    let empty: Vec<u64> = vec![];
    assert_eq!(sort_indices_desc(&empty), Vec::<usize>::new());
    let ties: Vec<u64> = vec![7, 7, 7];
    assert_eq!(sort_indices_desc(&ties), vec![0, 1, 2]);
    assert_eq!(sort_indices_asc(&ties), vec![0, 1, 2]);
}
