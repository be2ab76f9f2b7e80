use strand::fleetlock::{ClientParams, Request};
use strand::lock::{LeaseStore, Lock};
use strand::orchestrator::{post_poll_step, post_reboot, pre_reboot, run_pre_session, PollDecision};
use strand::Error;

fn get_lock() -> Lock {
    Lock { name: "test".to_string(), namespace: "default".to_string() }
}

fn request_for(id: &str) -> Request {
    Request {
        client_params: ClientParams { group: "workers".to_string(), id: id.to_string() },
    }
}

#[test]
fn partial_failure_keeps_progress() {
    // Holder node-a, two strategies with pre-priorities {100, 50}: the
    // first succeeds, the second's drain fails, so the answer is the
    // strategy's own error and the persisted watermark reads 100.
    let lock = get_lock();
    let mut store = LeaseStore::new();
    let holder = "node-a".to_string();
    lock.acquire(&mut store, &holder).unwrap();

    let sorted_pres: Vec<u64> = vec![100, 50];
    let outcomes: Vec<Result<(), Error>> =
        vec![Ok(()), Err(Error::Value("pause failed".to_string()))];
    let (res, executed) = run_pre_session(&lock, &mut store, &holder, 0, &sorted_pres, &outcomes);
    match res {
        Err(Error::Value(m)) => assert_eq!(m, "pause failed"),
        other => panic!("expected the strategy's error, got {:?}", other),
    }
    assert_eq!(executed, vec![0, 1]);
    assert_eq!(lock.get_metadata(&store).unwrap().progress_flag, 100);
}

#[test]
fn retry_resumes_after_last_completed() {
    // Priorities {100, 50, 30}: a first session completes 100 and 50 and
    // fails on 30.  The retry re-invokes nothing at or above 50 — only
    // the strategy that had not completed runs again.
    let lock = get_lock();
    let mut store = LeaseStore::new();
    let holder = "node-a".to_string();
    lock.acquire(&mut store, &holder).unwrap();

    let sorted_pres: Vec<u64> = vec![100, 50, 30];
    let first: Vec<Result<(), Error>> =
        vec![Ok(()), Ok(()), Err(Error::Value("flaky".to_string()))];
    let (res, executed) = run_pre_session(&lock, &mut store, &holder, 0, &sorted_pres, &first);
    assert!(res.is_err());
    assert_eq!(executed, vec![0, 1, 2]);
    let watermark = lock.get_metadata(&store).unwrap().progress_flag;
    assert_eq!(watermark, 50);

    let second: Vec<Result<(), Error>> = vec![Ok(()), Ok(()), Ok(())];
    let (res, executed) =
        run_pre_session(&lock, &mut store, &holder, watermark, &sorted_pres, &second);
    assert!(res.is_ok());
    assert_eq!(executed, vec![2]);
    assert_eq!(lock.get_metadata(&store).unwrap().progress_flag, 30);
}

#[test]
fn execution_order_is_descending() {
    // A fresh session over a descending priority list invokes every
    // strategy once, highest pre-priority first.
    let lock = get_lock();
    let mut store = LeaseStore::new();
    let holder = "node-a".to_string();
    lock.acquire(&mut store, &holder).unwrap();

    let sorted_pres: Vec<u64> = vec![300, 200, 100];
    let outcomes: Vec<Result<(), Error>> = vec![Ok(()), Ok(()), Ok(())];
    let (res, executed) = run_pre_session(&lock, &mut store, &holder, 0, &sorted_pres, &outcomes);
    assert!(res.is_ok());
    assert_eq!(executed, vec![0, 1, 2]);
    let ran: Vec<u64> = executed.iter().map(|&k| sorted_pres[k]).collect();
    assert_eq!(ran, vec![300, 200, 100]);
    for w in ran.windows(2) {
        assert!(w[0] > w[1]);
    }
}

#[test]
fn pre_reboot_grants_and_persists() {
    let lock = get_lock();
    let mut store = LeaseStore::new();
    let req = request_for("node-a");
    let outcomes: Vec<Result<(), Error>> = vec![Ok(())];

    let (res, executed) = pre_reboot(&lock, &mut store, &req, &outcomes);
    let resp = res.unwrap();
    assert_eq!(resp.kind, "lock_acquired");
    assert_eq!(resp.value, "successfully acquired lock, ok to reboot");
    assert_eq!(executed, vec![0]);
    let meta = lock.get_metadata(&store).unwrap();
    assert_eq!(meta.holder, "node-a");
    assert_eq!(meta.progress_flag, 100);

    // A retry of the same request runs nothing again and still grants.
    let (res, executed) = pre_reboot(&lock, &mut store, &req, &outcomes);
    assert!(res.is_ok());
    assert!(executed.is_empty());
}

#[test]
fn pre_reboot_rejects_other_holder() {
    let lock = get_lock();
    let mut store = LeaseStore::new();
    let outcomes: Vec<Result<(), Error>> = vec![Ok(())];

    let (res, _) = pre_reboot(&lock, &mut store, &request_for("node-a"), &outcomes);
    assert!(res.is_ok());
    let (res, executed) = pre_reboot(&lock, &mut store, &request_for("node-b"), &outcomes);
    match res {
        Err(Error::Held(who)) => assert_eq!(who, "node-a"),
        other => panic!("expected contention, got {:?}", other),
    }
    assert!(executed.is_empty());
}

#[test]
fn pre_reboot_failure_reports_strategy_error() {
    let lock = get_lock();
    let mut store = LeaseStore::new();
    let req = request_for("node-a");
    let outcomes: Vec<Result<(), Error>> =
        vec![Err(Error::Value("failed to evict web-1".to_string()))];

    let (res, executed) = pre_reboot(&lock, &mut store, &req, &outcomes);
    match res {
        Err(Error::Value(m)) => assert_eq!(m, "failed to evict web-1"),
        other => panic!("expected the drain's error, got {:?}", other),
    }
    assert_eq!(executed, vec![0]);
    // The lock stays held with no progress, so a retry starts over.
    let meta = lock.get_metadata(&store).unwrap();
    assert_eq!(meta.holder, "node-a");
    assert_eq!(meta.progress_flag, 0);
}

#[test]
fn post_reboot_releases_only_when_healthy() {
    let lock = get_lock();
    let mut store = LeaseStore::new();
    let req = request_for("node-a");
    let pre_outcomes: Vec<Result<(), Error>> = vec![Ok(())];
    let (res, _) = pre_reboot(&lock, &mut store, &req, &pre_outcomes);
    assert!(res.is_ok());

    // An unhealthy strategy keeps the lock held.
    let unhealthy: Vec<Result<(), Error>> =
        vec![Err(Error::Value("still cordoned".to_string()))];
    let res = post_reboot(&lock, &mut store, &req, &unhealthy);
    assert!(matches!(res, Err(Error::Value(_))));
    assert_eq!(lock.get_metadata(&store).unwrap().holder, "node-a");

    // Once all confirm, the lock is released.
    let healthy: Vec<Result<(), Error>> = vec![Ok(())];
    let resp = post_reboot(&lock, &mut store, &req, &healthy).unwrap();
    assert_eq!(resp.kind, "lock_released");
    assert_eq!(resp.value, "successfully released lock, no more retries needed");
    assert!(matches!(lock.get_metadata(&store), Err(Error::NotFound)));
}

#[test]
fn post_reboot_refuses_non_holder() {
    let lock = get_lock();
    let mut store = LeaseStore::new();
    let pre_outcomes: Vec<Result<(), Error>> = vec![Ok(())];
    let (res, _) = pre_reboot(&lock, &mut store, &request_for("node-a"), &pre_outcomes);
    assert!(res.is_ok());

    let healthy: Vec<Result<(), Error>> = vec![Ok(())];
    let res = post_reboot(&lock, &mut store, &request_for("node-b"), &healthy);
    match res {
        Err(Error::Held(who)) => assert_eq!(who, "node-a"),
        other => panic!("expected contention, got {:?}", other),
    }
}

#[test]
fn post_reboot_on_unheld_lock_is_not_found() {
    let lock = get_lock();
    let mut store = LeaseStore::new();
    let healthy: Vec<Result<(), Error>> = vec![Ok(())];
    let res = post_reboot(&lock, &mut store, &request_for("node-a"), &healthy);
    assert!(matches!(res, Err(Error::NotFound)));
}

#[test]
fn poll_step_decisions() {
    assert_eq!(post_poll_step(true, 599, 10, 600), PollDecision::Confirmed);
    assert_eq!(post_poll_step(false, 0, 10, 600), PollDecision::RetryAfter(10));
    assert_eq!(post_poll_step(false, 590, 10, 600), PollDecision::RetryAfter(10));
    assert_eq!(post_poll_step(false, 600, 10, 600), PollDecision::TimedOut);
    assert_eq!(post_poll_step(false, 601, 10, 600), PollDecision::TimedOut);
}
