use strand::lock::{LeaseRecord, LeaseStore, Lock};
use strand::Error;

fn get_lock() -> Lock {
    Lock { name: "test".to_string(), namespace: "default".to_string() }
}

// Rust tries to run tests in parallel, but this doesn't work for
// the lock test because... obviously... so I put them all in one
// function!

#[test]
fn lock_test() {
    let lock = get_lock();
    let mut store = LeaseStore::new();

    let _ = lock.force_release(&mut store);

    lock.acquire(&mut store, &"alice".to_string()).unwrap();
    lock.release(&mut store, &"alice".to_string()).unwrap();

    // Someone tries to acquire an already held lock...

    lock.acquire(&mut store, &"alice".to_string()).unwrap();
    let res = lock.acquire(&mut store, &"bob".to_string());
    assert!(res.is_err());
    lock.release(&mut store, &"alice".to_string()).unwrap();

    // Freeing when doesn't exist...

    lock.acquire(&mut store, &"alice".to_string()).unwrap();
    lock.release(&mut store, &"alice".to_string()).unwrap();
    let res = lock.release(&mut store, &"alice".to_string());
    assert!(res.is_err());

    // Freeing when someone else holds the lock...

    lock.acquire(&mut store, &"alice".to_string()).unwrap();
    let res = lock.release(&mut store, &"bob".to_string());
    assert!(res.is_err());
}

#[test]
fn acquire_contention_scenario() {
    // Lock unheld: acquire("node-a") succeeds; acquire("node-b") reports
    // contention naming node-a; release("node-a") succeeds; a second
    // release("node-a") is a not-found error, not a silent success.
    let lock = get_lock();
    let mut store = LeaseStore::new();

    assert!(lock.acquire(&mut store, &"node-a".to_string()).is_ok());
    match lock.acquire(&mut store, &"node-b".to_string()) {
        Err(Error::Held(who)) => assert_eq!(who, "node-a"),
        other => panic!("expected contention, got {:?}", other),
    }
    assert!(lock.release(&mut store, &"node-a".to_string()).is_ok());
    match lock.release(&mut store, &"node-a".to_string()) {
        Err(Error::NotFound) => {}
        other => panic!("expected not-found, got {:?}", other),
    }
}

#[test]
fn reacquire_same_holder_is_idempotent() {
    let lock = get_lock();
    let mut store = LeaseStore::new();
    assert!(lock.acquire(&mut store, &"node-a".to_string()).is_ok());
    assert!(lock.acquire(&mut store, &"node-a".to_string()).is_ok());
    let meta = lock.get_metadata(&store).unwrap();
    assert_eq!(meta.holder, "node-a");
    assert_eq!(meta.progress_flag, 0);
}

#[test]
fn release_leaves_lease_untouched_on_contention() {
    let lock = get_lock();
    let mut store = LeaseStore::new();
    lock.acquire(&mut store, &"node-a".to_string()).unwrap();
    let _ = lock.release(&mut store, &"node-b".to_string());
    let meta = lock.get_metadata(&store).unwrap();
    assert_eq!(meta.holder, "node-a");
}

#[test]
fn get_metadata_reports_schema_errors() {
    let lock = get_lock();
    // A lease without a holder identity.
    let store = LeaseStore {
        lease: Some(LeaseRecord { holder_identity: None, progress_annotation: None }),
    };
    assert!(matches!(lock.get_metadata(&store), Err(Error::Value(_))));

    // A lease whose progress annotation is missing.
    let store = LeaseStore {
        lease: Some(LeaseRecord {
            holder_identity: Some("node-a".to_string()),
            progress_annotation: None,
        }),
    };
    assert!(matches!(lock.get_metadata(&store), Err(Error::Value(_))));

    // A lease whose progress annotation is not a number.
    let store = LeaseStore {
        lease: Some(LeaseRecord {
            holder_identity: Some("node-a".to_string()),
            progress_annotation: Some("not-a-number".to_string()),
        }),
    };
    assert!(matches!(lock.get_metadata(&store), Err(Error::Value(_))));

    // No lease at all.
    let store = LeaseStore::new();
    assert!(matches!(lock.get_metadata(&store), Err(Error::NotFound)));
}

#[test]
fn set_metadata_requires_ownership() {
    let lock = get_lock();
    let mut store = LeaseStore::new();
    lock.acquire(&mut store, &"node-a".to_string()).unwrap();

    let stale = strand::lock::LockMetadata { holder: "node-b".to_string(), progress_flag: 7 };
    assert!(matches!(lock.set_metadata(&mut store, &stale), Err(Error::Value(_))));
    assert_eq!(lock.get_metadata(&store).unwrap().progress_flag, 0);

    let own = strand::lock::LockMetadata { holder: "node-a".to_string(), progress_flag: 7 };
    assert!(lock.set_metadata(&mut store, &own).is_ok());
    let meta = lock.get_metadata(&store).unwrap();
    assert_eq!(meta.progress_flag, 7);
    assert_eq!(meta.holder, "node-a");
}

#[test]
fn store_primitives() {
    let mut store = LeaseStore::new();
    assert!(store.get().is_none());
    assert!(matches!(store.delete(), Err(Error::NotFound)));
    assert!(matches!(store.patch_progress("1".to_string()), Err(Error::NotFound)));

    let rec = LeaseRecord {
        holder_identity: Some("node-a".to_string()),
        progress_annotation: Some("0".to_string()),
    };
    assert!(store.create(rec).is_ok());
    let again = LeaseRecord {
        holder_identity: Some("node-b".to_string()),
        progress_annotation: Some("0".to_string()),
    };
    assert!(matches!(store.create(again), Err(Error::Upstream(_))));
    assert_eq!(
        store.get().unwrap().holder_identity.as_deref(),
        Some("node-a"),
    );

    assert!(store.patch_progress("42".to_string()).is_ok());
    assert_eq!(store.get().unwrap().progress_annotation.as_deref(), Some("42"));
    assert!(store.delete().is_ok());
    assert!(store.get().is_none());
}

#[test]
fn force_release_ignores_holder() {
    let lock = get_lock();
    let mut store = LeaseStore::new();
    lock.acquire(&mut store, &"node-a".to_string()).unwrap();
    assert!(lock.force_release(&mut store).is_ok());
    assert!(matches!(lock.get_metadata(&store), Err(Error::NotFound)));
    assert!(lock.force_release(&mut store).is_err());
}
