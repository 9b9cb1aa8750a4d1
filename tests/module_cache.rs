use std::cell::Cell;

use sandbox_host::cache::{FetchError, LoadError, LoadState, LoadStep, ModuleCache};

#[test]
fn fetch_runs_once_after_success() {
    let mut cache = ModuleCache::new();
    let calls = Cell::new(0u32);
    let fetch = || {
        calls.set(calls.get() + 1);
        Ok(vec![1u8, 2, 3])
    };
    let first = cache.load_or_get("/p/a.js", fetch).unwrap();
    for _ in 0..5 {
        let again = cache
            .load_or_get("/p/a.js", || {
                calls.set(calls.get() + 1);
                Ok(vec![9u8])
            })
            .unwrap();
        assert_eq!(again, first);
    }
    assert_eq!(calls.get(), 1);
    assert!(matches!(&cache.record(first).state, LoadState::Ready(b) if b == &vec![1u8, 2, 3]));
    assert_eq!(cache.len(), 1);
}

#[test]
fn failure_is_not_retried() {
    let mut cache = ModuleCache::new();
    let calls = Cell::new(0u32);
    let flaky = || {
        calls.set(calls.get() + 1);
        if calls.get() == 1 {
            Err(FetchError::NotFound)
        } else {
            Ok(vec![7u8])
        }
    };
    assert_eq!(cache.load_or_get("/p/b.js", flaky), Err(LoadError::Fetch(FetchError::NotFound)));
    let second = cache.load_or_get("/p/b.js", || {
        calls.set(calls.get() + 1);
        Ok(vec![7u8])
    });
    assert_eq!(second, Err(LoadError::Fetch(FetchError::NotFound)));
    assert_eq!(calls.get(), 1);
}

#[test]
fn invalidate_forces_retry() {
    let mut cache = ModuleCache::new();
    assert!(cache.load_or_get("/p/b.js", || Err(FetchError::Denied)).is_err());
    cache.invalidate("/p/b.js");
    assert_eq!(cache.load_or_get("/p/b.js", || Ok(vec![1u8])), Ok(0));
}

#[test]
fn waiters_collapse_onto_one_fetch() {
    let mut cache = ModuleCache::new();
    let n = 6;
    let first = cache.begin("/p/slow.js");
    let i = match first {
        LoadStep::Fetch(i) => i,
        other => panic!("expected a fetch, got {:?}", other),
    };
    let mut waiters = Vec::new();
    for _ in 1..n {
        let step = cache.begin("/p/slow.js");
        assert_eq!(step, LoadStep::Wait(i));
        waiters.push(step);
    }
    assert_eq!(cache.outcome(i), None);
    assert_eq!(cache.finish(i, Ok(vec![5u8])), Ok(i));
    for w in waiters {
        if let LoadStep::Wait(j) = w {
            assert_eq!(cache.outcome(j), Some(Ok(i)));
        }
    }
    assert_eq!(cache.begin("/p/slow.js"), LoadStep::Cached(i));
}

#[test]
fn aborted_fetch_can_be_retried() {
    let mut cache = ModuleCache::new();
    let i = match cache.begin("/p/c.js") {
        LoadStep::Fetch(i) => i,
        other => panic!("expected a fetch, got {:?}", other),
    };
    assert_eq!(cache.begin("/p/c.js"), LoadStep::Wait(i));
    assert_eq!(cache.finish(i, Err(FetchError::Transient)), Err(LoadError::Aborted));
    assert_eq!(cache.outcome(i), Some(Err(LoadError::Aborted)));
    assert!(matches!(cache.record(i).state, LoadState::Pending));
    assert_eq!(cache.begin("/p/c.js"), LoadStep::Fetch(i));
    assert_eq!(cache.finish(i, Ok(vec![])), Ok(i));
}

#[test]
fn distinct_identities_get_distinct_records() {
    let mut cache = ModuleCache::new();
    assert_eq!(cache.load_or_get("/a.js", || Ok(vec![1u8])), Ok(0));
    assert_eq!(cache.load_or_get("/b.js", || Ok(vec![2u8])), Ok(1));
    assert_eq!(cache.lookup("/b.js"), Some(1));
    assert_eq!(cache.lookup("/c.js"), None);
    assert_eq!(cache.record(1).identity, "/b.js");
}

#[test]
fn cyclic_import_sees_pending_record() {
    let mut cache = ModuleCache::new();
    let i = match cache.begin("/p/cycle.js") {
        LoadStep::Fetch(i) => i,
        other => panic!("expected a fetch, got {:?}", other),
    };
    let calls = Cell::new(0u32);
    let again = cache.load_or_get("/p/cycle.js", || {
        calls.set(calls.get() + 1);
        Ok(vec![])
    });
    assert_eq!(again, Ok(i));
    assert_eq!(calls.get(), 0);
    assert!(matches!(cache.record(i).state, LoadState::Pending));
}
