//! The shared memoization cache: one computation per key per run,
//! equal payloads for every caller, failures cached too.

use std::cell::Cell;

use fontspector::{Cache, ConfigValue};

#[test]
fn compute_runs_exactly_once_per_key() {
    let mut cache = Cache::new();
    let calls = Cell::new(0u32);
    let mut seen = Vec::new();
    for _ in 0..5 {
        let r = cache.get_or_compute("metadata", || {
            calls.set(calls.get() + 1);
            Ok(ConfigValue::Str("payload".to_string()))
        });
        seen.push(r);
    }
    assert_eq!(calls.get(), 1);
    for r in seen {
        match r {
            Ok(ConfigValue::Str(s)) => assert_eq!(s, "payload"),
            other => panic!("unexpected cached payload: {:?}", other.is_ok()),
        }
    }
}

#[test]
fn distinct_keys_compute_separately() {
    let mut cache = Cache::new();
    let calls = Cell::new(0u32);
    for key in ["a", "b", "a", "b", "c"] {
        let _ = cache.get_or_compute(key, || {
            calls.set(calls.get() + 1);
            Ok(ConfigValue::Null)
        });
    }
    assert_eq!(calls.get(), 3);
}

#[test]
fn failures_are_cached_and_not_retried() {
    let mut cache = Cache::new();
    let calls = Cell::new(0u32);
    for _ in 0..3 {
        let r = cache.get_or_compute("flaky", || {
            calls.set(calls.get() + 1);
            Err("network down".to_string())
        });
        match r {
            Err(e) => assert_eq!(e, "network down"),
            Ok(_) => panic!("expected the cached failure"),
        }
    }
    assert_eq!(calls.get(), 1);
    // even a later caller whose computation would succeed gets the
    // cached failure: the lookup is not retried within a run
    let r = cache.get_or_compute("flaky", || Ok(ConfigValue::Bool(true)));
    assert!(r.is_err());
    assert_eq!(calls.get(), 1);
}
