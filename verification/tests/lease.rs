use snark_coordinator::lease::{LeaseConfig, LeaseError, LeaseOutcome, LeaseStore, REAP_INTERVAL};
use snark_coordinator::reply::lease_status_code;

fn config() -> LeaseConfig {
    LeaseConfig { default_timeout: 60, max_timeout: 300, max_key_len: 100 }
}

#[test]
fn acquire_then_already_held() {
    let mut store = LeaseStore::new(config());
    assert_eq!(store.try_acquire("job-1".to_string(), Some(10), 0), Ok(LeaseOutcome::Acquired));
    assert_eq!(store.try_acquire("job-1".to_string(), Some(10), 0), Ok(LeaseOutcome::AlreadyHeld));
    assert_eq!(store.len(), 1);
}

#[test]
fn distinct_keys_do_not_contend() {
    let mut store = LeaseStore::new(config());
    assert_eq!(store.try_acquire("a".to_string(), None, 0), Ok(LeaseOutcome::Acquired));
    assert_eq!(store.try_acquire("b".to_string(), None, 0), Ok(LeaseOutcome::Acquired));
    assert_eq!(store.try_acquire("A".to_string(), None, 0), Ok(LeaseOutcome::Acquired));
    assert_eq!(store.try_acquire("".to_string(), None, 0), Ok(LeaseOutcome::Acquired));
    assert_eq!(store.len(), 4);
    assert!(store.is_held(&"a".to_string()));
    assert!(!store.is_held(&"c".to_string()));
}

#[test]
fn expiry_is_now_plus_lifetime() {
    let mut store = LeaseStore::new(config());
    store.try_acquire("k".to_string(), Some(5), 1000).unwrap();
    assert_eq!(store.expiry(&"k".to_string()), Some(1005));
    store.try_acquire("d".to_string(), None, 1000).unwrap();
    assert_eq!(store.expiry(&"d".to_string()), Some(1060));
    store.try_acquire("m".to_string(), Some(301), 1000).unwrap();
    assert_eq!(store.expiry(&"m".to_string()), Some(1300));
    assert_eq!(store.expiry(&"free".to_string()), None);
}

#[test]
fn expiry_does_not_overflow_at_the_end_of_the_clock() {
    let mut store = LeaseStore::new(config());
    store.try_acquire("k".to_string(), Some(300), u64::MAX).unwrap();
    assert_eq!(store.expiry(&"k".to_string()), Some(u64::MAX as u128 + 300));
    store.reap(u64::MAX);
    assert!(store.is_held(&"k".to_string()));
}

#[test]
fn effective_timeout_defaults_and_clamps() {
    let c = config();
    assert_eq!(c.effective_timeout(None), 60);
    assert_eq!(c.effective_timeout(Some(0)), 0);
    assert_eq!(c.effective_timeout(Some(300)), 300);
    assert_eq!(c.effective_timeout(Some(301)), 300);
    assert_eq!(c.effective_timeout(Some(u16::MAX)), 300);
    let low = LeaseConfig { default_timeout: 60, max_timeout: 30, max_key_len: 100 };
    assert_eq!(low.effective_timeout(None), 30);
}

#[test]
fn held_lease_is_not_renewed() {
    let mut store = LeaseStore::new(config());
    store.try_acquire("k".to_string(), Some(5), 10).unwrap();
    assert_eq!(store.try_acquire("k".to_string(), Some(200), 12), Ok(LeaseOutcome::AlreadyHeld));
    assert_eq!(store.expiry(&"k".to_string()), Some(15));
}

#[test]
fn reap_frees_expired_key() {
    let mut store = LeaseStore::new(config());
    assert_eq!(store.try_acquire("k".to_string(), Some(5), 100), Ok(LeaseOutcome::Acquired));
    store.reap(105);
    assert!(!store.is_held(&"k".to_string()));
    assert_eq!(store.try_acquire("k".to_string(), Some(5), 105), Ok(LeaseOutcome::Acquired));
    assert_eq!(store.expiry(&"k".to_string()), Some(110));
}

#[test]
fn reap_is_inclusive_at_the_expiry_instant() {
    let mut store = LeaseStore::new(config());
    store.try_acquire("k".to_string(), Some(5), 100).unwrap();
    store.reap(104);
    assert!(store.is_held(&"k".to_string()));
    store.reap(105);
    assert!(!store.is_held(&"k".to_string()));
}

#[test]
fn reap_keeps_living_leases_untouched() {
    let mut store = LeaseStore::new(config());
    store.try_acquire("short".to_string(), Some(1), 0).unwrap();
    store.try_acquire("long".to_string(), Some(100), 0).unwrap();
    store.try_acquire("zero".to_string(), Some(0), 0).unwrap();
    store.try_acquire("mid".to_string(), Some(50), 0).unwrap();
    store.reap(50);
    assert_eq!(store.len(), 1);
    assert_eq!(store.expiry(&"long".to_string()), Some(100));
    assert_eq!(store.expiry(&"short".to_string()), None);
    assert_eq!(store.expiry(&"zero".to_string()), None);
    assert_eq!(store.expiry(&"mid".to_string()), None);
    store.reap(50);
    assert_eq!(store.len(), 1);
}

#[test]
fn reap_of_empty_store_does_nothing() {
    let mut store = LeaseStore::new(config());
    store.reap(0);
    store.reap(u64::MAX);
    assert_eq!(store.len(), 0);
    assert_eq!(store.config(), config());
}

#[test]
fn lookups_never_evict() {
    let mut store = LeaseStore::new(config());
    store.try_acquire("k".to_string(), Some(5), 100).unwrap();
    assert_eq!(store.try_acquire("k".to_string(), Some(5), 1_000_000), Ok(LeaseOutcome::AlreadyHeld));
    assert_eq!(store.expiry(&"k".to_string()), Some(105));
}

#[test]
fn key_too_long_is_refused_whatever_the_timeout() {
    let mut store = LeaseStore::new(config());
    let key = "x".repeat(101);
    let refusal = Err(LeaseError::KeyTooLong { max: 100, found: 101 });
    assert_eq!(store.try_acquire(key.clone(), None, 0), refusal);
    assert_eq!(store.try_acquire(key.clone(), Some(0), 0), refusal);
    assert_eq!(store.try_acquire(key.clone(), Some(u16::MAX), 7), refusal);
    assert_eq!(store.len(), 0);
    assert!(!store.is_held(&key));
}

#[test]
fn key_of_the_longest_allowed_length_is_accepted() {
    let mut store = LeaseStore::new(config());
    assert_eq!(store.try_acquire("x".repeat(100), None, 0), Ok(LeaseOutcome::Acquired));
}

#[test]
fn key_length_is_counted_in_bytes() {
    let mut store =
        LeaseStore::new(LeaseConfig { default_timeout: 60, max_timeout: 300, max_key_len: 3 });
    assert_eq!(
        store.try_acquire("éé".to_string(), None, 0),
        Err(LeaseError::KeyTooLong { max: 3, found: 4 })
    );
    assert_eq!(store.try_acquire("éa".to_string(), None, 0), Ok(LeaseOutcome::Acquired));
}

#[test]
fn long_key_is_refused_even_when_limit_is_zero() {
    let mut store =
        LeaseStore::new(LeaseConfig { default_timeout: 1, max_timeout: 1, max_key_len: 0 });
    assert_eq!(
        store.try_acquire("a".to_string(), None, 0),
        Err(LeaseError::KeyTooLong { max: 0, found: 1 })
    );
    assert_eq!(store.try_acquire(String::new(), None, 0), Ok(LeaseOutcome::Acquired));
}

#[test]
fn lease_status_codes() {
    assert_eq!(lease_status_code(&Ok(LeaseOutcome::Acquired)), 201);
    assert_eq!(lease_status_code(&Ok(LeaseOutcome::AlreadyHeld)), 200);
    assert_eq!(lease_status_code(&Err(LeaseError::KeyTooLong { max: 1, found: 2 })), 400);
}

#[test]
fn lock_job_scenario() {
    let mut store = LeaseStore::new(config());
    let first = store.try_acquire("job-42".to_string(), Some(5), 0);
    assert_eq!(lease_status_code(&first), 201);
    let repeat = store.try_acquire("job-42".to_string(), Some(5), 0);
    assert_eq!(lease_status_code(&repeat), 200);
    store.reap(6);
    let again = store.try_acquire("job-42".to_string(), Some(5), 6);
    assert_eq!(lease_status_code(&again), 201);
}

#[test]
fn periodic_sweeps_free_the_key_at_the_first_tick_past_expiry() {
    assert_eq!(REAP_INTERVAL, 2);
    let mut store = LeaseStore::new(config());
    store.try_acquire("job".to_string(), Some(5), 0).unwrap();
    let mut freed_at = None;
    let mut now = 0;
    while freed_at.is_none() {
        now += REAP_INTERVAL;
        store.reap(now);
        if !store.is_held(&"job".to_string()) {
            freed_at = Some(now);
        }
    }
    assert_eq!(freed_at, Some(6));
}
