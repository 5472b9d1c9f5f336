use auth_core::reaper::ExpiryReaper;
use auth_core::session::SessionRecord;
use auth_core::session::SessionStore;

const NOW: u64 = 1_000_000;
const HOUR: u64 = 3_600;

fn record(id: u128, payload: &[u8], expiry: u64) -> SessionRecord {
    SessionRecord { id, payload: payload.to_vec(), expiry }
}

#[test]
fn save_then_load_returns_payload() {
    let mut store = SessionStore::new();
    store.save(record(1, b"opaque-session-state", NOW + HOUR));
    let got = store.load(1, NOW).unwrap();
    assert_eq!(got.payload, b"opaque-session-state".to_vec());
    assert_eq!(got.id, 1);
    assert_eq!(got.expiry, NOW + HOUR);
}

#[test]
fn load_after_expiry_is_absent_without_sweep() {
    let mut store = SessionStore::new();
    store.save(record(1, b"blob", NOW + HOUR));
    // at the expiry instant and after it the record is invisible,
    // though no delete_expired has run
    assert!(store.load(1, NOW + HOUR).is_none());
    assert!(store.load(1, NOW + HOUR + 1).is_none());
    // before it, still there
    assert!(store.load(1, NOW + HOUR - 1).is_some());
}

#[test]
fn save_is_an_upsert() {
    let mut store = SessionStore::new();
    store.save(record(1, b"first", NOW + HOUR));
    store.save(record(1, b"second", NOW + 2 * HOUR));
    let got = store.load(1, NOW).unwrap();
    assert_eq!(got.payload, b"second".to_vec());
    assert_eq!(got.expiry, NOW + 2 * HOUR);
    // other ids are untouched
    store.save(record(2, b"other", NOW + HOUR));
    assert_eq!(store.load(1, NOW).unwrap().payload, b"second".to_vec());
}

#[test]
fn delete_is_idempotent() {
    let mut store = SessionStore::new();
    store.save(record(1, b"blob", NOW + HOUR));
    store.delete(1);
    assert!(store.load(1, NOW).is_none());
    // deleting an absent id is not an error
    store.delete(1);
    store.delete(42);
}

#[test]
fn delete_expired_removes_all_and_only_expired() {
    let mut store = SessionStore::new();
    store.save(record(1, b"gone", NOW - 1));
    store.save(record(2, b"kept", NOW + HOUR));
    store.save(record(3, b"gone-too", NOW));
    store.save(record(4, b"kept-too", NOW + 1));
    store.delete_expired(NOW);
    // all expired rows are gone even for reads far in the past
    assert!(store.load(1, 0).is_none());
    assert!(store.load(3, 0).is_none());
    // all live rows survive
    assert_eq!(store.load(2, NOW).unwrap().payload, b"kept".to_vec());
    assert_eq!(store.load(4, NOW).unwrap().payload, b"kept-too".to_vec());
}

#[test]
fn delete_expired_twice_is_a_no_op() {
    let mut store = SessionStore::new();
    store.save(record(1, b"gone", NOW - 1));
    store.save(record(2, b"kept", NOW + HOUR));
    store.delete_expired(NOW);
    store.delete_expired(NOW);
    assert!(store.load(1, 0).is_none());
    assert_eq!(store.load(2, NOW).unwrap().payload, b"kept".to_vec());
}

#[test]
fn delete_expired_on_empty_matches_nothing() {
    let mut store = SessionStore::new();
    store.delete_expired(NOW);
    assert!(store.load(1, NOW).is_none());
}

#[test]
fn reaper_sweeps_on_period() {
    let mut store = SessionStore::new();
    store.save(record(1, b"stale", NOW - 1));
    store.save(record(2, b"live", NOW + HOUR));

    let mut reaper = ExpiryReaper::new(60, NOW);
    assert!(reaper.due(NOW));
    assert!(reaper.tick(&mut store, NOW));
    assert!(store.load(1, 0).is_none());
    assert!(store.load(2, NOW).is_some());

    // not due again until one period has passed
    assert!(!reaper.due(NOW + 59));
    assert!(!reaper.tick(&mut store, NOW + 59));
    assert!(reaper.due(NOW + 60));
    assert!(reaper.tick(&mut store, NOW + 60));
}
