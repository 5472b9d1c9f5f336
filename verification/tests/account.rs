use auth_core::account::AccountStore;

#[test]
fn create_assigns_sequential_ids() {
    let mut store = AccountStore::new();
    let a = store.create("alice", String::from("h1")).unwrap();
    let b = store.create("bob", String::from("h2")).unwrap();
    assert_eq!(a.id, 0);
    assert_eq!(b.id, 1);
    assert_eq!(a.username, "alice");
    assert_eq!(a.password, "h1");
}

#[test]
fn duplicate_username_is_refused() {
    let mut store = AccountStore::new();
    assert!(store.create("alice", String::from("h1")).is_some());
    assert!(store.create("alice", String::from("h2")).is_none());
    // the refused create changed nothing
    let found = store.find_by_username("alice").unwrap();
    assert_eq!(found.password, "h1");
}

#[test]
fn racing_creates_one_winner() {
    // N same-name creates, serialized by the table's atomicity: exactly one
    // succeeds and the rest see the name taken
    let mut store = AccountStore::new();
    let mut added = 0;
    let mut refused = 0;
    for i in 0..5 {
        match store.create("alice", format!("h{i}")) {
            Some(_) => added += 1,
            None => refused += 1,
        }
    }
    assert_eq!(added, 1);
    assert_eq!(refused, 4);
}

#[test]
fn find_by_username_looks_up() {
    let mut store = AccountStore::new();
    store.create("alice", String::from("h1"));
    store.create("bob", String::from("h2"));
    assert_eq!(store.find_by_username("bob").unwrap().id, 1);
    assert!(store.find_by_username("carol").is_none());
    assert!(store.find_by_username("").is_none());
}

#[test]
fn find_by_id_looks_up() {
    let mut store = AccountStore::new();
    store.create("alice", String::from("h1"));
    assert_eq!(store.find_by_id(0).unwrap().username, "alice");
    assert!(store.find_by_id(1).is_none());
    assert!(store.find_by_id(u64::MAX).is_none());
}

#[test]
fn username_taken_probe() {
    let mut store = AccountStore::new();
    assert!(!store.username_taken("alice"));
    store.create("alice", String::from("h1"));
    assert!(store.username_taken("alice"));
    assert!(!store.username_taken("Alice")); // usernames are case-sensitive
}
