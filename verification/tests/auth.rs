use auth_core::auth::hash_password;
use auth_core::auth::verify_password;
use auth_core::auth::Credentials;

#[test]
fn hash_then_verify_round_trips() {
    let hash = hash_password("correct-password");
    assert_eq!(verify_password("correct-password", &hash), Some(true));
}

#[test]
fn verify_rejects_other_password() {
    let hash = hash_password("correct-password");
    assert_eq!(verify_password("wrong-password", &hash), Some(false));
    assert_eq!(verify_password("", &hash), Some(false));
}

#[test]
fn hash_is_not_the_password() {
    // the password itself is no parseable hash string, so a hasher that
    // handed its input back unchanged would fail this round trip
    assert_eq!(verify_password("correct-password", "correct-password"), None);
    let hash = hash_password("correct-password");
    assert_ne!(hash, "correct-password");
}

#[test]
fn corrupt_hash_is_reported() {
    assert_eq!(verify_password("anything", "not-a-phc-hash"), None);
    assert_eq!(verify_password("anything", ""), None);
    // parses as a hash string of the right shape, but never verifies
    assert_ne!(verify_password("anything", "$argon2id$garbage"), Some(true));
}

#[test]
fn credentials_clone_is_exact() {
    let c = Credentials { username: String::from("alice"), password: String::from("pw") };
    let d = c.clone();
    assert_eq!(d.username, "alice");
    assert_eq!(d.password, "pw");
}
