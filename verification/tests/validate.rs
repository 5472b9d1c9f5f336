use auth_core::validate::Validated;
use auth_core::validate::ValidationRules;

fn rules() -> ValidationRules {
    ValidationRules { name_min: 3, name_max: 8, pass_min: 5, pass_max: 10 }
}

#[test]
fn within_bounds_is_valid() {
    let r = rules();
    assert!(matches!(r.validate("abc", "12345"), Validated::Valid));
    assert!(matches!(r.validate("abcdefgh", "1234567890"), Validated::Valid));
    assert!(r.is_valid("user", "secret"));
}

#[test]
fn name_too_short() {
    let r = rules();
    assert!(matches!(r.validate("ab", "12345"), Validated::InvalidName));
    assert!(!r.is_valid("ab", "12345"));
}

#[test]
fn name_too_long() {
    let r = rules();
    assert!(matches!(r.validate("abcdefghi", "12345"), Validated::InvalidName));
}

#[test]
fn pass_too_short() {
    let r = rules();
    assert!(matches!(r.validate("abc", "1234"), Validated::InvalidPass));
}

#[test]
fn pass_too_long() {
    let r = rules();
    assert!(matches!(r.validate("abc", "12345678901"), Validated::InvalidPass));
}

#[test]
fn name_checked_before_password() {
    let r = rules();
    // both too short: the name violation wins the tie-break
    assert!(matches!(r.validate("ab", "1234"), Validated::InvalidName));
    // both too long as well
    assert!(matches!(r.validate("abcdefghi", "12345678901"), Validated::InvalidName));
}

#[test]
fn bounds_are_inclusive() {
    let r = rules();
    assert!(matches!(r.validate("abc", "12345"), Validated::Valid));
    assert!(matches!(r.validate("abcdefgh", "1234567890"), Validated::Valid));
}

#[test]
fn lengths_are_utf8_bytes() {
    let r = rules();
    // two code points, four bytes: within the byte bounds
    assert!(matches!(r.validate("\u{00e9}\u{00e9}", "12345"), Validated::Valid));
    // five code points, ten bytes: over name_max in bytes
    assert!(matches!(
        r.validate("\u{00e9}\u{00e9}\u{00e9}\u{00e9}\u{00e9}", "12345"),
        Validated::InvalidName
    ));
}
