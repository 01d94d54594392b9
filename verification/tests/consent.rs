use sui_id::consent::covers;

#[test]
fn covers_returns_true_when_all_requested_are_granted() {
    assert!(covers("openid profile email", "openid profile"));
    assert!(covers("openid profile email", "openid"));
    assert!(covers("openid profile email", "openid profile email"));
}

#[test]
fn covers_returns_false_when_new_scope_requested() {
    assert!(!covers("openid profile", "openid profile email"));
    assert!(!covers("openid", "openid offline_access"));
}

#[test]
fn covers_empty_requested_is_always_covered() {
    assert!(covers("openid", ""));
    assert!(covers("", ""));
}

#[test]
fn covers_ignores_extra_whitespace_and_order() {
    assert!(covers("  email\topenid\nprofile ", "profile   openid"));
    assert!(covers("openid", "   \t "));
    assert!(!covers("", "openid"));
}

#[test]
fn covers_is_reflexive_and_transitive_on_examples() {
    let a = "openid profile email address";
    let b = "openid profile email";
    let c = "email";
    assert!(covers(a, a));
    assert!(covers(a, b) && covers(b, c) && covers(a, c));
}
