use arc_core::nav::{NavControllerRust, WindowControllerRust};

#[test]
fn record_then_back_and_forward() {
    let mut nav = NavControllerRust::new();
    assert!(!nav.can_go_back() && !nav.can_go_forward());
    nav.record("home".to_string());
    nav.record("detail:a".to_string());
    nav.record("detail:b".to_string());
    assert!(nav.can_go_back());
    assert!(!nav.can_go_forward());
    assert_eq!(nav.go_back().as_deref(), Some("detail:a"));
    assert!(nav.can_go_forward());
    assert_eq!(nav.go_forward().as_deref(), Some("detail:b"));
    assert_eq!(nav.go_forward(), None);
}

#[test]
fn back_at_start_does_nothing() {
    let mut nav = NavControllerRust::new();
    assert_eq!(nav.go_back(), None);
    nav.record("home".to_string());
    assert_eq!(nav.go_back(), None);
    assert!(!nav.can_go_back());
}

#[test]
fn recording_drops_forward_entries() {
    let mut nav = NavControllerRust::new();
    nav.record("a".to_string());
    nav.record("b".to_string());
    nav.record("c".to_string());
    nav.go_back();
    nav.go_back();
    nav.record("d".to_string());
    assert!(!nav.can_go_forward());
    assert_eq!(nav.go_back().as_deref(), Some("a"));
    assert_eq!(nav.go_forward().as_deref(), Some("d"));
}

#[test]
fn recording_the_current_state_again_changes_nothing() {
    let mut nav = NavControllerRust::new();
    nav.record("a".to_string());
    nav.record("b".to_string());
    nav.go_back();
    nav.record("a".to_string());
    assert!(nav.can_go_forward());
    assert_eq!(nav.go_forward().as_deref(), Some("b"));
}

#[test]
fn visibility_is_reported_on_change_only() {
    let mut w = WindowControllerRust::new();
    assert!(!w.set_visible(false));
    assert!(w.set_visible(true));
    assert!(!w.set_visible(true));
    assert!(w.set_visible(false));
}
