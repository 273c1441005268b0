use docker_manager::debounce::DebounceRegistry;

fn s(text: &str) -> String {
    text.to_string()
}

#[test]
fn new_registry_suppresses_nothing() {
    let registry = DebounceRegistry::new(2000);
    assert_eq!(registry.window_ms(), 2000);
    assert!(!registry.is_suppressed(&s("a.txt"), 0));
    assert!(!registry.is_suppressed(&s("a.txt"), 5000));
}

#[test]
fn registered_path_is_suppressed_until_the_window_has_elapsed() {
    let mut registry = DebounceRegistry::new(2000);
    registry.register(s("a.txt"), 1000);
    assert!(registry.is_suppressed(&s("a.txt"), 1000));
    assert!(registry.is_suppressed(&s("a.txt"), 1001));
    assert!(registry.is_suppressed(&s("a.txt"), 2999));
    assert!(!registry.is_suppressed(&s("a.txt"), 3000));
    assert!(!registry.is_suppressed(&s("a.txt"), 3001));
    assert!(!registry.is_suppressed(&s("a.txt"), u64::MAX));
}

#[test]
fn paths_are_debounced_independently() {
    let mut registry = DebounceRegistry::new(2000);
    assert!(registry.offer(&s("a.txt"), 0));
    assert!(registry.offer(&s("b.txt"), 10));
    assert!(!registry.offer(&s("a.txt"), 20));
    assert!(!registry.offer(&s("b.txt"), 30));
    assert!(registry.offer(&s("c.txt"), 40));
    assert!(registry.offer(&s("a.txt"), 2000));
    assert!(!registry.offer(&s("b.txt"), 2009));
    assert!(registry.offer(&s("b.txt"), 2010));
}

#[test]
fn swallowed_events_do_not_extend_the_window() {
    let mut registry = DebounceRegistry::new(100);
    assert!(registry.offer(&s("a.txt"), 0));
    assert!(!registry.offer(&s("a.txt"), 50));
    assert!(!registry.offer(&s("a.txt"), 99));
    assert!(registry.offer(&s("a.txt"), 100));
    assert!(!registry.offer(&s("a.txt"), 199));
    assert!(registry.offer(&s("a.txt"), 200));
}

#[test]
fn register_replaces_an_earlier_registration() {
    let mut registry = DebounceRegistry::new(100);
    registry.register(s("a.txt"), 0);
    registry.register(s("a.txt"), 500);
    assert!(registry.is_suppressed(&s("a.txt"), 599));
    assert!(!registry.is_suppressed(&s("a.txt"), 600));
}

#[test]
fn sweep_evicts_what_has_elapsed_and_keeps_the_rest() {
    let mut registry = DebounceRegistry::new(100);
    registry.register(s("old.txt"), 0);
    registry.register(s("new.txt"), 90);
    assert!(registry.is_suppressed(&s("old.txt"), 50));
    registry.sweep(150);
    assert!(!registry.is_suppressed(&s("old.txt"), 50));
    assert!(registry.is_suppressed(&s("new.txt"), 150));
    assert!(registry.is_suppressed(&s("new.txt"), 189));
    assert!(!registry.is_suppressed(&s("new.txt"), 190));
    registry.sweep(190);
    assert!(!registry.is_suppressed(&s("new.txt"), 100));
}

#[test]
fn a_window_of_zero_suppresses_nothing() {
    let mut registry = DebounceRegistry::new(0);
    assert!(registry.offer(&s("a.txt"), 7));
    assert!(registry.offer(&s("a.txt"), 7));
    assert!(registry.offer(&s("a.txt"), 8));
}

#[test]
fn an_event_dated_before_the_registration_is_swallowed() {
    let mut registry = DebounceRegistry::new(100);
    registry.register(s("a.txt"), 1000);
    assert!(registry.is_suppressed(&s("a.txt"), 999));
    assert!(registry.is_suppressed(&s("a.txt"), 0));
    assert!(!registry.offer(&s("a.txt"), 10));
    assert!(registry.is_suppressed(&s("a.txt"), 1099));
    assert!(!registry.is_suppressed(&s("a.txt"), 1100));
}

#[test]
fn times_near_the_end_of_the_clock_do_not_overflow() {
    let mut registry = DebounceRegistry::new(u64::MAX);
    registry.register(s("a.txt"), u64::MAX - 1);
    assert!(registry.is_suppressed(&s("a.txt"), u64::MAX));
    registry.sweep(u64::MAX);
    assert!(registry.is_suppressed(&s("a.txt"), u64::MAX));
}
