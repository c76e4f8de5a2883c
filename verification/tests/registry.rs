use stomata::registry::Registry;

#[test]
fn empty_registry_routes_nothing() {
    let r = Registry::new();
    assert_eq!(r.len(), 0);
    assert_eq!(r.route(7), None);
}

#[test]
fn promote_then_route() {
    let mut r = Registry::new();
    let displaced = r.promote(7, 100, 0);
    assert_eq!(displaced, None);
    assert_eq!(r.route(7), Some(100));
    assert_eq!(r.len(), 1);
}

#[test]
fn displacement_hands_back_old_connection() {
    let mut r = Registry::new();
    r.promote(7, 100, 0);
    let displaced = r.promote(7, 200, 1);
    assert_eq!(displaced, Some(100));
    assert_eq!(r.route(7), Some(200));
    assert_eq!(r.len(), 1);
}

#[test]
fn repeated_handshakes_keep_one_entry_per_identity() {
    let mut r = Registry::new();
    r.promote(7, 100, 0);
    r.promote(7, 200, 1);
    r.promote(9, 300, 2);
    r.promote(7, 400, 3);
    assert_eq!(r.len(), 2);
    assert_eq!(r.route(7), Some(400));
    assert_eq!(r.route(9), Some(300));
}

#[test]
fn remove_hands_back_connection() {
    let mut r = Registry::new();
    r.promote(7, 100, 0);
    assert_eq!(r.remove(7), Some(100));
    assert_eq!(r.route(7), None);
    assert_eq!(r.remove(7), None);
}

#[test]
fn eviction_after_timeout() {
    let mut r = Registry::new();
    r.promote(7, 100, 0);
    let closed = r.evict_stale(600);
    assert_eq!(closed, vec![100]);
    assert_eq!(r.route(7), None);
}

#[test]
fn no_eviction_just_before_timeout() {
    let mut r = Registry::new();
    r.promote(7, 100, 0);
    let closed = r.evict_stale(599);
    assert!(closed.is_empty());
    assert_eq!(r.route(7), Some(100));
}

#[test]
fn refresh_defers_eviction() {
    let mut r = Registry::new();
    r.promote(7, 100, 0);
    assert!(r.refresh(7, 500));
    let closed = r.evict_stale(1000);
    assert!(closed.is_empty());
    assert_eq!(r.route(7), Some(100));
}

#[test]
fn refresh_of_unknown_identity_reports_absence() {
    let mut r = Registry::new();
    assert!(!r.refresh(7, 0));
    assert_eq!(r.len(), 0);
}

#[test]
fn eviction_keeps_the_live_and_closes_the_stale() {
    let mut r = Registry::new();
    r.promote(1, 100, 0);
    r.promote(2, 200, 500);
    r.promote(3, 300, 10);
    let mut closed = r.evict_stale(700);
    closed.sort();
    assert_eq!(closed, vec![100, 300]);
    assert_eq!(r.route(1), None);
    assert_eq!(r.route(2), Some(200));
    assert_eq!(r.route(3), None);
}

#[test]
fn reconnect_after_eviction() {
    let mut r = Registry::new();
    r.promote(7, 100, 0);
    r.evict_stale(600);
    assert_eq!(r.route(7), None);
    let displaced = r.promote(7, 200, 601);
    assert_eq!(displaced, None);
    assert_eq!(r.route(7), Some(200));
}
