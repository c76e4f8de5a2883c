use stomata::auth::BasicAuth;
use stomata::codec::parse_handshake;
use stomata::dispatch::WsRequest;
use stomata::dispatch::WsUpdateConf;
use stomata::dispatch::WsUpdateState;
use stomata::notifier::end_of_tick;
use stomata::notifier::pending_event;
use stomata::notifier::pending_live;
use stomata::notifier::station_event;
use stomata::notifier::try_register;
use stomata::notifier::PendingAction;
use stomata::notifier::PendingConn;
use stomata::notifier::RegisterOutcome;
use stomata::notifier::StationAction;
use stomata::notifier::WsEvent;
use stomata::registry::Registry;

fn stored_hash_for(id: usize, secret: &str) -> String {
    BasicAuth::from_parts(&id.to_string(), secret).hash()
}

#[test]
fn pending_ping_refreshes_and_pongs() {
    let mut p = PendingConn { conn: 1, last_seen: 0 };
    let a = pending_event(&mut p, WsEvent::Ping(vec![1, 2, 3]), 50);
    match a {
        PendingAction::ReplyPong(data) => assert_eq!(data, vec![1, 2, 3]),
        _ => panic!("a ping should be answered with a pong"),
    }
    assert_eq!(p.last_seen, 50);
}

#[test]
fn pending_close_is_answered_and_dropped() {
    let mut p = PendingConn { conn: 1, last_seen: 0 };
    let a = pending_event(&mut p, WsEvent::Closed, 50);
    assert!(matches!(a, PendingAction::ReplyClose));
}

#[test]
fn pending_text_with_handshake_is_handed_back() {
    let mut p = PendingConn { conn: 1, last_seen: 0 };
    let a = pending_event(&mut p, WsEvent::Text("{\"id\": 7, \"token\": \"s\"}".to_string()), 50);
    match a {
        PendingAction::Handshake(h) => {
            assert_eq!(h.id, 7);
            assert_eq!(h.token, "s");
        },
        _ => panic!("a well-formed registration message should be handed back"),
    }
    assert_eq!(p.last_seen, 0);
}

#[test]
fn pending_garbage_gets_no_reply() {
    let mut p = PendingConn { conn: 1, last_seen: 0 };
    let a = pending_event(&mut p, WsEvent::Text("hello".to_string()), 50);
    assert!(matches!(a, PendingAction::NoReply));
    let a = pending_event(&mut p, WsEvent::Silent, 50);
    assert!(matches!(a, PendingAction::NoReply));
}

#[test]
fn pending_liveness_boundary() {
    let p = PendingConn { conn: 1, last_seen: 0 };
    assert!(pending_live(&p, 599));
    assert!(!pending_live(&p, 600));
}

#[test]
fn registration_with_good_secret_succeeds() {
    let mut reg = Registry::new();
    let hash = stored_hash_for(7, "secret");
    let hs = parse_handshake("{\"id\": 7, \"token\": \"secret\"}").unwrap();
    let r = try_register(&mut reg, 10, &hs, Some(&hash), 5);
    assert!(matches!(r, RegisterOutcome::Registered { displaced: None }));
    assert_eq!(reg.route(7), Some(10));
}

#[test]
fn handshake_rejection_is_silent() {
    let mut reg = Registry::new();
    let hash = stored_hash_for(7, "secret");
    let mut p = PendingConn { conn: 10, last_seen: 0 };
    let a = pending_event(&mut p, WsEvent::Text("{\"id\": 7, \"token\": \"wrong\"}".to_string()), 5);
    let hs = match a {
        PendingAction::Handshake(h) => h,
        _ => panic!("the registration message itself is well-formed"),
    };
    let r = try_register(&mut reg, p.conn, &hs, Some(&hash), 5);
    assert!(matches!(r, RegisterOutcome::Rejected));
    // nothing was registered, and the connection stays pending with its old
    // liveness, still eligible for its own timeout
    assert_eq!(reg.route(7), None);
    assert_eq!(reg.len(), 0);
    assert_eq!(p, PendingConn { conn: 10, last_seen: 0 });
    assert!(pending_live(&p, 599));
    assert!(!pending_live(&p, 600));
}

#[test]
fn registration_of_unknown_identity_is_rejected() {
    let mut reg = Registry::new();
    let hs = parse_handshake("{\"id\": 7, \"token\": \"secret\"}").unwrap();
    let r = try_register(&mut reg, 10, &hs, None, 5);
    assert!(matches!(r, RegisterOutcome::Rejected));
    assert_eq!(reg.route(7), None);
}

#[test]
fn re_registration_displaces_old_connection() {
    let mut reg = Registry::new();
    let hash = stored_hash_for(7, "secret");
    let hs = parse_handshake("{\"id\": 7, \"token\": \"secret\"}").unwrap();
    try_register(&mut reg, 10, &hs, Some(&hash), 5);
    let r = try_register(&mut reg, 20, &hs, Some(&hash), 6);
    match r {
        RegisterOutcome::Registered { displaced } => assert_eq!(displaced, Some(10)),
        _ => panic!("the second handshake should also be accepted"),
    }
    assert_eq!(reg.route(7), Some(20));
    assert_eq!(reg.len(), 1);
}

#[test]
fn station_close_removes_entry() {
    let mut reg = Registry::new();
    reg.promote(7, 10, 0);
    let a = station_event(&mut reg, 7, WsEvent::Closed, 1);
    match a {
        StationAction::ReplyClose { removed } => assert_eq!(removed, Some(10)),
        _ => panic!("a close should be answered with a close"),
    }
    assert_eq!(reg.route(7), None);
}

#[test]
fn station_ping_defers_eviction() {
    let mut reg = Registry::new();
    reg.promote(7, 10, 0);
    let a = station_event(&mut reg, 7, WsEvent::Ping(vec![9]), 550);
    match a {
        StationAction::ReplyPong(data) => assert_eq!(data, vec![9]),
        _ => panic!("a ping should be answered with a pong"),
    }
    let (closed, _) = end_of_tick(&mut reg, &Vec::new(), 1100);
    assert!(closed.is_empty());
    assert_eq!(reg.route(7), Some(10));
}

#[test]
fn station_text_is_ignored() {
    let mut reg = Registry::new();
    reg.promote(7, 10, 0);
    let a = station_event(&mut reg, 7, WsEvent::Text("{\"id\":7,\"token\":\"x\"}".to_string()), 1);
    assert!(matches!(a, StationAction::Ignore));
    assert_eq!(reg.route(7), Some(10));
}

#[test]
fn tick_evicts_then_dispatches() {
    let mut reg = Registry::new();
    reg.promote(1, 100, 0);
    reg.promote(2, 200, 500);
    let reqs = vec![
        WsRequest::UpdateState(WsUpdateState { id: 1, state: "on".to_string() }),
        WsRequest::UpdateConf(WsUpdateConf { id: 2, conf: "c".to_string() }),
    ];
    let (closed, out) = end_of_tick(&mut reg, &reqs, 600);
    // station 1 timed out at 600 and gets nothing, station 2 is still live
    assert_eq!(closed, vec![100]);
    assert_eq!(out.len(), 1);
    assert_eq!(out[0].conn, 200);
    assert_eq!(out[0].payload, "{\"conf\":\"c\"}");
}

#[test]
fn evicted_station_can_rehandshake() {
    let mut reg = Registry::new();
    let hash = stored_hash_for(7, "secret");
    let hs = parse_handshake("{\"id\": 7, \"token\": \"secret\"}").unwrap();
    try_register(&mut reg, 10, &hs, Some(&hash), 0);
    let (closed, _) = end_of_tick(&mut reg, &Vec::new(), 600);
    assert_eq!(closed, vec![10]);
    assert_eq!(reg.route(7), None);
    let r = try_register(&mut reg, 11, &hs, Some(&hash), 601);
    assert!(matches!(r, RegisterOutcome::Registered { displaced: None }));
    assert_eq!(reg.route(7), Some(11));
}
