use pyielink::sessions::{Registry, SESSION_TTL};
use pyielink::throttle::PeerIp;

fn fake_peer() -> PeerIp {
    PeerIp::V4(0x7F00_0001)
}

#[test]
fn session_lifecycle() {
    let mut r = Registry::new();
    let key = r.open_session("bob", fake_peer(), 0);
    assert_eq!(r.get(&key).unwrap().user, "bob");
    assert!(r.touch(&key, 1));
    r.close(&key);
    assert!(r.get(&key).is_none());
    assert!(!r.touch(&key, 2));
}

#[test]
fn keys_are_unique_and_wellformed() {
    let mut r = Registry::new();
    let a = r.open_session("a", fake_peer(), 0);
    let b = r.open_session("b", fake_peer(), 0);
    assert_ne!(a, b);
    assert_eq!(a.len(), 64);
}

#[test]
fn silent_sessions_are_swept() {
    let mut r = Registry::new();
    r.open_with_key("old", "a", fake_peer(), 0);
    r.open_with_key("seen", "b", fake_peer(), 0);
    assert!(r.touch("seen", 10));
    assert_eq!(r.get("seen").unwrap().created, 0);
    assert_eq!(r.get("seen").unwrap().last_seen, 10);
    // opening another drops what has outlived its time
    r.open_with_key("new", "c", fake_peer(), SESSION_TTL);
    assert!(r.get("old").is_none());
    assert!(r.get("seen").is_some());
    assert_eq!(r.active_count(), 2);
    r.sweep(SESSION_TTL + 10);
    assert!(r.get("seen").is_none());
    assert_eq!(r.active_count(), 1);
    // the same key again replaces the session
    r.open_with_key("new", "d", fake_peer(), SESSION_TTL);
    assert_eq!(r.get("new").unwrap().user, "d");
    assert_eq!(r.active_count(), 1);
}

#[test]
fn expired_sessions_are_not_revived() {
    let mut r = Registry::new();
    r.open_with_key("k", "a", fake_peer(), 5);
    assert!(r.touch("k", 5 + SESSION_TTL - 1));
    assert_eq!(r.get("k").unwrap().last_seen, 5 + SESSION_TTL - 1);
    let late = 5 + 2 * SESSION_TTL - 1;
    assert!(!r.touch("k", late));
    // it is still there until it is swept, as it was
    assert_eq!(r.get("k").unwrap().last_seen, 5 + SESSION_TTL - 1);
    assert!(!r.touch("k", late + 1));
    r.sweep(late);
    assert!(r.get("k").is_none());
    assert!(!r.touch("unknown", 0));
}
