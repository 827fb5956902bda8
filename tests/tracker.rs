use nanoproxy::tracker::{ConnectionInfo, ConnectionTracker};

fn record(method: &str, now: u64) -> ConnectionInfo {
    ConnectionInfo::new(method.to_string(), "example.com:443".to_string(), "direct".to_string(), now)
}

#[test]
fn new_records_are_open_with_fresh_ids() {
    let a = record("GET", 5);
    let b = record("GET", 5);
    assert_ne!(a.id, 0);
    assert_ne!(a.id, b.id);
    assert!(a.closed_at.is_none());
    assert_eq!(a.opened_at, 5);
    assert_eq!(a.summary(), "GET example.com:443 (via direct)");
}

#[test]
fn close_marks_and_unknown_close_is_noop() {
    let mut t = ConnectionTracker::new();
    let a = record("CONNECT", 0);
    let id = a.id;
    t.track_connection(a);
    t.track_connection(record("GET", 1));
    assert_eq!(t.get_active_connections().len(), 2);
    t.close_connection(12345, 10);
    assert_eq!(t.get_active_connections().len(), 2);
    t.close_connection(id, 10);
    let active = t.get_active_connections();
    assert_eq!(active.len(), 1);
    assert_eq!(active[0].method, "GET");
    t.close_connection(id, 20);
    t.close_connection(id, 20);
    assert_eq!(t.get_active_connections().len(), 1);
    t.sweep(10 + 3999);
    t.close_connection(12345, 10);
    assert_eq!(t.get_active_connections().len(), 1);
}

#[test]
fn sweep_drops_records_closed_four_seconds_ago() {
    let mut t = ConnectionTracker::new();
    let a = record("GET", 0);
    let id = a.id;
    let mut b = record("POST", 0);
    b.close(100);
    b.close(200);
    assert_eq!(b.closed_at, Some(100));
    t.track_connection(a);
    t.track_connection(b);
    t.track_connection(record("PUT", 0));
    t.close_connection(id, 1000);
    t.sweep(4099);
    assert_eq!(t.connection_count(), 3);
    t.sweep(4100);
    assert_eq!(t.connection_count(), 2);
    t.sweep(4999);
    assert_eq!(t.connection_count(), 2);
    t.sweep(5000);
    assert_eq!(t.connection_count(), 1);
    t.sweep(u64::MAX);
    let active = t.get_active_connections();
    assert_eq!(active.len(), 1);
    assert_eq!(active[0].method, "PUT");
}

#[test]
fn close_stamped_after_now_is_kept() {
    let mut t = ConnectionTracker::new();
    let a = record("GET", 0);
    let id = a.id;
    t.track_connection(a);
    t.close_connection(id, 9000);
    t.sweep(100);
    assert_eq!(t.connection_count(), 1);
}
