use teleprompter::hub::BroadcastHub;
use teleprompter::session::{
    roster_connect, roster_disconnect, SessionPhase, Teleprompter, ViewerSession,
};
use teleprompter::state::TeleprompterConfig;

fn named(text: &str) -> TeleprompterConfig {
    let mut c = TeleprompterConfig::default();
    c.text = String::from(text);
    c
}

#[test]
fn connect_hands_out_the_current_snapshot() {
    let mut hub = BroadcastHub::new(TeleprompterConfig::default(), 4);
    let current = named("current");
    hub.publish(&current);
    let (session, snapshot) = ViewerSession::connect(&mut hub);
    assert_eq!(session.phase(), SessionPhase::Connected);
    assert!(snapshot == current);
}

#[test]
fn successful_snapshot_write_starts_streaming() {
    let mut hub = BroadcastHub::new(TeleprompterConfig::default(), 4);
    let (mut session, _snapshot) = ViewerSession::connect(&mut hub);
    session.snapshot_result(&mut hub, true);
    assert_eq!(session.phase(), SessionPhase::Streaming);
    let x = named("X");
    hub.publish(&x);
    assert!(session.next(&mut hub) == Some(x));
    assert!(session.next(&mut hub).is_none());
}

#[test]
fn failed_snapshot_write_closes_at_once() {
    let mut hub = BroadcastHub::new(TeleprompterConfig::default(), 4);
    let (mut session, _snapshot) = ViewerSession::connect(&mut hub);
    session.snapshot_result(&mut hub, false);
    assert_eq!(session.phase(), SessionPhase::Closed);
    hub.publish(&named("X"));
    assert!(session.next(&mut hub).is_none());
}

#[test]
fn write_failure_closes_and_releases_exactly_once() {
    // A subscriber receives its snapshot, then the only connection write
    // fails on the next publish: the session closes, the slot is
    // released once, and a later publish neither reaches the dead
    // session nor troubles the producer.
    let mut hub = BroadcastHub::new(TeleprompterConfig::default(), 4);
    let (mut session, _snapshot) = ViewerSession::connect(&mut hub);
    session.snapshot_result(&mut hub, true);
    hub.publish(&named("X"));
    let pending = session.next(&mut hub);
    assert!(pending.is_some());
    // Writing that value failed: the write path hits the exit latch.
    session.close(&mut hub);
    assert_eq!(session.phase(), SessionPhase::Closed);
    // The read path noticing the dead connection hits the latch too.
    session.close(&mut hub);
    assert_eq!(session.phase(), SessionPhase::Closed);
    hub.publish(&named("Y"));
    assert!(session.next(&mut hub).is_none());
}

#[test]
fn close_before_streaming_is_safe() {
    let mut hub = BroadcastHub::new(TeleprompterConfig::default(), 4);
    let (mut session, _snapshot) = ViewerSession::connect(&mut hub);
    session.close(&mut hub);
    assert_eq!(session.phase(), SessionPhase::Closed);
    assert!(session.next(&mut hub).is_none());
}

#[test]
fn hub_shutdown_ends_streaming_sessions() {
    let mut hub = BroadcastHub::new(TeleprompterConfig::default(), 4);
    let (mut session, _snapshot) = ViewerSession::connect(&mut hub);
    session.snapshot_result(&mut hub, true);
    assert!(session.stream_open(&hub));
    hub.shutdown();
    assert!(!session.stream_open(&hub));
    assert!(session.next(&mut hub).is_none());
    session.close(&mut hub);
    assert_eq!(session.phase(), SessionPhase::Closed);
}

#[test]
fn roster_records_and_releases_viewers() {
    let mut clients: Vec<Teleprompter> = Vec::new();
    roster_connect(&mut clients, String::from("192.168.0.7:1024"), 1700000000);
    roster_connect(&mut clients, String::from("192.168.0.9:2048"), 1700000005);
    roster_connect(&mut clients, String::from("192.168.0.7:1024"), 1700000009);
    assert_eq!(clients.len(), 3);
    roster_disconnect(&mut clients, &String::from("192.168.0.7:1024"));
    assert_eq!(clients.len(), 1);
    assert_eq!(clients[0].ip, "192.168.0.9:2048");
    assert_eq!(clients[0].connected_at, 1700000005);
    roster_disconnect(&mut clients, &String::from("10.0.0.1:1"));
    assert_eq!(clients.len(), 1);
}
