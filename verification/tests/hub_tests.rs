use teleprompter::hub::BroadcastHub;
use teleprompter::state::TeleprompterConfig;

fn named(text: &str, progress: u32) -> TeleprompterConfig {
    let mut c = TeleprompterConfig::default();
    c.text = String::from(text);
    c.progress = progress;
    c
}

#[test]
fn late_joiner_gets_the_last_published_value() {
    let mut hub = BroadcastHub::new(TeleprompterConfig::default(), 4);
    let published = named("A", 10);
    hub.publish(&published);
    let (_id, snapshot) = hub.subscribe();
    assert!(snapshot == published);
}

#[test]
fn snapshot_before_any_publish_is_the_initial_value() {
    let initial = named("initial", 0);
    let mut hub = BroadcastHub::new(initial.clone(), 4);
    let (_id, snapshot) = hub.subscribe();
    assert!(snapshot == initial);
}

#[test]
fn snapshot_tracks_the_latest_of_many_publishes() {
    let mut hub = BroadcastHub::new(TeleprompterConfig::default(), 4);
    hub.publish(&named("one", 1));
    hub.publish(&named("two", 2));
    hub.publish(&named("three", 3));
    let (_id, snapshot) = hub.subscribe();
    assert!(snapshot == named("three", 3));
}

#[test]
fn delivery_follows_publish_order() {
    let mut hub = BroadcastHub::new(TeleprompterConfig::default(), 8);
    let (id, _snapshot) = hub.subscribe();
    let x = named("X", 1);
    let y = named("Y", 2);
    let z = named("Z", 3);
    hub.publish(&x);
    hub.publish(&y);
    hub.publish(&z);
    assert!(hub.recv(id) == Some(x));
    assert!(hub.recv(id) == Some(y));
    assert!(hub.recv(id) == Some(z));
    assert!(hub.recv(id).is_none());
}

#[test]
fn slow_subscriber_drops_oldest_fast_one_keeps_all() {
    let mut hub = BroadcastHub::new(TeleprompterConfig::default(), 1);
    let (a, _) = hub.subscribe();
    let (b, _) = hub.subscribe();
    let x = named("X", 1);
    let y = named("Y", 2);
    hub.publish(&x);
    // B drains between publishes; A does not and its queue holds one.
    assert!(hub.recv(b) == Some(x.clone()));
    hub.publish(&y);
    // A's full queue dropped X and kept Y; B has Y next. No reordering
    // on either side.
    assert!(hub.recv(a) == Some(y.clone()));
    assert!(hub.recv(a).is_none());
    assert!(hub.recv(b) == Some(y));
    assert!(hub.recv(b).is_none());
}

#[test]
fn unsubscribe_twice_is_the_same_as_once() {
    let mut hub = BroadcastHub::new(TeleprompterConfig::default(), 4);
    let (id, _) = hub.subscribe();
    hub.publish(&named("pending", 1));
    hub.unsubscribe(id);
    hub.unsubscribe(id);
    assert!(hub.recv(id).is_none());
    hub.publish(&named("after", 2));
    assert!(hub.recv(id).is_none());
}

#[test]
fn unsubscribe_of_an_unknown_handle_is_harmless() {
    let mut hub = BroadcastHub::new(TeleprompterConfig::default(), 4);
    hub.unsubscribe(17);
    assert_eq!(hub.subscriber_count(), 0);
}

#[test]
fn shutdown_closes_every_subscription() {
    let mut hub = BroadcastHub::new(TeleprompterConfig::default(), 4);
    let (a, _) = hub.subscribe();
    let (b, _) = hub.subscribe();
    hub.publish(&named("pending", 1));
    hub.shutdown();
    assert!(!hub.is_subscribed(a));
    assert!(!hub.is_subscribed(b));
    assert!(hub.recv(a).is_none());
    assert!(hub.recv(b).is_none());
    hub.publish(&named("after", 2));
    assert!(hub.recv(a).is_none());
    assert_eq!(hub.subscriber_count(), 2);
}

#[test]
fn broken_subscriber_never_disturbs_the_rest() {
    let mut hub = BroadcastHub::new(TeleprompterConfig::default(), 4);
    let (broken, _) = hub.subscribe();
    let (live, _) = hub.subscribe();
    hub.unsubscribe(broken);
    let z = named("Z", 9);
    hub.publish(&z);
    assert!(hub.recv(broken).is_none());
    assert!(hub.recv(live) == Some(z));
}
