use teleprompter::gate::{should_send, ChangeGate};
use teleprompter::state::TeleprompterConfig;

fn playing_at(progress: u32) -> TeleprompterConfig {
    let mut c = TeleprompterConfig::default();
    c.playing = true;
    c.progress = progress;
    c
}

#[test]
fn unchanged_is_never_sent() {
    let a = TeleprompterConfig::default();
    assert!(!should_send(&a, &a, 0, 50));
    assert!(!should_send(&a, &a, 1000000, 50));
    assert!(!should_send(&a, &a, 0, 0));
}

#[test]
fn non_progress_change_is_sent_immediately() {
    let a = playing_at(10);
    let mut b = a.clone();
    b.text = String::from("new script");
    assert!(should_send(&a, &b, 0, 50));
    let mut c = a.clone();
    c.playing = false;
    assert!(should_send(&a, &c, 0, 50));
}

#[test]
fn paused_progress_change_is_sent_immediately() {
    let mut a = TeleprompterConfig::default();
    a.playing = false;
    a.progress = 10;
    let mut b = a.clone();
    b.progress = 20;
    assert!(should_send(&a, &b, 0, 50));
}

#[test]
fn playing_progress_change_waits_for_the_interval() {
    let a = playing_at(10);
    let mut b = a.clone();
    b.progress = 20;
    assert!(!should_send(&a, &b, 49, 50));
    assert!(should_send(&a, &b, 50, 50));
}

#[test]
fn zero_interval_disables_throttling() {
    let a = playing_at(10);
    let mut b = a.clone();
    b.progress = 20;
    assert!(should_send(&a, &b, 0, 0));
}

#[test]
fn throttled_progress_updates_coalesce() {
    // Progress ticks arriving faster than the interval: the first goes
    // out at once, the rest wait until the interval has passed since the
    // last value actually sent.
    let mut gate = ChangeGate::new(playing_at(0), 50, 0);
    assert!(gate.offer(&playing_at(10), 100));
    assert!(!gate.offer(&playing_at(11), 110));
    assert!(!gate.offer(&playing_at(12), 120));
    assert!(gate.offer(&playing_at(12), 150));
}

#[test]
fn text_change_bypasses_and_resets_the_window() {
    let mut gate = ChangeGate::new(playing_at(0), 50, 0);
    assert!(gate.offer(&playing_at(10), 150));
    // Mid-throttle text edit: out immediately.
    let mut edited = playing_at(10);
    edited.text = String::from("edited");
    assert!(gate.offer(&edited, 160));
    // The reference point is now the text edit at 160, not the send at
    // 150: a progress tick at 205 is still inside the window.
    let mut moved = edited.clone();
    moved.progress = 11;
    assert!(!gate.offer(&moved, 205));
    assert!(gate.offer(&moved, 210));
}

#[test]
fn pause_then_scrub_is_immediate() {
    let mut gate = ChangeGate::new(playing_at(10), 50, 1000);
    // Pause: a non-progress change, through at once.
    let mut paused = playing_at(10);
    paused.playing = false;
    assert!(gate.offer(&paused, 1001));
    // The very next progress-only change while paused: also at once.
    let mut scrubbed = paused.clone();
    scrubbed.progress = 90;
    assert!(gate.offer(&scrubbed, 1002));
}
