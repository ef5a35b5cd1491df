use notify_relay::Event;
use notify_relay::NotificationState;

fn event(event_type: &str, count: i32, title: &str, message: &str, timestamp: i64) -> Event {
    Event {
        event_type: event_type.to_string(),
        count,
        previous_count: None,
        title: title.to_string(),
        message: message.to_string(),
        timestamp,
    }
}

fn fresh_state() -> NotificationState {
    NotificationState {
        count: 0,
        last_notification: None,
        history: Vec::new(),
        last_pushed_count: 0,
    }
}

#[test]
fn record_sets_count_and_last_notification() {
    let mut s = fresh_state();
    s.record(event("count_update", 3, "T", "M", 1));
    assert_eq!(s.count, 3);
    assert_eq!(s.history.len(), 1);
    let last = s.last_notification.as_ref().expect("a last notification");
    assert_eq!(last.count, 3);
    assert_eq!(last.title, "T");
    assert_eq!(s.history[0].count, 3);
    assert_eq!(s.last_pushed_count, 0);
}

#[test]
fn history_is_bounded_and_newest_first() {
    let mut s = fresh_state();
    for i in 0..15 {
        s.record(event("count_update", i, "T", "M", i as i64));
    }
    assert_eq!(s.history.len(), 10);
    // The ten most recent counts are 14 down to 5, newest first.
    for (pos, e) in s.history.iter().enumerate() {
        assert_eq!(e.count, 14 - pos as i32);
    }
}

#[test]
fn reset_zeroes_counts_and_keeps_history() {
    let mut s = fresh_state();
    s.record(event("count_update", 4, "T", "M", 1));
    s.mark_pushed(4);
    s.reset();
    assert_eq!(s.count, 0);
    assert_eq!(s.last_pushed_count, 0);
    assert_eq!(s.history.len(), 1);
    assert!(s.last_notification.is_some());
}

#[test]
fn snapshot_copies_the_state() {
    let mut s = fresh_state();
    s.record(event("count_update", 9, "T", "M", 2));
    s.mark_pushed(9);
    let snap = s.snapshot();
    assert_eq!(snap.count, 9);
    assert_eq!(snap.last_pushed_count, 9);
    assert_eq!(snap.history.len(), 1);
    assert_eq!(snap.history[0].title, "T");
}

#[test]
fn mark_pushed_touches_only_the_watermark() {
    let mut s = fresh_state();
    s.record(event("count_update", 2, "T", "M", 1));
    s.mark_pushed(2);
    assert_eq!(s.last_pushed_count, 2);
    assert_eq!(s.count, 2);
    assert_eq!(s.history.len(), 1);
}
