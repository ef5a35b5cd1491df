use notify_relay::confirm_push;
use notify_relay::intake;
use notify_relay::BarkConfig;
use notify_relay::Event;
use notify_relay::NotificationState;

fn event(event_type: &str, count: i32, title: &str, message: &str, timestamp: i64) -> Event {
    Event {
        event_type: event_type.to_string(),
        count,
        previous_count: None,
        title: title.to_string(),
        message: message.to_string(),
        timestamp,
    }
}

fn fresh_state() -> NotificationState {
    NotificationState {
        count: 0,
        last_notification: None,
        history: Vec::new(),
        last_pushed_count: 0,
    }
}

fn configured() -> BarkConfig {
    BarkConfig {
        device_key: "key123".to_string(),
        server_url: String::new(),
        sound: "minuet".to_string(),
        group: "teams".to_string(),
    }
}

fn unconfigured() -> BarkConfig {
    BarkConfig {
        device_key: String::new(),
        server_url: String::new(),
        sound: "minuet".to_string(),
        group: "teams".to_string(),
    }
}

#[test]
fn count_update_above_watermark_pushes_and_advances_watermark() {
    let mut s = fresh_state();
    let config = configured();
    let d = intake(&mut s, &config, event("count_update", 5, "T", "M", 1));
    let push = d.expect("a push must fire");
    assert_eq!(push.badge, 5);
    assert_eq!(push.title, "T");
    assert_eq!(push.message, "M");
    assert!(!push.is_status_alert);
    // The push succeeds; the watermark is written back.
    confirm_push(&mut s, push.badge, push.is_status_alert);
    assert_eq!(s.last_pushed_count, 5);
}

#[test]
fn repeated_count_is_suppressed() {
    let mut s = fresh_state();
    let config = configured();
    let first = intake(&mut s, &config, event("count_update", 5, "T", "M", 1));
    let push = first.expect("first event must push");
    confirm_push(&mut s, push.badge, push.is_status_alert);
    let second = intake(&mut s, &config, event("count_update", 5, "T", "M", 2));
    assert!(second.is_none());
}

#[test]
fn status_away_pushes_and_keeps_watermark() {
    let mut s = fresh_state();
    s.mark_pushed(7);
    let config = configured();
    let d = intake(&mut s, &config, event("status_away", 5, "Away", "Gone", 3));
    let push = d.expect("status-away must push regardless of count");
    assert!(push.is_status_alert);
    confirm_push(&mut s, push.badge, push.is_status_alert);
    assert_eq!(s.last_pushed_count, 7);
}

#[test]
fn empty_device_key_never_pushes() {
    let mut s = fresh_state();
    let config = unconfigured();
    assert!(intake(&mut s, &config, event("count_update", 100, "T", "M", 1)).is_none());
    assert!(intake(&mut s, &config, event("status_away", 1, "T", "M", 2)).is_none());
    // The events were still recorded.
    assert_eq!(s.history.len(), 2);
    assert_eq!(s.count, 1);
}

#[test]
fn strictly_increasing_counts_each_push_once() {
    let mut s = fresh_state();
    let config = configured();
    let mut pushes = 0;
    for c in [1, 2, 5, 9] {
        if let Some(push) = intake(&mut s, &config, event("count_update", c, "T", "M", c as i64)) {
            pushes += 1;
            confirm_push(&mut s, push.badge, push.is_status_alert);
        }
    }
    assert_eq!(pushes, 4);
    assert_eq!(s.last_pushed_count, 9);
}

#[test]
fn failed_push_leaves_watermark_so_next_event_retries() {
    let mut s = fresh_state();
    let config = configured();
    let d = intake(&mut s, &config, event("count_update", 5, "T", "M", 1));
    assert!(d.is_some());
    // The push fails: confirm_push is never called, the watermark stays 0,
    // and the same count pushes again.
    let again = intake(&mut s, &config, event("count_update", 5, "T", "M", 2));
    assert!(again.is_some());
}
