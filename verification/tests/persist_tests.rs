use notify_relay::bark_config_or_default;
use notify_relay::bark_config_text;
use notify_relay::parse_bark_config;
use notify_relay::parse_state;
use notify_relay::parse_toggle;
use notify_relay::state_text;
use notify_relay::toggle_text;
use notify_relay::bark_config_view;
use notify_relay::keep_alive_or_default;
use notify_relay::state_or_default;
use notify_relay::status_alert_or_default;
use notify_relay::BarkConfig;
use notify_relay::Event;
use notify_relay::KeepAliveConfig;
use notify_relay::NotificationState;
use notify_relay::StatusAlertConfig;

#[test]
fn missing_or_corrupt_state_falls_back_to_default() {
    let s = state_or_default(None);
    assert_eq!(s.count, 0);
    assert!(s.last_notification.is_none());
    assert!(s.history.is_empty());
    assert_eq!(s.last_pushed_count, 0);
}

#[test]
fn loaded_state_is_kept() {
    let loaded = NotificationState {
        count: 8,
        last_notification: None,
        history: Vec::new(),
        last_pushed_count: 3,
    };
    let s = state_or_default(Some(loaded));
    assert_eq!(s.count, 8);
    assert_eq!(s.last_pushed_count, 3);
}

#[test]
fn missing_or_corrupt_bark_config_falls_back_to_default() {
    let c = bark_config_or_default(None);
    assert_eq!(c.device_key, "");
    assert_eq!(c.server_url, "");
    assert_eq!(c.sound, "minuet");
    assert_eq!(c.group, "teams");
}

#[test]
fn loaded_bark_config_is_kept() {
    let loaded = BarkConfig {
        device_key: "k".to_string(),
        server_url: "https://example.invalid".to_string(),
        sound: "bell".to_string(),
        group: "g".to_string(),
    };
    let c = bark_config_or_default(Some(loaded));
    assert_eq!(c.device_key, "k");
    assert_eq!(c.server_url, "https://example.invalid");
    assert_eq!(c.sound, "bell");
    assert_eq!(c.group, "g");
}

#[test]
fn missing_or_corrupt_toggles_fall_back_to_disabled() {
    assert!(!keep_alive_or_default(None).enabled);
    assert!(!status_alert_or_default(None).enabled);
    assert!(keep_alive_or_default(Some(KeepAliveConfig { enabled: true })).enabled);
    assert!(status_alert_or_default(Some(StatusAlertConfig { enabled: true })).enabled);
}

#[test]
fn configured_view_reports_the_key() {
    let c = BarkConfig {
        device_key: "k".to_string(),
        server_url: "u".to_string(),
        sound: "s".to_string(),
        group: "g".to_string(),
    };
    let v = bark_config_view(&c);
    assert!(v.configured);
    assert_eq!(v.device_key.as_deref(), Some("k"));
    assert_eq!(v.server_url, "u");
    assert_eq!(v.sound, "s");
    assert_eq!(v.group, "g");
}

#[test]
fn unconfigured_view_hides_the_key() {
    let c = bark_config_or_default(None);
    let v = bark_config_view(&c);
    assert!(!v.configured);
    assert!(v.device_key.is_none());
}

#[test]
fn toggle_text_is_pretty_json() {
    assert_eq!(toggle_text(true), "{\n  \"enabled\": true\n}");
    assert_eq!(toggle_text(false), "{\n  \"enabled\": false\n}");
}

#[test]
fn toggle_round_trips_through_its_text() {
    assert_eq!(parse_toggle(&toggle_text(true)), Some(true));
    assert_eq!(parse_toggle(&toggle_text(false)), Some(false));
}

#[test]
fn corrupt_toggle_text_parses_to_nothing() {
    assert_eq!(parse_toggle(""), None);
    assert_eq!(parse_toggle("{\"enabled\":true}"), None);
    assert_eq!(parse_toggle("{\n  \"enabled\": maybe\n}"), None);
    assert_eq!(parse_toggle("not json at all"), None);
}

#[test]
fn bark_config_text_is_pretty_json() {
    let c = BarkConfig {
        device_key: "abc".to_string(),
        server_url: "https://example.invalid".to_string(),
        sound: "minuet".to_string(),
        group: "teams".to_string(),
    };
    assert_eq!(
        bark_config_text(&c),
        "{\n  \"device_key\": \"abc\",\n  \"server_url\": \"https://example.invalid\",\n  \"sound\": \"minuet\",\n  \"group\": \"teams\"\n}"
    );
}

#[test]
fn bark_config_round_trips_through_its_text() {
    let c = BarkConfig {
        device_key: "a\"b\\c".to_string(),
        server_url: "line\nbreak\tand\rreturn".to_string(),
        sound: String::new(),
        group: "grüße 🎉".to_string(),
    };
    let text = bark_config_text(&c);
    let back = parse_bark_config(&text).expect("the persisted text must parse");
    assert_eq!(back.device_key, c.device_key);
    assert_eq!(back.server_url, c.server_url);
    assert_eq!(back.sound, c.sound);
    assert_eq!(back.group, c.group);
}

#[test]
fn corrupt_bark_config_text_parses_to_nothing() {
    assert!(parse_bark_config("").is_none());
    assert!(parse_bark_config("{}").is_none());
    assert!(parse_bark_config("{\n  \"device_key\": \"abc\"\n}").is_none());
    let c = BarkConfig {
        device_key: "k".to_string(),
        server_url: "u".to_string(),
        sound: "s".to_string(),
        group: "g".to_string(),
    };
    let mut truncated = bark_config_text(&c);
    truncated.pop();
    assert!(parse_bark_config(&truncated).is_none());
}

#[test]
fn state_text_of_the_default_state_is_pretty_json() {
    let s = state_or_default(None);
    assert_eq!(
        state_text(&s),
        "{\n  \"count\": 0,\n  \"last_notification\": null,\n  \"history\": []\
         ,\n  \"last_pushed_count\": 0\n}"
    );
}

#[test]
fn state_round_trips_through_its_text() {
    let mut s = state_or_default(None);
    for i in 0..12 {
        s.record(Event {
            event_type: if i % 3 == 0 { "status_away" } else { "count_update" }.to_string(),
            count: i - 4,
            previous_count: if i % 2 == 0 { Some(i - 5) } else { None },
            title: format!("title {} with \"quotes\"", i),
            message: format!("line\nbreak \\ and tab\t{}", i),
            timestamp: 1700000000000 + i as i64,
        });
    }
    s.mark_pushed(7);
    let text = state_text(&s);
    let back = parse_state(&text).expect("the persisted text must parse");
    assert_eq!(back.count, s.count);
    assert_eq!(back.last_pushed_count, 7);
    assert_eq!(back.history.len(), 10);
    for (a, b) in back.history.iter().zip(s.history.iter()) {
        assert_eq!(a.event_type, b.event_type);
        assert_eq!(a.count, b.count);
        assert_eq!(a.previous_count, b.previous_count);
        assert_eq!(a.title, b.title);
        assert_eq!(a.message, b.message);
        assert_eq!(a.timestamp, b.timestamp);
    }
    let last = back.last_notification.expect("a last notification");
    assert_eq!(last.count, s.history[0].count);
    assert_eq!(last.title, s.history[0].title);
}

#[test]
fn extreme_counts_round_trip_through_the_state_text() {
    let mut s = state_or_default(None);
    s.record(Event {
        event_type: "count_update".to_string(),
        count: i32::MIN,
        previous_count: Some(i32::MAX),
        title: String::new(),
        message: String::new(),
        timestamp: i64::MIN,
    });
    s.mark_pushed(i32::MAX);
    let back = parse_state(&state_text(&s)).expect("the persisted text must parse");
    assert_eq!(back.count, i32::MIN);
    assert_eq!(back.history[0].previous_count, Some(i32::MAX));
    assert_eq!(back.history[0].timestamp, i64::MIN);
    assert_eq!(back.last_pushed_count, i32::MAX);
}

#[test]
fn corrupt_state_text_parses_to_nothing() {
    assert!(parse_state("").is_none());
    assert!(parse_state("{}").is_none());
    assert!(parse_state("{\n  \"count\": 007,\n  \"last_notification\": null,\n  \"history\": [],\n  \"last_pushed_count\": 0\n}").is_none());
    let s = state_or_default(None);
    let mut truncated = state_text(&s);
    truncated.pop();
    assert!(parse_state(&truncated).is_none());
    let trailing = state_text(&s) + " ";
    assert!(parse_state(&trailing).is_none());
}

// A record is recorded the same whether the state came from disk or from
// the default: the fallback changes nothing about later behavior.
#[test]
fn default_state_records_like_a_fresh_one() {
    let mut s = state_or_default(None);
    s.record(Event {
        event_type: "count_update".to_string(),
        count: 1,
        previous_count: Some(0),
        title: "T".to_string(),
        message: "M".to_string(),
        timestamp: 5,
    });
    assert_eq!(s.history.len(), 1);
    assert_eq!(s.history[0].previous_count, Some(0));
    assert_eq!(s.history[0].timestamp, 5);
}
