use notify_relay::build_push_url;
use notify_relay::format_i32;
use notify_relay::format_i64;
use notify_relay::interpret_response;
use notify_relay::BarkConfig;
use notify_relay::PushError;

#[test]
fn format_i32_renders_decimal() {
    assert_eq!(format_i32(0), "0");
    assert_eq!(format_i32(7), "7");
    assert_eq!(format_i32(10), "10");
    assert_eq!(format_i32(12345), "12345");
    assert_eq!(format_i32(-1), "-1");
    assert_eq!(format_i32(-987), "-987");
    assert_eq!(format_i32(i32::MAX), "2147483647");
    assert_eq!(format_i32(i32::MIN), "-2147483648");
}

#[test]
fn format_i64_renders_decimal() {
    assert_eq!(format_i64(0), "0");
    assert_eq!(format_i64(1700000000123), "1700000000123");
    assert_eq!(format_i64(-42), "-42");
    assert_eq!(format_i64(i64::MAX), "9223372036854775807");
    assert_eq!(format_i64(i64::MIN), "-9223372036854775808");
}

#[test]
fn push_url_for_plain_components() {
    let config = BarkConfig {
        device_key: "abc123".to_string(),
        server_url: String::new(),
        sound: "minuet".to_string(),
        group: "teams".to_string(),
    };
    let url = build_push_url(&config, "Hello", "World", 4);
    assert_eq!(
        url,
        "https://api.day.app/abc123/Hello/World?sound=minuet&group=teams&badge=4\
         &icon=https%3A%2F%2Fstatics.teams.cdn.office.net%2Fevergreen-assets%2Fapps%2Ffavicon.ico"
    );
}

#[test]
fn push_url_percent_encodes_components() {
    // A title with a space and a key with a slash must come out encoded:
    // this fails if the encoder were to hand its input back unchanged.
    let config = BarkConfig {
        device_key: "a/b".to_string(),
        server_url: String::new(),
        sound: "ding dong".to_string(),
        group: "my group".to_string(),
    };
    let url = build_push_url(&config, "New message!", "50% done & counting", -2);
    assert_eq!(
        url,
        "https://api.day.app/a%2Fb/New%20message%21/50%25%20done%20%26%20counting\
         ?sound=ding%20dong&group=my%20group&badge=-2\
         &icon=https%3A%2F%2Fstatics.teams.cdn.office.net%2Fevergreen-assets%2Fapps%2Ffavicon.ico"
    );
}

#[test]
fn gateway_success_statuses_are_ok() {
    assert_eq!(interpret_response(Some(200)), Ok(()));
    assert_eq!(interpret_response(Some(204)), Ok(()));
    assert_eq!(interpret_response(Some(299)), Ok(()));
}

#[test]
fn gateway_rejection_reports_the_status() {
    assert_eq!(
        interpret_response(Some(404)),
        Err(PushError::GatewayRejected(404))
    );
    assert_eq!(
        interpret_response(Some(500)),
        Err(PushError::GatewayRejected(500))
    );
    assert_eq!(
        interpret_response(Some(199)),
        Err(PushError::GatewayRejected(199))
    );
    assert_eq!(
        interpret_response(Some(300)),
        Err(PushError::GatewayRejected(300))
    );
}

#[test]
fn transport_failure_is_reported_as_transport() {
    assert_eq!(interpret_response(None), Err(PushError::Transport));
}
