//! The push notifier's computational half: building the gateway request
//! URL and classifying the gateway's answer.  The outbound HTTP call itself
//! is I/O and lives outside the library; it hands the resulting status code
//! back to [`interpret_response`].

use vstd::prelude::*;

use crate::config::BarkConfig;

verus! {

/// Why a push failed: the gateway answered with a non-success status, or
/// the request never completed (DNS, connect, timeout).
#[derive(Clone, Copy, PartialEq, Eq, Structural, Debug)]
pub enum PushError {
    GatewayRejected(u16),
    Transport,
}

/// What `urlencoding::encode` returns for a given string.  The encoding is
/// a pure function of the characters alone, so it only gets a name here;
/// the wrapper below ties the name to the call.
pub uninterp spec fn url_encoded(s: Seq<char>) -> Seq<char>;

/// Relies on `urlencoding::encode`: percent-encodes every byte except
/// ASCII alphanumerics and `-`, `_`, `.`, `~`; the result depends on the
/// input characters alone.
#[verifier::external_body]
fn encode_component(s: &str) -> (r: String)
    ensures
        r@ == url_encoded(s@),
{
    urlencoding::encode(s).into_owned()
}

/// The decimal digit `d` as a one-character string view.
pub open spec fn spec_digit(d: int) -> Seq<char> {
    if d == 0 {
        "0"@
    } else if d == 1 {
        "1"@
    } else if d == 2 {
        "2"@
    } else if d == 3 {
        "3"@
    } else if d == 4 {
        "4"@
    } else if d == 5 {
        "5"@
    } else if d == 6 {
        "6"@
    } else if d == 7 {
        "7"@
    } else if d == 8 {
        "8"@
    } else {
        "9"@
    }
}

/// The usual decimal rendering of a non-negative integer: no leading
/// zeros, most significant digit first.
pub open spec fn spec_nat_digits(n: int) -> Seq<char>
    decreases n,
{
    if n < 10 {
        spec_digit(n)
    } else {
        spec_nat_digits(n / 10) + spec_digit(n % 10)
    }
}

/// The usual decimal rendering of a signed integer.
pub open spec fn spec_int_digits(n: int) -> Seq<char> {
    if n < 0 {
        "-"@ + spec_nat_digits(-n)
    } else {
        spec_nat_digits(n)
    }
}

fn digit_str(d: u32) -> (r: String)
    requires
        d < 10,
    ensures
        r@ == spec_digit(d as int),
{
    match d {
        0 => String::from_str("0"),
        1 => String::from_str("1"),
        2 => String::from_str("2"),
        3 => String::from_str("3"),
        4 => String::from_str("4"),
        5 => String::from_str("5"),
        6 => String::from_str("6"),
        7 => String::from_str("7"),
        8 => String::from_str("8"),
        _ => String::from_str("9"),
    }
}

fn format_u32(n: u32) -> (r: String)
    ensures
        r@ == spec_nat_digits(n as int),
    decreases n,
{
    if n < 10 {
        digit_str(n)
    } else {
        let mut r = format_u32(n / 10);
        let last = digit_str(n % 10);
        r.append(last.as_str());
        r
    }
}

/// Render a signed count in decimal, as the badge parameter of the push
/// URL shows it.
pub fn format_i32(n: i32) -> (r: String)
    ensures
        r@ == spec_int_digits(n as int),
{
    if n >= 0 {
        format_u32(n as u32)
    } else {
        let magnitude: u32 = (-(n as i64)) as u32;
        let mut r = String::from_str("-");
        let digits = format_u32(magnitude);
        r.append(digits.as_str());
        r
    }
}

fn format_u64(n: u64) -> (r: String)
    ensures
        r@ == spec_nat_digits(n as int),
    decreases n,
{
    if n < 10 {
        digit_str(n as u32)
    } else {
        let mut r = format_u64(n / 10);
        let last = digit_str((n % 10) as u32);
        r.append(last.as_str());
        r
    }
}

/// Render a signed 64-bit value in decimal, as the persisted files show
/// timestamps.
pub fn format_i64(n: i64) -> (r: String)
    ensures
        r@ == spec_int_digits(n as int),
{
    if n >= 0 {
        format_u64(n as u64)
    } else {
        let magnitude: u64 = if n == i64::MIN {
            9223372036854775808u64
        } else {
            (-n) as u64
        };
        let mut r = String::from_str("-");
        let digits = format_u64(magnitude);
        r.append(digits.as_str());
        r
    }
}

/// The fixed icon every push carries.
pub open spec fn spec_icon_url() -> Seq<char> {
    "https://statics.teams.cdn.office.net/evergreen-assets/apps/favicon.ico"@
}

/// The full gateway request URL: device key, title and body as
/// percent-encoded path segments under the fixed gateway origin; sound,
/// group, badge and icon as query parameters.
pub open spec fn spec_push_url(
    device_key: Seq<char>,
    sound: Seq<char>,
    group: Seq<char>,
    title: Seq<char>,
    body: Seq<char>,
    badge: int,
) -> Seq<char> {
    "https://api.day.app/"@ + url_encoded(device_key) + "/"@ + url_encoded(title) + "/"@
        + url_encoded(body) + "?sound="@ + url_encoded(sound) + "&group="@ + url_encoded(group)
        + "&badge="@ + spec_int_digits(badge) + "&icon="@ + url_encoded(spec_icon_url())
}

/// Build the gateway request URL for one push.
pub fn build_push_url(config: &BarkConfig, title: &str, body: &str, badge: i32) -> (r: String)
    ensures
        r@ == spec_push_url(
            config.device_key@,
            config.sound@,
            config.group@,
            title@,
            body@,
            badge as int,
        ),
{
    let mut r = String::from_str("https://api.day.app/");
    let key = encode_component(config.device_key.as_str());
    r.append(key.as_str());
    r.append("/");
    let title_enc = encode_component(title);
    r.append(title_enc.as_str());
    r.append("/");
    let body_enc = encode_component(body);
    r.append(body_enc.as_str());
    r.append("?sound=");
    let sound = encode_component(config.sound.as_str());
    r.append(sound.as_str());
    r.append("&group=");
    let group = encode_component(config.group.as_str());
    r.append(group.as_str());
    r.append("&badge=");
    let badge_str = format_i32(badge);
    r.append(badge_str.as_str());
    r.append("&icon=");
    let icon = encode_component(
        "https://statics.teams.cdn.office.net/evergreen-assets/apps/favicon.ico",
    );
    r.append(icon.as_str());
    r
}

/// Classify the outcome of the outbound call: `status` is the HTTP status
/// the gateway answered with, or `None` when the request never completed.
/// A push succeeds exactly when the gateway answered with a success
/// status.
pub fn interpret_response(status: Option<u16>) -> (r: Result<(), PushError>)
    ensures
        r is Ok <==> (status is Some && 200 <= status->0 < 300),
        status is None ==> r == Err::<(), PushError>(PushError::Transport),
        status matches Some(s) ==> (!(200 <= s < 300) ==> r == Err::<(), PushError>(
            PushError::GatewayRejected(s),
        )),
{
    match status {
        Some(s) => {
            if 200 <= s && s < 300 {
                Ok(())
            } else {
                Err(PushError::GatewayRejected(s))
            }
        },
        None => Err(PushError::Transport),
    }
}

} // verus!
