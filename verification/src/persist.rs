//! The persistence gateway's decision logic.
//!
//! Loading never raises: it falls back to the record's default whenever
//! the persisted file was missing, unreadable or failed to parse.  The
//! `..._or_default` functions state exactly what comes back either way;
//! the caller reads the file and hands in `Some(value)` on success and
//! `None` on any failure.
//!
//! The module also holds the persisted text forms of the configuration
//! records — the feature toggles and the push configuration — with their
//! parsers and proved round trips: saving a record and loading the text
//! back yields the record that was saved.  The notification state's text
//! form builds on the same machinery and lives in its own module.

use vstd::prelude::*;

use crate::config::BarkConfig;
use crate::config::KeepAliveConfig;
use crate::config::StatusAlertConfig;
use crate::model::NotificationState;
use crate::model::StateModel;

verus! {

/// The model of the default notification state: everything zero, nothing
/// recorded.
pub open spec fn spec_default_state() -> StateModel {
    StateModel {
        count: 0,
        last_notification: None,
        history: Seq::<crate::model::Event>::empty(),
        last_pushed_count: 0,
    }
}

/// The loaded notification state, or the default when loading failed.
pub fn state_or_default(loaded: Option<NotificationState>) -> (s: NotificationState)
    ensures
        loaded matches Some(v) ==> s@ == v@,
        loaded is None ==> s@ == spec_default_state(),
{
    match loaded {
        Some(v) => v,
        None => {
            let s = NotificationState::default();
            proof {
                assert(s@ =~= spec_default_state());
            }
            s
        },
    }
}

/// The loaded push configuration, or the default when loading failed: no
/// device key (pushing disabled), sound `minuet`, group `teams`.
pub fn bark_config_or_default(loaded: Option<BarkConfig>) -> (c: BarkConfig)
    ensures
        loaded matches Some(v) ==> c == v,
        loaded is None ==> {
            &&& c.device_key@ == Seq::<char>::empty()
            &&& c.server_url@ == Seq::<char>::empty()
            &&& c.sound@ == "minuet"@
            &&& c.group@ == "teams"@
        },
{
    match loaded {
        Some(v) => v,
        None => BarkConfig::default(),
    }
}

/// The loaded keep-alive toggle, or disabled when loading failed.
pub fn keep_alive_or_default(loaded: Option<KeepAliveConfig>) -> (c: KeepAliveConfig)
    ensures
        loaded matches Some(v) ==> c == v,
        loaded is None ==> c.enabled == false,
{
    match loaded {
        Some(v) => v,
        None => KeepAliveConfig::default(),
    }
}

/// The loaded status-alert toggle, or disabled when loading failed.
pub fn status_alert_or_default(loaded: Option<StatusAlertConfig>) -> (c: StatusAlertConfig)
    ensures
        loaded matches Some(v) ==> c == v,
        loaded is None ==> c.enabled == false,
{
    match loaded {
        Some(v) => v,
        None => StatusAlertConfig::default(),
    }
}

/// The persisted text of a feature toggle: the pretty-printed JSON object
/// with the single `enabled` field.  A toggle has exactly two persisted
/// texts, so the format can be written down in full.
pub open spec fn spec_toggle_text(enabled: bool) -> Seq<char> {
    if enabled {
        "{\n  \"enabled\": true\n}"@
    } else {
        "{\n  \"enabled\": false\n}"@
    }
}

/// Render a feature toggle in its persisted JSON form.
pub fn toggle_text(enabled: bool) -> (r: String)
    ensures
        r@ == spec_toggle_text(enabled),
{
    if enabled {
        String::from_str("{\n  \"enabled\": true\n}")
    } else {
        String::from_str("{\n  \"enabled\": false\n}")
    }
}

/// What parsing a persisted toggle file yields: the toggle whose persisted
/// text the file holds exactly, and nothing for any other content.
pub open spec fn spec_parse_toggle(s: Seq<char>) -> Option<bool> {
    if s == spec_toggle_text(true) {
        Some(true)
    } else if s == spec_toggle_text(false) {
        Some(false)
    } else {
        None
    }
}

/// Parse a persisted toggle file.  Any content that is not exactly one of
/// the two persisted texts counts as corrupt and yields `None`, which the
/// `..._or_default` functions above turn into the documented default.
pub fn parse_toggle(s: &str) -> (r: Option<bool>)
    ensures
        r == spec_parse_toggle(s@),
{
    let owned = s.to_owned();
    if owned == String::from_str("{\n  \"enabled\": true\n}") {
        Some(true)
    } else if owned == String::from_str("{\n  \"enabled\": false\n}") {
        Some(false)
    } else {
        None
    }
}

/// Saving a feature toggle and loading it back yields the value that was
/// saved.
pub proof fn lemma_toggle_round_trip(enabled: bool)
    ensures
        spec_parse_toggle(spec_toggle_text(enabled)) == Some(enabled),
{
    reveal_strlit("{\n  \"enabled\": true\n}");
    reveal_strlit("{\n  \"enabled\": false\n}");
    assert(spec_toggle_text(true).len() != spec_toggle_text(false).len());
}

/// Relies on `String::push`: appends exactly the one character.
#[verifier::external_body]
fn push_char(s: &mut String, c: char)
    ensures
        final(s)@ == old(s)@.push(c),
{
    s.push(c);
}

/// How one character appears inside a quoted field of a persisted file:
/// quotes and backslashes are escaped so the text stays unambiguous, the
/// common whitespace controls get their usual short escapes, and every
/// other character stands for itself.
pub open spec fn esc_char(c: char) -> Seq<char> {
    if c == '"' {
        seq!['\\', '"']
    } else if c == '\\' {
        seq!['\\', '\\']
    } else if c == '\n' {
        seq!['\\', 'n']
    } else if c == '\r' {
        seq!['\\', 'r']
    } else if c == '\t' {
        seq!['\\', 't']
    } else {
        seq![c]
    }
}

/// A whole string escaped character by character.
pub open spec fn spec_escape(s: Seq<char>) -> Seq<char>
    decreases s.len(),
{
    if s.len() == 0 {
        Seq::empty()
    } else {
        esc_char(s[0]) + spec_escape(s.drop_first())
    }
}

/// Escaping distributes over appending one character.
proof fn lemma_escape_push(a: Seq<char>, c: char)
    ensures
        spec_escape(a.push(c)) == spec_escape(a) + esc_char(c),
    decreases a.len(),
{
    reveal_with_fuel(spec_escape, 2);
    if a.len() == 0 {
        assert(a.push(c)[0] == c);
        assert(a.push(c).drop_first() =~= Seq::<char>::empty());
        assert(spec_escape(a) + esc_char(c) =~= esc_char(c));
        assert(spec_escape(a.push(c)) =~= esc_char(c));
    } else {
        lemma_escape_push(a.drop_first(), c);
        assert(a.push(c)[0] == a[0]);
        assert(a.push(c).drop_first() =~= a.drop_first().push(c));
        assert(spec_escape(a.push(c)) =~= spec_escape(a) + esc_char(c));
    }
}

/// What decoding the escape `\x` yields, for the escapes the format
/// writes; anything else marks the text as corrupt.
pub open spec fn unesc_char(x: char) -> Option<char> {
    if x == '"' {
        Some('"')
    } else if x == '\\' {
        Some('\\')
    } else if x == 'n' {
        Some('\n')
    } else if x == 'r' {
        Some('\r')
    } else if x == 't' {
        Some('\t')
    } else {
        None
    }
}

/// What parsing a quoted field yields: the decoded content up to the
/// closing quote, and whatever follows that quote.  `None` when the text
/// ends before a closing quote or holds an escape the format never
/// writes.
pub open spec fn spec_parse_strbody(s: Seq<char>) -> Option<(Seq<char>, Seq<char>)>
    decreases s.len(),
{
    if s.len() == 0 {
        None
    } else if s[0] == '"' {
        Some((Seq::empty(), s.drop_first()))
    } else if s[0] == '\\' {
        if s.len() < 2 {
            None
        } else {
            match unesc_char(s[1]) {
                None => None,
                Some(c) => match spec_parse_strbody(s.skip(2)) {
                    None => None,
                    Some(p) => Some((seq![c] + p.0, p.1)),
                },
            }
        }
    } else {
        match spec_parse_strbody(s.drop_first()) {
            None => None,
            Some(p) => Some((seq![s[0]] + p.0, p.1)),
        }
    }
}

/// Parsing a quoted field undoes escaping: the escaped content, a closing
/// quote and any tail parse back to exactly that content and that tail.
pub proof fn lemma_strbody_inverts_escape(v: Seq<char>, rest: Seq<char>)
    ensures
        spec_parse_strbody(spec_escape(v) + seq!['"'] + rest) == Some((v, rest)),
    decreases v.len(),
{
    let s = spec_escape(v) + seq!['"'] + rest;
    if v.len() == 0 {
        assert(spec_escape(v) =~= Seq::<char>::empty());
        assert(s[0] == '"');
        assert(s.drop_first() =~= rest);
    } else {
        let c = v[0];
        let v1 = v.drop_first();
        lemma_strbody_inverts_escape(v1, rest);
        let tailseq = spec_escape(v1) + seq!['"'] + rest;
        assert(seq![c] + v1 =~= v);
        if c == '"' || c == '\\' || c == '\n' || c == '\r' || c == '\t' {
            assert(s[0] == '\\');
            assert(unesc_char(s[1]) == Some(c));
            assert(s.skip(2) =~= tailseq);
        } else {
            assert(s[0] == c);
            assert(s.drop_first() =~= tailseq);
        }
    }
}

/// Escape one string field for a persisted file.
pub(crate) fn escape_text(s: &str) -> (r: String)
    ensures
        r@ == spec_escape(s@),
{
    let n = s.unicode_len();
    let mut r = String::new();
    let mut i: usize = 0;
    while i < n
        invariant
            n == s@.len(),
            i <= n,
            r@ == spec_escape(s@.take(i as int)),
        decreases n - i,
    {
        let c = s.get_char(i);
        if c == '"' {
            push_char(&mut r, '\\');
            push_char(&mut r, '"');
        } else if c == '\\' {
            push_char(&mut r, '\\');
            push_char(&mut r, '\\');
        } else if c == '\n' {
            push_char(&mut r, '\\');
            push_char(&mut r, 'n');
        } else if c == '\r' {
            push_char(&mut r, '\\');
            push_char(&mut r, 'r');
        } else if c == '\t' {
            push_char(&mut r, '\\');
            push_char(&mut r, 't');
        } else {
            push_char(&mut r, c);
        }
        proof {
            lemma_escape_push(s@.take(i as int), s@[i as int]);
            assert(s@.take(i + 1) =~= s@.take(i as int).push(s@[i as int]));
            assert(r@ =~= spec_escape(s@.take(i + 1)));
        }
        i = i + 1;
    }
    proof {
        assert(s@.take(n as int) =~= s@);
    }
    r
}

/// The persisted text of a push configuration: a pretty-printed JSON
/// object with the four fields in order, each a quoted, escaped string.
pub open spec fn spec_bark_text(
    device_key: Seq<char>,
    server_url: Seq<char>,
    sound: Seq<char>,
    group: Seq<char>,
) -> Seq<char> {
    "{\n  \"device_key\": \""@ + spec_escape(device_key) + "\""@ + ",\n  \"server_url\": \""@
        + spec_escape(server_url) + "\""@ + ",\n  \"sound\": \""@ + spec_escape(sound) + "\""@
        + ",\n  \"group\": \""@ + spec_escape(group) + "\""@ + "\n}"@
}

/// Render a push configuration in its persisted JSON form.
pub fn bark_config_text(c: &BarkConfig) -> (r: String)
    ensures
        r@ == spec_bark_text(c.device_key@, c.server_url@, c.sound@, c.group@),
{
    let mut r = String::from_str("{\n  \"device_key\": \"");
    let key = escape_text(c.device_key.as_str());
    r.append(key.as_str());
    r.append("\"");
    r.append(",\n  \"server_url\": \"");
    let url = escape_text(c.server_url.as_str());
    r.append(url.as_str());
    r.append("\"");
    r.append(",\n  \"sound\": \"");
    let sound = escape_text(c.sound.as_str());
    r.append(sound.as_str());
    r.append("\"");
    r.append(",\n  \"group\": \"");
    let group = escape_text(c.group.as_str());
    r.append(group.as_str());
    r.append("\"");
    r.append("\n}");
    r
}

/// The rest of the text after a fixed literal prefix, or nothing when the
/// text does not start with that literal.
pub open spec fn spec_strip_prefix(s: Seq<char>, lit: Seq<char>) -> Option<Seq<char>> {
    if s.len() >= lit.len() && s.take(lit.len() as int) == lit {
        Some(s.skip(lit.len() as int))
    } else {
        None
    }
}

pub(crate) proof fn lemma_strip_prefix_concat(lit: Seq<char>, rest: Seq<char>)
    ensures
        spec_strip_prefix(lit + rest, lit) == Some(rest),
{
    assert((lit + rest).take(lit.len() as int) =~= lit);
    assert((lit + rest).skip(lit.len() as int) =~= rest);
}

/// What parsing a persisted push-configuration file yields: the four
/// decoded fields when the text has exactly the persisted form, nothing
/// otherwise.
pub open spec fn spec_parse_bark(s: Seq<char>) -> Option<
    (Seq<char>, Seq<char>, Seq<char>, Seq<char>),
> {
    match spec_strip_prefix(s, "{\n  \"device_key\": \""@) {
        None => None,
        Some(r1) => match spec_parse_strbody(r1) {
            None => None,
            Some(p1) => match spec_strip_prefix(p1.1, ",\n  \"server_url\": \""@) {
                None => None,
                Some(r2) => match spec_parse_strbody(r2) {
                    None => None,
                    Some(p2) => match spec_strip_prefix(p2.1, ",\n  \"sound\": \""@) {
                        None => None,
                        Some(r3) => match spec_parse_strbody(r3) {
                            None => None,
                            Some(p3) => match spec_strip_prefix(p3.1, ",\n  \"group\": \""@) {
                                None => None,
                                Some(r4) => match spec_parse_strbody(r4) {
                                    None => None,
                                    Some(p4) => match spec_strip_prefix(p4.1, "\n}"@) {
                                        None => None,
                                        Some(r5) => if r5.len() == 0 {
                                            Some((p1.0, p2.0, p3.0, p4.0))
                                        } else {
                                            None
                                        },
                                    },
                                },
                            },
                        },
                    },
                },
            },
        },
    }
}

/// Saving a push configuration and loading it back yields the fields that
/// were saved, whatever they hold.
pub proof fn lemma_bark_round_trip(
    device_key: Seq<char>,
    server_url: Seq<char>,
    sound: Seq<char>,
    group: Seq<char>,
)
    ensures
        spec_parse_bark(spec_bark_text(device_key, server_url, sound, group)) == Some(
            (device_key, server_url, sound, group),
        ),
{
    reveal_strlit("\"");
    let text = spec_bark_text(device_key, server_url, sound, group);
    let tail5 = "\n}"@ + Seq::<char>::empty();
    let tail4 = ",\n  \"group\": \""@ + (spec_escape(group) + seq!['"'] + tail5);
    let tail3 = ",\n  \"sound\": \""@ + (spec_escape(sound) + seq!['"'] + tail4);
    let tail2 = ",\n  \"server_url\": \""@ + (spec_escape(server_url) + seq!['"'] + tail3);
    let tail1 = "{\n  \"device_key\": \""@ + (spec_escape(device_key) + seq!['"'] + tail2);
    assert(text =~= tail1);
    lemma_strip_prefix_concat("{\n  \"device_key\": \""@, spec_escape(device_key) + seq!['"'] + tail2);
    lemma_strbody_inverts_escape(device_key, tail2);
    lemma_strip_prefix_concat(",\n  \"server_url\": \""@, spec_escape(server_url) + seq!['"'] + tail3);
    lemma_strbody_inverts_escape(server_url, tail3);
    lemma_strip_prefix_concat(",\n  \"sound\": \""@, spec_escape(sound) + seq!['"'] + tail4);
    lemma_strbody_inverts_escape(sound, tail4);
    lemma_strip_prefix_concat(",\n  \"group\": \""@, spec_escape(group) + seq!['"'] + tail5);
    lemma_strbody_inverts_escape(group, tail5);
    lemma_strip_prefix_concat("\n}"@, Seq::<char>::empty());
}

pub(crate) fn str_chars(s: &str) -> (r: Vec<char>)
    ensures
        r@ == s@,
{
    let n = s.unicode_len();
    let mut r: Vec<char> = Vec::new();
    let mut i: usize = 0;
    while i < n
        invariant
            n == s@.len(),
            i <= n,
            r@ == s@.take(i as int),
        decreases n - i,
    {
        r.push(s.get_char(i));
        proof {
            assert(s@.take(i + 1) =~= s@.take(i as int).push(s@[i as int]));
        }
        i = i + 1;
    }
    proof {
        assert(s@.take(n as int) =~= s@);
    }
    r
}

/// Whether the text at position `i` starts with the literal, i.e. whether
/// the literal can be stripped there.
pub(crate) fn starts_with_at(v: &Vec<char>, i: usize, lit: &str) -> (b: bool)
    requires
        i <= v@.len(),
    ensures
        b <==> spec_strip_prefix(v@.skip(i as int), lit@) is Some,
        b ==> i + lit@.len() <= v@.len() && v@.skip(i as int).skip(lit@.len() as int) == v@.skip(
            i + lit@.len(),
        ),
{
    let l = lit.unicode_len();
    let n = v.len();
    if l > n - i {
        return false;
    }
    let mut j: usize = 0;
    while j < l
        invariant
            l == lit@.len(),
            n == v@.len(),
            i + l <= n,
            j <= l,
            forall|t: int| 0 <= t < j ==> v@[i + t] == lit@[t],
        decreases l - j,
    {
        if v[i + j] != lit.get_char(j) {
            proof {
                assert(v@.skip(i as int).take(l as int)[j as int] != lit@[j as int]);
            }
            return false;
        }
        j = j + 1;
    }
    proof {
        assert(v@.skip(i as int).take(l as int) =~= lit@);
        assert(v@.skip(i as int).skip(l as int) =~= v@.skip(i + l));
    }
    true
}

/// Decode one escape character, exactly as [`unesc_char`] says.
fn unescape_char(x: char) -> (r: Option<char>)
    ensures
        r == unesc_char(x),
{
    if x == '"' {
        Some('"')
    } else if x == '\\' {
        Some('\\')
    } else if x == 'n' {
        Some('\n')
    } else if x == 'r' {
        Some('\r')
    } else if x == 't' {
        Some('\t')
    } else {
        None
    }
}

/// Parse a quoted field starting at position `i`: the decoded content and
/// the position just past the closing quote.
pub(crate) fn parse_strbody_at(v: &Vec<char>, i: usize) -> (r: Option<(String, usize)>)
    requires
        i <= v@.len(),
    ensures
        match spec_parse_strbody(v@.skip(i as int)) {
            None => r is None,
            Some(p) => {
                &&& r matches Some(q)
                &&& q.0@ == p.0
                &&& i <= q.1 <= v@.len()
                &&& v@.skip(q.1 as int) == p.1
            },
        },
    decreases v@.len() - i,
{
    if i == v.len() {
        return None;
    }
    let c = v[i];
    proof {
        assert(v@.skip(i as int)[0] == c);
    }
    if c == '"' {
        proof {
            assert(v@.skip(i as int).drop_first() =~= v@.skip(i + 1));
        }
        Some((String::new(), i + 1))
    } else if c == '\\' {
        if i + 1 == v.len() {
            return None;
        }
        proof {
            assert(v@.skip(i as int)[1] == v@[i + 1]);
        }
        match unescape_char(v[i + 1]) {
            None => None,
            Some(d) => {
                proof {
                    assert(v@.skip(i as int).skip(2) =~= v@.skip(i + 2));
                }
                match parse_strbody_at(v, i + 2) {
                    None => None,
                    Some(tail) => {
                        let mut out = String::new();
                        push_char(&mut out, d);
                        out.append(tail.0.as_str());
                        proof {
                            assert(out@ =~= seq![d] + tail.0@);
                        }
                        Some((out, tail.1))
                    },
                }
            },
        }
    } else {
        proof {
            assert(v@.skip(i as int).drop_first() =~= v@.skip(i + 1));
        }
        match parse_strbody_at(v, i + 1) {
            None => None,
            Some(tail) => {
                let mut out = String::new();
                push_char(&mut out, c);
                out.append(tail.0.as_str());
                proof {
                    assert(out@ =~= seq![c] + tail.0@);
                }
                Some((out, tail.1))
            },
        }
    }
}

/// Parse a persisted push-configuration file.  Any content that does not
/// have exactly the persisted form counts as corrupt and yields `None`.
pub fn parse_bark_config(s: &str) -> (r: Option<BarkConfig>)
    ensures
        match spec_parse_bark(s@) {
            None => r is None,
            Some(t) => {
                &&& r matches Some(c)
                &&& c.device_key@ == t.0
                &&& c.server_url@ == t.1
                &&& c.sound@ == t.2
                &&& c.group@ == t.3
            },
        },
{
    let v = str_chars(s);
    proof {
        assert(v@.skip(0) =~= s@);
    }
    if !starts_with_at(&v, 0, "{\n  \"device_key\": \"") {
        return None;
    }
    let i1 = "{\n  \"device_key\": \"".unicode_len();
    let (device_key, j1) = match parse_strbody_at(&v, i1) {
        None => { return None; },
        Some(p) => p,
    };
    if !starts_with_at(&v, j1, ",\n  \"server_url\": \"") {
        return None;
    }
    let i2 = j1 + ",\n  \"server_url\": \"".unicode_len();
    let (server_url, j2) = match parse_strbody_at(&v, i2) {
        None => { return None; },
        Some(p) => p,
    };
    if !starts_with_at(&v, j2, ",\n  \"sound\": \"") {
        return None;
    }
    let i3 = j2 + ",\n  \"sound\": \"".unicode_len();
    let (sound, j3) = match parse_strbody_at(&v, i3) {
        None => { return None; },
        Some(p) => p,
    };
    if !starts_with_at(&v, j3, ",\n  \"group\": \"") {
        return None;
    }
    let i4 = j3 + ",\n  \"group\": \"".unicode_len();
    let (group, j4) = match parse_strbody_at(&v, i4) {
        None => { return None; },
        Some(p) => p,
    };
    if !starts_with_at(&v, j4, "\n}") {
        return None;
    }
    let i5 = j4 + "\n}".unicode_len();
    if i5 != v.len() {
        return None;
    }
    proof {
        assert(v@.skip(i5 as int).len() == 0);
    }
    Some(BarkConfig { device_key, server_url, sound, group })
}

} // verus!
