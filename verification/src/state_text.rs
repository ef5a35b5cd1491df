//! The persisted text of the notification state: the state object at the
//! top level with the events written compactly inside it, the parser that
//! reads the text back, and the proof that parsing undoes rendering.

use vstd::prelude::*;

use crate::digits::is_digit;
use crate::digits::lemma_nat_digits_props;
use crate::digits::lemma_parse_int_inverts;
use crate::digits::lemma_pow10_nineteen;
use crate::digits::parse_i32_at;
use crate::digits::parse_i64_at;
use crate::digits::spec_parse_i32;
use crate::digits::spec_parse_i64;
use crate::model::Event;
use crate::model::EventModel;
use crate::model::NotificationState;
use crate::model::StateModel;
use crate::persist::escape_text;
use crate::persist::lemma_strbody_inverts_escape;
use crate::persist::lemma_strip_prefix_concat;
use crate::persist::parse_strbody_at;
use crate::persist::spec_escape;
use crate::persist::spec_parse_strbody;
use crate::persist::spec_strip_prefix;
use crate::persist::starts_with_at;
use crate::persist::str_chars;
use crate::push::format_i32;
use crate::push::format_i64;
use crate::push::spec_int_digits;
use crate::push::spec_nat_digits;

verus! {

/// The persisted text of one event: a compact JSON object with the six
/// fields in order.
pub open spec fn spec_event_text(e: EventModel) -> Seq<char> {
    "{\"type\":\""@ + spec_escape(e.event_type) + "\""@ + ",\"count\":"@ + spec_int_digits(
        e.count as int,
    ) + ",\"previous_count\":"@ + (match e.previous_count {
        Some(p) => spec_int_digits(p as int),
        None => "null"@,
    }) + ",\"title\":\""@ + spec_escape(e.title) + "\""@ + ",\"message\":\""@ + spec_escape(
        e.message,
    ) + "\""@ + ",\"timestamp\":"@ + spec_int_digits(e.timestamp as int) + "}"@
}

/// An optional count: the word `null`, or a number that fits an `i32`.
pub open spec fn spec_parse_opt_i32(s: Seq<char>) -> Option<(Option<i32>, Seq<char>)> {
    match spec_strip_prefix(s, "null"@) {
        Some(r) => Some((None, r)),
        None => match spec_parse_i32(s) {
            Some(p) => Some((Some(p.0), p.1)),
            None => None,
        },
    }
}

/// What parsing one persisted event yields: the event's model and the rest
/// of the text, or nothing when the text does not have the persisted form.
pub open spec fn spec_parse_event(s: Seq<char>) -> Option<(EventModel, Seq<char>)> {
    match spec_strip_prefix(s, "{\"type\":\""@) {
        None => None,
        Some(r1) => match spec_parse_strbody(r1) {
            None => None,
            Some(p1) => match spec_strip_prefix(p1.1, ",\"count\":"@) {
                None => None,
                Some(r2) => match spec_parse_i32(r2) {
                    None => None,
                    Some(p2) => match spec_strip_prefix(p2.1, ",\"previous_count\":"@) {
                        None => None,
                        Some(r3) => match spec_parse_opt_i32(r3) {
                            None => None,
                            Some(p3) => match spec_strip_prefix(p3.1, ",\"title\":\""@) {
                                None => None,
                                Some(r4) => match spec_parse_strbody(r4) {
                                    None => None,
                                    Some(p4) => match spec_strip_prefix(p4.1, ",\"message\":\""@) {
                                        None => None,
                                        Some(r5) => match spec_parse_strbody(r5) {
                                            None => None,
                                            Some(p5) => match spec_strip_prefix(
                                                p5.1,
                                                ",\"timestamp\":"@,
                                            ) {
                                                None => None,
                                                Some(r6) => match spec_parse_i64(r6) {
                                                    None => None,
                                                    Some(p6) => match spec_strip_prefix(
                                                        p6.1,
                                                        "}"@,
                                                    ) {
                                                        None => None,
                                                        Some(r7) => Some(
                                                            (
                                                                EventModel {
                                                                    event_type: p1.0,
                                                                    count: p2.0,
                                                                    previous_count: p3.0,
                                                                    title: p4.0,
                                                                    message: p5.0,
                                                                    timestamp: p6.0,
                                                                },
                                                                r7,
                                                            ),
                                                        ),
                                                    },
                                                },
                                            },
                                        },
                                    },
                                },
                            },
                        },
                    },
                },
            },
        },
    }
}

/// A rendered number never begins like the word `null`.
proof fn lemma_digits_not_null(n: int, rest: Seq<char>)
    requires
        -pow10_19() < n < pow10_19(),
    ensures
        spec_strip_prefix(spec_int_digits(n) + rest, "null"@) is None,
{
    reveal_strlit("null");
    reveal_strlit("-");
    let s = spec_int_digits(n) + rest;
    if n < 0 {
        assert(s[0] == '-');
    } else {
        lemma_nat_digits_props(n);
        assert(s[0] == spec_nat_digits(n)[0]);
        assert(is_digit(s[0]));
    }
    assert(s[0] != 'n');
    if s.len() >= 4 && s.take(4) == "null"@ {
        assert(s.take(4)[0] == 'n');
        assert(false);
    }
}

/// A shorthand for the bound under which every persisted number falls.
pub open spec fn pow10_19() -> int {
    10000000000000000000
}

/// Parsing one event undoes its rendering: the rendered event and any
/// tail parse back to exactly that event and that tail.
#[verifier::rlimit(60)]
pub proof fn lemma_event_round_trip(e: EventModel, rest: Seq<char>)
    ensures
        spec_parse_event(spec_event_text(e) + rest) == Some((e, rest)),
{
    reveal_strlit("\"");
    reveal_strlit(",\"count\":");
    reveal_strlit(",\"previous_count\":");
    reveal_strlit(",\"title\":\"");
    reveal_strlit(",\"message\":\"");
    reveal_strlit(",\"timestamp\":");
    reveal_strlit("}");
    reveal_strlit("null");
    lemma_pow10_nineteen();
    let text = spec_event_text(e) + rest;
    let popt = match e.previous_count {
        Some(p) => spec_int_digits(p as int),
        None => "null"@,
    };
    let t7 = "}"@ + rest;
    let t6 = ",\"timestamp\":"@ + (spec_int_digits(e.timestamp as int) + t7);
    let t5 = ",\"message\":\""@ + (spec_escape(e.message) + seq!['"'] + t6);
    let t4 = ",\"title\":\""@ + (spec_escape(e.title) + seq!['"'] + t5);
    let t3 = ",\"previous_count\":"@ + (popt + t4);
    let t2 = ",\"count\":"@ + (spec_int_digits(e.count as int) + t3);
    let t1 = "{\"type\":\""@ + (spec_escape(e.event_type) + seq!['"'] + t2);
    assert(text =~= t1);
    lemma_strip_prefix_concat("{\"type\":\""@, spec_escape(e.event_type) + seq!['"'] + t2);
    lemma_strbody_inverts_escape(e.event_type, t2);
    lemma_strip_prefix_concat(",\"count\":"@, spec_int_digits(e.count as int) + t3);
    assert(t3[0] == ',');
    lemma_parse_int_inverts(e.count as int, t3);
    lemma_strip_prefix_concat(",\"previous_count\":"@, popt + t4);
    assert(t4[0] == ',');
    match e.previous_count {
        Some(p) => {
            lemma_digits_not_null(p as int, t4);
            lemma_parse_int_inverts(p as int, t4);
        },
        None => {
            lemma_strip_prefix_concat("null"@, t4);
        },
    }
    lemma_strip_prefix_concat(",\"title\":\""@, spec_escape(e.title) + seq!['"'] + t5);
    lemma_strbody_inverts_escape(e.title, t5);
    lemma_strip_prefix_concat(",\"message\":\""@, spec_escape(e.message) + seq!['"'] + t6);
    lemma_strbody_inverts_escape(e.message, t6);
    lemma_strip_prefix_concat(",\"timestamp\":"@, spec_int_digits(e.timestamp as int) + t7);
    assert(t7[0] == '}');
    lemma_parse_int_inverts(e.timestamp as int, t7);
    lemma_strip_prefix_concat("}"@, rest);
}

/// The persisted text of every event after the first: each preceded by a
/// comma.
pub open spec fn spec_events_more_text(es: Seq<EventModel>) -> Seq<char>
    decreases es.len(),
{
    if es.len() == 0 {
        Seq::empty()
    } else {
        ","@ + spec_event_text(es[0]) + spec_events_more_text(es.drop_first())
    }
}

/// The persisted text of a whole event list: the items comma-separated,
/// without the surrounding brackets.
pub open spec fn spec_events_text(es: Seq<EventModel>) -> Seq<char> {
    if es.len() == 0 {
        Seq::empty()
    } else {
        spec_event_text(es[0]) + spec_events_more_text(es.drop_first())
    }
}

/// What parsing the continuation of an event list yields: either the
/// closing bracket ends the list, or a comma introduces one more event.
/// The guard on the remainder's length only states that parsing consumed
/// text, which every step of this format does.
pub open spec fn spec_parse_events_more(s: Seq<char>) -> Option<(Seq<EventModel>, Seq<char>)>
    decreases s.len(),
{
    match spec_strip_prefix(s, "]"@) {
        Some(r) => Some((Seq::empty(), r)),
        None => match spec_strip_prefix(s, ","@) {
            None => None,
            Some(r1) => match spec_parse_event(r1) {
                None => None,
                Some(p) => if p.1.len() < s.len() {
                    match spec_parse_events_more(p.1) {
                        None => None,
                        Some(q) => Some((seq![p.0] + q.0, q.1)),
                    }
                } else {
                    None
                },
            },
        },
    }
}

/// What parsing an event list yields, the opening bracket already
/// consumed: the events up to and including the closing bracket, and the
/// rest of the text.
pub open spec fn spec_parse_events(s: Seq<char>) -> Option<(Seq<EventModel>, Seq<char>)> {
    match spec_strip_prefix(s, "]"@) {
        Some(r) => Some((Seq::empty(), r)),
        None => match spec_parse_event(s) {
            None => None,
            Some(p) => if p.1.len() < s.len() {
                match spec_parse_events_more(p.1) {
                    None => None,
                    Some(q) => Some((seq![p.0] + q.0, q.1)),
                }
            } else {
                None
            },
        },
    }
}

proof fn lemma_event_text_starts_with_brace(e: EventModel)
    ensures
        spec_event_text(e).len() >= 1,
        spec_event_text(e)[0] == '{',
{
    reveal_strlit("{\"type\":\"");
    assert(spec_event_text(e)[0] == "{\"type\":\""@[0]);
}

#[verifier::rlimit(100)]
#[verifier::spinoff_prover]
proof fn lemma_events_more_round_trip(es: Seq<EventModel>, rest: Seq<char>)
    ensures
        spec_parse_events_more(spec_events_more_text(es) + seq![']'] + rest) == Some((es, rest)),
    decreases es.len(),
{
    reveal_strlit("]");
    reveal_strlit(",");
    let s = spec_events_more_text(es) + seq![']'] + rest;
    if es.len() == 0 {
        assert(s =~= "]"@ + rest);
        lemma_strip_prefix_concat("]"@, rest);
    } else {
        let e = es[0];
        let tail_text = spec_events_more_text(es.drop_first()) + seq![']'] + rest;
        assert(s =~= ","@ + (spec_event_text(e) + tail_text));
        assert(s[0] == ',');
        if s.len() >= 1 && s.take(1) == "]"@ {
            assert(s.take(1)[0] == ']');
            assert(false);
        }
        lemma_strip_prefix_concat(","@, spec_event_text(e) + tail_text);
        lemma_event_round_trip(e, tail_text);
        lemma_event_text_starts_with_brace(e);
        lemma_events_more_round_trip(es.drop_first(), rest);
        assert(seq![e] + es.drop_first() =~= es);
    }
}

/// Parsing an event list undoes its rendering: the rendered items, the
/// closing bracket and any tail parse back to exactly those items and
/// that tail.
#[verifier::rlimit(100)]
#[verifier::spinoff_prover]
pub proof fn lemma_events_round_trip(es: Seq<EventModel>, rest: Seq<char>)
    ensures
        spec_parse_events(spec_events_text(es) + seq![']'] + rest) == Some((es, rest)),
{
    reveal_strlit("]");
    let s = spec_events_text(es) + seq![']'] + rest;
    if es.len() == 0 {
        assert(s =~= "]"@ + rest);
        lemma_strip_prefix_concat("]"@, rest);
    } else {
        let e = es[0];
        let tail_text = spec_events_more_text(es.drop_first()) + seq![']'] + rest;
        assert(s =~= spec_event_text(e) + tail_text);
        lemma_event_text_starts_with_brace(e);
        assert(s[0] == '{');
        if s.len() >= 1 && s.take(1) == "]"@ {
            assert(s.take(1)[0] == ']');
            assert(false);
        }
        lemma_event_round_trip(e, tail_text);
        lemma_events_more_round_trip(es.drop_first(), rest);
        assert(seq![e] + es.drop_first() =~= es);
    }
}

/// The persisted text of the whole notification state: a pretty-printed
/// object at the top level, the events written compactly inside it.
pub open spec fn spec_state_text(m: StateModel) -> Seq<char> {
    "{\n  \"count\": "@ + spec_int_digits(m.count as int) + ",\n  \"last_notification\": "@ + (
    match m.last_notification {
        Some(e) => spec_event_text(e@),
        None => "null"@,
    }) + ",\n  \"history\": ["@ + spec_events_text(m.history.map_values(|ev: Event| ev@)) + "]"@
        + ",\n  \"last_pushed_count\": "@ + spec_int_digits(m.last_pushed_count as int) + "\n}"@
}

/// An optional event: the word `null`, or one persisted event.
pub open spec fn spec_parse_opt_event(s: Seq<char>) -> Option<(Option<EventModel>, Seq<char>)> {
    match spec_strip_prefix(s, "null"@) {
        Some(r) => Some((None, r)),
        None => match spec_parse_event(s) {
            Some(p) => Some((Some(p.0), p.1)),
            None => None,
        },
    }
}

/// What parsing a persisted state file yields: the four fields, with the
/// events by their models, when the text has exactly the persisted form.
pub open spec fn spec_parse_state(s: Seq<char>) -> Option<
    (i32, Option<EventModel>, Seq<EventModel>, i32),
> {
    match spec_strip_prefix(s, "{\n  \"count\": "@) {
        None => None,
        Some(r1) => match spec_parse_i32(r1) {
            None => None,
            Some(p1) => match spec_strip_prefix(p1.1, ",\n  \"last_notification\": "@) {
                None => None,
                Some(r2) => match spec_parse_opt_event(r2) {
                    None => None,
                    Some(p2) => match spec_strip_prefix(p2.1, ",\n  \"history\": ["@) {
                        None => None,
                        Some(r3) => match spec_parse_events(r3) {
                            None => None,
                            Some(p3) => match spec_strip_prefix(
                                p3.1,
                                ",\n  \"last_pushed_count\": "@,
                            ) {
                                None => None,
                                Some(r4) => match spec_parse_i32(r4) {
                                    None => None,
                                    Some(p4) => match spec_strip_prefix(p4.1, "\n}"@) {
                                        None => None,
                                        Some(r5) => if r5.len() == 0 {
                                            Some((p1.0, p2.0, p3.0, p4.0))
                                        } else {
                                            None
                                        },
                                    },
                                },
                            },
                        },
                    },
                },
            },
        },
    }
}

/// The state's fields as the persisted text shows them: the events by
/// their models.
pub open spec fn spec_state_views(m: StateModel) -> (
    i32,
    Option<EventModel>,
    Seq<EventModel>,
    i32,
) {
    (
        m.count,
        match m.last_notification {
            Some(e) => Some(e@),
            None => None,
        },
        m.history.map_values(|ev: Event| ev@),
        m.last_pushed_count,
    )
}

/// Saving the notification state and loading it back yields the fields
/// that were saved, with every event kept in place.
#[verifier::rlimit(100)]
#[verifier::spinoff_prover]
pub proof fn lemma_state_round_trip(m: StateModel)
    ensures
        spec_parse_state(spec_state_text(m)) == Some(spec_state_views(m)),
{
    reveal_strlit("{\n  \"count\": ");
    reveal_strlit(",\n  \"last_notification\": ");
    reveal_strlit(",\n  \"history\": [");
    reveal_strlit(",\n  \"last_pushed_count\": ");
    reveal_strlit("\n}");
    reveal_strlit("null");
    reveal_strlit("]");
    lemma_pow10_nineteen();
    let text = spec_state_text(m);
    let views = m.history.map_values(|ev: Event| ev@);
    let optevt = match m.last_notification {
        Some(e) => spec_event_text(e@),
        None => "null"@,
    };
    let t5 = "\n}"@ + Seq::<char>::empty();
    let t4 = ",\n  \"last_pushed_count\": "@ + (spec_int_digits(m.last_pushed_count as int) + t5);
    let t3 = ",\n  \"history\": ["@ + (spec_events_text(views) + seq![']'] + t4);
    let t2 = ",\n  \"last_notification\": "@ + (optevt + t3);
    let t1 = "{\n  \"count\": "@ + (spec_int_digits(m.count as int) + t2);
    assert(text =~= t1);
    lemma_strip_prefix_concat("{\n  \"count\": "@, spec_int_digits(m.count as int) + t2);
    assert(t2[0] == ',');
    lemma_parse_int_inverts(m.count as int, t2);
    lemma_strip_prefix_concat(",\n  \"last_notification\": "@, optevt + t3);
    assert(t3[0] == ',');
    match m.last_notification {
        Some(e) => {
            lemma_event_round_trip(e@, t3);
            lemma_event_text_starts_with_brace(e@);
            let s2 = optevt + t3;
            assert(s2[0] == '{');
            if s2.len() >= 4 && s2.take(4) == "null"@ {
                assert(s2.take(4)[0] == 'n');
                assert(false);
            }
        },
        None => {
            lemma_strip_prefix_concat("null"@, t3);
        },
    }
    lemma_strip_prefix_concat(",\n  \"history\": ["@, spec_events_text(views) + seq![']'] + t4);
    lemma_events_round_trip(views, t4);
    lemma_strip_prefix_concat(
        ",\n  \"last_pushed_count\": "@,
        spec_int_digits(m.last_pushed_count as int) + t5,
    );
    assert(t5[0] == '\n');
    lemma_parse_int_inverts(m.last_pushed_count as int, t5);
    lemma_strip_prefix_concat("\n}"@, Seq::<char>::empty());
}

fn event_text(e: &Event) -> (r: String)
    ensures
        r@ == spec_event_text(e@),
{
    let mut r = String::from_str("{\"type\":\"");
    let ty = escape_text(e.event_type.as_str());
    r.append(ty.as_str());
    r.append("\"");
    r.append(",\"count\":");
    let c = format_i32(e.count);
    r.append(c.as_str());
    r.append(",\"previous_count\":");
    match e.previous_count {
        Some(p) => {
            let pc = format_i32(p);
            r.append(pc.as_str());
        },
        None => {
            r.append("null");
        },
    }
    r.append(",\"title\":\"");
    let ti = escape_text(e.title.as_str());
    r.append(ti.as_str());
    r.append("\"");
    r.append(",\"message\":\"");
    let ms = escape_text(e.message.as_str());
    r.append(ms.as_str());
    r.append("\"");
    r.append(",\"timestamp\":");
    let ts = format_i64(e.timestamp);
    r.append(ts.as_str());
    r.append("}");
    r
}

fn events_more_text(v: &Vec<Event>, i: usize) -> (r: String)
    requires
        i <= v@.len(),
    ensures
        r@ == spec_events_more_text(v@.skip(i as int).map_values(|ev: Event| ev@)),
    decreases v@.len() - i,
{
    let ghost vs = v@.skip(i as int).map_values(|ev: Event| ev@);
    if i == v.len() {
        proof {
            assert(vs =~= Seq::<EventModel>::empty());
        }
        String::new()
    } else {
        let mut r = String::from_str(",");
        let t = event_text(&v[i]);
        r.append(t.as_str());
        let rest = events_more_text(v, i + 1);
        r.append(rest.as_str());
        proof {
            assert(vs[0] == v@[i as int]@);
            assert(v@.skip(i + 1).map_values(|ev: Event| ev@) =~= vs.drop_first());
            assert(r@ =~= spec_events_more_text(vs));
        }
        r
    }
}

fn events_text(v: &Vec<Event>) -> (r: String)
    ensures
        r@ == spec_events_text(v@.map_values(|ev: Event| ev@)),
{
    let ghost vs = v@.map_values(|ev: Event| ev@);
    if v.len() == 0 {
        proof {
            assert(vs =~= Seq::<EventModel>::empty());
        }
        String::new()
    } else {
        let mut r = event_text(&v[0]);
        let rest = events_more_text(v, 1);
        r.append(rest.as_str());
        proof {
            assert(vs[0] == v@[0]@);
            assert(v@.skip(1).map_values(|ev: Event| ev@) =~= vs.drop_first());
            assert(r@ =~= spec_events_text(vs));
        }
        r
    }
}

/// Render the notification state in its persisted JSON form.
pub fn state_text(s: &NotificationState) -> (r: String)
    ensures
        r@ == spec_state_text(s@),
{
    let mut r = String::from_str("{\n  \"count\": ");
    let c = format_i32(s.count);
    r.append(c.as_str());
    r.append(",\n  \"last_notification\": ");
    match &s.last_notification {
        Some(e) => {
            let t = event_text(e);
            r.append(t.as_str());
        },
        None => {
            r.append("null");
        },
    }
    r.append(",\n  \"history\": [");
    let h = events_text(&s.history);
    r.append(h.as_str());
    r.append("]");
    r.append(",\n  \"last_pushed_count\": ");
    let l = format_i32(s.last_pushed_count);
    r.append(l.as_str());
    r.append("\n}");
    r
}

fn parse_event_at(v: &Vec<char>, i: usize) -> (r: Option<(Event, usize)>)
    requires
        i <= v@.len(),
    ensures
        match spec_parse_event(v@.skip(i as int)) {
            None => r is None,
            Some(p) => {
                &&& r matches Some(q)
                &&& q.0@ == p.0
                &&& i <= q.1 <= v@.len()
                &&& v@.skip(q.1 as int) == p.1
            },
        },
{
    let n = v.len();
    proof {
        assert(n == v@.len());
    }
    if !starts_with_at(v, i, "{\"type\":\"") {
        return None;
    }
    let i1 = i + "{\"type\":\"".unicode_len();
    let (event_type, j1) = match parse_strbody_at(v, i1) {
        None => { return None; },
        Some(p) => p,
    };
    if !starts_with_at(v, j1, ",\"count\":") {
        return None;
    }
    let i2 = j1 + ",\"count\":".unicode_len();
    let (count, j2) = match parse_i32_at(v, i2) {
        None => { return None; },
        Some(p) => p,
    };
    if !starts_with_at(v, j2, ",\"previous_count\":") {
        return None;
    }
    let i3 = j2 + ",\"previous_count\":".unicode_len();
    let (previous_count, j3) = if starts_with_at(v, i3, "null") {
        (None, i3 + "null".unicode_len())
    } else {
        match parse_i32_at(v, i3) {
            None => { return None; },
            Some((p, j)) => (Some(p), j),
        }
    };
    if !starts_with_at(v, j3, ",\"title\":\"") {
        return None;
    }
    let i4 = j3 + ",\"title\":\"".unicode_len();
    let (title, j4) = match parse_strbody_at(v, i4) {
        None => { return None; },
        Some(p) => p,
    };
    if !starts_with_at(v, j4, ",\"message\":\"") {
        return None;
    }
    let i5 = j4 + ",\"message\":\"".unicode_len();
    let (message, j5) = match parse_strbody_at(v, i5) {
        None => { return None; },
        Some(p) => p,
    };
    if !starts_with_at(v, j5, ",\"timestamp\":") {
        return None;
    }
    let i6 = j5 + ",\"timestamp\":".unicode_len();
    let (timestamp, j6) = match parse_i64_at(v, i6) {
        None => { return None; },
        Some(p) => p,
    };
    if !starts_with_at(v, j6, "}") {
        return None;
    }
    let j7 = j6 + "}".unicode_len();
    let ev = Event { event_type, count, previous_count, title, message, timestamp };
    proof {
        let parsed = spec_parse_event(v@.skip(i as int))->0;
        assert(ev@ =~= parsed.0);
    }
    Some((ev, j7))
}

fn parse_events_more_at(v: &Vec<char>, i: usize) -> (r: Option<(Vec<Event>, usize)>)
    requires
        i <= v@.len(),
    ensures
        match spec_parse_events_more(v@.skip(i as int)) {
            None => r is None,
            Some(p) => {
                &&& r matches Some(q)
                &&& q.0@.map_values(|ev: Event| ev@) == p.0
                &&& i <= q.1 <= v@.len()
                &&& v@.skip(q.1 as int) == p.1
            },
        },
    decreases v@.len() - i,
{
    let n = v.len();
    proof {
        assert(n == v@.len());
    }
    if starts_with_at(v, i, "]") {
        let j = i + "]".unicode_len();
        proof {
            assert(Seq::<Event>::empty().map_values(|ev: Event| ev@)
                =~= Seq::<EventModel>::empty());
        }
        return Some((Vec::new(), j));
    }
    if !starts_with_at(v, i, ",") {
        return None;
    }
    let i1 = i + ",".unicode_len();
    match parse_event_at(v, i1) {
        None => None,
        Some((e, j)) => {
            if j <= i {
                return None;
            }
            match parse_events_more_at(v, j) {
                None => None,
                Some((mut rest, k)) => {
                    rest.insert(0, e);
                    proof {
                        let p = spec_parse_events_more(v@.skip(i as int))->0;
                        assert(rest@.map_values(|ev: Event| ev@) =~= p.0);
                    }
                    Some((rest, k))
                },
            }
        },
    }
}

fn parse_events_at(v: &Vec<char>, i: usize) -> (r: Option<(Vec<Event>, usize)>)
    requires
        i <= v@.len(),
    ensures
        match spec_parse_events(v@.skip(i as int)) {
            None => r is None,
            Some(p) => {
                &&& r matches Some(q)
                &&& q.0@.map_values(|ev: Event| ev@) == p.0
                &&& i <= q.1 <= v@.len()
                &&& v@.skip(q.1 as int) == p.1
            },
        },
{
    let n = v.len();
    proof {
        assert(n == v@.len());
    }
    if starts_with_at(v, i, "]") {
        let j = i + "]".unicode_len();
        proof {
            assert(Seq::<Event>::empty().map_values(|ev: Event| ev@)
                =~= Seq::<EventModel>::empty());
        }
        return Some((Vec::new(), j));
    }
    match parse_event_at(v, i) {
        None => None,
        Some((e, j)) => {
            if j <= i {
                return None;
            }
            match parse_events_more_at(v, j) {
                None => None,
                Some((mut rest, k)) => {
                    rest.insert(0, e);
                    proof {
                        let p = spec_parse_events(v@.skip(i as int))->0;
                        assert(rest@.map_values(|ev: Event| ev@) =~= p.0);
                    }
                    Some((rest, k))
                },
            }
        },
    }
}

/// Parse a persisted state file.  Any content that does not have exactly
/// the persisted form counts as corrupt and yields `None`.
pub fn parse_state(s: &str) -> (r: Option<NotificationState>)
    ensures
        match spec_parse_state(s@) {
            None => r is None,
            Some(t) => {
                &&& r matches Some(st)
                &&& st@.count == t.0
                &&& match st@.last_notification {
                    Some(e) => t.1 == Some(e@),
                    None => t.1 is None,
                }
                &&& st@.history.map_values(|ev: Event| ev@) == t.2
                &&& st@.last_pushed_count == t.3
            },
        },
{
    let v = str_chars(s);
    let n = v.len();
    proof {
        assert(n == v@.len());
        assert(v@.skip(0) =~= s@);
    }
    if !starts_with_at(&v, 0, "{\n  \"count\": ") {
        return None;
    }
    let i1 = "{\n  \"count\": ".unicode_len();
    let (count, j1) = match parse_i32_at(&v, i1) {
        None => { return None; },
        Some(p) => p,
    };
    if !starts_with_at(&v, j1, ",\n  \"last_notification\": ") {
        return None;
    }
    let i2 = j1 + ",\n  \"last_notification\": ".unicode_len();
    let (last_notification, j2) = if starts_with_at(&v, i2, "null") {
        (None, i2 + "null".unicode_len())
    } else {
        match parse_event_at(&v, i2) {
            None => { return None; },
            Some((e, j)) => (Some(e), j),
        }
    };
    if !starts_with_at(&v, j2, ",\n  \"history\": [") {
        return None;
    }
    let i3 = j2 + ",\n  \"history\": [".unicode_len();
    let (history, j3) = match parse_events_at(&v, i3) {
        None => { return None; },
        Some(p) => p,
    };
    if !starts_with_at(&v, j3, ",\n  \"last_pushed_count\": ") {
        return None;
    }
    let i4 = j3 + ",\n  \"last_pushed_count\": ".unicode_len();
    let (last_pushed_count, j4) = match parse_i32_at(&v, i4) {
        None => { return None; },
        Some(p) => p,
    };
    if !starts_with_at(&v, j4, "\n}") {
        return None;
    }
    let i5 = j4 + "\n}".unicode_len();
    if i5 != v.len() {
        return None;
    }
    proof {
        assert(v@.skip(i5 as int).len() == 0);
    }
    Some(NotificationState { count, last_notification, history, last_pushed_count })
}

} // verus!
