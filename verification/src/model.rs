//! The records the relay works on: incoming events, the notification state
//! with its bounded history, the push configuration, and the two feature
//! toggles.

use vstd::prelude::*;

verus! {

/// One incoming notification event, immutable once received.
///
/// `event_type` is an open string; the value `"status_away"` is special
/// to the forwarding policy: it always pushes and never advances the
/// deduplication watermark.
pub struct Event {
    pub event_type: String,
    pub count: i32,
    pub previous_count: Option<i32>,
    pub title: String,
    pub message: String,
    pub timestamp: i64,
}

/// The mathematical model of an [`Event`]: the same fields with the
/// strings as character sequences.
#[verifier::ext_equal]
pub struct EventModel {
    pub event_type: Seq<char>,
    pub count: i32,
    pub previous_count: Option<i32>,
    pub title: Seq<char>,
    pub message: Seq<char>,
    pub timestamp: i64,
}

impl View for Event {
    type V = EventModel;

    open spec fn view(&self) -> EventModel {
        EventModel {
            event_type: self.event_type@,
            count: self.count,
            previous_count: self.previous_count,
            title: self.title@,
            message: self.message@,
            timestamp: self.timestamp,
        }
    }
}

impl Clone for Event {
    fn clone(&self) -> (r: Self)
        ensures
            r == *self,
    {
        Event {
            event_type: self.event_type.clone(),
            count: self.count,
            previous_count: self.previous_count,
            title: self.title.clone(),
            message: self.message.clone(),
            timestamp: self.timestamp,
        }
    }
}

/// The mutable state of the relay: the running count, the last event seen,
/// the bounded history (newest first), and the deduplication watermark.
pub struct NotificationState {
    pub count: i32,
    pub last_notification: Option<Event>,
    pub history: Vec<Event>,
    pub last_pushed_count: i32,
}

/// The mathematical model of a [`NotificationState`]: the same fields with
/// the history as a sequence.  Contracts and lemmas speak of this model.
#[verifier::ext_equal]
pub struct StateModel {
    pub count: i32,
    pub last_notification: Option<Event>,
    pub history: Seq<Event>,
    pub last_pushed_count: i32,
}

impl StateModel {
    /// Well-formedness: the history never holds more than
    /// [`HISTORY_LIMIT`] entries, and its newest entry is the last
    /// notification whenever one is present.
    pub open spec fn wf(self) -> bool {
        &&& self.history.len() <= HISTORY_LIMIT
        &&& self.last_notification is Some ==> {
            &&& self.history.len() > 0
            &&& self.history[0] == self.last_notification->0
        }
    }
}

impl View for NotificationState {
    type V = StateModel;

    open spec fn view(&self) -> StateModel {
        StateModel {
            count: self.count,
            last_notification: self.last_notification,
            history: self.history@,
            last_pushed_count: self.last_pushed_count,
        }
    }
}

impl Clone for NotificationState {
    fn clone(&self) -> (r: Self)
        ensures
            r@ == self@,
    {
        NotificationState {
            count: self.count,
            last_notification: match &self.last_notification {
                Some(e) => Some(e.clone()),
                None => None,
            },
            history: clone_events(&self.history),
            last_pushed_count: self.last_pushed_count,
        }
    }
}

/// How many events the history retains.
pub const HISTORY_LIMIT: usize = 10;

fn clone_events(v: &Vec<Event>) -> (r: Vec<Event>)
    ensures
        r@ == v@,
{
    let mut r: Vec<Event> = Vec::new();
    let mut i: usize = 0;
    while i < v.len()
        invariant
            i <= v@.len(),
            r@ == v@.take(i as int),
        decreases v@.len() - i,
    {
        r.push(v[i].clone());
        proof {
            assert(v@.take(i + 1) =~= v@.take(i as int).push(v@[i as int]));
        }
        i = i + 1;
    }
    proof {
        assert(v@.take(v@.len() as int) =~= v@);
    }
    r
}

impl Default for NotificationState {
    /// The state a fresh process starts from when nothing was persisted.
    fn default() -> (r: Self)
        ensures
            r.count == 0,
            r.last_notification is None,
            r.history@ =~= Seq::<Event>::empty(),
            r.last_pushed_count == 0,
            r@.wf(),
    {
        NotificationState {
            count: 0,
            last_notification: None,
            history: Vec::new(),
            last_pushed_count: 0,
        }
    }
}

} // verus!
