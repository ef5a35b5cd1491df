//! The intake pipeline: the forwarding policy, the atomic intake step that
//! every incoming event goes through, and the write-back applied when a
//! push is confirmed.
//!
//! The split mirrors the service's concurrency discipline: `intake` is the
//! whole critical section (state update and push decision against the same
//! atomic snapshot); the outbound network call happens elsewhere, after the
//! lock is released, and its outcome is fed back through `confirm_push`.

use vstd::prelude::*;

use crate::config::BarkConfig;
use crate::model::Event;
use crate::model::NotificationState;
use crate::model::StateModel;
use crate::store::spec_mark_pushed;
use crate::store::spec_record;

verus! {

/// The forwarding policy: push iff a device key is configured and the
/// event either is a status-away alert or carries a count above the
/// deduplication watermark.
pub open spec fn spec_should_push(
    device_key: Seq<char>,
    event_type: Seq<char>,
    count: i32,
    watermark: i32,
) -> bool {
    device_key.len() > 0 && (event_type == "status_away"@ || count > watermark)
}

/// What the watermark becomes once a push for `badge` is confirmed:
/// status-away pushes never advance it, every other confirmed push sets it
/// to the pushed badge.
pub open spec fn spec_confirm(m: StateModel, badge: i32, is_status_alert: bool) -> StateModel {
    if is_status_alert {
        m
    } else {
        spec_mark_pushed(m, badge)
    }
}

/// A push that the pipeline decided to dispatch: everything the notifier
/// needs beyond the credentials, plus the flag that rules the watermark
/// write-back.
pub struct PushRequest {
    pub title: String,
    pub message: String,
    pub badge: i32,
    pub is_status_alert: bool,
}

/// One atomic intake step.  Records the event and decides, against the
/// watermark of the very state the event was recorded into, whether a push
/// must be dispatched.  Returns the push to dispatch, or `None` when the
/// policy suppresses it.
pub fn intake(state: &mut NotificationState, config: &BarkConfig, event: Event) -> (d: Option<
    PushRequest,
>)
    ensures
        final(state)@ == spec_record(old(state)@, event),
        d is Some <==> spec_should_push(
            config.device_key@,
            event.event_type@,
            event.count,
            old(state)@.last_pushed_count,
        ),
        d is Some ==> {
            &&& d->0.title == event.title
            &&& d->0.message == event.message
            &&& d->0.badge == event.count
            &&& d->0.is_status_alert <==> event.event_type@ == "status_away"@
        },
{
    let away_label = String::from_str("status_away");
    let is_status_alert = event.event_type == away_label;
    let key_present = !config.device_key.as_str().is_empty();
    let title = event.title.clone();
    let message = event.message.clone();
    let badge = event.count;

    state.record(event);
    let watermark = state.last_pushed_count;

    if key_present && (is_status_alert || badge > watermark) {
        Some(PushRequest { title, message, badge, is_status_alert })
    } else {
        None
    }
}

/// The write-back after a successful push: advance the watermark for a
/// non-status push, change nothing for a status-away push.  On a failed
/// push nothing is written back, so the caller simply does not call this.
pub fn confirm_push(state: &mut NotificationState, badge: i32, is_status_alert: bool)
    ensures
        final(state)@ == spec_confirm(old(state)@, badge, is_status_alert),
{
    if !is_status_alert {
        state.mark_pushed(badge);
    }
}

} // verus!
