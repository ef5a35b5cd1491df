//! The notification state store: the four atomic operations the relay
//! performs on a [`NotificationState`].  Each operation is specified by a
//! spec-level transition function on [`StateModel`], so the pipeline's laws
//! can be stated and proved over the same functions the executable
//! operations are proved against.
//!
//! The caller is expected to serialize these operations (one mutator at a
//! time, e.g. under a mutex); each call is then one atomic step.

use vstd::prelude::*;

use crate::model::Event;
use crate::model::NotificationState;
use crate::model::StateModel;
use crate::model::HISTORY_LIMIT;

verus! {

/// What `record` does to the model: set the count, remember the event as
/// the last notification, prepend it to the history, and drop the oldest
/// entry if the history would exceed [`HISTORY_LIMIT`].  The watermark is
/// untouched.
pub open spec fn spec_record(m: StateModel, e: Event) -> StateModel {
    let grown = seq![e] + m.history;
    let kept = if grown.len() > HISTORY_LIMIT {
        grown.drop_last()
    } else {
        grown
    };
    StateModel { count: e.count, last_notification: Some(e), history: kept, ..m }
}

/// What `mark_pushed` does to the model: only the watermark changes.
pub open spec fn spec_mark_pushed(m: StateModel, count: i32) -> StateModel {
    StateModel { last_pushed_count: count, ..m }
}

/// What `reset` does to the model: count and watermark return to zero;
/// history and last notification are untouched.
pub open spec fn spec_reset(m: StateModel) -> StateModel {
    StateModel { count: 0, last_pushed_count: 0, ..m }
}

/// Recording preserves well-formedness.
pub proof fn lemma_record_preserves_wf(m: StateModel, e: Event)
    requires
        m.wf(),
    ensures
        spec_record(m, e).wf(),
{
}

impl NotificationState {
    /// Record one incoming event: one atomic update of count, last
    /// notification and history.  The deduplication watermark is unchanged,
    /// so a push decision taken against it right after this call reads the
    /// value from the same atomic step.
    pub fn record(&mut self, event: Event)
        ensures
            final(self)@ == spec_record(old(self)@, event),
    {
        self.count = event.count;
        self.last_notification = Some(event.clone());
        self.history.insert(0, event);
        proof {
            assert(old(self)@.history.insert(0, event) =~= seq![event] + old(self)@.history);
        }
        if self.history.len() > HISTORY_LIMIT {
            self.history.pop();
        }
        proof {
            assert(self@ =~= spec_record(old(self)@, event));
        }
    }

    /// Advance the deduplication watermark after a confirmed successful
    /// push of a non-status event.
    pub fn mark_pushed(&mut self, count: i32)
        ensures
            final(self)@ == spec_mark_pushed(old(self)@, count),
    {
        self.last_pushed_count = count;
    }

    /// Zero the count and the watermark; history and last notification
    /// stay as they are.
    pub fn reset(&mut self)
        ensures
            final(self)@ == spec_reset(old(self)@),
    {
        self.count = 0;
        self.last_pushed_count = 0;
    }

    /// An immutable copy of the state, safe to hand across task boundaries
    /// for reporting and persistence.
    pub fn snapshot(&self) -> (r: NotificationState)
        ensures
            r@ == self@,
    {
        self.clone()
    }
}

} // verus!
