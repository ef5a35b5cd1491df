//! The laws of the forwarding pipeline, stated and proved over the same
//! spec-level transition functions that the executable operations are
//! specified with ([`spec_record`], [`spec_should_push`],
//! [`spec_confirm`]).

use vstd::math::min;
use vstd::prelude::*;

use crate::model::Event;
use crate::model::StateModel;
use crate::model::HISTORY_LIMIT;
use crate::pipeline::spec_confirm;
use crate::pipeline::spec_should_push;
use crate::store::spec_record;

verus! {

/// One full processing of an event, as the pipeline performs it: record,
/// decide, and — when the push fires and succeeds — write the watermark
/// back.  The second component says whether a push fired.
pub open spec fn spec_process(
    m: StateModel,
    device_key: Seq<char>,
    e: Event,
    push_succeeds: bool,
) -> (StateModel, bool) {
    let fires = spec_should_push(device_key, e.event_type@, e.count, m.last_pushed_count);
    let recorded = spec_record(m, e);
    if fires && push_succeeds {
        (spec_confirm(recorded, e.count, e.event_type@ == "status_away"@), true)
    } else {
        (recorded, fires)
    }
}

/// A whole run of the pipeline over a sequence of events, every fired push
/// succeeding.  The second component counts the pushes that fired.
pub open spec fn spec_process_all(
    m: StateModel,
    device_key: Seq<char>,
    events: Seq<Event>,
) -> (StateModel, nat)
    decreases events.len(),
{
    if events.len() == 0 {
        (m, 0nat)
    } else {
        let step = spec_process(m, device_key, events[0], true);
        let rest = spec_process_all(step.0, device_key, events.drop_first());
        (rest.0, rest.1 + if step.1 {
            1nat
        } else {
            0nat
        })
    }
}

/// A run of `record` calls alone, in order of arrival.
pub open spec fn spec_record_all(m: StateModel, events: Seq<Event>) -> StateModel
    decreases events.len(),
{
    if events.len() == 0 {
        m
    } else {
        spec_record_all(spec_record(m, events[0]), events.drop_first())
    }
}

/// For a run of events with strictly increasing counts, none of type
/// `status_away`, a configured device key, and the first count above the
/// starting watermark: exactly one push fires per event, and the watermark
/// ends at the last event's count.
pub proof fn lemma_increasing_counts_each_push_once(
    m: StateModel,
    device_key: Seq<char>,
    events: Seq<Event>,
)
    requires
        device_key.len() > 0,
        events.len() > 0,
        forall|i: int| 0 <= i < events.len() ==> (#[trigger] events[i]).event_type@
            != "status_away"@,
        m.last_pushed_count < events[0].count,
        forall|i: int, j: int| 0 <= i < j < events.len() ==> events[i].count < events[j].count,
    ensures
        spec_process_all(m, device_key, events).1 == events.len(),
        spec_process_all(m, device_key, events).0.last_pushed_count == events[events.len()
            - 1].count,
    decreases events.len(),
{
    reveal_with_fuel(spec_process_all, 2);
    let e = events[0];
    let step = spec_process(m, device_key, e, true);
    assert(step.1);
    assert(step.0.last_pushed_count == e.count);
    if events.len() > 1 {
        let rest = events.drop_first();
        assert(forall|i: int| 0 <= i < rest.len() ==> rest[i] == events[i + 1]);
        assert(step.0.last_pushed_count < rest[0].count);
        assert(forall|i: int, j: int| 0 <= i < j < rest.len() ==> rest[i].count < rest[j].count);
        lemma_increasing_counts_each_push_once(step.0, device_key, rest);
        assert(rest[rest.len() - 1] == events[events.len() - 1]);
    }
}

/// An event whose count does not exceed the watermark, and which is not a
/// status-away alert, fires no push; the state only records the event.
pub proof fn lemma_duplicate_suppressed(
    m: StateModel,
    device_key: Seq<char>,
    e: Event,
    push_succeeds: bool,
)
    requires
        e.count <= m.last_pushed_count,
        e.event_type@ != "status_away"@,
    ensures
        !spec_process(m, device_key, e, push_succeeds).1,
        spec_process(m, device_key, e, push_succeeds).0 == spec_record(m, e),
{
}

/// A status-away event pushes whenever a device key is configured,
/// whatever its count, and the watermark is unchanged afterwards — whether
/// or not the push succeeds.
pub proof fn lemma_status_away_always_pushes(
    m: StateModel,
    device_key: Seq<char>,
    e: Event,
    push_succeeds: bool,
)
    requires
        device_key.len() > 0,
        e.event_type@ == "status_away"@,
    ensures
        spec_process(m, device_key, e, push_succeeds).1,
        spec_process(m, device_key, e, push_succeeds).0.last_pushed_count == m.last_pushed_count,
{
}

/// Without a configured device key no event ever fires a push.
pub proof fn lemma_no_key_no_push(m: StateModel, e: Event, push_succeeds: bool)
    ensures
        !spec_process(m, Seq::<char>::empty(), e, push_succeeds).1,
{
}

/// Recording any number of events keeps the state well-formed; in
/// particular the history never exceeds [`HISTORY_LIMIT`] entries.
pub proof fn lemma_history_bounded(m: StateModel, events: Seq<Event>)
    requires
        m.wf(),
    ensures
        spec_record_all(m, events).wf(),
    decreases events.len(),
{
    if events.len() > 0 {
        lemma_history_bounded(spec_record(m, events[0]), events.drop_first());
    }
}

/// The closed form of the history after a run of `record` calls: the
/// events reversed (newest first) in front of the old history, cut to the
/// limit.
pub proof fn lemma_record_all_history(m: StateModel, events: Seq<Event>)
    requires
        m.history.len() <= HISTORY_LIMIT,
    ensures
        spec_record_all(m, events).history =~= (events.reverse() + m.history).take(
            min(HISTORY_LIMIT as int, events.len() + m.history.len() as int),
        ),
    decreases events.len(),
{
    if events.len() == 0 {
        assert((events.reverse() + m.history).take(
            min(HISTORY_LIMIT as int, events.len() + m.history.len() as int),
        ) =~= m.history);
    } else {
        let e = events[0];
        let m1 = spec_record(m, e);
        let rest = events.drop_first();
        assert(m1.history =~= (seq![e] + m.history).take(
            min(HISTORY_LIMIT as int, 1 + m.history.len() as int),
        ));
        lemma_record_all_history(m1, rest);
        assert(forall|i: int| 0 <= i < rest.len() ==> rest[i] == events[i + 1]);
        assert(spec_record_all(m, events).history =~= (events.reverse() + m.history).take(
            min(HISTORY_LIMIT as int, events.len() + m.history.len() as int),
        ));
    }
}

/// Recording reads nothing but the history, count and last notification,
/// so two states that agree on those — whatever their watermarks — stay in
/// agreement under any run of `record` calls.
pub proof fn lemma_record_all_ignores_watermark(m1: StateModel, m2: StateModel, events: Seq<Event>)
    requires
        m1.count == m2.count,
        m1.last_notification == m2.last_notification,
        m1.history == m2.history,
    ensures
        spec_record_all(m1, events).count == spec_record_all(m2, events).count,
        spec_record_all(m1, events).last_notification == spec_record_all(
            m2,
            events,
        ).last_notification,
        spec_record_all(m1, events).history == spec_record_all(m2, events).history,
    decreases events.len(),
{
    if events.len() > 0 {
        lemma_record_all_ignores_watermark(
            spec_record(m1, events[0]),
            spec_record(m2, events[0]),
            events.drop_first(),
        );
    }
}

/// A full pipeline run touches the state beyond recording only through
/// confirmed pushes, which move the watermark alone: count, last
/// notification and history come out exactly as a run of `record` calls
/// alone leaves them.
pub proof fn lemma_process_only_adds_watermark(
    m: StateModel,
    device_key: Seq<char>,
    events: Seq<Event>,
)
    ensures
        spec_process_all(m, device_key, events).0.count == spec_record_all(m, events).count,
        spec_process_all(m, device_key, events).0.last_notification == spec_record_all(
            m,
            events,
        ).last_notification,
        spec_process_all(m, device_key, events).0.history == spec_record_all(m, events).history,
    decreases events.len(),
{
    if events.len() > 0 {
        let e = events[0];
        let step = spec_process(m, device_key, e, true);
        let rest = events.drop_first();
        lemma_process_only_adds_watermark(step.0, device_key, rest);
        lemma_record_all_ignores_watermark(step.0, spec_record(m, e), rest);
    }
}

/// After at least [`HISTORY_LIMIT`] `record` calls on a well-formed state,
/// the history holds exactly the limit's worth of the most recent events,
/// newest first.
pub proof fn lemma_history_is_most_recent(m: StateModel, events: Seq<Event>)
    requires
        m.wf(),
        events.len() >= HISTORY_LIMIT,
    ensures
        spec_record_all(m, events).history.len() == HISTORY_LIMIT,
        forall|i: int| 0 <= i < HISTORY_LIMIT ==> spec_record_all(m, events).history[i]
            == events[events.len() - 1 - i],
{
    lemma_record_all_history(m, events);
}

} // verus!
