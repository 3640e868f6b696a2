//! What holds of every supervisor: ended sessions stay as they are, and the
//! rate gate bounds how often a session synchronises.

use vstd::prelude::*;
use crate::supervisor::{EventView, SupervisorView};
use crate::sync::SyncView;
use crate::transport::{CallView, Components};

verus! {

/// The events that end a run.
pub open spec fn ends_run(event: EventView) -> bool {
    event is Cancel || event is Completed || event is Failed || event is Exhausted
}

/// The events that never end a run: output, print, attachment and tick.
pub open spec fn quiet(event: EventView) -> bool {
    !ends_run(event)
}

/// The state after a sequence of events, each with the time it arrived at,
/// when no transport call is performed in between.
pub open spec fn handled_all(v: SupervisorView, events: Seq<(EventView, u64)>) -> SupervisorView
    decreases events.len(),
{
    if events.len() == 0 {
        v
    } else {
        handled_all(v, events.drop_last()).handled(events.last().0, events.last().1)
    }
}

/// A session that has ended, or has lost its transport, ignores every event.
pub proof fn lemma_ended_session_ignores_events(v: SupervisorView, event: EventView, now: u64)
    requires
        !(v.status is Running) || v.sync.terminal || v.sync.failed,
    ensures
        v.handled(event, now) == v,
{
}

/// An event that ends the run leaves the session closed, whatever the
/// transport does afterwards.
pub proof fn lemma_ending_closes(v: SupervisorView, event: EventView, now: u64)
    requires
        v.open(),
        ends_run(event),
    ensures
        !(v.handled(event, now).status is Running),
{
}

/// Terminal idempotence. After an event that ends the run, and whatever
/// transport calls have gone through since (`later` is the synchroniser's
/// state by then), a second such event changes nothing: no second notice is
/// posted, no message is struck through again.
pub proof fn lemma_terminal_transition_is_idempotent(
    v: SupervisorView,
    first: EventView,
    at: u64,
    later: SyncView,
    second: EventView,
    again: u64,
)
    requires
        v.open(),
        ends_run(first),
    ensures
        ({
            let once = SupervisorView { sync: later, ..v.handled(first, at) };
            once.handled(second, again) == once
        }),
{
}

/// The rate gate. While the rate gate is closed, an output, print, attachment or
/// tick event issues no transport call: the messages, the stage and the time
/// of the last synchronisation stay as they are.
pub proof fn lemma_closed_gate_issues_nothing(v: SupervisorView, event: EventView, now: u64)
    requires
        quiet(event),
        !v.gate_open(now),
    ensures
        ({
            let after = v.handled(event, now);
            &&& after.sync == (SyncView { files: after.sync.files, ..v.sync })
            &&& after.sync.current_call() == v.sync.current_call()
            &&& after.last_sync == v.last_sync
            &&& after.interval == v.interval
            &&& after.status == v.status
        }),
{
}

/// The rate gate, for a burst: any number of output, print, attachment and
/// tick events that all arrive while the rate gate is closed issue no transport
/// call between them.
pub proof fn lemma_burst_issues_nothing(v: SupervisorView, events: Seq<(EventView, u64)>)
    requires
        forall|i: int|
            0 <= i < events.len() ==> quiet((#[trigger] events[i]).0) && !v.gate_open(events[i].1),
    ensures
        ({
            let after = handled_all(v, events);
            &&& after.sync == (SyncView { files: after.sync.files, ..v.sync })
            &&& after.sync.current_call() == v.sync.current_call()
            &&& after.last_sync == v.last_sync
            &&& after.interval == v.interval
            &&& after.status == v.status
        }),
    decreases events.len(),
{
    if events.len() > 0 {
        let before = events.drop_last();
        assert forall|i: int| 0 <= i < before.len() implies quiet((#[trigger] before[i]).0)
            && !v.gate_open(before[i].1) by {
            assert(before[i] == events[i]);
        }
        lemma_burst_issues_nothing(v, before);
        let mid = handled_all(v, before);
        let last = events.last();
        assert(quiet(events[events.len() - 1].0));
        assert(mid.gate_open(last.1) == v.gate_open(last.1));
        lemma_closed_gate_issues_nothing(mid, last.0, last.1);
    }
}

/// The rate gate, from the other side: an output, print or tick event that
/// does issue a synchronisation came with the rate gate open, and closes it, so
/// that the next one is more than an interval away.
pub proof fn lemma_sync_closes_gate(v: SupervisorView, event: EventView, now: u64, next: u64)
    requires
        quiet(event),
        v.handled(event, now).sync.current_call() != v.sync.current_call()
            || v.handled(event, now).last_sync != v.last_sync,
    ensures
        v.open(),
        v.gate_open(now),
        v.handled(event, now).last_sync == now,
        v.handled(event, now).gate_open(next) ==> next - now > v.interval,
{
}

/// The cancel button is keyed by the session: whenever a call installs
/// it, it names the anchor of the session and the user who owns it, and it
/// goes on the last message.
pub proof fn lemma_button_names_the_session(v: SupervisorView)
    requires
        v.wf(),
    ensures
        match v.sync.current_call() {
            Some(CallView::Edit { id, components: Components::CancelButton { anchor, owner }, .. }) => {
                &&& anchor == v.anchor
                &&& owner == v.sync.owner
                &&& id == v.sync.messages.last().id
                &&& !v.sync.terminal
            },
            _ => true,
        },
{
}

} // verus!
