//! The lifecycle supervisor's decision: once the wait on a spawned game
//! ends, either exactly one completion event is produced — carrying that
//! launch's identifier and the measured duration — or, when the wait itself
//! failed, none at all. The blocking wait, the clock and the delivery
//! channel live in the surrounding application; what may be delivered is
//! decided here.

use vstd::prelude::*;

verus! {

/// The single notification a finished game produces: which launch ended
/// and how many wall-clock seconds it ran.
pub struct CompletionEvent {
    pub instance_id: String,
    pub duration_sec: u64,
}

/// Decides what a supervisor delivers when its wait returns: a successful
/// wait yields the one completion event for this launch, with its own
/// identifier and the measured duration; a failed wait yields nothing, and
/// the failure stays out of the caller's way.
pub fn completion_event(instance_id: String, wait_succeeded: bool, duration_sec: u64) -> (r:
    Option<CompletionEvent>)
    ensures
        wait_succeeded ==> (r matches Some(e) && e.instance_id@ == instance_id@ && e.duration_sec
            == duration_sec),
        !wait_succeeded ==> r is None,
{
    if wait_succeeded {
        Some(CompletionEvent { instance_id, duration_sec })
    } else {
        None
    }
}

/// Law: events of two different launches can never be confused: an event
/// carries exactly the identifier of the launch whose supervisor produced
/// it, so one launch's event never reports another's duration.
pub proof fn law_events_keep_their_launch(
    a: CompletionEvent,
    b: CompletionEvent,
    id_a: Seq<char>,
    id_b: Seq<char>,
)
    requires
        a.instance_id@ == id_a,
        b.instance_id@ == id_b,
        id_a != id_b,
    ensures
        a.instance_id@ != b.instance_id@,
{
}

} // verus!
