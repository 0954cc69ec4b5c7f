use vstd::prelude::*;
use crate::capture::{capture_outcome, capture_outcome_spec, CaptureError};
use crate::record::AddrRecord;

verus! {

/// Where the scan loop stands within a cycle.
#[derive(Clone, Copy, Debug, PartialEq, Eq, Structural)]
pub enum Phase {
    Idle,
    Capturing,
    Decoding,
    Persisting,
    Sleeping,
    /// A capture failed: the process ends.
    Terminated,
}

/// What the outside world reports back to the scan loop.
pub enum LoopEvent {
    /// The loop is started.
    Begin,
    /// The capture program ended, with this exit status if it had one.
    CaptureExited(Option<i32>),
    /// The artifact was decoded and reduced to these observations.
    Decoded(Vec<AddrRecord>),
    /// Decoding the artifact failed as a whole.
    DecodeFailed,
    /// Every observation was handed to the store.
    Persisted,
    /// The pause between cycles is over.
    Slept,
}

/// What the scan loop asks the outside world to do next.
pub enum LoopAction {
    /// Remove any stale artifact, then run a capture.
    Capture,
    /// Decode the fresh artifact and reduce it to observations.
    Decode,
    /// Upsert each of these observations into the store.
    Persist(Vec<AddrRecord>),
    /// Remove the artifact, then pause for the fixed interval.
    CleanUpAndSleep,
    /// End the process: the capture failed.
    Terminate(CaptureError),
    /// Do nothing: the event does not belong to the current phase.
    Wait,
    /// Do nothing ever again: the loop has terminated.
    Halt,
}

/// The phase that follows `phase` on `event`.
pub open spec fn next_phase(phase: Phase, event: LoopEvent) -> Phase {
    match (phase, event) {
        (Phase::Terminated, _) => Phase::Terminated,
        (Phase::Idle, LoopEvent::Begin) => Phase::Capturing,
        (Phase::Capturing, LoopEvent::CaptureExited(code)) => match capture_outcome_spec(code) {
            Ok(()) => Phase::Decoding,
            Err(_) => Phase::Terminated,
        },
        (Phase::Decoding, LoopEvent::Decoded(_)) => Phase::Persisting,
        (Phase::Decoding, LoopEvent::DecodeFailed) => Phase::Persisting,
        (Phase::Persisting, LoopEvent::Persisted) => Phase::Sleeping,
        (Phase::Sleeping, LoopEvent::Slept) => Phase::Capturing,
        (p, _) => p,
    }
}

/// Whether `action` is what the loop asks for in `phase` on `event`.
pub open spec fn action_fits(phase: Phase, event: LoopEvent, action: LoopAction) -> bool {
    match (phase, event) {
        (Phase::Terminated, _) => action is Halt,
        (Phase::Idle, LoopEvent::Begin) => action is Capture,
        (Phase::Capturing, LoopEvent::CaptureExited(code)) => match capture_outcome_spec(code) {
            Ok(()) => action is Decode,
            Err(e) => action == LoopAction::Terminate(e),
        },
        (Phase::Decoding, LoopEvent::Decoded(obs)) => action == LoopAction::Persist(obs),
        (Phase::Decoding, LoopEvent::DecodeFailed) => action matches LoopAction::Persist(obs) && obs@.len() == 0,
        (Phase::Persisting, LoopEvent::Persisted) => action is CleanUpAndSleep,
        (Phase::Sleeping, LoopEvent::Slept) => action is Capture,
        (_, _) => action is Wait,
    }
}

/// The phase reached from `phase` after the events, in order.
pub open spec fn phase_after(phase: Phase, events: Seq<LoopEvent>) -> Phase
    decreases events.len(),
{
    if events.len() == 0 {
        phase
    } else {
        next_phase(phase_after(phase, events.drop_last()), events.last())
    }
}

/// The scan loop's transition: from a phase and an event, the next phase and
/// the action to perform.
pub fn step(phase: Phase, event: LoopEvent) -> (r: (Phase, LoopAction))
    ensures
        r.0 == next_phase(phase, event),
        action_fits(phase, event, r.1),
{
    match (phase, event) {
        (Phase::Terminated, _) => (Phase::Terminated, LoopAction::Halt),
        (Phase::Idle, LoopEvent::Begin) => (Phase::Capturing, LoopAction::Capture),
        (Phase::Capturing, LoopEvent::CaptureExited(code)) => match capture_outcome(code) {
            Ok(()) => (Phase::Decoding, LoopAction::Decode),
            Err(e) => (Phase::Terminated, LoopAction::Terminate(e)),
        },
        (Phase::Decoding, LoopEvent::Decoded(obs)) => (Phase::Persisting, LoopAction::Persist(obs)),
        (Phase::Decoding, LoopEvent::DecodeFailed) => (Phase::Persisting, LoopAction::Persist(Vec::new())),
        (Phase::Persisting, LoopEvent::Persisted) => (Phase::Sleeping, LoopAction::CleanUpAndSleep),
        (Phase::Sleeping, LoopEvent::Slept) => (Phase::Capturing, LoopAction::Capture),
        (p, _) => (p, LoopAction::Wait),
    }
}

/// A capture that does not exit with status 0 ends the loop: it asks to
/// terminate, and whatever is reported afterwards, it never again asks to
/// decode or to persist.
pub proof fn lemma_capture_failure_ends_loop(code: Option<i32>, later: Seq<LoopEvent>)
    requires
        code != Some(0i32),
    ensures
        next_phase(Phase::Capturing, LoopEvent::CaptureExited(code)) == Phase::Terminated,
        forall|a: LoopAction| #[trigger] action_fits(Phase::Capturing, LoopEvent::CaptureExited(code), a)
            ==> a is Terminate,
        forall|i: int| 0 <= i <= later.len() ==> #[trigger] phase_after(Phase::Terminated, later.take(i)) == Phase::Terminated,
        forall|i: int, a: LoopAction| 0 <= i < later.len()
            && #[trigger] action_fits(phase_after(Phase::Terminated, later.take(i)), later[i], a) ==> a is Halt,
{
    assert forall|i: int| 0 <= i <= later.len() implies #[trigger] phase_after(Phase::Terminated, later.take(i)) == Phase::Terminated by {
        lemma_terminated_stays(later.take(i));
    }
}

proof fn lemma_terminated_stays(events: Seq<LoopEvent>)
    ensures
        phase_after(Phase::Terminated, events) == Phase::Terminated,
    decreases events.len(),
{
    if events.len() > 0 {
        lemma_terminated_stays(events.drop_last());
    }
}

} // verus!
