//! The frame driver's states, and what a tick comes to.

use crate::interfaces::{termination_due, BackendModel};
use vstd::prelude::*;

verus! {

/// Where the frame driver stands.
#[derive(Clone, Copy, Debug, PartialEq, Eq, Structural)]
pub enum DriverState {
    /// No tick has been asked for yet.
    Idle,
    /// Ticks are being run.
    Running,
    /// A terminate check has fired. This state is final: no tick does any
    /// work again.
    Terminated,
}

/// How one tick went.
#[derive(Clone, Copy, Debug, PartialEq, Eq, Structural)]
pub enum FrameOutcome {
    /// The terminate check fired: no step of the tick ran.
    Terminated,
    /// Cleanup and the frame start ran, and the frame start raised the
    /// termination flag: user code and the frame end were skipped.
    Halted,
    /// Cleanup and the frame start ran and found nothing to end the
    /// application: user code, if there is any, is run once, and the frame
    /// end follows.
    Active,
}

/// What one run of the loop came to.
#[derive(Clone, Copy, Debug, PartialEq, Eq, Structural)]
pub struct RunReport {
    /// The ticks that got past the terminate check.
    pub frames: u64,
    /// Those of them that ran user code and the frame end.
    pub active: u64,
}

/// The windows that are still live after the cleanup of a tick and the
/// reaping of its frame start: those that are neither queued for destruction
/// nor reported closed.
pub open spec fn survivors(backend: BackendModel, queue: Seq<usize>) -> Set<usize> {
    backend.without(queue.to_set()).survivors()
}

/// What the next tick comes to, as the driver, the backend and the destroy
/// queue stand before it.
pub open spec fn frame_outcome(state: DriverState, backend: BackendModel, queue: Seq<usize>)
    -> FrameOutcome {
    if state == DriverState::Terminated || backend.terminating {
        FrameOutcome::Terminated
    } else if termination_due(survivors(backend, queue), backend.primary) {
        FrameOutcome::Halted
    } else {
        FrameOutcome::Active
    }
}

/// With no window live, the first tick is halted at its frame start: user code
/// is not run, no frame end follows, and the flag is up for the terminate check
/// of the tick after it.
pub proof fn lemma_no_window_halts(state: DriverState, backend: BackendModel, queue: Seq<usize>)
    requires
        state != DriverState::Terminated,
        !backend.terminating,
        forall|id: usize| !backend.live().contains(id),
    ensures
        frame_outcome(state, backend, queue) == FrameOutcome::Halted,
{
    assert forall|id: usize| !survivors(backend, queue).contains(id) by {
        assert(!backend.live().contains(id));
    }
}

/// Once the flag is up, every tick ends at its terminate check.
pub proof fn lemma_flag_terminates(state: DriverState, backend: BackendModel, queue: Seq<usize>)
    requires
        backend.terminating,
    ensures
        frame_outcome(state, backend, queue) == FrameOutcome::Terminated,
{
}

/// Once the primary window is gone, the next tick is halted at its frame
/// start: no user code, no frame end. It is gone if it is not live, if it
/// waits in the destroy queue, or if the toolkit has reported it closed; so
/// the tick after `destroy` or `queue_destroy` of the primary window is
/// halted.
pub proof fn lemma_primary_lost_halts(
    state: DriverState,
    backend: BackendModel,
    queue: Seq<usize>,
    primary: usize,
)
    requires
        state != DriverState::Terminated,
        !backend.terminating,
        backend.primary == Some(primary),
    ensures
        !backend.live().contains(primary) || queue.contains(primary) || backend.closing().contains(
            primary,
        ) ==> frame_outcome(state, backend, queue) == FrameOutcome::Halted,
        frame_outcome(state, backend.destroyed(primary), queue) == FrameOutcome::Halted,
        frame_outcome(state, backend, queue.push(primary)) == FrameOutcome::Halted,
{
    if queue.contains(primary) {
        assert(queue.to_set().contains(primary));
    }
    queue.lemma_push_to_set_commute(primary);
}

/// To destroy a window that is not the primary one while another one stays
/// does not end the loop: if the next tick would have run user code, it
/// still does, whether the window is destroyed on the spot or queued.
pub proof fn lemma_other_window_lost_goes_on(
    state: DriverState,
    backend: BackendModel,
    queue: Seq<usize>,
    id: usize,
    other: usize,
)
    requires
        frame_outcome(state, backend, queue) == FrameOutcome::Active,
        backend.primary != Some(id),
        other != id,
        survivors(backend, queue).contains(other),
    ensures
        frame_outcome(state, backend.destroyed(id), queue) == FrameOutcome::Active,
        frame_outcome(state, backend, queue.push(id)) == FrameOutcome::Active,
{
    queue.lemma_push_to_set_commute(id);
    assert(survivors(backend.destroyed(id), queue).contains(other));
    assert(survivors(backend, queue.push(id)).contains(other));
    if let Some(p) = backend.primary {
        assert(survivors(backend, queue).contains(p));
        assert(survivors(backend.destroyed(id), queue).contains(p));
        assert(survivors(backend, queue.push(id)).contains(p));
    }
}

} // verus!
