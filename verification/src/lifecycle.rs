//! The lifecycle of a registered backend.
//!
//! `Idle -> Starting -> Scanning -> Stopping -> Idle` is the regular cycle.
//! A start that fails leads to `Failed`, which only a reset leaves. A
//! lifecycle operation that exceeds its bound, or an event sequence that
//! ends while the backend is scanning, leads to `Disabled`, which nothing
//! leaves.

use vstd::prelude::*;
use crate::error::DiscoveryError;

verus! {

/// Where a backend stands in its lifecycle.
#[derive(Debug, Clone, Copy, PartialEq, Eq, Structural)]
pub enum LifecycleState {
    Idle,
    Starting,
    Scanning,
    Stopping,
    Failed,
    Disabled,
}

/// What can happen to a backend.
#[derive(Debug, Clone, Copy, PartialEq, Eq, Structural)]
pub enum LifecycleEvent {
    /// The orchestrator asks the backend to start.
    StartRequested,
    /// The start attempt succeeded.
    StartSucceeded,
    /// The start attempt failed.
    StartFailed,
    /// The orchestrator asks the backend to stop.
    StopRequested,
    /// The stop attempt succeeded.
    StopSucceeded,
    /// The stop attempt failed; the backend is still running.
    StopFailed,
    /// The pending lifecycle operation exceeded its bound.
    TimedOut,
    /// The backend's event sequence ended.
    StreamClosed,
    /// The application clears a failure.
    Reset,
}

impl LifecycleState {
    /// Terminal states are left by no event but an explicit reset.
    pub open spec fn terminal(self) -> bool {
        self is Failed || self is Disabled
    }

    /// Whether operations of the backend are running or being started or
    /// stopped. A backend in such a state holds its platform resources.
    pub open spec fn engaged(self) -> bool {
        self is Starting || self is Scanning || self is Stopping
    }

    /// Executable form of [`LifecycleState::terminal`].
    pub fn is_terminal(&self) -> (r: bool)
        ensures
            r == self.terminal(),
    {
        match self {
            LifecycleState::Failed => true,
            LifecycleState::Disabled => true,
            _ => false,
        }
    }

    /// Executable form of [`LifecycleState::engaged`].
    pub fn is_engaged(&self) -> (r: bool)
        ensures
            r == self.engaged(),
    {
        match self {
            LifecycleState::Starting => true,
            LifecycleState::Scanning => true,
            LifecycleState::Stopping => true,
            _ => false,
        }
    }
}

/// The state that `event` leads to from `state`, or `None` when the event
/// has no meaning in that state and is ignored.
pub open spec fn next_state(state: LifecycleState, event: LifecycleEvent) -> Option<
    LifecycleState,
> {
    match (state, event) {
        (LifecycleState::Idle, LifecycleEvent::StartRequested) => Some(LifecycleState::Starting),
        (LifecycleState::Starting, LifecycleEvent::StartSucceeded) => Some(
            LifecycleState::Scanning,
        ),
        (LifecycleState::Starting, LifecycleEvent::StartFailed) => Some(LifecycleState::Failed),
        (LifecycleState::Starting, LifecycleEvent::TimedOut) => Some(LifecycleState::Disabled),
        (LifecycleState::Scanning, LifecycleEvent::StopRequested) => Some(
            LifecycleState::Stopping,
        ),
        (LifecycleState::Scanning, LifecycleEvent::StreamClosed) => Some(LifecycleState::Disabled),
        (LifecycleState::Stopping, LifecycleEvent::StopSucceeded) => Some(LifecycleState::Idle),
        (LifecycleState::Stopping, LifecycleEvent::StopFailed) => Some(LifecycleState::Scanning),
        (LifecycleState::Stopping, LifecycleEvent::TimedOut) => Some(LifecycleState::Disabled),
        (LifecycleState::Failed, LifecycleEvent::Reset) => Some(LifecycleState::Idle),
        _ => None,
    }
}

/// The failure that an event records against the backend, if any.
pub open spec fn failure_of(event: LifecycleEvent) -> Option<DiscoveryError> {
    match event {
        LifecycleEvent::StartFailed => Some(DiscoveryError::OperationError),
        LifecycleEvent::StopFailed => Some(DiscoveryError::OperationError),
        LifecycleEvent::TimedOut => Some(DiscoveryError::Timeout),
        LifecycleEvent::StreamClosed => Some(DiscoveryError::StreamClosed),
        _ => None,
    }
}

/// Executable form of [`next_state`].
pub fn step(state: LifecycleState, event: LifecycleEvent) -> (r: Option<LifecycleState>)
    ensures
        r == next_state(state, event),
{
    match (state, event) {
        (LifecycleState::Idle, LifecycleEvent::StartRequested) => Some(LifecycleState::Starting),
        (LifecycleState::Starting, LifecycleEvent::StartSucceeded) => Some(
            LifecycleState::Scanning,
        ),
        (LifecycleState::Starting, LifecycleEvent::StartFailed) => Some(LifecycleState::Failed),
        (LifecycleState::Starting, LifecycleEvent::TimedOut) => Some(LifecycleState::Disabled),
        (LifecycleState::Scanning, LifecycleEvent::StopRequested) => Some(
            LifecycleState::Stopping,
        ),
        (LifecycleState::Scanning, LifecycleEvent::StreamClosed) => Some(LifecycleState::Disabled),
        (LifecycleState::Stopping, LifecycleEvent::StopSucceeded) => Some(LifecycleState::Idle),
        (LifecycleState::Stopping, LifecycleEvent::StopFailed) => Some(LifecycleState::Scanning),
        (LifecycleState::Stopping, LifecycleEvent::TimedOut) => Some(LifecycleState::Disabled),
        (LifecycleState::Failed, LifecycleEvent::Reset) => Some(LifecycleState::Idle),
        _ => None,
    }
}

/// Executable form of [`failure_of`].
pub fn failure(event: LifecycleEvent) -> (r: Option<DiscoveryError>)
    ensures
        r == failure_of(event),
{
    match event {
        LifecycleEvent::StartFailed => Some(DiscoveryError::OperationError),
        LifecycleEvent::StopFailed => Some(DiscoveryError::OperationError),
        LifecycleEvent::TimedOut => Some(DiscoveryError::Timeout),
        LifecycleEvent::StreamClosed => Some(DiscoveryError::StreamClosed),
        _ => None,
    }
}

/// The state after a sequence of events, each ignored where it has no
/// meaning.
pub open spec fn run(state: LifecycleState, events: Seq<LifecycleEvent>) -> LifecycleState
    decreases events.len(),
{
    if events.len() == 0 {
        state
    } else {
        let before = run(state, events.drop_last());
        match next_state(before, events.last()) {
            Some(next) => next,
            None => before,
        }
    }
}

/// A disabled backend stays disabled whatever happens, and a failed one
/// stays failed until it is reset.
pub proof fn terminal_states_hold(state: LifecycleState, events: Seq<LifecycleEvent>)
    ensures
        state is Disabled ==> run(state, events) is Disabled,
        state is Failed && !events.contains(LifecycleEvent::Reset) ==> run(state, events) is Failed,
    decreases events.len(),
{
    if events.len() > 0 {
        let head = events.drop_last();
        terminal_states_hold(state, head);
        if !events.contains(LifecycleEvent::Reset) {
            assert forall|k: int| 0 <= k < head.len() implies head[k] != LifecycleEvent::Reset by {
                assert(events[k] == head[k]);
            }
            assert(!head.contains(LifecycleEvent::Reset));
            assert(events[events.len() - 1] != LifecycleEvent::Reset);
        }
    }
}

/// The regular cycle: a start that succeeds followed by a stop that
/// succeeds brings an idle backend back to idle, through every state of the
/// cycle in turn.
pub proof fn regular_cycle()
    ensures
        next_state(LifecycleState::Idle, LifecycleEvent::StartRequested) == Some(
            LifecycleState::Starting,
        ),
        next_state(LifecycleState::Starting, LifecycleEvent::StartSucceeded) == Some(
            LifecycleState::Scanning,
        ),
        next_state(LifecycleState::Scanning, LifecycleEvent::StopRequested) == Some(
            LifecycleState::Stopping,
        ),
        next_state(LifecycleState::Stopping, LifecycleEvent::StopSucceeded) == Some(
            LifecycleState::Idle,
        ),
        run(
            LifecycleState::Idle,
            seq![
                LifecycleEvent::StartRequested,
                LifecycleEvent::StartSucceeded,
                LifecycleEvent::StopRequested,
                LifecycleEvent::StopSucceeded,
            ],
        ) == LifecycleState::Idle,
{
    let all = seq![
        LifecycleEvent::StartRequested,
        LifecycleEvent::StartSucceeded,
        LifecycleEvent::StopRequested,
        LifecycleEvent::StopSucceeded,
    ];
    let three = all.drop_last();
    let two = three.drop_last();
    let one = two.drop_last();
    assert(one.drop_last().len() == 0);
    assert(run(LifecycleState::Idle, one.drop_last()) == LifecycleState::Idle);
    assert(one.last() == LifecycleEvent::StartRequested);
    assert(run(LifecycleState::Idle, one) == LifecycleState::Starting);
    assert(two.last() == LifecycleEvent::StartSucceeded);
    assert(run(LifecycleState::Idle, two) == LifecycleState::Scanning);
    assert(three.last() == LifecycleEvent::StopRequested);
    assert(run(LifecycleState::Idle, three) == LifecycleState::Stopping);
    assert(all.last() == LifecycleEvent::StopSucceeded);
}

/// Only a lifecycle operation that exceeds its bound, or an event sequence
/// that ends while the backend is scanning, disables a backend; and a
/// backend is disabled only from a state that is not terminal.
pub proof fn disabling_is_deliberate(state: LifecycleState, event: LifecycleEvent)
    requires
        next_state(state, event) == Some(LifecycleState::Disabled),
    ensures
        !state.terminal(),
        event is TimedOut || event is StreamClosed,
        failure_of(event) is Some,
        failure_of(event)->0.disabling(),
{
}

} // verus!
