//! What the orchestrator and its driver say to each other when backends
//! are started and stopped.
//!
//! The orchestrator decides; the driver performs. For a start or a stop the
//! orchestrator hands out one command per backend, the driver carries the
//! commands out concurrently, each under its own bound, and hands back what
//! came of them. A backend the driver says nothing about has not answered
//! within its bound.

use vstd::prelude::*;
use crate::backend::BackendRecord;
use crate::config::Config;
use crate::error::DiscoveryError;
use crate::identity::BackendId;
use crate::lifecycle::{LifecycleEvent, LifecycleState};
use crate::search::{first_index, lemma_first_index, lemma_first_index_is};

verus! {

/// The two lifecycle operations that the orchestrator runs on all backends.
#[derive(Debug, Clone, Copy, PartialEq, Eq, Structural)]
pub enum Operation {
    Start,
    Stop,
}

/// What the driver has to do for one backend.
#[derive(Debug, Clone, Copy, PartialEq, Eq)]
pub struct LifecycleCommand {
    /// The backend to act on.
    pub backend: BackendId,
    /// Whether to start or to stop.
    pub operation: Operation,
    /// Whether the backend's scan is to be started or stopped.
    pub scan: bool,
    /// Whether the backend's broadcast is to be started or stopped.
    pub broadcast: bool,
    /// The bound on the attempt, in milliseconds.
    pub timeout_ms: u64,
}

/// What came of one backend's attempt.
#[derive(Debug, Clone, Copy, PartialEq, Eq)]
pub struct BackendOutcome {
    pub backend: BackendId,
    pub result: Result<(), DiscoveryError>,
}

/// The failure of a backend, as subscribers of the merged stream are told
/// of it.
#[derive(Debug, Clone, Copy, PartialEq, Eq)]
pub struct BackendFailure {
    pub backend: BackendId,
    pub error: DiscoveryError,
}

/// The failure that a failed outcome stands for.
pub open spec fn as_failure() -> spec_fn(BackendOutcome) -> BackendFailure {
    |o: BackendOutcome| BackendFailure { backend: o.backend, error: o.result->Err_0 }
}

/// The state a backend must be in for the operation to be asked of it.
pub open spec fn source_state(operation: Operation) -> LifecycleState {
    match operation {
        Operation::Start => LifecycleState::Idle,
        Operation::Stop => LifecycleState::Scanning,
    }
}

/// The state of a backend while the operation is under way.
pub open spec fn pending_state(operation: Operation) -> LifecycleState {
    match operation {
        Operation::Start => LifecycleState::Starting,
        Operation::Stop => LifecycleState::Stopping,
    }
}

/// The event by which the operation is asked of a backend.
pub open spec fn request_event(operation: Operation) -> LifecycleEvent {
    match operation {
        Operation::Start => LifecycleEvent::StartRequested,
        Operation::Stop => LifecycleEvent::StopRequested,
    }
}

/// The event that the result of an attempt stands for.
pub open spec fn conclusion_event(
    operation: Operation,
    result: Result<(), DiscoveryError>,
) -> LifecycleEvent {
    match result {
        Ok(_) => match operation {
            Operation::Start => LifecycleEvent::StartSucceeded,
            Operation::Stop => LifecycleEvent::StopSucceeded,
        },
        Err(DiscoveryError::Timeout) => LifecycleEvent::TimedOut,
        Err(_) => match operation {
            Operation::Start => LifecycleEvent::StartFailed,
            Operation::Stop => LifecycleEvent::StopFailed,
        },
    }
}

/// The failure in a result, if it is one.
pub open spec fn error_of(result: Result<(), DiscoveryError>) -> Option<DiscoveryError> {
    match result {
        Ok(_) => None,
        Err(e) => Some(e),
    }
}

/// The bound on one backend's attempt.
pub open spec fn timeout_of(operation: Operation, config: Config) -> u64 {
    match operation {
        Operation::Start => config.backend_start_timeout_ms,
        Operation::Stop => config.backend_stop_timeout_ms,
    }
}

/// The predicate "is about `backend`".
pub open spec fn about(backend: BackendId) -> spec_fn(BackendOutcome) -> bool {
    |o: BackendOutcome| o.backend == backend
}

/// The predicate "is a failure".
pub open spec fn failed() -> spec_fn(BackendOutcome) -> bool {
    |o: BackendOutcome| o.result is Err
}

/// What the driver reported of `backend`: the first outcome about it, if
/// there is one.
pub open spec fn reported(outcomes: Seq<BackendOutcome>, backend: BackendId) -> Option<
    Result<(), DiscoveryError>,
> {
    let i = first_index(outcomes, about(backend));
    if i < outcomes.len() {
        Some(outcomes[i].result)
    } else {
        None
    }
}

/// The result the orchestrator goes by: what the driver reported, and a
/// timeout where it reported nothing.
pub open spec fn judged(outcomes: Seq<BackendOutcome>, backend: BackendId) -> Result<
    (),
    DiscoveryError,
> {
    match reported(outcomes, backend) {
        Some(result) => result,
        None => Err(DiscoveryError::Timeout),
    }
}

/// The first failure among the outcomes, or success when there is none.
pub open spec fn first_failure(outcomes: Seq<BackendOutcome>) -> Result<(), DiscoveryError> {
    let i = first_index(outcomes, failed());
    if i < outcomes.len() {
        outcomes[i].result
    } else {
        Ok(())
    }
}

/// The predicate "the operation can be asked of it".
pub open spec fn awaiting(operation: Operation) -> spec_fn(BackendRecord) -> bool {
    |r: BackendRecord| r.state == source_state(operation)
}

/// The predicate "the operation is under way on it".
pub open spec fn pending(operation: Operation) -> spec_fn(BackendRecord) -> bool {
    |r: BackendRecord| r.state == pending_state(operation)
}

/// A record after the operation was asked of its backend.
pub open spec fn requested(operation: Operation) -> spec_fn(BackendRecord) -> BackendRecord {
    |r: BackendRecord| r.after(request_event(operation), None)
}

/// The command that asks the operation of a record's backend.
pub open spec fn command_for(operation: Operation, config: Config) -> spec_fn(
    BackendRecord,
) -> LifecycleCommand {
    |r: BackendRecord|
        LifecycleCommand {
            backend: r.id,
            operation,
            scan: r.roles.can_scan,
            broadcast: r.roles.can_advertise,
            timeout_ms: timeout_of(operation, config),
        }
}

/// A record after its backend's attempt was judged. Records on which the
/// operation is not under way stay as they are.
pub open spec fn concluded(operation: Operation, outcomes: Seq<BackendOutcome>) -> spec_fn(
    BackendRecord,
) -> BackendRecord {
    |r: BackendRecord|
        if r.state == pending_state(operation) {
            r.after(
                conclusion_event(operation, judged(outcomes, r.id)),
                error_of(judged(outcomes, r.id)),
            )
        } else {
            r
        }
}

/// The line of the report for a record's backend.
pub open spec fn verdict(outcomes: Seq<BackendOutcome>) -> spec_fn(BackendRecord) -> BackendOutcome {
    |r: BackendRecord| BackendOutcome { backend: r.id, result: judged(outcomes, r.id) }
}

/// Executable form of [`conclusion_event`].
pub fn conclude_event(operation: Operation, result: Result<(), DiscoveryError>) -> (r:
    LifecycleEvent)
    ensures
        r == conclusion_event(operation, result),
{
    match result {
        Ok(_) => match operation {
            Operation::Start => LifecycleEvent::StartSucceeded,
            Operation::Stop => LifecycleEvent::StopSucceeded,
        },
        Err(DiscoveryError::Timeout) => LifecycleEvent::TimedOut,
        Err(_) => match operation {
            Operation::Start => LifecycleEvent::StartFailed,
            Operation::Stop => LifecycleEvent::StopFailed,
        },
    }
}

/// Executable form of [`error_of`].
pub fn error_in(result: Result<(), DiscoveryError>) -> (r: Option<DiscoveryError>)
    ensures
        r == error_of(result),
{
    match result {
        Ok(_) => None,
        Err(e) => Some(e),
    }
}

/// Executable form of [`reported`].
pub fn lookup(outcomes: &Vec<BackendOutcome>, backend: BackendId) -> (r: Option<
    Result<(), DiscoveryError>,
>)
    ensures
        r == reported(outcomes@, backend),
{
    let mut i: usize = 0;
    while i < outcomes.len()
        invariant
            i <= outcomes.len(),
            forall|k: int| 0 <= k < i ==> !about(backend)(#[trigger] outcomes@[k]),
        decreases outcomes.len() - i,
    {
        if outcomes[i].backend == backend {
            proof {
                lemma_first_index_is(outcomes@, about(backend), i as int);
            }
            return Some(outcomes[i].result);
        }
        i = i + 1;
    }
    proof {
        lemma_first_index_is(outcomes@, about(backend), i as int);
    }
    None
}

/// Executable form of [`judged`].
pub fn judge(outcomes: &Vec<BackendOutcome>, backend: BackendId) -> (r: Result<
    (),
    DiscoveryError,
>)
    ensures
        r == judged(outcomes@, backend),
{
    match lookup(outcomes, backend) {
        Some(result) => result,
        None => Err(DiscoveryError::Timeout),
    }
}

/// The outcome of every attempt of a start or a stop, one line per backend
/// that took part, in the order of registration.
#[derive(Debug, Clone, PartialEq, Eq)]
pub struct BackendFailureReport {
    pub entries: Vec<BackendOutcome>,
}

impl BackendFailureReport {
    /// What the report says of `backend`, if it took part.
    pub fn status(&self, backend: BackendId) -> (r: Option<Result<(), DiscoveryError>>)
        ensures
            r == reported(self.entries@, backend),
    {
        lookup(&self.entries, backend)
    }

    /// Success when every backend succeeded, else the failure of the first
    /// backend that did not.
    pub fn outcome(&self) -> (r: Result<(), DiscoveryError>)
        ensures
            r == first_failure(self.entries@),
    {
        let mut i: usize = 0;
        while i < self.entries.len()
            invariant
                i <= self.entries.len(),
                forall|k: int| 0 <= k < i ==> !failed()(#[trigger] self.entries@[k]),
            decreases self.entries.len() - i,
        {
            match self.entries[i].result {
                Ok(_) => {},
                Err(e) => {
                    proof {
                        lemma_first_index_is(self.entries@, failed(), i as int);
                    }
                    return Err(e);
                },
            }
            i = i + 1;
        }
        proof {
            lemma_first_index_is(self.entries@, failed(), i as int);
        }
        Ok(())
    }

    /// Whether every backend succeeded.
    pub fn all_succeeded(&self) -> (r: bool)
        ensures
            r == (first_failure(self.entries@) is Ok),
            r == (forall|k: int|
                0 <= k < self.entries@.len() ==> (#[trigger] self.entries@[k]).result is Ok),
    {
        proof {
            lemma_first_index(self.entries@, failed());
            let i = first_index(self.entries@, failed());
            if i < self.entries@.len() {
                assert(failed()(self.entries@[i]));
            } else {
                assert forall|k: int| 0 <= k < self.entries@.len() implies (
                #[trigger] self.entries@[k]).result is Ok by {
                    assert(!failed()(self.entries@[k]));
                }
            }
        }
        self.outcome().is_ok()
    }

    /// The failures in the report, in the order of the report: what the
    /// subscribers of the merged stream are to be told.
    pub fn failures(&self) -> (r: Vec<BackendFailure>)
        ensures
            r@ == self.entries@.filter(failed()).map_values(as_failure()),
    {
        let mut out: Vec<BackendFailure> = Vec::new();
        let mut i: usize = 0;
        proof {
            reveal(Seq::filter);
            assert(self.entries@.take(0) =~= Seq::<BackendOutcome>::empty());
            assert(out@ =~= self.entries@.take(0).filter(failed()).map_values(as_failure()));
        }
        while i < self.entries.len()
            invariant
                i <= self.entries.len(),
                out@ == self.entries@.take(i as int).filter(failed()).map_values(as_failure()),
            decreases self.entries.len() - i,
        {
            proof {
                assert(self.entries@.take(i + 1) =~= self.entries@.take(i as int).push(
                    self.entries@[i as int],
                ));
                self.entries@.take(i as int).lemma_filter_push(self.entries@[i as int], failed());
            }
            match self.entries[i].result {
                Ok(_) => {},
                Err(error) => {
                    out.push(BackendFailure { backend: self.entries[i].backend, error });
                    assert(out@ =~= self.entries@.take(i + 1).filter(failed()).map_values(
                        as_failure(),
                    ));
                },
            }
            i = i + 1;
        }
        assert(self.entries@.take(self.entries.len() as int) =~= self.entries@);
        out
    }

    /// Number of backends that took part.
    pub fn len(&self) -> (r: usize)
        ensures
            r == self.entries@.len(),
    {
        self.entries.len()
    }
}

} // verus!
