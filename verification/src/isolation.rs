//! One backend's failure is that backend's alone.

use vstd::prelude::*;
use crate::backend::BackendRecord;
use crate::error::DiscoveryError;
use crate::orchestrator::{records_wf, scanning_set};
use crate::protocol::{
    concluded, judged, pending_state, reported, verdict, BackendOutcome, Operation,
};

verus! {

/// What becomes of a backend at the end of a start or a stop depends on
/// what the driver reported of that backend, and on nothing it reported of
/// any other.
pub proof fn judgment_is_per_backend(
    operation: Operation,
    record: BackendRecord,
    outcomes: Seq<BackendOutcome>,
    others: Seq<BackendOutcome>,
)
    requires
        reported(outcomes, record.id) == reported(others, record.id),
    ensures
        concluded(operation, outcomes)(record) == concluded(operation, others)(record),
        verdict(outcomes)(record) == verdict(others)(record),
{
}

/// Partial failure: of two backends that were starting, the one of which
/// success was reported scans and is reported as a success, whatever came
/// of the other; the other does not scan, and its failure is noted against
/// it and reported. A failure that is not a timeout can be cleared by a
/// reset; a timeout, or no report at all, disables the backend.
pub proof fn failed_start_is_isolated(
    records: Seq<BackendRecord>,
    outcomes: Seq<BackendOutcome>,
    a: int,
    b: int,
)
    requires
        records_wf(records),
        0 <= a < records.len(),
        0 <= b < records.len(),
        records[a].state is Starting,
        records[b].state is Starting,
        judged(outcomes, records[a].id) is Ok,
        judged(outcomes, records[b].id) is Err,
    ensures
        ({
            let after = records.map_values(concluded(Operation::Start, outcomes));
            let failure = judged(outcomes, records[b].id)->Err_0;
            &&& after[a].state is Scanning
            &&& after[a].last_error is None
            &&& records[a].roles.can_scan ==> scanning_set(after).contains(a as usize)
            &&& verdict(outcomes)(records[a]).result is Ok
            &&& after[b].state == (if failure is Timeout {
                crate::lifecycle::LifecycleState::Disabled
            } else {
                crate::lifecycle::LifecycleState::Failed
            })
            &&& after[b].last_error == Some(failure)
            &&& !scanning_set(after).contains(b as usize)
            &&& verdict(outcomes)(records[b]).result == Err::<(), DiscoveryError>(failure)
        }),
{
    let after = records.map_values(concluded(Operation::Start, outcomes));
    assert(after[a] == concluded(Operation::Start, outcomes)(records[a]));
    assert(after[b] == concluded(Operation::Start, outcomes)(records[b]));
    assert(records[a].id == a);
    assert(records[b].id == b);
}

/// Bounded shutdown: no backend is left stopping. A backend that the
/// driver reports nothing of, or a timeout, is disabled and marked as
/// leaked, with the timeout noted against it; one that stopped is idle.
pub proof fn stop_leaves_nothing_pending(record: BackendRecord, outcomes: Seq<BackendOutcome>)
    requires
        record.state is Stopping,
    ensures
        ({
            let after = concluded(Operation::Stop, outcomes)(record);
            &&& !(after.state is Stopping)
            &&& judged(outcomes, record.id) is Ok ==> after.state is Idle && after.leaked
                == record.leaked && after.last_error is None
            &&& (reported(outcomes, record.id) is None || reported(outcomes, record.id) == Some(
                Err::<(), DiscoveryError>(DiscoveryError::Timeout),
            )) ==> after.state is Disabled && after.leaked && after.last_error == Some(
                DiscoveryError::Timeout,
            )
            &&& after.releasable() || after.state is Scanning
        }),
{
}

/// The end of a start or a stop touches only the backends on which the
/// operation was under way.
pub proof fn bystanders_are_untouched(
    operation: Operation,
    record: BackendRecord,
    outcomes: Seq<BackendOutcome>,
)
    requires
        record.state != pending_state(operation),
    ensures
        concluded(operation, outcomes)(record) == record,
{
}

} // verus!
