//! Filling the registry before the boundary opens: every known worker is
//! offered once, and each attempt's outcome is kept.

use vstd::prelude::*;
use crate::registry::{
    after_register, register_outcome, RegistryError, WorkerRegistry,
};
use crate::worker::{EchoWorker, RegisterWorker, WorkerInstance};

verus! {

/// One attempt to bring a worker in: the worker, or `None` where it could
/// not be constructed.
pub type Attempt = Option<WorkerInstance>;

/// What the registry holds after one attempt.
pub open spec fn after_attempt(entries: Seq<WorkerInstance>, attempt: Attempt) -> Seq<
    WorkerInstance,
> {
    match attempt {
        Some(worker) => after_register(entries, worker),
        None => entries,
    }
}

/// How one attempt ends.
pub open spec fn attempt_outcome(entries: Seq<WorkerInstance>, attempt: Attempt) -> Result<
    (),
    RegistryError,
> {
    match attempt {
        Some(worker) => register_outcome(entries, worker),
        None => Err(RegistryError::ConstructionFailed),
    }
}

/// What the registry holds after the attempts, made in order.
pub open spec fn after_attempts(entries: Seq<WorkerInstance>, attempts: Seq<Attempt>) -> Seq<
    WorkerInstance,
>
    decreases attempts.len(),
{
    if attempts.len() == 0 {
        entries
    } else {
        after_attempt(after_attempts(entries, attempts.drop_last()), attempts.last())
    }
}

/// How each of the attempts ends: the outcome of an attempt is that of
/// offering it to what the attempts before it have left.
pub open spec fn attempt_outcomes(entries: Seq<WorkerInstance>, attempts: Seq<Attempt>) -> Seq<
    Result<(), RegistryError>,
> {
    Seq::new(
        attempts.len(),
        |k: int| attempt_outcome(after_attempts(entries, attempts.take(k)), attempts[k]),
    )
}

/// How many of the outcomes are failures.
pub open spec fn failure_count(outcomes: Seq<Result<(), RegistryError>>) -> nat
    decreases outcomes.len(),
{
    if outcomes.len() == 0 {
        0
    } else if outcomes.last().is_err() {
        failure_count(outcomes.drop_last()) + 1
    } else {
        failure_count(outcomes.drop_last())
    }
}

/// Counts the attempts that failed, for the integrator to judge whether the
/// boundary may open.
pub fn failed_attempts(outcomes: &Vec<Result<(), RegistryError>>) -> (failures: usize)
    ensures
        failures == failure_count(outcomes@),
{
    let mut failures: usize = 0;
    let mut i: usize = 0;
    while i < outcomes.len()
        invariant
            i <= outcomes.len(),
            failures == failure_count(outcomes@.take(i as int)),
            failures <= i,
        decreases outcomes.len() - i,
    {
        proof {
            assert(outcomes@.take(i + 1).drop_last() =~= outcomes@.take(i as int));
        }
        if outcomes[i].is_err() {
            failures += 1;
        }
        i += 1;
    }
    proof {
        assert(outcomes@.take(outcomes@.len() as int) =~= outcomes@);
    }
    failures
}

/// The workers that bootstrap brings in, in this order.
pub open spec fn known_workers() -> Seq<Attempt> {
    seq![
        Some(WorkerInstance::Echo(EchoWorker {  })),
        Some(WorkerInstance::Register(RegisterWorker {  })),
    ]
}

/// Makes the attempts in order. A failed attempt is recorded and the next
/// one is made all the same.
pub fn register_each(registry: &mut WorkerRegistry, attempts: &Vec<Attempt>) -> (outcomes: Vec<
    Result<(), RegistryError>,
>)
    requires
        old(registry).wf(),
    ensures
        final(registry).wf(),
        final(registry).entries() == after_attempts(old(registry).entries(), attempts@),
        outcomes@ == attempt_outcomes(old(registry).entries(), attempts@),
{
    let ghost start = registry.entries();
    let mut outcomes: Vec<Result<(), RegistryError>> = Vec::new();
    let mut i: usize = 0;
    while i < attempts.len()
        invariant
            i <= attempts.len(),
            registry.wf(),
            registry.entries() == after_attempts(start, attempts@.take(i as int)),
            outcomes@.len() == i,
            forall|k: int|
                0 <= k < i ==> #[trigger] outcomes@[k] == attempt_outcome(
                    after_attempts(start, attempts@.take(k)),
                    attempts@[k],
                ),
        decreases attempts.len() - i,
    {
        let outcome = match attempts[i] {
            Some(worker) => registry.register(worker),
            None => Err(RegistryError::ConstructionFailed),
        };
        outcomes.push(outcome);
        proof {
            assert(attempts@.take(i + 1).drop_last() =~= attempts@.take(i as int));
        }
        i += 1;
    }
    proof {
        assert(attempts@.take(attempts@.len() as int) =~= attempts@);
        assert(outcomes@ =~= attempt_outcomes(start, attempts@));
    }
    outcomes
}

/// Brings the known workers into `registry`, each once, and reports how
/// each attempt ended. A worker whose name is already held is turned away
/// as a duplicate; the others still enter.
pub fn register_trusted_worker_statically(registry: &mut WorkerRegistry) -> (outcomes: Vec<
    Result<(), RegistryError>,
>)
    requires
        old(registry).wf(),
    ensures
        final(registry).wf(),
        final(registry).entries() == after_attempts(old(registry).entries(), known_workers()),
        outcomes@ == attempt_outcomes(old(registry).entries(), known_workers()),
{
    let mut attempts: Vec<Attempt> = Vec::new();
    attempts.push(Some(WorkerInstance::Echo(EchoWorker::new())));
    attempts.push(Some(WorkerInstance::Register(RegisterWorker::new())));
    proof {
        assert(attempts@ =~= known_workers());
    }
    register_each(registry, &attempts)
}

} // verus!
