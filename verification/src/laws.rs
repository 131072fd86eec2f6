//! What holds of the registry and of dispatch on every input.

use vstd::prelude::*;
use crate::bootstrap::{
    after_attempts, attempt_outcomes, failure_count, known_workers, Attempt,
};
use crate::dispatch::{dispatched, DispatchError};
use crate::registry::{
    after_register, found, holds, lemma_found_is_the_match, register_outcome, table_of,
    unique_identifiers, well_formed_identifiers, RegistryError,
};
use crate::worker::{
    echo_name, lemma_worker_names, register_name, EchoWorker, RegisterWorker, WorkerContract,
    WorkerError, WorkerInstance,
};

verus! {

/// Offering a worker to a registry without duplicates leaves it without
/// duplicates, whether the worker is taken in or turned away.
pub proof fn lemma_register_keeps_unique(entries: Seq<WorkerInstance>, worker: WorkerInstance)
    requires
        unique_identifiers(entries),
    ensures
        unique_identifiers(after_register(entries, worker)),
        well_formed_identifiers(after_register(entries, worker)),
        holds(after_register(entries, worker), worker.spec_identifier()),
{
    lemma_every_worker_is_well_named(after_register(entries, worker));
    if !holds(entries, worker.spec_identifier()) {
        let next = entries.push(worker);
        assert(next[entries.len() as int] == worker);
        assert forall|i: int, j: int| 0 <= i < j < next.len() implies (#[trigger] next[i]).spec_identifier()
            != (#[trigger] next[j]).spec_identifier() by {
            if j == entries.len() {
                assert(next[i] == entries[i]);
            } else {
                assert(next[i] == entries[i]);
                assert(next[j] == entries[j]);
            }
        }
    }
}

/// Every worker of the closed set bears a well-formed name.
pub proof fn lemma_every_worker_is_well_named(entries: Seq<WorkerInstance>)
    ensures
        well_formed_identifiers(entries),
{
    lemma_worker_names();
}

/// A worker that is held stays held, under the same name, when another is
/// offered: nothing is removed or replaced.
pub proof fn lemma_register_keeps_entries(
    entries: Seq<WorkerInstance>,
    worker: WorkerInstance,
    id: Seq<char>,
)
    requires
        unique_identifiers(entries),
        holds(entries, id),
    ensures
        found(after_register(entries, worker), id) == found(entries, id),
{
    let at = choose|i: int| 0 <= i < entries.len() && (#[trigger] entries[i]).spec_identifier() == id;
    let next = after_register(entries, worker);
    lemma_register_keeps_unique(entries, worker);
    assert(next[at] == entries[at]);
    lemma_found_is_the_match(next, id, at);
    lemma_found_is_the_match(entries, id, at);
}

/// Registration seen on the mapping: a worker whose name is new is added
/// under that name and nothing else changes; one whose name is held changes
/// nothing at all.
pub proof fn lemma_register_updates_table(entries: Seq<WorkerInstance>, worker: WorkerInstance)
    requires
        unique_identifiers(entries),
    ensures
        table_of(entries).contains_key(worker.spec_identifier()) ==> table_of(
            after_register(entries, worker),
        ) == table_of(entries),
        !table_of(entries).contains_key(worker.spec_identifier()) ==> table_of(
            after_register(entries, worker),
        ) == table_of(entries).insert(worker.spec_identifier(), worker),
{
    let name = worker.spec_identifier();
    if !holds(entries, name) {
        let next = entries.push(worker);
        lemma_lookup_after_register(entries, worker);
        assert forall|id: Seq<char>| holds(next, id) <==> (holds(entries, id) || id == name) by {
            if holds(next, id) {
                let i = choose|i: int|
                    0 <= i < next.len() && (#[trigger] next[i]).spec_identifier() == id;
                if i < entries.len() {
                    assert(next[i] == entries[i]);
                }
            }
            if holds(entries, id) {
                let i = choose|i: int|
                    0 <= i < entries.len() && (#[trigger] entries[i]).spec_identifier() == id;
                assert(next[i] == entries[i]);
            }
            if id == name {
                assert(next[entries.len() as int] == worker);
            }
        }
        assert forall|id: Seq<char>| holds(entries, id) implies found(next, id) == found(
            entries,
            id,
        ) by {
            lemma_register_keeps_entries(entries, worker, id);
        }
        assert(table_of(next) =~= table_of(entries).insert(name, worker));
    }
}

/// Lookup does not depend on the order of registration: two registries
/// without duplicates that hold the same workers are the same mapping.
pub proof fn lemma_table_ignores_order(first: Seq<WorkerInstance>, second: Seq<WorkerInstance>)
    requires
        unique_identifiers(first),
        unique_identifiers(second),
        forall|worker: WorkerInstance| first.contains(worker) <==> second.contains(worker),
    ensures
        table_of(first) == table_of(second),
{
    assert forall|id: Seq<char>| holds(first, id) implies holds(second, id) && found(first, id)
        == found(second, id) by {
        lemma_same_workers_same_lookup(first, second, id);
    }
    assert forall|id: Seq<char>| holds(second, id) implies holds(first, id) && found(first, id)
        == found(second, id) by {
        lemma_same_workers_same_lookup(second, first, id);
    }
    assert(table_of(first) =~= table_of(second));
}

proof fn lemma_same_workers_same_lookup(
    first: Seq<WorkerInstance>,
    second: Seq<WorkerInstance>,
    id: Seq<char>,
)
    requires
        unique_identifiers(first),
        unique_identifiers(second),
        forall|worker: WorkerInstance| first.contains(worker) ==> second.contains(worker),
        holds(first, id),
    ensures
        holds(second, id),
        found(first, id) == found(second, id),
{
    let i = choose|i: int| 0 <= i < first.len() && (#[trigger] first[i]).spec_identifier() == id;
    assert(first.contains(first[i]));
    let j = choose|j: int| 0 <= j < second.len() && second[j] == first[i];
    lemma_found_is_the_match(first, id, i);
    lemma_found_is_the_match(second, id, j);
}

/// Whatever attempts are made, in whatever order and however often
/// repeated, a registry that held no name twice holds none twice afterwards.
/// The empty registry is such a registry.
pub proof fn lemma_attempts_keep_unique(entries: Seq<WorkerInstance>, attempts: Seq<Attempt>)
    requires
        unique_identifiers(entries),
    ensures
        unique_identifiers(after_attempts(entries, attempts)),
        well_formed_identifiers(after_attempts(entries, attempts)),
    decreases attempts.len(),
{
    lemma_every_worker_is_well_named(after_attempts(entries, attempts));
    if attempts.len() > 0 {
        lemma_attempts_keep_unique(entries, attempts.drop_last());
        if let Some(worker) = attempts.last() {
            lemma_register_keeps_unique(after_attempts(entries, attempts.drop_last()), worker);
        }
    }
}

/// The same attempt made `n` times.
pub open spec fn repeated(worker: WorkerInstance, n: nat) -> Seq<Attempt> {
    Seq::new(n, |k: int| Some(worker))
}

/// Registering one worker `n` times, `n` at least one, into an empty
/// registry stores it once: the first attempt succeeds and each of the
/// other `n - 1` is turned away as a duplicate.
pub proof fn lemma_repeated_registration(worker: WorkerInstance, n: nat)
    requires
        n >= 1,
    ensures
        after_attempts(Seq::empty(), repeated(worker, n)) == seq![worker],
        attempt_outcomes(Seq::empty(), repeated(worker, n)).len() == n,
        attempt_outcomes(Seq::empty(), repeated(worker, n))[0] == Ok::<(), RegistryError>(()),
        forall|k: int|
            1 <= k < n ==> #[trigger] attempt_outcomes(Seq::empty(), repeated(worker, n))[k] == Err::<
                (),
                RegistryError,
            >(RegistryError::DuplicateIdentifier),
        failure_count(attempt_outcomes(Seq::empty(), repeated(worker, n))) == n - 1,
{
    let empty = Seq::<WorkerInstance>::empty();
    assert forall|m: nat| m >= 1 implies #[trigger] after_attempts(empty, repeated(worker, m))
        == seq![worker] by {
        lemma_repeated_stores_once(worker, m);
    }
    let attempts = repeated(worker, n);
    assert(attempts.take(0) =~= Seq::<Attempt>::empty());
    assert(!holds(empty, worker.spec_identifier()));
    assert forall|k: int| 1 <= k < n implies #[trigger] attempt_outcomes(empty, attempts)[k] == Err::<
        (),
        RegistryError,
    >(RegistryError::DuplicateIdentifier) by {
        assert(attempts.take(k) =~= repeated(worker, k as nat));
        assert(after_attempts(empty, repeated(worker, k as nat)) == seq![worker]);
        assert(seq![worker][0] == worker);
    }
    lemma_all_but_first_fail(attempt_outcomes(empty, attempts));
}

/// Where the first outcome is a success and every other a failure, the
/// failures are all but one.
proof fn lemma_all_but_first_fail(outcomes: Seq<Result<(), RegistryError>>)
    requires
        outcomes.len() >= 1,
        outcomes[0].is_ok(),
        forall|k: int| 1 <= k < outcomes.len() ==> (#[trigger] outcomes[k]).is_err(),
    ensures
        failure_count(outcomes) == outcomes.len() - 1,
    decreases outcomes.len(),
{
    if outcomes.len() == 1 {
        assert(failure_count(outcomes.drop_last()) == 0);
    } else {
        let before = outcomes.drop_last();
        assert forall|k: int| 1 <= k < before.len() implies (#[trigger] before[k]).is_err() by {
            assert(before[k] == outcomes[k]);
        }
        lemma_all_but_first_fail(before);
    }
}

proof fn lemma_repeated_stores_once(worker: WorkerInstance, n: nat)
    requires
        n >= 1,
    ensures
        after_attempts(Seq::empty(), repeated(worker, n)) == seq![worker],
    decreases n,
{
    let empty = Seq::<WorkerInstance>::empty();
    let attempts = repeated(worker, n);
    assert(attempts.drop_last() =~= repeated(worker, (n - 1) as nat));
    assert(attempts.last() == Some(worker));
    if n == 1 {
        assert(after_attempts(empty, attempts.drop_last()) == empty);
        assert(!holds(empty, worker.spec_identifier()));
        assert(empty.push(worker) =~= seq![worker]);
    } else {
        lemma_repeated_stores_once(worker, (n - 1) as nat);
        assert(seq![worker][0] == worker);
        assert(holds(seq![worker], worker.spec_identifier()));
    }
}

/// Lookup finds what was registered: once a worker has been offered, the
/// worker found under its name bears that name, and it is the offered
/// worker itself where the offer was accepted.
pub proof fn lemma_lookup_after_register(entries: Seq<WorkerInstance>, worker: WorkerInstance)
    requires
        unique_identifiers(entries),
    ensures
        found(after_register(entries, worker), worker.spec_identifier()).is_some(),
        found(after_register(entries, worker), worker.spec_identifier()).unwrap().spec_identifier()
            == worker.spec_identifier(),
        register_outcome(entries, worker).is_ok() ==> found(
            after_register(entries, worker),
            worker.spec_identifier(),
        ) == Some(worker),
{
    lemma_register_keeps_unique(entries, worker);
    if !holds(entries, worker.spec_identifier()) {
        let next = entries.push(worker);
        assert(next[entries.len() as int] == worker);
        lemma_found_is_the_match(next, worker.spec_identifier(), entries.len() as int);
    }
}

/// Lookup finds nothing under a name that was never registered: a name is
/// held after the attempts only if it was held before them or one of the
/// attempts offered a worker of that name.
pub proof fn lemma_held_was_registered(
    entries: Seq<WorkerInstance>,
    attempts: Seq<Attempt>,
    id: Seq<char>,
)
    requires
        !holds(entries, id),
        forall|k: int|
            0 <= k < attempts.len() && (#[trigger] attempts[k]).is_some()
                ==> attempts[k].unwrap().spec_identifier() != id,
    ensures
        !holds(after_attempts(entries, attempts), id),
        found(after_attempts(entries, attempts), id).is_none(),
    decreases attempts.len(),
{
    if attempts.len() > 0 {
        let before = attempts.drop_last();
        assert forall|k: int| 0 <= k < before.len() && (#[trigger] before[k]).is_some()
            implies before[k].unwrap().spec_identifier() != id by {
            assert(before[k] == attempts[k]);
        }
        lemma_held_was_registered(entries, before, id);
        let held = after_attempts(entries, before);
        if let Some(worker) = attempts.last() {
            assert(attempts[attempts.len() - 1].is_some());
            if !holds(held, worker.spec_identifier()) {
                let next = held.push(worker);
                if holds(next, id) {
                    let i = choose|i: int|
                        0 <= i < next.len() && (#[trigger] next[i]).spec_identifier() == id;
                    if i < held.len() {
                        assert(next[i] == held[i]);
                    }
                }
            }
        }
    }
}

/// Every worker that an attempt offered is held afterwards under its name.
pub proof fn lemma_attempted_is_held(
    entries: Seq<WorkerInstance>,
    attempts: Seq<Attempt>,
    k: int,
)
    requires
        unique_identifiers(entries),
        0 <= k < attempts.len(),
        attempts[k].is_some(),
    ensures
        holds(after_attempts(entries, attempts), attempts[k].unwrap().spec_identifier()),
    decreases attempts.len(),
{
    let before = attempts.drop_last();
    let held = after_attempts(entries, before);
    let id = attempts[k].unwrap().spec_identifier();
    lemma_attempts_keep_unique(entries, before);
    if k == attempts.len() - 1 {
        lemma_register_keeps_unique(held, attempts[k].unwrap());
    } else {
        assert(before[k] == attempts[k]);
        lemma_attempted_is_held(entries, before, k);
        if let Some(worker) = attempts.last() {
            lemma_register_keeps_entries(held, worker, id);
        }
    }
}

/// After bootstrap on an empty registry, exactly the echo worker and the
/// register worker are held, and both attempts succeeded.
pub proof fn lemma_bootstrap_of_empty()
    ensures
        after_attempts(Seq::empty(), known_workers()) == seq![
            WorkerInstance::Echo(EchoWorker {  }),
            WorkerInstance::Register(RegisterWorker {  }),
        ],
        attempt_outcomes(Seq::empty(), known_workers()) == seq![
            Ok::<(), RegistryError>(()),
            Ok::<(), RegistryError>(()),
        ],
{
    lemma_worker_names();
    let empty = Seq::<WorkerInstance>::empty();
    let echo = WorkerInstance::Echo(EchoWorker {  });
    let register = WorkerInstance::Register(RegisterWorker {  });
    let both = known_workers();
    let first = both.drop_last();
    assert(first =~= seq![Some(echo)]);
    assert(first.drop_last() =~= Seq::<Attempt>::empty());
    assert(after_attempts(empty, first.drop_last()) == empty);
    assert(!holds(empty, echo.spec_identifier()));
    assert(after_attempts(empty, first) =~= seq![echo]);
    assert(!holds(seq![echo], register.spec_identifier())) by {
        if holds(seq![echo], register.spec_identifier()) {
            let i = choose|i: int|
                0 <= i < seq![echo].len() && (#[trigger] seq![echo][i]).spec_identifier()
                    == register.spec_identifier();
            assert(seq![echo][i] == echo);
        }
    }
    assert(after_attempts(empty, both) =~= seq![echo, register]);
    assert(both.take(0) =~= Seq::<Attempt>::empty());
    assert(both.take(1) =~= first);
    assert(attempt_outcomes(empty, both) =~= seq![
        Ok::<(), RegistryError>(()),
        Ok::<(), RegistryError>(()),
    ]);
}

/// Wherever the echo worker is registered, a request to it is answered
/// with its own payload, byte for byte.
pub proof fn lemma_echo_round_trip(entries: Seq<WorkerInstance>, payload: Seq<u8>)
    requires
        holds(entries, echo_name()),
    ensures
        dispatched(entries, echo_name(), payload) == Ok::<Seq<u8>, DispatchError>(payload),
{
    lemma_worker_names();
    let at = choose|i: int|
        0 <= i < entries.len() && (#[trigger] entries[i]).spec_identifier() == echo_name();
    assert(entries[at] is Echo);
}

/// A request that names no registered worker is answered with
/// `WorkerNotFound`, whatever its payload.
pub proof fn lemma_unknown_worker(entries: Seq<WorkerInstance>, id: Seq<char>, payload: Seq<u8>)
    requires
        !holds(entries, id),
    ensures
        dispatched(entries, id, payload) == Err::<Seq<u8>, DispatchError>(
            DispatchError::WorkerNotFound,
        ),
{
}

/// A worker's failure crosses the boundary as the error value that wraps
/// it. The answer to a request depends on the registry and on that request
/// alone, so no other request's answer changes with it.
pub proof fn lemma_fault_is_contained(
    entries: Seq<WorkerInstance>,
    id: Seq<char>,
    payload: Seq<u8>,
    worker: WorkerInstance,
    fault: WorkerError,
)
    requires
        found(entries, id) == Some(worker),
        worker.spec_invoke(payload) == Err::<Seq<u8>, WorkerError>(fault),
    ensures
        dispatched(entries, id, payload) == Err::<Seq<u8>, DispatchError>(
            DispatchError::WorkerFailed(fault),
        ),
{
}

/// The register worker turns an empty record away and acknowledges every
/// other, wherever it is registered.
pub proof fn lemma_register_worker_answers(entries: Seq<WorkerInstance>, payload: Seq<u8>)
    requires
        holds(entries, register_name()),
    ensures
        payload.len() == 0 ==> dispatched(entries, register_name(), payload) == Err::<
            Seq<u8>,
            DispatchError,
        >(DispatchError::WorkerFailed(WorkerError::MalformedInput)),
        payload.len() > 0 ==> dispatched(entries, register_name(), payload) == Ok::<
            Seq<u8>,
            DispatchError,
        >(Seq::empty()),
{
    lemma_worker_names();
    let at = choose|i: int|
        0 <= i < entries.len() && (#[trigger] entries[i]).spec_identifier() == register_name();
    assert(entries[at] is Register);
}

} // verus!
