//! The table of workers: at most one worker under each identifier.

use vstd::prelude::*;
use crate::laws::lemma_register_updates_table;
use crate::worker::{well_formed_name, WorkerContract, WorkerIdentifier, WorkerInstance};

verus! {

/// Why a worker did not enter the registry.
#[derive(Clone, Copy, Debug, PartialEq, Eq, Structural)]
pub enum RegistryError {
    /// A worker is already registered under the same identifier.
    DuplicateIdentifier,
    /// The worker could not be constructed, so there was nothing to register.
    ConstructionFailed,
}

/// Whether some worker among `entries` bears the name `id`.
pub open spec fn holds(entries: Seq<WorkerInstance>, id: Seq<char>) -> bool {
    exists|i: int| 0 <= i < entries.len() && (#[trigger] entries[i]).spec_identifier() == id
}

/// The worker among `entries` that bears the name `id`, if there is one.
pub open spec fn found(entries: Seq<WorkerInstance>, id: Seq<char>) -> Option<WorkerInstance> {
    if holds(entries, id) {
        Some(
            entries[choose|i: int|
                0 <= i < entries.len() && (#[trigger] entries[i]).spec_identifier() == id],
        )
    } else {
        None
    }
}

/// No two workers among `entries` bear the same name.
pub open spec fn unique_identifiers(entries: Seq<WorkerInstance>) -> bool {
    forall|i: int, j: int|
        0 <= i < j < entries.len() ==> (#[trigger] entries[i]).spec_identifier() != (
        #[trigger] entries[j]).spec_identifier()
}

/// Every worker among `entries` bears a well-formed name.
pub open spec fn well_formed_identifiers(entries: Seq<WorkerInstance>) -> bool {
    forall|i: int|
        0 <= i < entries.len() ==> well_formed_name((#[trigger] entries[i]).spec_identifier())
}

/// What a registry holds once `worker` has been offered to it: the worker
/// comes last if its name is new, and is left out otherwise.
pub open spec fn after_register(entries: Seq<WorkerInstance>, worker: WorkerInstance) -> Seq<
    WorkerInstance,
> {
    if holds(entries, worker.spec_identifier()) {
        entries
    } else {
        entries.push(worker)
    }
}

/// What the registry answers when `worker` is offered to it.
pub open spec fn register_outcome(entries: Seq<WorkerInstance>, worker: WorkerInstance) -> Result<
    (),
    RegistryError,
> {
    if holds(entries, worker.spec_identifier()) {
        Err(RegistryError::DuplicateIdentifier)
    } else {
        Ok(())
    }
}

/// The mapping that `entries` stand for: each held name, and the worker
/// held under it. The order of the entries plays no part in it.
pub open spec fn table_of(entries: Seq<WorkerInstance>) -> Map<Seq<char>, WorkerInstance> {
    Map::new(|id: Seq<char>| holds(entries, id), |id: Seq<char>| found(entries, id).unwrap())
}

/// The registry. It owns its workers, in the order in which they entered,
/// and never removes or replaces one.
pub struct WorkerRegistry {
    workers: Vec<WorkerInstance>,
}

impl View for WorkerRegistry {
    type V = Map<Seq<char>, WorkerInstance>;

    /// The registry as a mapping from names to workers.
    open spec fn view(&self) -> Map<Seq<char>, WorkerInstance> {
        table_of(self.entries())
    }
}

impl WorkerRegistry {
    /// The workers held, oldest first.
    pub closed spec fn entries(&self) -> Seq<WorkerInstance> {
        self.workers@
    }

    /// The registry's invariant: names are well formed and none occurs twice.
    pub open spec fn wf(&self) -> bool {
        &&& unique_identifiers(self.entries())
        &&& well_formed_identifiers(self.entries())
    }

    /// An empty registry.
    pub fn new() -> (registry: Self)
        ensures
            registry.entries() == Seq::<WorkerInstance>::empty(),
            registry.wf(),
    {
        WorkerRegistry { workers: Vec::new() }
    }

    /// Where the worker named `id` stands, if it is held.
    fn position(&self, id: &WorkerIdentifier) -> (at: Option<usize>)
        ensures
            match at {
                Some(i) => i < self.entries().len() && self.entries()[i as int].spec_identifier()
                    == id@,
                None => !holds(self.entries(), id@),
            },
    {
        let mut i: usize = 0;
        while i < self.workers.len()
            invariant
                i <= self.workers.len(),
                forall|k: int| 0 <= k < i ==> (#[trigger] self.workers@[k]).spec_identifier() != id@,
            decreases self.workers.len() - i,
        {
            let held = self.workers[i].identifier();
            if held.same_as(id) {
                return Some(i);
            }
            i += 1;
        }
        None
    }

    /// Takes `worker` in under its identifier, unless a worker is already
    /// held under it: then the registry stays as it was and `worker` is
    /// dropped.
    pub fn register(&mut self, worker: WorkerInstance) -> (outcome: Result<(), RegistryError>)
        requires
            old(self).wf(),
        ensures
            final(self).entries() == after_register(old(self).entries(), worker),
            outcome == register_outcome(old(self).entries(), worker),
            final(self).wf(),
            outcome.is_ok() <==> !old(self)@.contains_key(worker.spec_identifier()),
            outcome.is_ok() ==> final(self)@ == old(self)@.insert(
                worker.spec_identifier(),
                worker,
            ),
            outcome.is_err() ==> final(self)@ == old(self)@,
    {
        proof {
            lemma_register_updates_table(self.entries(), worker);
        }
        let id = worker.identifier();
        match self.position(&id) {
            Some(_) => Err(RegistryError::DuplicateIdentifier),
            None => {
                self.workers.push(worker);
                Ok(())
            },
        }
    }

    /// A borrow of the worker registered under `id`; `None` if there is none.
    pub fn lookup(&self, id: &WorkerIdentifier) -> (handle: Option<&WorkerInstance>)
        requires
            self.wf(),
        ensures
            match handle {
                Some(worker) => found(self.entries(), id@) == Some(*worker),
                None => found(self.entries(), id@).is_none(),
            },
            handle.is_some() ==> handle.unwrap().spec_identifier() == id@,
            handle.is_some() <==> self@.contains_key(id@),
            handle.is_some() ==> *handle.unwrap() == self@[id@],
    {
        match self.position(id) {
            Some(i) => {
                proof {
                    lemma_found_is_the_match(self.entries(), id@, i as int);
                }
                Some(&self.workers[i])
            },
            None => None,
        }
    }

    /// How many workers are registered.
    pub fn len(&self) -> (n: usize)
        ensures
            n == self.entries().len(),
    {
        self.workers.len()
    }

    /// Whether no worker is registered.
    pub fn is_empty(&self) -> (empty: bool)
        ensures
            empty == (self.entries().len() == 0),
    {
        self.workers.len() == 0
    }

    /// Whether a worker is registered under `id`.
    pub fn contains(&self, id: &WorkerIdentifier) -> (held: bool)
        ensures
            held == holds(self.entries(), id@),
            held == self@.contains_key(id@),
    {
        self.position(id).is_some()
    }
}

/// Among workers with unique names, the one found under a name is the one
/// that stands wherever that name stands.
pub proof fn lemma_found_is_the_match(entries: Seq<WorkerInstance>, id: Seq<char>, at: int)
    requires
        unique_identifiers(entries),
        0 <= at < entries.len(),
        entries[at].spec_identifier() == id,
    ensures
        found(entries, id) == Some(entries[at]),
{
    let i = choose|i: int|
        0 <= i < entries.len() && (#[trigger] entries[i]).spec_identifier() == id;
    assert(i == at) by {
        if i < at {
            assert(entries[i].spec_identifier() != entries[at].spec_identifier());
        }
        if at < i {
            assert(entries[at].spec_identifier() != entries[i].spec_identifier());
        }
    }
}

} // verus!
