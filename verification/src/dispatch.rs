//! Routing of an invocation request to the worker that it names.

use vstd::prelude::*;
use crate::registry::{found, holds, WorkerRegistry};
use crate::worker::{well_formed_name, WorkerContract, WorkerError, WorkerIdentifier, WorkerInstance};

verus! {

/// Why a request got no success payload.
#[derive(Clone, Copy, Debug, PartialEq, Eq, Structural)]
pub enum DispatchError {
    /// No worker is registered under the requested identifier.
    WorkerNotFound,
    /// The worker ran and failed.
    WorkerFailed(WorkerError),
}

/// A request from outside the boundary: which worker, and what to hand it.
#[derive(Clone, Debug, PartialEq, Eq)]
pub struct InvocationRequest {
    pub identifier: WorkerIdentifier,
    pub payload: Vec<u8>,
}

impl InvocationRequest {
    /// A request for the worker named `identifier`, with `payload`.
    pub fn new(identifier: WorkerIdentifier, payload: Vec<u8>) -> (request: Self)
        ensures
            request.identifier == identifier,
            request.payload == payload,
    {
        InvocationRequest { identifier, payload }
    }
}

/// The answer that crosses the boundary: a payload or an error, never a fault.
#[derive(Clone, Debug, PartialEq, Eq)]
pub enum InvocationResult {
    Success(Vec<u8>),
    Error(DispatchError),
}

impl View for InvocationResult {
    type V = Result<Seq<u8>, DispatchError>;

    open spec fn view(&self) -> Result<Seq<u8>, DispatchError> {
        match self {
            InvocationResult::Success(payload) => Ok(payload@),
            InvocationResult::Error(e) => Err(*e),
        }
    }
}

impl InvocationResult {
    /// Whether this is a success.
    pub fn is_success(&self) -> (yes: bool)
        ensures
            yes == self@.is_ok(),
    {
        match self {
            InvocationResult::Success(_) => true,
            InvocationResult::Error(_) => false,
        }
    }
}

/// A worker's answer as it crosses the boundary.
pub open spec fn translated(answer: Result<Seq<u8>, WorkerError>) -> Result<Seq<u8>, DispatchError> {
    match answer {
        Ok(payload) => Ok(payload),
        Err(e) => Err(DispatchError::WorkerFailed(e)),
    }
}

/// What a registry holding `entries` answers to a request for the worker
/// named `id` with `payload`.
pub open spec fn dispatched(entries: Seq<WorkerInstance>, id: Seq<char>, payload: Seq<u8>) -> Result<
    Seq<u8>,
    DispatchError,
> {
    match found(entries, id) {
        Some(worker) => translated(worker.spec_invoke(payload)),
        None => Err(DispatchError::WorkerNotFound),
    }
}

/// Turns a worker's answer into the result that crosses the boundary.
pub fn translate(answer: Result<Vec<u8>, WorkerError>) -> (result: InvocationResult)
    ensures
        result@ == translated(crate::worker::answer_view(answer)),
{
    match answer {
        Ok(payload) => InvocationResult::Success(payload),
        Err(e) => InvocationResult::Error(DispatchError::WorkerFailed(e)),
    }
}

/// The dispatcher. It keeps nothing between requests; it reads the registry
/// that it was given and never changes it.
pub struct Dispatcher<'a> {
    registry: &'a WorkerRegistry,
}

impl<'a> Dispatcher<'a> {
    /// The registry that requests are resolved against.
    pub closed spec fn registry(&self) -> WorkerRegistry {
        *self.registry
    }

    #[verifier::type_invariant]
    closed spec fn inv(&self) -> bool {
        self.registry.wf()
    }

    /// A dispatcher over `registry`.
    pub fn new(registry: &'a WorkerRegistry) -> (dispatcher: Self)
        requires
            registry.wf(),
        ensures
            dispatcher.registry() == *registry,
    {
        Dispatcher { registry }
    }

    /// Resolves the request's identifier and runs the worker found under it
    /// on the request's payload.
    pub fn dispatch(&self, request: InvocationRequest) -> (result: InvocationResult)
        ensures
            result@ == dispatched(
                self.registry().entries(),
                request.identifier@,
                request.payload@,
            ),
    {
        proof {
            use_type_invariant(self);
        }
        if !request.identifier.is_well_formed() {
            proof {
                lemma_ill_formed_is_absent(self.registry().entries(), request.identifier@);
            }
            return InvocationResult::Error(DispatchError::WorkerNotFound);
        }
        match self.registry.lookup(&request.identifier) {
            None => InvocationResult::Error(DispatchError::WorkerNotFound),
            Some(worker) => translate(worker.invoke(&request.payload)),
        }
    }
}

/// A name that is not well formed names no registered worker.
pub proof fn lemma_ill_formed_is_absent(entries: Seq<WorkerInstance>, id: Seq<char>)
    requires
        crate::registry::well_formed_identifiers(entries),
        !well_formed_name(id),
    ensures
        !holds(entries, id),
        found(entries, id).is_none(),
{
}

} // verus!
