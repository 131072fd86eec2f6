//! The capability interface of a worker, and the closed set of workers.

use vstd::prelude::*;

verus! {

/// The name under which a worker is registered and reached.
#[derive(Clone, Debug, PartialEq, Eq, Hash)]
pub struct WorkerIdentifier {
    name: String,
}

impl View for WorkerIdentifier {
    type V = Seq<char>;

    closed spec fn view(&self) -> Seq<char> {
        self.name@
    }
}

/// A name can identify a worker only if it is not empty.
pub open spec fn well_formed_name(name: Seq<char>) -> bool {
    name.len() > 0
}

impl WorkerIdentifier {
    /// The identifier that spells `name`.
    pub fn new(name: &str) -> (id: Self)
        ensures
            id@ == name@,
    {
        WorkerIdentifier { name: name.to_string() }
    }

    /// The name that this identifier spells.
    pub fn as_str(&self) -> (name: &str)
        ensures
            name@ == self@,
    {
        self.name.as_str()
    }

    /// Whether two identifiers spell the same name.
    pub fn same_as(&self, other: &WorkerIdentifier) -> (same: bool)
        ensures
            same == (self@ == other@),
    {
        self.name == other.name
    }

    /// Whether this identifier can name a worker at all.
    pub fn is_well_formed(&self) -> (ok: bool)
        ensures
            ok == well_formed_name(self@),
    {
        !self.name.as_str().is_empty()
    }
}

/// A failure inside a worker, handed back as a value.
#[derive(Clone, Copy, Debug, PartialEq, Eq, Structural)]
pub enum WorkerError {
    /// The payload is not one that the worker can act on.
    MalformedInput,
}

/// The name of the echo worker.
pub open spec fn echo_name() -> Seq<char> {
    "echo"@
}

/// The name of the register worker.
pub open spec fn register_name() -> Seq<char> {
    "register"@
}

/// The two names are well formed and differ.
pub proof fn lemma_worker_names()
    ensures
        well_formed_name(echo_name()),
        well_formed_name(register_name()),
        echo_name() != register_name(),
{
    reveal_strlit("echo");
    reveal_strlit("register");
}

/// What every worker offers: a stable identity, and an invocation that
/// answers a payload with a payload or with an error value.
pub trait WorkerContract {
    /// The worker's name. It depends on the worker alone, so it never changes.
    spec fn spec_identifier(&self) -> Seq<char>;

    /// What the worker answers to a payload.
    spec fn spec_invoke(&self, payload: Seq<u8>) -> Result<Seq<u8>, WorkerError>;

    /// The worker's identifier.
    fn identifier(&self) -> (id: WorkerIdentifier)
        ensures
            id@ == self.spec_identifier(),
            well_formed_name(id@),
    ;

    /// Runs the worker on `payload`. Every failure comes back as an error.
    fn invoke(&self, payload: &Vec<u8>) -> (answer: Result<Vec<u8>, WorkerError>)
        ensures
            answer_view(answer) == self.spec_invoke(payload@),
    ;
}

/// A worker's answer with its payload taken by its view.
pub open spec fn answer_view(answer: Result<Vec<u8>, WorkerError>) -> Result<Seq<u8>, WorkerError> {
    match answer {
        Ok(payload) => Ok(payload@),
        Err(e) => Err(e),
    }
}

/// A copy of `payload`, byte for byte.
pub fn copy_payload(payload: &Vec<u8>) -> (copy: Vec<u8>)
    ensures
        copy@ == payload@,
{
    let mut copy: Vec<u8> = Vec::new();
    let mut i: usize = 0;
    while i < payload.len()
        invariant
            i <= payload.len(),
            copy@ == payload@.subrange(0, i as int),
        decreases payload.len() - i,
    {
        copy.push(payload[i]);
        i += 1;
        assert(copy@ =~= payload@.subrange(0, i as int));
    }
    assert(payload@.subrange(0, payload.len() as int) =~= payload@);
    copy
}

/// The worker that answers every payload with that payload.
#[derive(Clone, Copy, Debug, PartialEq, Eq, Structural)]
pub struct EchoWorker {}

impl EchoWorker {
    /// The echo worker.
    pub fn new() -> (worker: Self)
        ensures
            worker == (EchoWorker {  }),
            worker.spec_identifier() == echo_name(),
    {
        EchoWorker {  }
    }
}

impl WorkerContract for EchoWorker {
    open spec fn spec_identifier(&self) -> Seq<char> {
        echo_name()
    }

    open spec fn spec_invoke(&self, payload: Seq<u8>) -> Result<Seq<u8>, WorkerError> {
        Ok(payload)
    }

    fn identifier(&self) -> (id: WorkerIdentifier) {
        proof {
            lemma_worker_names();
        }
        WorkerIdentifier::new("echo")
    }

    fn invoke(&self, payload: &Vec<u8>) -> (answer: Result<Vec<u8>, WorkerError>) {
        Ok(copy_payload(payload))
    }
}

/// The worker that takes a registration record. A record is any payload
/// that is not empty; it is acknowledged with an empty payload.
#[derive(Clone, Copy, Debug, PartialEq, Eq, Structural)]
pub struct RegisterWorker {}

impl RegisterWorker {
    /// The register worker.
    pub fn new() -> (worker: Self)
        ensures
            worker == (RegisterWorker {  }),
            worker.spec_identifier() == register_name(),
    {
        RegisterWorker {  }
    }
}

impl WorkerContract for RegisterWorker {
    open spec fn spec_identifier(&self) -> Seq<char> {
        register_name()
    }

    open spec fn spec_invoke(&self, payload: Seq<u8>) -> Result<Seq<u8>, WorkerError> {
        if payload.len() == 0 {
            Err(WorkerError::MalformedInput)
        } else {
            Ok(Seq::empty())
        }
    }

    fn identifier(&self) -> (id: WorkerIdentifier) {
        proof {
            lemma_worker_names();
        }
        WorkerIdentifier::new("register")
    }

    fn invoke(&self, payload: &Vec<u8>) -> (answer: Result<Vec<u8>, WorkerError>) {
        if payload.len() == 0 {
            Err(WorkerError::MalformedInput)
        } else {
            Ok(Vec::new())
        }
    }
}

/// A worker of the closed set, as the registry holds it.
#[derive(Clone, Copy, Debug, PartialEq, Eq, Structural)]
pub enum WorkerInstance {
    Echo(EchoWorker),
    Register(RegisterWorker),
}

impl WorkerContract for WorkerInstance {
    open spec fn spec_identifier(&self) -> Seq<char> {
        match self {
            WorkerInstance::Echo(w) => w.spec_identifier(),
            WorkerInstance::Register(w) => w.spec_identifier(),
        }
    }

    open spec fn spec_invoke(&self, payload: Seq<u8>) -> Result<Seq<u8>, WorkerError> {
        match self {
            WorkerInstance::Echo(w) => w.spec_invoke(payload),
            WorkerInstance::Register(w) => w.spec_invoke(payload),
        }
    }

    fn identifier(&self) -> (id: WorkerIdentifier) {
        match self {
            WorkerInstance::Echo(w) => w.identifier(),
            WorkerInstance::Register(w) => w.identifier(),
        }
    }

    fn invoke(&self, payload: &Vec<u8>) -> (answer: Result<Vec<u8>, WorkerError>) {
        match self {
            WorkerInstance::Echo(w) => w.invoke(payload),
            WorkerInstance::Register(w) => w.invoke(payload),
        }
    }
}

} // verus!
