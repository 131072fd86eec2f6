use worker_registry::registry::{RegistryError, WorkerRegistry};
use worker_registry::worker::{
    EchoWorker, RegisterWorker, WorkerContract, WorkerError, WorkerIdentifier, WorkerInstance,
};

fn echo() -> WorkerInstance {
    WorkerInstance::Echo(EchoWorker::new())
}

fn register() -> WorkerInstance {
    WorkerInstance::Register(RegisterWorker::new())
}

#[test]
fn new_registry_is_empty() {
    let registry = WorkerRegistry::new();
    assert_eq!(registry.len(), 0);
    assert!(registry.is_empty());
    assert!(!registry.contains(&WorkerIdentifier::new("echo")));
    assert!(registry.lookup(&WorkerIdentifier::new("echo")).is_none());
}

#[test]
fn register_stores_a_new_worker() {
    let mut registry = WorkerRegistry::new();
    assert_eq!(registry.register(echo()), Ok(()));
    assert_eq!(registry.len(), 1);
    assert!(!registry.is_empty());
    assert!(registry.contains(&WorkerIdentifier::new("echo")));
    assert!(!registry.contains(&WorkerIdentifier::new("register")));
}

#[test]
fn register_rejects_a_duplicate_and_keeps_the_registry() {
    let mut registry = WorkerRegistry::new();
    assert_eq!(registry.register(echo()), Ok(()));
    assert_eq!(registry.register(register()), Ok(()));
    assert_eq!(registry.register(echo()), Err(RegistryError::DuplicateIdentifier));
    assert_eq!(registry.register(register()), Err(RegistryError::DuplicateIdentifier));
    assert_eq!(registry.len(), 2);
    assert_eq!(registry.lookup(&WorkerIdentifier::new("echo")), Some(&echo()));
    assert_eq!(registry.lookup(&WorkerIdentifier::new("register")), Some(&register()));
}

#[test]
fn same_worker_ten_times_is_stored_once() {
    let mut registry = WorkerRegistry::new();
    let mut accepted = 0;
    let mut duplicates = 0;
    for _ in 0..10 {
        match registry.register(echo()) {
            Ok(()) => accepted += 1,
            Err(RegistryError::DuplicateIdentifier) => duplicates += 1,
            Err(other) => panic!("unexpected outcome {:?}", other),
        }
    }
    assert_eq!(accepted, 1);
    assert_eq!(duplicates, 9);
    assert_eq!(registry.len(), 1);
}

#[test]
fn lookup_returns_the_worker_with_the_queried_identifier() {
    let mut registry = WorkerRegistry::new();
    assert_eq!(registry.register(register()), Ok(()));
    assert_eq!(registry.register(echo()), Ok(()));
    for name in ["echo", "register"] {
        let id = WorkerIdentifier::new(name);
        let worker = registry.lookup(&id).expect("registered");
        assert_eq!(worker.identifier(), id);
        assert_eq!(worker.identifier().as_str(), name);
    }
}

#[test]
fn lookup_of_an_unregistered_identifier_is_absent() {
    let mut registry = WorkerRegistry::new();
    assert_eq!(registry.register(echo()), Ok(()));
    assert!(registry.lookup(&WorkerIdentifier::new("register")).is_none());
    assert!(registry.lookup(&WorkerIdentifier::new("Echo")).is_none());
    assert!(registry.lookup(&WorkerIdentifier::new("echo ")).is_none());
    assert!(registry.lookup(&WorkerIdentifier::new("")).is_none());
}

#[test]
fn identifiers_compare_by_name() {
    let a = WorkerIdentifier::new("echo");
    let b = WorkerIdentifier::new("echo");
    let c = WorkerIdentifier::new("register");
    assert!(a.same_as(&b));
    assert!(!a.same_as(&c));
    assert_eq!(a.as_str(), "echo");
    assert!(a.is_well_formed());
    assert!(!WorkerIdentifier::new("").is_well_formed());
}

#[test]
fn worker_identifiers_are_stable() {
    let worker = echo();
    assert_eq!(worker.identifier(), worker.identifier());
    assert_eq!(EchoWorker::new().identifier().as_str(), "echo");
    assert_eq!(RegisterWorker::new().identifier().as_str(), "register");
}

#[test]
fn echo_worker_returns_its_input() {
    let worker = EchoWorker::new();
    assert_eq!(worker.invoke(&vec![1, 2, 3, 0, 255]), Ok(vec![1, 2, 3, 0, 255]));
    assert_eq!(worker.invoke(&vec![]), Ok(vec![]));
}

#[test]
fn register_worker_rejects_an_empty_record() {
    let worker = RegisterWorker::new();
    assert_eq!(worker.invoke(&vec![]), Err(WorkerError::MalformedInput));
    assert_eq!(worker.invoke(&vec![42]), Ok(vec![]));
    assert_eq!(register().invoke(&vec![]), Err(WorkerError::MalformedInput));
}

#[test]
fn lookup_does_not_depend_on_registration_order() {
    let mut first = WorkerRegistry::new();
    assert_eq!(first.register(echo()), Ok(()));
    assert_eq!(first.register(register()), Ok(()));
    let mut second = WorkerRegistry::new();
    assert_eq!(second.register(register()), Ok(()));
    assert_eq!(second.register(echo()), Ok(()));
    for name in ["echo", "register", "other", ""] {
        let id = WorkerIdentifier::new(name);
        assert_eq!(first.lookup(&id), second.lookup(&id));
        assert_eq!(first.contains(&id), second.contains(&id));
    }
}
