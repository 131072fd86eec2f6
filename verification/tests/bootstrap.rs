use worker_registry::bootstrap::{failed_attempts, register_each, register_trusted_worker_statically};
use worker_registry::registry::{RegistryError, WorkerRegistry};
use worker_registry::worker::{EchoWorker, RegisterWorker, WorkerIdentifier, WorkerInstance};

#[test]
fn bootstrap_registers_every_known_worker_once() {
    let mut registry = WorkerRegistry::new();
    let outcomes = register_trusted_worker_statically(&mut registry);
    assert_eq!(outcomes, vec![Ok(()), Ok(())]);
    assert_eq!(failed_attempts(&outcomes), 0);
    assert_eq!(registry.len(), 2);
    assert!(registry.contains(&WorkerIdentifier::new("echo")));
    assert!(registry.contains(&WorkerIdentifier::new("register")));
}

#[test]
fn bootstrap_ten_times_leaves_one_instance_of_each() {
    let mut registry = WorkerRegistry::new();
    let mut failures = 0;
    for _ in 0..10 {
        let outcomes = register_trusted_worker_statically(&mut registry);
        failures += failed_attempts(&outcomes);
    }
    assert_eq!(registry.len(), 2);
    assert_eq!(failures, 18);
}

#[test]
fn bootstrap_over_a_held_worker_reports_the_duplicate() {
    let mut registry = WorkerRegistry::new();
    assert_eq!(registry.register(WorkerInstance::Register(RegisterWorker::new())), Ok(()));
    let outcomes = register_trusted_worker_statically(&mut registry);
    assert_eq!(outcomes, vec![Ok(()), Err(RegistryError::DuplicateIdentifier)]);
    assert_eq!(registry.len(), 2);
}

#[test]
fn same_type_ten_times_gives_nine_duplicates() {
    let mut registry = WorkerRegistry::new();
    let attempts = vec![Some(WorkerInstance::Echo(EchoWorker::new())); 10];
    let outcomes = register_each(&mut registry, &attempts);
    assert_eq!(outcomes.len(), 10);
    assert_eq!(outcomes[0], Ok(()));
    for outcome in &outcomes[1..] {
        assert_eq!(*outcome, Err(RegistryError::DuplicateIdentifier));
    }
    assert_eq!(failed_attempts(&outcomes), 9);
    assert_eq!(registry.len(), 1);
}

#[test]
fn failed_construction_does_not_stop_the_others() {
    let mut registry = WorkerRegistry::new();
    let attempts = vec![
        None,
        Some(WorkerInstance::Echo(EchoWorker::new())),
        None,
        Some(WorkerInstance::Register(RegisterWorker::new())),
        Some(WorkerInstance::Echo(EchoWorker::new())),
    ];
    let outcomes = register_each(&mut registry, &attempts);
    assert_eq!(
        outcomes,
        vec![
            Err(RegistryError::ConstructionFailed),
            Ok(()),
            Err(RegistryError::ConstructionFailed),
            Ok(()),
            Err(RegistryError::DuplicateIdentifier),
        ]
    );
    assert_eq!(failed_attempts(&outcomes), 3);
    assert_eq!(registry.len(), 2);
}

#[test]
fn no_attempts_change_nothing() {
    let mut registry = WorkerRegistry::new();
    let outcomes = register_each(&mut registry, &vec![]);
    assert!(outcomes.is_empty());
    assert_eq!(failed_attempts(&outcomes), 0);
    assert!(registry.is_empty());
}
