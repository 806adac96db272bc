use openedge::loader::ModuleSpecifier;
use openedge::store::Store;
use openedge::workers::{IsolateState, Worker, Workers};

fn registry() -> Store {
    let mut store = Store::new();
    store.register_module("hello".to_string(), ModuleSpecifier::parse("file:///hello.js".to_string()).unwrap());
    store
}

#[test]
fn take_available_port_takes_least_first() {
    let mut w = Workers::new(registry(), vec![9999, 8888, 8081]);
    assert_eq!(w.take_available_port(), Some(8081));
    assert_eq!(w.take_available_port(), Some(8888));
    assert_eq!(w.take_available_port(), Some(9999));
    assert_eq!(w.take_available_port(), None);
}

#[test]
fn take_available_port_from_empty_pool() {
    let mut w = Workers::new(registry(), vec![]);
    assert_eq!(w.take_available_port(), None);
}

#[test]
fn duplicate_ports_in_initial_pool_count_once() {
    let mut w = Workers::new(registry(), vec![8081, 8081]);
    assert_eq!(w.take_available_port(), Some(8081));
    assert_eq!(w.take_available_port(), None);
}

#[test]
fn register_then_lookup() {
    let mut w = Workers::new(registry(), vec![8081]);
    let p = w.take_available_port().unwrap();
    assert_eq!(w.get_existing_worker_port("hello"), None);
    w.register_new_running_worker("hello", Worker { port: p, state: IsolateState::Starting });
    assert_eq!(w.get_existing_worker_port("hello"), Some(8081));
    assert_eq!(w.get_existing_worker_port("goodbye"), None);
    assert_eq!(
        w.get_existing_worker("hello"),
        Some(Worker { port: 8081, state: IsolateState::Starting })
    );
}

#[test]
fn mark_ready_changes_state_only() {
    let mut w = Workers::new(registry(), vec![8081]);
    let p = w.take_available_port().unwrap();
    w.register_new_running_worker("hello", Worker { port: p, state: IsolateState::Starting });
    assert!(w.mark_ready("hello"));
    assert_eq!(w.get_existing_worker("hello"), Some(Worker { port: 8081, state: IsolateState::Ready }));
    assert!(!w.mark_ready("ghost"));
}

#[test]
fn deregister_returns_port_to_pool_and_is_idempotent() {
    let mut w = Workers::new(registry(), vec![8081]);
    let p = w.take_available_port().unwrap();
    w.register_new_running_worker("hello", Worker { port: p, state: IsolateState::Starting });
    assert_eq!(w.deregister("hello"), Some(8081));
    assert_eq!(w.get_existing_worker_port("hello"), None);
    assert_eq!(w.deregister("hello"), None);
    assert_eq!(w.take_available_port(), Some(8081));
}

#[test]
fn ports_are_conserved_over_a_sequence_of_operations() {
    // running + free + in flight stays equal to the initial pool size
    let mut w = Workers::new(registry(), vec![8081, 8082, 8083]);
    let a = w.take_available_port().unwrap();
    let b = w.take_available_port().unwrap();
    w.register_new_running_worker("hello", Worker { port: a, state: IsolateState::Starting });
    // one running, one in flight, one free
    assert_eq!(w.get_existing_worker_port("hello"), Some(8081));
    assert_eq!(b, 8082);
    w.deregister("hello");
    w.register_new_running_worker("other", Worker { port: b, state: IsolateState::Starting });
    let mut free = Vec::new();
    while let Some(p) = w.take_available_port() {
        free.push(p);
    }
    assert_eq!(free, vec![8081, 8083]);
    assert_eq!(w.get_existing_worker_port("other"), Some(8082));
}

#[test]
fn store_lookup_and_overwrite() {
    let mut store = registry();
    assert_eq!(store.hostslug_to_module("hello".to_string()).unwrap().as_str(), "file:///hello.js");
    store.register_module("hello".to_string(), ModuleSpecifier::parse("file:///other.js".to_string()).unwrap());
    assert_eq!(store.hostslug_to_module("hello".to_string()).unwrap().as_str(), "file:///other.js");
    assert!(store.hostslug_to_module("ghost".to_string()).is_err());
}
