use aether_core::messages::{DirectorCommand, ExecError};
use aether_core::router::{settle, Delivery, RoutingTable};

#[test]
fn lookup_on_empty_table_misses() {
    let t: RoutingTable<u32> = RoutingTable::new();
    assert_eq!(t.len(), 0);
    assert!(t.lookup(&"a".to_string()).is_none());
}

#[test]
fn install_then_reuse_same_mailbox() {
    let mut t: RoutingTable<u32> = RoutingTable::new();
    let id = "agent".to_string();
    assert!(t.install(id.clone(), Ok(7)).is_ok());
    assert_eq!(t.lookup(&id), Some(&7));
    assert_eq!(t.lookup(&id), Some(&7));
    assert!(t.contains(&id));
    assert_eq!(t.len(), 1);
}

#[test]
fn spawn_failure_leaves_no_entry() {
    let mut t: RoutingTable<u32> = RoutingTable::new();
    let id = "broken_agent".to_string();
    match t.install(id.clone(), Err("no such file".to_string())) {
        Err(ExecError::SpawnFailure { detail }) => assert_eq!(detail, "no such file"),
        other => panic!("unexpected {:?}", other),
    }
    assert!(!t.contains(&id));
    assert_eq!(t.len(), 0);
}

#[test]
fn notice_removes_identity() {
    let mut t: RoutingTable<u32> = RoutingTable::new();
    t.insert("a".to_string(), 1);
    t.insert("b".to_string(), 2);
    t.apply(DirectorCommand::WorkerTerminated { id: "a".to_string() });
    assert!(t.lookup(&"a".to_string()).is_none());
    assert_eq!(t.lookup(&"b".to_string()), Some(&2));
    assert_eq!(t.len(), 1);
}

#[test]
fn notice_for_unknown_identity_changes_nothing() {
    let mut t: RoutingTable<u32> = RoutingTable::new();
    t.insert("a".to_string(), 1);
    t.apply(DirectorCommand::WorkerTerminated { id: "zzz".to_string() });
    assert_eq!(t.lookup(&"a".to_string()), Some(&1));
}

#[test]
fn evicted_identity_is_cold_started_again() {
    let mut t: RoutingTable<u32> = RoutingTable::new();
    let id = "x".to_string();
    t.install(id.clone(), Ok(1)).unwrap();
    t.apply(DirectorCommand::WorkerTerminated { id: id.clone() });
    assert!(t.lookup(&id).is_none());
    t.install(id.clone(), Ok(2)).unwrap();
    assert_eq!(t.lookup(&id), Some(&2));
}

#[test]
fn racing_callers_start_one_worker() {
    let mut t: RoutingTable<u32> = RoutingTable::new();
    let id = "race".to_string();
    let mut spawned = 0;
    for caller in 0..8u32 {
        if t.lookup(&id).is_none() {
            spawned += 1;
            t.install(id.clone(), Ok(caller)).unwrap();
        }
    }
    assert_eq!(spawned, 1);
    assert_eq!(t.lookup(&id), Some(&0));
}

#[test]
fn remove_forgets_identity() {
    let mut t: RoutingTable<u32> = RoutingTable::new();
    t.insert("a".to_string(), 1);
    t.remove(&"a".to_string());
    assert!(!t.contains(&"a".to_string()));
}

#[test]
fn settle_maps_each_delivery() {
    assert_eq!(
        settle(Delivery::Answered { result: Ok("hi".to_string()) }).unwrap(),
        "hi"
    );
    assert!(matches!(
        settle(Delivery::Answered { result: Err(ExecError::ProtocolViolation) }),
        Err(ExecError::ProtocolViolation)
    ));
    assert!(matches!(settle(Delivery::Rejected), Err(ExecError::WorkerUnavailable)));
    assert!(matches!(settle(Delivery::Dropped), Err(ExecError::WorkerDroppedChannel)));
}
