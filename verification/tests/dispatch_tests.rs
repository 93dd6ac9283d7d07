use auction_stage::dispatch::{AdmitDecision, Dispatcher};

#[test]
fn admits_up_to_the_limit_and_no_further() {
    // Three jobs arrive at a gate of capacity 2: the instrumented count
    // of jobs inside the heavy chain never exceeds the limit.
    let mut gate = Dispatcher::new(2);
    assert_eq!(gate.try_admit("r1"), AdmitDecision::Admitted);
    assert_eq!(gate.try_admit("r2"), AdmitDecision::Admitted);
    assert_eq!(gate.try_admit("r3"), AdmitDecision::Full);
    assert_eq!(gate.active.len(), 2);
}

#[test]
fn a_freed_slot_admits_the_waiting_job() {
    let mut gate = Dispatcher::new(2);
    assert_eq!(gate.try_admit("r1"), AdmitDecision::Admitted);
    assert_eq!(gate.try_admit("r2"), AdmitDecision::Admitted);
    assert_eq!(gate.try_admit("r3"), AdmitDecision::Full);
    gate.finish("r1");
    assert_eq!(gate.active.len(), 1);
    assert_eq!(gate.try_admit("r3"), AdmitDecision::Admitted);
    assert_eq!(gate.active.len(), 2);
}

#[test]
fn an_in_flight_identifier_is_a_conflict() {
    let mut gate = Dispatcher::new(2);
    assert_eq!(gate.try_admit("r1"), AdmitDecision::Admitted);
    assert_eq!(gate.try_admit("r1"), AdmitDecision::Conflict);
    assert_eq!(gate.active.len(), 1);
    gate.finish("r1");
    assert_eq!(gate.try_admit("r1"), AdmitDecision::Admitted);
}

#[test]
fn finishing_an_unknown_identifier_changes_nothing() {
    let mut gate = Dispatcher::new(2);
    assert_eq!(gate.try_admit("r1"), AdmitDecision::Admitted);
    gate.finish("r9");
    assert_eq!(gate.active.len(), 1);
    assert!(gate.contains_active("r1"));
    assert!(!gate.contains_active("r9"));
}
