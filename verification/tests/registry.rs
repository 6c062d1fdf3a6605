use reactor_sys::Event;
use reactor_sys::Interest;
use reactor_sys::OsError;
use reactor_sys::RawReadiness;
use reactor_sys::Registry;
use reactor_sys::RegistryError;
use reactor_sys::WaitOutcome;

fn rep(handle: u64, readable: bool, writable: bool) -> RawReadiness {
    RawReadiness { handle, readable, writable }
}

#[test]
fn new_registry_is_empty() {
    let reg = Registry::new();
    assert_eq!(reg.len(), 0);
    assert!(!reg.is_registered(5));
    assert_eq!(reg.registration(5), None);
}

#[test]
fn register_records_interest_and_key() {
    let mut reg = Registry::new();
    assert_eq!(reg.register(5, Interest::readable_only(), 7), Ok(()));
    assert_eq!(reg.len(), 1);
    assert!(reg.is_registered(5));
    let r = reg.registration(5).unwrap();
    assert!(r.interest.readable);
    assert!(!r.interest.writable);
    assert_eq!(r.key, 7);
    assert!(r.armed);
}

#[test]
fn register_twice_fails_and_keeps_existing_registration() {
    let mut reg = Registry::new();
    assert_eq!(reg.register(5, Interest::readable_only(), 7), Ok(()));
    let before = reg.registration(5).unwrap();
    assert_eq!(
        reg.register(5, Interest::writable_only(), 99),
        Err(RegistryError::AlreadyRegistered)
    );
    assert_eq!(reg.registration(5).unwrap(), before);
    assert_eq!(reg.len(), 1);
}

#[test]
fn modify_unregistered_fails() {
    let mut reg = Registry::new();
    assert_eq!(
        reg.modify(5, Interest::both(), 7),
        Err(RegistryError::NotRegistered)
    );
    assert!(!reg.is_registered(5));
}

#[test]
fn modify_replaces_interest_and_key() {
    let mut reg = Registry::new();
    assert_eq!(reg.register(5, Interest::readable_only(), 7), Ok(()));
    assert_eq!(reg.modify(5, Interest::writable_only(), 8), Ok(()));
    let r = reg.registration(5).unwrap();
    assert!(!r.interest.readable);
    assert!(r.interest.writable);
    assert_eq!(r.key, 8);
    assert!(r.armed);
}

#[test]
fn deregister_removes_and_silences() {
    let mut reg = Registry::new();
    assert_eq!(reg.register(5, Interest::both(), 7), Ok(()));
    assert_eq!(reg.deregister(5), Ok(()));
    assert!(!reg.is_registered(5));
    assert_eq!(reg.deregister(5), Err(RegistryError::NotRegistered));
    let events = reg.collect_events(&vec![rep(5, true, true)]);
    assert!(events.is_empty());
}

#[test]
fn oneshot_fires_once_then_stays_silent_until_rearmed() {
    let mut reg = Registry::new();
    assert_eq!(reg.register(5, Interest::readable_only(), 7), Ok(()));

    let events = reg.collect_events(&vec![rep(5, true, true)]);
    assert_eq!(events.len(), 1);
    assert_eq!(
        events[0],
        Event { key: 7, readable: true, writable: false }
    );
    assert!(!reg.registration(5).unwrap().armed);

    let again = reg.collect_events(&vec![rep(5, true, true)]);
    assert!(again.is_empty());

    assert_eq!(reg.modify(5, Interest::readable_only(), 7), Ok(()));
    let rearmed = reg.collect_events(&vec![rep(5, true, false)]);
    assert_eq!(rearmed.len(), 1);
    assert_eq!(
        rearmed[0],
        Event { key: 7, readable: true, writable: false }
    );
}

#[test]
fn duplicate_report_entries_fire_once() {
    let mut reg = Registry::new();
    assert_eq!(reg.register(5, Interest::both(), 7), Ok(()));
    let events = reg.collect_events(&vec![rep(5, true, false), rep(5, true, false)]);
    assert_eq!(events.len(), 1);
    assert_eq!(events[0].key, 7);
}

#[test]
fn readiness_outside_interest_does_not_fire_or_disarm() {
    let mut reg = Registry::new();
    assert_eq!(reg.register(5, Interest::writable_only(), 7), Ok(()));
    let events = reg.collect_events(&vec![rep(5, true, false)]);
    assert!(events.is_empty());
    assert!(reg.registration(5).unwrap().armed);
}

#[test]
fn all_ready_handles_are_reported_in_one_call() {
    let mut reg = Registry::new();
    assert_eq!(reg.register(5, Interest::readable_only(), 7), Ok(()));
    assert_eq!(reg.register(6, Interest::writable_only(), 8), Ok(()));
    let events = reg.collect_events(&vec![rep(5, true, false), rep(6, false, true)]);
    assert_eq!(events.len(), 2);
    assert_eq!(
        events[0],
        Event { key: 7, readable: true, writable: false }
    );
    assert_eq!(
        events[1],
        Event { key: 8, readable: false, writable: true }
    );
}

#[test]
fn empty_report_yields_no_events() {
    let mut reg = Registry::new();
    assert_eq!(reg.register(5, Interest::both(), 7), Ok(()));
    let events = reg.collect_events(&Vec::new());
    assert!(events.is_empty());
    assert!(reg.registration(5).unwrap().armed);
}

#[test]
fn timed_out_wait_yields_empty_and_changes_nothing() {
    let mut reg = Registry::new();
    assert_eq!(reg.register(5, Interest::both(), 7), Ok(()));
    let r = reg.wait_result(WaitOutcome::TimedOut);
    assert_eq!(r, Ok(Vec::new()));
    assert!(reg.registration(5).unwrap().armed);
}

#[test]
fn notified_wait_yields_empty_and_changes_nothing() {
    let mut reg = Registry::new();
    assert_eq!(reg.register(5, Interest::both(), 7), Ok(()));
    let r = reg.wait_result(WaitOutcome::Notified);
    assert_eq!(r, Ok(Vec::new()));
    assert!(reg.registration(5).unwrap().armed);
}

#[test]
fn ready_wait_collects_under_oneshot_policy() {
    let mut reg = Registry::new();
    assert_eq!(reg.register(5, Interest::readable_only(), 7), Ok(()));
    let r = reg.wait_result(WaitOutcome::Ready(vec![rep(5, true, true)]));
    let events = r.unwrap();
    assert_eq!(events.len(), 1);
    assert_eq!(
        events[0],
        Event { key: 7, readable: true, writable: false }
    );
    assert!(!reg.registration(5).unwrap().armed);
}

#[test]
fn failed_wait_is_surfaced() {
    let mut reg = Registry::new();
    assert_eq!(reg.register(5, Interest::both(), 7), Ok(()));
    let r = reg.wait_result(WaitOutcome::Failed(OsError { code: 9 }));
    assert_eq!(r, Err(OsError { code: 9 }));
    assert!(reg.registration(5).unwrap().armed);
}
