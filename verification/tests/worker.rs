use qkc_mining_assistant::worker::{WorkerController, WorkerError};

#[test]
fn a_new_slot_is_empty() {
    assert!(!WorkerController::new().holds_worker());
}

#[test]
fn start_takes_the_slot_when_the_launch_worked() {
    let mut slot = WorkerController::new();
    assert_eq!(slot.start(false), Err(WorkerError::Launch));
    assert!(!slot.holds_worker());
    assert_eq!(slot.start(true), Ok(()));
    assert!(slot.holds_worker());
    assert_eq!(slot.start(false), Err(WorkerError::Launch));
    assert!(slot.holds_worker());
}

#[test]
fn stop_twice_is_stop_once() {
    let mut slot = WorkerController::new();
    slot.start(true).unwrap();
    assert_eq!(slot.stop(true), Ok(()));
    assert!(!slot.holds_worker());
    assert_eq!(slot.stop(false), Ok(()));
    assert!(!slot.holds_worker());
    assert_eq!(slot.stop(true), Ok(()));
    assert!(!slot.holds_worker());
}

#[test]
fn stop_of_an_empty_slot_does_nothing() {
    let mut slot = WorkerController::new();
    assert_eq!(slot.stop(false), Ok(()));
    assert!(!slot.holds_worker());
}

#[test]
fn a_refused_stop_keeps_the_worker() {
    let mut slot = WorkerController::new();
    slot.start(true).unwrap();
    assert_eq!(slot.stop(false), Err(WorkerError::Termination));
    assert!(slot.holds_worker());
    assert_eq!(slot.stop(true), Ok(()));
    assert!(!slot.holds_worker());
}

#[test]
fn replace_starts_whatever_the_stop_did() {
    let mut slot = WorkerController::new();
    assert_eq!(slot.replace(false, true), Ok(()));
    assert!(slot.holds_worker());
    assert_eq!(slot.replace(true, true), Ok(()));
    assert!(slot.holds_worker());
    assert_eq!(slot.replace(false, true), Err(WorkerError::Termination));
    assert!(slot.holds_worker());
    assert_eq!(slot.replace(false, false), Err(WorkerError::TerminationAndLaunch));
    assert!(slot.holds_worker());
    assert_eq!(slot.replace(true, false), Err(WorkerError::Launch));
    assert!(!slot.holds_worker());
    assert_eq!(slot.replace(true, false), Err(WorkerError::Launch));
    assert!(!slot.holds_worker());
}
