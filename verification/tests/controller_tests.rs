use deet::error::DebugError;
use deet::inferior::{status_of, terminal_step_event, Inferior, Status, TRAP_SIGNAL};
use deet::sys::WaitOutcome;

#[test]
fn wait_outcome_classification() {
    assert!(matches!(status_of(WaitOutcome::Exited(3), 0), Ok(Status::Exited(3))));
    assert!(matches!(status_of(WaitOutcome::Signaled(9), 0), Ok(Status::Signaled(9))));
    assert!(matches!(
        status_of(WaitOutcome::Stopped(TRAP_SIGNAL), 0x1234),
        Ok(Status::Stopped(TRAP_SIGNAL, 0x1234))
    ));
    // the one unrecoverable condition: a transition the model does not know
    assert!(matches!(status_of(WaitOutcome::Other, 0), Err(DebugError::UnexpectedWaitStatus)));
}

#[test]
fn step_terminal_dispatch() {
    // a mere stop means the step landed and the trap is to be re-armed
    assert!(terminal_step_event(Status::Stopped(TRAP_SIGNAL, 7)).is_none());
    // terminal events are handed up unchanged
    assert!(matches!(terminal_step_event(Status::Exited(0)), Some(Status::Exited(0))));
    assert!(matches!(terminal_step_event(Status::Signaled(9)), Some(Status::Signaled(9))));
}

#[test]
fn attach_requires_trap_first_stop() {
    // waiting on a process that is no child of this one fails at once, so
    // no controller is created
    assert!(Inferior::new(1).is_none());
}
