use mist::debug_controller::{DebugCommand, DebugController, StopReason};

#[test]
fn a_new_controller_is_idle() {
    let mut controller = DebugController::new();
    assert!(!controller.is_session_active());
    assert_eq!(controller.try_take_command(), None);
    assert_eq!(controller.state.last_stop_reason, None);
    assert_eq!(controller.state.last_stop_thread_id, None);
}

#[test]
fn the_last_command_is_taken_once() {
    let mut controller = DebugController::new();
    controller.submit(DebugCommand::StepIn);
    controller.submit(DebugCommand::StepOut);
    assert_eq!(controller.wait_for_command(), Some(DebugCommand::StepOut));
    assert_eq!(controller.wait_for_command(), None);
    assert_eq!(controller.try_take_command(), None);
}

#[test]
fn stops_keep_the_command() {
    let mut controller = DebugController::new();
    controller.submit(DebugCommand::Continue);
    controller.notify_stop(StopReason::SingleStep, 7);
    controller.set_session_active(true);
    assert!(controller.is_session_active());
    assert_eq!(controller.state.last_stop_reason, Some(StopReason::SingleStep));
    assert_eq!(controller.state.last_stop_thread_id, Some(7));
    assert_eq!(controller.try_take_command(), Some(DebugCommand::Continue));
}
