use mist::launcher::{launch_and_debug, run_target, Notice, TargetRun};
use mist::system::{Call, DebugEvent, EventKind, Handle, Reply};

fn run_handle(value: i64) -> Handle {
    Handle { value }
}

fn run_event(kind: EventKind) -> Reply {
    Reply::Event(DebugEvent { process_id: 3, thread_id: 4, kind })
}

fn spawned_target(process: i64, thread: i64) -> Reply {
    Reply::Spawned { process: run_handle(process), thread: run_handle(thread), thread_id: 4 }
}

fn started(process: i64, thread: i64) -> TargetRun {
    let mut run = launch_and_debug("a.exe");
    run.step(&spawned_target(process, thread));
    run
}

#[test]
fn a_run_starts_its_target_and_continues_its_events() {
    let mut run = launch_and_debug("a.exe");
    assert_eq!(run.path, b"a.exe\0".to_vec());
    assert_eq!(run.call(), Some(Call::CreateProcess));
    assert_eq!(run.step(&spawned_target(1, 2)), None);
    assert_eq!(run.call(), Some(Call::WaitForDebugEvent));
    let created = EventKind::CreateProcess { image_base: 0x40_0000, file: run_handle(0) };
    assert_eq!(run.step(&run_event(created)), Some(Notice::Created { image_base: 0x40_0000 }));
    assert_eq!(run.call(), Some(Call::ContinueDebugEvent { process_id: 3, thread_id: 4 }));
    assert_eq!(run.step(&Reply::Failed("ignored".to_string())), None);
    assert_eq!(run.call(), Some(Call::WaitForDebugEvent));
    assert_eq!(run.step(&run_event(EventKind::Other)), None);
    assert_eq!(run.call(), Some(Call::ContinueDebugEvent { process_id: 3, thread_id: 4 }));
}

#[test]
fn a_run_closes_its_handles_at_the_exit() {
    let mut run = started(1, 2);
    assert_eq!(run.step(&run_event(EventKind::ExitProcess)), Some(Notice::Exited));
    assert_eq!(run.call(), Some(Call::CloseHandle { handle: run_handle(2) }));
    run.step(&Reply::Done);
    assert_eq!(run.call(), Some(Call::CloseHandle { handle: run_handle(1) }));
    run.step(&Reply::Done);
    assert_eq!(run.call(), None);
    assert_eq!(run.error, None);
}

#[test]
fn handles_that_refer_to_nothing_are_not_closed() {
    let mut threadless = started(1, 0);
    threadless.step(&run_event(EventKind::ExitProcess));
    assert_eq!(threadless.call(), Some(Call::CloseHandle { handle: run_handle(1) }));
    let mut processless = started(-1, 2);
    processless.step(&run_event(EventKind::ExitProcess));
    processless.step(&Reply::Done);
    assert_eq!(processless.call(), None);
    let mut without = started(0, 0);
    without.step(&run_event(EventKind::ExitProcess));
    assert_eq!(without.call(), None);
}

#[test]
fn a_failed_wait_ends_a_run() {
    let mut run = started(1, 2);
    run.step(&Reply::Failed("e".to_string()));
    assert_eq!(run.call(), Some(Call::CloseHandle { handle: run_handle(2) }));
}

#[test]
fn a_patient_run_waits_again_and_closes_nothing() {
    let mut run = run_target("a.exe");
    run.step(&spawned_target(1, 2));
    run.step(&Reply::Failed("e".to_string()));
    assert_eq!(run.call(), Some(Call::WaitForDebugEvent));
    assert_eq!(run.step(&run_event(EventKind::ExitProcess)), Some(Notice::Exited));
    assert_eq!(run.call(), None);
}

#[test]
fn a_target_that_does_not_start_is_reported() {
    let mut run = launch_and_debug("a.exe");
    run.step(&Reply::Failed("not found".to_string()));
    assert_eq!(run.call(), None);
    assert_eq!(run.error, Some("CreateProcessA failed: not found".to_string()));
}

#[test]
fn a_path_with_a_zero_is_refused() {
    let run = launch_and_debug("a\0.exe");
    assert_eq!(run.call(), None);
    assert_eq!(run.error, Some("Invalid target path (contains NUL byte)".to_string()));
}
