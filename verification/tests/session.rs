use std::collections::HashMap;

use mist::debug_controller::{DebugCommand, DebugController, StopReason};
use mist::debug_engine::{
    is_readable, memory_read, mist_clear_function_symbols, mist_register_function_symbol_rva,
    mist_register_function_symbol_va, read_memory, set_requested_function_breakpoints, DebugEngine,
};
use mist::session::Session;
use mist::system::{
    Call, ContextPart, DebugEvent, EventKind, Handle, Reply, ThreadContext,
    EXCEPTION_BREAKPOINT_CODE, EXCEPTION_SINGLE_STEP_CODE, PAGE_EXECUTE_READWRITE,
};

const PROCESS: Handle = Handle { value: 100 };
const THREAD: Handle = Handle { value: 200 };
const THREAD_ID: u32 = 20;
const READ_ONLY: u32 = 0x20;

/// A debuggee with one page of memory and one set of registers, whose events and whose client's
/// commands are laid down beforehand.
struct Machine {
    memory: HashMap<u32, u8>,
    context: ThreadContext,
    protection: u32,
    events: Vec<EventKind>,
    commands: Vec<DebugCommand>,
    closed: Vec<Handle>,
    resumed: usize,
    calls: Vec<Call>,
    refuse_writes: bool,
    refuse_contexts: bool,
    short_writes: bool,
}

fn new_machine(events: Vec<EventKind>, commands: Vec<DebugCommand>) -> Machine {
    Machine {
        memory: HashMap::new(),
        context: ThreadContext {
            part: ContextPart::Control,
            ebp: 0,
            eip: 0x40_1000,
            seg_cs: 0,
            eflags: 0x202,
            esp: 0x9000,
            seg_ss: 0,
            dr0: 0,
            dr1: 0,
            dr2: 0,
            dr3: 0,
            dr6: 0,
            dr7: 0,
        },
        protection: READ_ONLY,
        events,
        commands,
        closed: vec![],
        resumed: 0,
        calls: vec![],
        refuse_writes: false,
        refuse_contexts: false,
        short_writes: false,
    }
}

fn refused() -> Reply {
    Reply::Failed("refused".to_string())
}

fn answer_call(machine: &mut Machine, call: Call) -> Reply {
    machine.calls.push(call);
    match call {
        Call::Nothing => Reply::Nothing,
        Call::CreateProcess => {
            Reply::Spawned { process: PROCESS, thread: THREAD, thread_id: THREAD_ID }
        }
        Call::WaitForDebugEvent => {
            if machine.events.is_empty() {
                return refused();
            }
            let kind = machine.events.remove(0);
            Reply::Event(DebugEvent { process_id: 1, thread_id: THREAD_ID, kind })
        }
        Call::ContinueDebugEvent { .. } => {
            machine.resumed += 1;
            Reply::Done
        }
        Call::AwaitCommand => Reply::Command(machine.commands.remove(0)),
        Call::OpenThread { .. } => Reply::Opened(Handle { value: 300 }),
        Call::CloseHandle { handle } => {
            machine.closed.push(handle);
            Reply::Done
        }
        Call::Protect { protection, .. } => {
            let before = machine.protection;
            machine.protection = protection;
            Reply::Protection(before)
        }
        Call::ReadMemory { address, count, .. } => Reply::Bytes(
            (0..count as u32).map(|i| *machine.memory.get(&(address + i)).unwrap_or(&0x90)).collect(),
        ),
        Call::WriteByte { address, byte, .. } => {
            if machine.refuse_writes {
                return refused();
            }
            if machine.short_writes {
                return Reply::Count(0);
            }
            assert_eq!(machine.protection, PAGE_EXECUTE_READWRITE);
            machine.memory.insert(address, byte);
            Reply::Count(1)
        }
        Call::FlushInstructionCache { .. } => Reply::Done,
        Call::GetContext { part, .. } => {
            if machine.refuse_contexts {
                return refused();
            }
            machine.context.part = part;
            Reply::Context(machine.context)
        }
        Call::SetContext { context, .. } => {
            machine.context = context;
            Reply::Done
        }
    }
}

struct Run {
    session: Session,
    engine: DebugEngine,
    controller: DebugController,
    machine: Machine,
}

fn new_run(events: Vec<EventKind>, commands: Vec<DebugCommand>) -> Run {
    Run {
        session: Session::new(),
        engine: DebugEngine::new(),
        controller: DebugController::new(),
        machine: new_machine(events, commands),
    }
}

fn one_step(run: &mut Run) {
    let call = run.session.next_call(&run.engine).unwrap();
    let reply = answer_call(&mut run.machine, call);
    assert!(call.is_answered_by(&reply));
    run.session.step(&mut run.engine, &mut run.controller, &reply);
}

/// Goes on until the session has ended.
fn finish(run: &mut Run) {
    while run.session.next_call(&run.engine).is_some() {
        one_step(run);
    }
}

/// Goes on until the session waits for an event that is not laid down.
fn drain(run: &mut Run) {
    loop {
        match run.session.next_call(&run.engine) {
            None => return,
            Some(Call::WaitForDebugEvent) if run.machine.events.is_empty() => return,
            Some(_) => one_step(run),
        }
    }
}

fn session_error(run: &Run) -> Option<String> {
    match &run.session.outcome {
        Some(Err(error)) => Some(error.0.clone()),
        _ => None,
    }
}

fn breakpoint_event() -> EventKind {
    EventKind::Exception { code: EXCEPTION_BREAKPOINT_CODE }
}

fn step_event() -> EventKind {
    EventKind::Exception { code: EXCEPTION_SINGLE_STEP_CODE }
}

fn created_event() -> EventKind {
    EventKind::CreateProcess { image_base: 0x1_0040_0000, file: Handle { value: 400 } }
}

fn requested(names: &[&str]) -> Vec<String> {
    names.iter().map(|name| name.to_string()).collect()
}

#[test]
fn a_session_ends_with_its_process() {
    let mut run = new_run(vec![created_event(), EventKind::Other, EventKind::ExitProcess], vec![]);
    one_step(&mut run);
    assert!(run.controller.is_session_active());
    assert_eq!(run.engine.process, PROCESS);
    assert_eq!(run.engine.thread_handle(THREAD_ID), Some(THREAD));
    finish(&mut run);
    assert!(matches!(run.session.outcome, Some(Ok(()))));
    assert!(!run.controller.is_session_active());
    assert_eq!(run.controller.state.last_stop_reason, Some(StopReason::ProcessExit));
    assert_eq!(run.machine.resumed, 2);
    assert_eq!(run.machine.closed, vec![Handle { value: 400 }, THREAD, THREAD, PROCESS]);
    assert_eq!(run.engine.process, Handle::null());
    assert_eq!(run.engine.symbols.image_base, Some(0x40_0000));
    assert_eq!(run.engine.thread_handle(THREAD_ID), None);
}

#[test]
fn a_session_without_a_target_ends_at_once() {
    let mut run = new_run(vec![], vec![]);
    run.session.step(&mut run.engine, &mut run.controller, &refused());
    assert_eq!(session_error(&run), Some("Could not spawn debugee: refused".to_string()));
    assert!(!run.controller.is_session_active());
    assert_eq!(run.session.next_call(&run.engine), None);
}

#[test]
fn a_failed_wait_ends_the_session_in_order() {
    let mut run = new_run(vec![], vec![]);
    finish(&mut run);
    assert!(matches!(run.session.outcome, Some(Ok(()))));
    assert_eq!(run.machine.closed, vec![THREAD, THREAD, PROCESS]);
}

#[test]
fn the_first_four_addresses_go_into_the_slots() {
    let mut run = new_run(vec![EventKind::Other], vec![]);
    set_requested_function_breakpoints(
        &mut run.engine,
        requested(&["0x10", "0x20", "0x30", "0x40", "10", "0x50", "0x60"]),
    );
    run.machine.memory.insert(0x50, 0xaa);
    drain(&mut run);
    let context = run.machine.context;
    assert_eq!((context.dr0, context.dr1, context.dr2, context.dr3), (0x10, 0x20, 0x30, 0x40));
    assert_eq!(context.dr7, 0x55);
    assert_eq!(run.machine.memory[&0x50], 0xcc);
    assert_eq!(run.machine.memory[&0x60], 0xcc);
    assert_eq!(run.engine.software_breakpoints[&0x50].original, 0xaa);
    assert!(!run.engine.software_breakpoints[&0x50].temporary);
    assert_eq!(run.engine.software_breakpoints.len(), 2);
    assert_eq!(run.machine.protection, READ_ONLY);
    assert!(!run.engine.hardware_breakpoints_dirty);
}

#[test]
fn breakpoints_that_are_no_longer_requested_go() {
    let mut run = new_run(vec![EventKind::Other, EventKind::Other], vec![]);
    set_requested_function_breakpoints(&mut run.engine, requested(&["1", "2", "3", "4", "0x50", "0x60"]));
    run.machine.memory.insert(0x50, 0xaa);
    while run.machine.events.len() > 1 || run.session.next_call(&run.engine) != Some(Call::WaitForDebugEvent) {
        one_step(&mut run);
    }
    set_requested_function_breakpoints(&mut run.engine, requested(&["1", "2", "0x60"]));
    drain(&mut run);
    assert!(run.engine.software_breakpoints.is_empty());
    assert_eq!(run.machine.memory[&0x50], 0xaa);
    assert_eq!(run.machine.memory[&0x60], 0x90);
    let context = run.machine.context;
    assert_eq!((context.dr0, context.dr1, context.dr2, context.dr3), (1, 2, 0x60, 0));
    assert_eq!(context.dr7, 0x15);
}

#[test]
fn a_second_sync_has_nothing_to_do() {
    let mut run = new_run(vec![EventKind::Other], vec![]);
    set_requested_function_breakpoints(&mut run.engine, requested(&["1", "2", "3", "4", "5"]));
    drain(&mut run);
    assert!(run.engine.sync_breakpoints_from_registry().is_empty());
    run.engine.mark_dirty();
    assert!(!run.engine.sync_breakpoints_from_registry().is_empty());
}

#[test]
fn setting_and_clearing_gives_the_byte_back() {
    let mut run = new_run(vec![EventKind::Other], vec![]);
    set_requested_function_breakpoints(&mut run.engine, requested(&["1", "2", "3", "4", "5"]));
    run.machine.memory.insert(5, 0x11);
    drain(&mut run);
    assert_eq!(run.machine.memory[&5], 0xcc);
    set_requested_function_breakpoints(&mut run.engine, vec![]);
    run.machine.events.push(EventKind::Other);
    drain(&mut run);
    assert_eq!(run.machine.memory[&5], 0x11);
    assert!(run.engine.software_breakpoints.is_empty());
}

#[test]
fn a_hardware_hit_stops_until_the_client_resumes() {
    let mut run = new_run(vec![step_event()], vec![DebugCommand::Continue]);
    run.engine.hardware_breakpoints_dirty = false;
    run.machine.context.dr6 = 1;
    drain(&mut run);
    assert_eq!(run.controller.state.last_stop_reason, Some(StopReason::Breakpoint));
    assert_eq!(run.controller.state.last_stop_thread_id, Some(THREAD_ID));
    assert_eq!(run.machine.context.dr6, 0);
    assert_eq!(run.machine.resumed, 1);
}

#[test]
fn a_single_step_clears_the_trap_flag_and_stops() {
    let mut run = new_run(vec![step_event()], vec![DebugCommand::StepIn]);
    run.machine.context.eflags = 0x302;
    drain(&mut run);
    assert_eq!(run.controller.state.last_stop_reason, Some(StopReason::SingleStep));
    assert_eq!(run.machine.context.eflags, 0x302);
    let written: Vec<u32> = run
        .machine
        .calls
        .iter()
        .filter_map(|call| match call {
            Call::SetContext { context, .. } if context.part == ContextPart::Control => Some(context.eflags),
            _ => None,
        })
        .collect();
    assert_eq!(written, vec![0x202, 0x302]);
}

#[test]
fn stepping_over_a_call_breaks_behind_it() {
    let mut run = new_run(vec![step_event()], vec![DebugCommand::StepOver]);
    run.machine.memory.insert(0x40_1000, 0xe8);
    drain(&mut run);
    assert_eq!(run.machine.memory[&0x40_1005], 0xcc);
    assert!(run.engine.software_breakpoints[&0x40_1005].temporary);
    assert_eq!(run.machine.context.eflags, 0x202);
}

#[test]
fn stepping_over_anything_else_steps_in() {
    let mut run = new_run(vec![step_event()], vec![DebugCommand::StepOver]);
    drain(&mut run);
    assert!(run.engine.software_breakpoints.is_empty());
    assert_eq!(run.machine.context.eflags, 0x302);
}

#[test]
fn stepping_over_wraps_round_at_the_end_of_memory() {
    let mut run = new_run(vec![step_event()], vec![DebugCommand::StepOver]);
    run.machine.context.eip = 0xffff_fffe;
    run.machine.memory.insert(0xffff_fffe, 0xe8);
    drain(&mut run);
    assert!(run.engine.software_breakpoints.contains_key(&3));
}

#[test]
fn stepping_out_breaks_at_the_return_address() {
    let mut run = new_run(vec![step_event()], vec![DebugCommand::StepOut]);
    for (i, byte) in [0x44u8, 0x33, 0x22, 0x11].iter().enumerate() {
        run.machine.memory.insert(0x9000 + i as u32, *byte);
    }
    drain(&mut run);
    assert!(run.engine.software_breakpoints[&0x1122_3344].temporary);
}

#[test]
fn a_temporary_breakpoint_goes_when_it_is_hit() {
    let mut run = new_run(vec![step_event()], vec![DebugCommand::StepOver, DebugCommand::Continue]);
    run.machine.memory.insert(0x40_1000, 0xe8);
    run.machine.memory.insert(0x40_1005, 0x77);
    drain(&mut run);
    run.machine.context.eip = 0x40_1006;
    run.machine.events.push(breakpoint_event());
    drain(&mut run);
    assert_eq!(run.machine.memory[&0x40_1005], 0x77);
    assert_eq!(run.machine.context.eip, 0x40_1005);
    assert!(run.engine.software_breakpoints.is_empty());
    assert_eq!(run.controller.state.last_stop_reason, Some(StopReason::Breakpoint));
    assert_eq!(run.machine.resumed, 2);
}

/// A run with a lasting breakpoint at 0x500, over the byte 0x55.
fn run_with_lasting_breakpoint() -> Run {
    let mut run = new_run(vec![EventKind::Other], vec![]);
    set_requested_function_breakpoints(&mut run.engine, requested(&["1", "2", "3", "4", "0x500"]));
    run.machine.memory.insert(0x500, 0x55);
    drain(&mut run);
    assert_breakpoint_stands(&run);
    run
}

fn assert_breakpoint_stands(run: &Run) {
    assert_eq!(run.machine.memory[&0x500], 0xcc);
    assert_breakpoint_is_recorded(run);
    assert_eq!(run.engine.pending_reinsert, None);
    assert_eq!(run.machine.protection, READ_ONLY);
}

fn assert_breakpoint_is_recorded(run: &Run) {
    assert_eq!(run.engine.software_breakpoints.len(), 1);
    assert_eq!(run.engine.software_breakpoints[&0x500].original, 0x55);
    assert!(!run.engine.software_breakpoints[&0x500].temporary);
}

/// Lets the thread run into the breakpoint at 0x500.
fn hit_lasting_breakpoint(run: &mut Run) {
    run.machine.context.eip = 0x501;
    run.machine.context.eflags = 0x202;
    run.machine.events.push(breakpoint_event());
    drain(run);
}

#[test]
fn a_lasting_breakpoint_is_stepped_over_when_it_is_hit() {
    let mut run = run_with_lasting_breakpoint();
    hit_lasting_breakpoint(&mut run);
    assert_eq!(run.engine.pending_reinsert, Some(0x500));
    assert_eq!(run.machine.context.eip, 0x500);
    assert_eq!(run.machine.context.eflags, 0x302);
    assert_eq!(run.machine.memory[&0x500], 0x55);
    assert_breakpoint_is_recorded(&run);
    assert_eq!(run.controller.state.last_stop_reason, None);
    run.controller.submit(DebugCommand::StepIn);
    run.machine.events.push(step_event());
    drain(&mut run);
    assert_breakpoint_stands(&run);
    assert_eq!(run.machine.context.eflags, 0x302);
    assert_eq!(run.controller.try_take_command(), None);
    assert_eq!(run.machine.resumed, 3);
}

#[test]
fn a_lasting_breakpoint_traps_every_time() {
    let mut run = run_with_lasting_breakpoint();
    for _ in 0..3 {
        hit_lasting_breakpoint(&mut run);
        assert_eq!(run.machine.context.eip, 0x500);
        assert_eq!(run.machine.context.eflags, 0x302);
        assert_eq!(run.machine.memory[&0x500], 0x55);
        run.machine.events.push(step_event());
        drain(&mut run);
        assert_eq!(run.machine.context.eflags, 0x202);
        assert_breakpoint_stands(&run);
    }
    assert_eq!(run.machine.resumed, 7);
}

#[test]
fn a_lasting_breakpoint_that_is_requested_again_while_it_is_lifted_is_kept() {
    let mut run = run_with_lasting_breakpoint();
    hit_lasting_breakpoint(&mut run);
    set_requested_function_breakpoints(&mut run.engine, requested(&["4", "3", "2", "1", "0x500"]));
    run.machine.events.push(step_event());
    drain(&mut run);
    assert_breakpoint_stands(&run);
    assert_eq!(run.machine.context.dr0, 4);
}

#[test]
fn a_lasting_breakpoint_that_is_given_up_while_it_is_lifted_stays_away() {
    let mut run = run_with_lasting_breakpoint();
    hit_lasting_breakpoint(&mut run);
    set_requested_function_breakpoints(&mut run.engine, vec![]);
    run.machine.events.push(step_event());
    drain(&mut run);
    assert!(run.engine.software_breakpoints.is_empty());
    assert_eq!(run.machine.memory[&0x500], 0x55);
    assert_eq!(run.engine.pending_reinsert, None);
    assert_eq!(run.machine.protection, READ_ONLY);
}

#[test]
fn a_sync_keeps_temporary_breakpoints() {
    let mut run = new_run(vec![step_event(), EventKind::Other], vec![DebugCommand::StepOver]);
    run.machine.memory.insert(0x40_1000, 0xe8);
    run.machine.memory.insert(0x50, 0x11);
    while run.machine.events.len() > 1
        || run.session.next_call(&run.engine) != Some(Call::WaitForDebugEvent)
    {
        one_step(&mut run);
    }
    set_requested_function_breakpoints(&mut run.engine, requested(&["1", "2", "3", "4", "0x50"]));
    drain(&mut run);
    assert_eq!(run.machine.memory[&0x40_1005], 0xcc);
    assert!(run.engine.software_breakpoints[&0x40_1005].temporary);
    assert_eq!(run.machine.memory[&0x50], 0xcc);
    assert_eq!(run.engine.software_breakpoints[&0x50].original, 0x11);
    assert!(!run.engine.software_breakpoints[&0x50].temporary);
    assert_eq!(run.engine.software_breakpoints.len(), 2);
}

#[test]
fn foreign_breakpoints_are_passed_over() {
    let mut run = new_run(vec![breakpoint_event()], vec![]);
    drain(&mut run);
    assert_eq!(run.machine.resumed, 1);
    assert_eq!(run.controller.state.last_stop_reason, None);
    assert_eq!(run.machine.context.eip, 0x40_1000);
}

#[test]
fn other_exceptions_and_unknown_threads_are_passed_over() {
    let mut run = new_run(vec![EventKind::Exception { code: 0xc000_0005 }], vec![]);
    drain(&mut run);
    assert_eq!(run.machine.resumed, 1);
    run.engine.threads.clear();
    run.machine.events.push(breakpoint_event());
    run.machine.events.push(step_event());
    drain(&mut run);
    assert_eq!(run.machine.resumed, 3);
}

#[test]
fn new_threads_get_the_slots_and_old_ones_are_closed() {
    let fresh = Handle { value: 301 };
    let mut run = new_run(vec![EventKind::CreateThread { thread: fresh }], vec![]);
    run.engine.hardware_breakpoints = [Some(7), None, None, None];
    run.engine.hardware_breakpoints_dirty = false;
    drain(&mut run);
    assert_eq!(run.engine.thread_handle(THREAD_ID), Some(fresh));
    assert_eq!(run.machine.context.dr0, 7);
    run.machine.events.push(EventKind::ExitThread);
    drain(&mut run);
    assert_eq!(run.engine.thread_handle(THREAD_ID), None);
    assert_eq!(run.machine.closed, vec![fresh]);
}

#[test]
fn threads_without_a_handle_are_opened() {
    let mut run = new_run(vec![EventKind::CreateThread { thread: Handle::null() }], vec![]);
    drain(&mut run);
    assert_eq!(run.engine.thread_handle(THREAD_ID), Some(Handle { value: 300 }));
}

#[test]
fn failures_in_a_threads_slots_are_contained() {
    let mut run = new_run(vec![EventKind::Other], vec![]);
    run.machine.refuse_contexts = true;
    set_requested_function_breakpoints(&mut run.engine, requested(&["1", "2", "3", "4", "0x50"]));
    drain(&mut run);
    assert!(run.session.outcome.is_none());
    assert_eq!(run.machine.memory[&0x50], 0xcc);
    assert_eq!(run.machine.resumed, 1);
}

#[test]
fn an_uncaught_failure_ends_the_session() {
    let mut run = new_run(vec![breakpoint_event()], vec![]);
    run.engine.hardware_breakpoints_dirty = false;
    run.machine.refuse_contexts = true;
    finish(&mut run);
    assert_eq!(session_error(&run), Some("Wow64GetThreadContext failed: refused".to_string()));
    assert!(run.controller.is_session_active());
    assert!(run.machine.closed.is_empty());
}

#[test]
fn failures_to_write_a_breakpoint_end_the_session() {
    let mut refusing = new_run(vec![EventKind::Other], vec![]);
    refusing.machine.refuse_writes = true;
    set_requested_function_breakpoints(&mut refusing.engine, requested(&["1", "2", "3", "4", "0x50"]));
    finish(&mut refusing);
    assert_eq!(session_error(&refusing), Some("WriteProcessMemory failed: refused".to_string()));
    let mut short = new_run(vec![EventKind::Other], vec![]);
    short.machine.short_writes = true;
    set_requested_function_breakpoints(&mut short.engine, requested(&["1", "2", "3", "4", "0x50"]));
    finish(&mut short);
    assert_eq!(session_error(&short), Some("WriteProcessMemory: short write".to_string()));
    assert!(short.engine.software_breakpoints.is_empty());
}

#[test]
fn a_lenient_sync_contains_its_failures() {
    let mut run = new_run(vec![step_event()], vec![DebugCommand::Continue]);
    run.engine.hardware_breakpoints_dirty = false;
    run.machine.refuse_writes = true;
    while run.session.next_call(&run.engine) != Some(Call::AwaitCommand) {
        one_step(&mut run);
    }
    set_requested_function_breakpoints(&mut run.engine, requested(&["1", "2", "3", "4", "0x50"]));
    drain(&mut run);
    assert!(run.session.outcome.is_none());
    assert_eq!(run.machine.resumed, 1);
}

#[test]
fn commands_for_a_thread_that_is_gone_end_the_session() {
    let mut run = new_run(vec![step_event()], vec![DebugCommand::Continue]);
    while run.session.next_call(&run.engine) != Some(Call::AwaitCommand) {
        one_step(&mut run);
    }
    run.engine.threads.clear();
    finish(&mut run);
    assert_eq!(
        session_error(&run),
        Some("apply_command: missing thread handle for thread 20".to_string())
    );
}

#[test]
fn breakpoints_need_a_process() {
    let engine = DebugEngine::new();
    match engine.set_breakpoint(0x10, true) {
        Err(error) => assert_eq!(error.0, "set_breakpoint: no process handle"),
        Ok(_) => panic!(),
    }
}

#[test]
fn memory_is_read_from_the_process() {
    let mut engine = DebugEngine::new();
    engine.process = PROCESS;
    assert_eq!(
        read_memory(&engine, 0x10, 3),
        Call::ReadMemory { process: PROCESS, address: 0x10, count: 3 }
    );
    assert!(matches!(memory_read(Reply::Bytes(vec![1, 2])), Ok(bytes) if bytes == vec![1, 2]));
    assert!(matches!(
        memory_read(refused()),
        Err(error) if error.0 == "ReadProcessMemory failed: refused"
    ));
}

#[test]
fn buffers_have_a_size_that_can_be_had() {
    assert!(is_readable(0));
    assert!(is_readable(0x1000));
    assert!(!is_readable(-1));
    assert!(!is_readable(i64::MIN + 1) || usize::BITS == 32);
}

#[test]
fn symbols_are_registered_and_cleared() {
    let mut engine = DebugEngine::new();
    engine.hardware_breakpoints_dirty = false;
    assert!(!mist_register_function_symbol_rva(&mut engine, None, 1));
    assert!(!mist_register_function_symbol_va(&mut engine, None, 1));
    assert!(!engine.hardware_breakpoints_dirty);
    assert!(mist_register_function_symbol_rva(&mut engine, Some("main".to_string()), 0x10));
    assert!(engine.hardware_breakpoints_dirty);
    assert_eq!(engine.resolve_function_address("main"), None);
    engine.symbols.image_base = Some(0x40_0000);
    assert_eq!(engine.resolve_function_address("main"), Some(0x40_0010));
    assert!(mist_register_function_symbol_va(&mut engine, Some("main".to_string()), 0x20));
    assert_eq!(engine.resolve_function_address("main"), Some(0x20));
    assert!(mist_clear_function_symbols(&mut engine));
    assert_eq!(engine.resolve_function_address("main"), None);
    assert_eq!(engine.symbols.image_base, Some(0x40_0000));
}

#[test]
fn names_of_bare_digits_are_hexadecimal_addresses() {
    let mut engine = DebugEngine::new();
    assert_eq!(engine.resolve_function_address("401000"), Some(0x40_1000));
    assert_eq!(
        set_requested_function_breakpoints(&mut engine, requested(&["401000", "123456789"])),
        vec![true, false]
    );
}

#[test]
fn a_sync_reaches_the_registers_of_the_thread() {
    let mut run = new_run(vec![EventKind::Other], vec![]);
    run.machine.context.dr0 = 0x99;
    run.machine.context.dr3 = 0x99;
    run.machine.context.dr6 = 0x4;
    run.machine.context.dr7 = 0xffff_ffff;
    set_requested_function_breakpoints(&mut run.engine, requested(&["0x10", "0x20"]));
    drain(&mut run);
    let context = run.machine.context;
    assert_eq!((context.dr0, context.dr1, context.dr2, context.dr3), (0x10, 0x20, 0, 0));
    assert_eq!(context.dr7, 0xffaf);
    assert_eq!(context.dr6, 0);
    assert_eq!((context.eip, context.esp, context.eflags), (0x40_1000, 0x9000, 0x202));
}

#[test]
fn a_sync_reaches_every_thread() {
    let other = Handle { value: 201 };
    let mut run = new_run(vec![EventKind::Other], vec![]);
    run.engine.threads.insert(21, other);
    run.engine.threads.insert(22, Handle::null());
    set_requested_function_breakpoints(&mut run.engine, requested(&["0x10"]));
    drain(&mut run);
    for thread in [THREAD, other] {
        let written = run
            .machine
            .calls
            .iter()
            .filter(|call| matches!(call, Call::SetContext { thread: t, .. } if *t == thread))
            .count();
        assert_eq!(written, 4);
    }
    let null = run
        .machine
        .calls
        .iter()
        .any(|call| matches!(call, Call::SetContext { thread, .. } if *thread == Handle::null()));
    assert!(!null);
}
