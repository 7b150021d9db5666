//! A debug session: from the start of the target to its end, one task at a time.
//!
//! A driver asks a session for its next call, makes the call, and hands the reply back, until
//! the session has an outcome.
use vstd::prelude::*;

use crate::context::{is_hardware_breakpoint_exception, Edit};
use crate::dap::DebuggerResult;
use crate::debug_controller::{ControllerState, DebugController, StopReason};
use crate::debug_engine::{keys_of, DebugEngine, EngineView, WalkOrder};
use crate::symbols::SymbolsView;
use crate::system::{Call, DebugEvent, EventKind, Handle, Reply};
use crate::system::{EXCEPTION_BREAKPOINT_CODE, EXCEPTION_SINGLE_STEP_CODE};
use crate::task::{failure, nothing, only, Flow, Task};

verus! {

broadcast use vstd::std_specs::hash::group_hash_axioms;

/// The handles that came with the started process.
#[derive(Debug, Clone, Copy, PartialEq, Eq, Structural)]
pub struct Launch {
    pub process: Handle,
    pub thread: Handle,
}

/// A debug session.
pub struct Session {
    /// What is left to do, the next task first.
    pub agenda: Vec<Task>,
    pub launch: Launch,
    /// How the session ended.
    pub outcome: Option<DebuggerResult<()>>,
}

/// What a session holds.
#[verifier::ext_equal]
pub struct SessionView {
    pub agenda: Seq<Task>,
    pub launch: Launch,
    pub outcome: Option<Result<(), Seq<char>>>,
}

impl View for Session {
    type V = SessionView;

    open spec fn view(&self) -> SessionView {
        SessionView {
            agenda: self.agenda@,
            launch: self.launch,
            outcome: match self.outcome {
                None => None,
                Some(Ok(())) => Some(Ok(())),
                Some(Err(error)) => Some(Err(error.0@)),
            },
        }
    }
}

/// A session with the engine and the controller that it works on.
#[verifier::ext_equal]
pub struct State {
    pub session: SessionView,
    pub engine: EngineView,
    pub controller: ControllerState,
}

/// What a task does to the engine, the controller and the session, and what follows it.
#[verifier::ext_equal]
pub struct Effect {
    pub engine: EngineView,
    pub controller: ControllerState,
    pub launch: Launch,
    pub flow: Flow,
}

/// Letting the debuggee go on after an event, and waiting for the next one.
pub open spec fn go_on(process_id: u32, thread_id: u32) -> Seq<Task> {
    seq![Task::Resume { process_id, thread_id }, Task::WaitEvent]
}

/// Stopping for the client: tell it, carry out its next command, take in new breakpoints, go on.
pub open spec fn stop(
    reason: StopReason,
    process_id: u32,
    thread_id: u32,
    lenient: bool,
) -> Seq<Task> {
    seq![
        Task::NotifyStop { reason, thread_id },
        Task::AwaitCommand { thread_id },
        if lenient {
            Task::SyncLeniently
        } else {
            Task::Sync
        },
        Task::Resume { process_id, thread_id },
        Task::WaitEvent,
    ]
}

/// Closing a handle, where it refers to something.
pub open spec fn close(handle: Handle) -> Seq<Task> {
    if handle.invalid() {
        Seq::empty()
    } else {
        seq![Task::CloseHandle { handle }]
    }
}

/// Closing the handles of the listed threads.
pub open spec fn close_threads(threads: Map<u32, Handle>, keys: Seq<u32>) -> Seq<Task>
    decreases keys.len(),
{
    if keys.len() == 0 {
        Seq::empty()
    } else {
        close_threads(threads, keys.drop_last()) + close(threads[keys.last()])
    }
}

/// What a debug event does to the engine, and the tasks that it gives.
pub open spec fn dispatched(engine: EngineView, event: DebugEvent) -> (EngineView, Seq<Task>) {
    let thread_id = event.thread_id;
    let rest = go_on(event.process_id, thread_id);
    match event.kind {
        EventKind::CreateProcess { image_base, file } => (
            EngineView {
                symbols: SymbolsView {
                    image_base: Some((image_base % 0x1_0000_0000) as u32),
                    ..engine.symbols
                },
                dirty: true,
                ..engine
            },
            close(file) + (match engine.thread_handle_spec(thread_id) {
                Some(thread) => crate::debug_engine::slot_tasks(
                    thread,
                    engine.hardware_breakpoints,
                ),
                None => Seq::empty(),
            }) + rest,
        ),
        EventKind::CreateThread { thread } => if thread.invalid() {
            (engine, seq![Task::OpenThread { thread_id }] + rest)
        } else {
            (
                EngineView { threads: engine.threads.insert(thread_id, thread), ..engine },
                crate::debug_engine::slot_tasks(thread, engine.hardware_breakpoints).push(
                    Task::Catch,
                ) + rest,
            )
        },
        EventKind::ExitThread => (
            EngineView { threads: engine.threads.remove(thread_id), ..engine },
            (match engine.thread_handle_spec(thread_id) {
                Some(thread) => close(thread),
                None => Seq::empty(),
            }) + rest,
        ),
        EventKind::Exception { code } => match engine.thread_handle_spec(thread_id) {
            None => (engine, rest),
            Some(thread) => if code == EXCEPTION_BREAKPOINT_CODE {
                (
                    engine,
                    seq![
                        Task::BreakpointHit { thread, process_id: event.process_id, thread_id },
                    ],
                )
            } else if code == EXCEPTION_SINGLE_STEP_CODE {
                match engine.pending_reinsert {
                    Some(address) => (
                        EngineView { pending_reinsert: None, ..engine },
                        seq![
                            Task::EditContext { thread, edit: Edit::ClearTrap },
                            Task::ReinsertBreakpoint { address },
                            Task::TakeCommand { thread_id },
                        ] + rest,
                    ),
                    None => (
                        engine,
                        seq![
                            Task::StepHit { thread, process_id: event.process_id, thread_id },
                        ],
                    ),
                }
            } else {
                (engine, rest)
            },
        },
        EventKind::ExitProcess => (
            engine,
            seq![
                Task::NotifyStop { reason: StopReason::ProcessExit, thread_id },
                Task::EndSession,
            ],
        ),
        EventKind::Other => (engine, rest),
    }
}

/// The tasks that follow when a thread ran into a breakpoint instruction, given its registers:
/// a lasting breakpoint is lifted for one instruction and stays on record, a temporary one goes
/// for good, with a stop; an instruction that is no breakpoint of ours is passed over.
pub open spec fn breakpoint_hit(
    engine: EngineView,
    thread: Handle,
    process_id: u32,
    thread_id: u32,
    eip: u32,
) -> Seq<Task> {
    let address = ((eip - 1) % 0x1_0000_0000) as u32;
    if !engine.software_breakpoints.contains_key(address) {
        go_on(process_id, thread_id)
    } else if engine.software_breakpoints[address].temporary {
        seq![
            Task::ClearBreakpoint { address },
            Task::EditContext { thread, edit: Edit::StepBack },
        ] + stop(StopReason::Breakpoint, process_id, thread_id, false)
    } else {
        seq![
            Task::LiftBreakpoint { address },
            Task::EditContext { thread, edit: Edit::StepBack },
            Task::ScheduleReinsert { address },
            Task::EditContext { thread, edit: Edit::EnableTrap },
        ] + go_on(process_id, thread_id)
    }
}

/// What one task does, with the outcome of its call; `order` is the order in which the engine's
/// tables happen to be walked.
pub open spec fn effect(
    engine: EngineView,
    controller: ControllerState,
    launch: Launch,
    task: Task,
    reply: Reply,
    order: WalkOrder,
) -> Effect {
    let none = Effect { engine, controller, launch, flow: Flow::Next(Seq::empty()) };
    match task {
        Task::Sync => Effect {
            engine: engine.sync_spec(order).0,
            flow: Flow::Next(engine.sync_spec(order).1),
            ..none
        },
        Task::SyncLeniently => Effect {
            engine: engine.sync_spec(order).0,
            flow: Flow::Next(engine.sync_spec(order).1.push(Task::Catch)),
            ..none
        },
        Task::Spawn => match reply {
            Reply::Spawned { process, thread, thread_id } => Effect {
                engine: EngineView {
                    process,
                    threads: engine.threads.insert(thread_id, thread),
                    ..engine
                },
                controller: controller.with_session(true),
                launch: Launch { process, thread },
                flow: Flow::Next(seq![Task::WaitEvent]),
            },
            Reply::Failed(error) => Effect {
                flow: Flow::Raise("Could not spawn debugee: "@ + error@),
                ..none
            },
            _ => none,
        },
        Task::WaitEvent => match reply {
            Reply::Event(event) => Effect {
                flow: Flow::Next(seq![Task::Sync, Task::Dispatch { event }]),
                ..none
            },
            Reply::Failed(_) => Effect { flow: Flow::Next(seq![Task::EndSession]), ..none },
            _ => none,
        },
        Task::Dispatch { event } => Effect {
            engine: dispatched(engine, event).0,
            flow: Flow::Next(dispatched(engine, event).1),
            ..none
        },
        Task::OpenThread { thread_id } => match reply {
            Reply::Opened(thread) => if thread.invalid() {
                none
            } else {
                Effect {
                    engine: EngineView {
                        threads: engine.threads.insert(thread_id, thread),
                        ..engine
                    },
                    flow: Flow::Next(
                        crate::debug_engine::slot_tasks(thread, engine.hardware_breakpoints),
                    ),
                    ..none
                }
            },
            _ => none,
        },
        Task::BreakpointHit { thread, process_id, thread_id } => match reply {
            Reply::Context(context) => Effect {
                flow: Flow::Next(
                    breakpoint_hit(engine, thread, process_id, thread_id, context.eip),
                ),
                ..none
            },
            Reply::Failed(error) => Effect {
                flow: Flow::Raise("Wow64GetThreadContext failed: "@ + error@),
                ..none
            },
            _ => none,
        },
        Task::StepHit { thread, process_id, thread_id } => match reply {
            Reply::Context(context) => Effect {
                flow: Flow::Next(
                    if crate::context::slot_hit(context) {
                        seq![Task::EditContext { thread, edit: Edit::ClearStatus }] + stop(
                            StopReason::Breakpoint,
                            process_id,
                            thread_id,
                            false,
                        )
                    } else {
                        seq![Task::EditContext { thread, edit: Edit::ClearTrap }] + stop(
                            StopReason::SingleStep,
                            process_id,
                            thread_id,
                            true,
                        )
                    },
                ),
                ..none
            },
            Reply::Failed(error) => Effect {
                flow: Flow::Raise("Wow64GetThreadContext failed: "@ + error@),
                ..none
            },
            _ => none,
        },
        Task::ScheduleReinsert { address } => Effect {
            engine: EngineView { pending_reinsert: Some(address), ..engine },
            ..none
        },
        Task::NotifyStop { reason, thread_id } => Effect {
            controller: controller.stopped(reason, thread_id),
            ..none
        },
        Task::AwaitCommand { thread_id } => match reply {
            Reply::Command(command) => Effect {
                flow: Flow::Next(seq![Task::ApplyCommand { thread_id, command }]),
                ..none
            },
            _ => none,
        },
        Task::TakeCommand { thread_id } => Effect {
            controller: controller.without_command(),
            flow: Flow::Next(
                match controller.pending_command {
                    Some(command) => seq![Task::ApplyCommand { thread_id, command }],
                    None => Seq::empty(),
                },
            ),
            ..none
        },
        Task::EndSession => Effect {
            engine: EngineView { threads: Map::empty(), ..engine },
            controller: controller.with_session(false),
            flow: Flow::Next(
                close_threads(engine.threads, order.threads) + close(launch.thread) + close(
                    launch.process,
                ) + seq![Task::Detach],
            ),
            ..none
        },
        Task::Detach => Effect {
            engine: EngineView { process: Handle::null_spec(), ..engine },
            ..none
        },
        Task::Catch | Task::Resume { .. } | Task::CloseHandle { .. } => none,
        _ => Effect {
            engine: engine.perform_spec(task, reply).0,
            flow: engine.perform_spec(task, reply).1,
            ..none
        },
    }
}

/// Where work goes on after a failure: behind the next catch, if there is one.
pub open spec fn caught(agenda: Seq<Task>) -> Option<Seq<Task>>
    decreases agenda.len(),
{
    if agenda.len() == 0 {
        None
    } else if agenda[0] is Catch {
        Some(agenda.drop_first())
    } else {
        caught(agenda.drop_first())
    }
}

impl State {
    /// Whether a session can still go on.
    pub open spec fn running(self) -> bool {
        self.session.agenda.len() > 0
    }

    /// The call that the session waits for.
    pub open spec fn call(self) -> Call {
        self.session.agenda[0].call_spec(self.engine.process)
    }

    /// The state after the next task, whose call was answered. The tasks that it gives come
    /// before those that were left; a failure that nothing catches ends the session, and so
    /// does an empty agenda.
    #[verifier::opaque]
    pub open spec fn next(self, reply: Reply, order: WalkOrder) -> State {
        let rest = self.session.agenda.drop_first();
        let e = effect(
            self.engine,
            self.controller,
            self.session.launch,
            self.session.agenda[0],
            reply,
            order,
        );
        let agenda = match e.flow {
            Flow::Next(tasks) => tasks + rest,
            Flow::Raise(_) => match caught(rest) {
                Some(left) => left,
                None => Seq::empty(),
            },
        };
        let outcome = match e.flow {
            Flow::Raise(message) if caught(rest) is None => Some(Err(message)),
            _ => if agenda.len() == 0 {
                Some(Ok(()))
            } else {
                self.session.outcome
            },
        };
        State {
            session: SessionView { agenda, launch: e.launch, outcome },
            engine: e.engine,
            controller: e.controller,
        }
    }
}

/// Whether a task walks the engine's tables.
pub open spec fn walks(task: Task) -> bool {
    task is Sync || task is SyncLeniently || task is EndSession
}

/// Letting the debuggee go on after an event, and waiting for the next one.
fn going_on(event_process: u32, event_thread: u32) -> (tasks: Vec<Task>)
    ensures
        tasks@ == go_on(event_process, event_thread),
{
    let mut tasks: Vec<Task> = Vec::new();
    tasks.push(Task::Resume { process_id: event_process, thread_id: event_thread });
    tasks.push(Task::WaitEvent);
    assert(tasks@ =~= go_on(event_process, event_thread));
    tasks
}

/// Stopping for the client.
fn stopping(reason: StopReason, process_id: u32, thread_id: u32, lenient: bool) -> (tasks: Vec<
    Task,
>)
    ensures
        tasks@ == stop(reason, process_id, thread_id, lenient),
{
    let mut tasks: Vec<Task> = Vec::new();
    tasks.push(Task::NotifyStop { reason, thread_id });
    tasks.push(Task::AwaitCommand { thread_id });
    if lenient {
        tasks.push(Task::SyncLeniently);
    } else {
        tasks.push(Task::Sync);
    }
    tasks.push(Task::Resume { process_id, thread_id });
    tasks.push(Task::WaitEvent);
    assert(tasks@ =~= stop(reason, process_id, thread_id, lenient));
    tasks
}

/// Closing a handle, where it refers to something.
fn closing(handle: Handle) -> (tasks: Vec<Task>)
    ensures
        tasks@ == close(handle),
{
    let mut tasks: Vec<Task> = Vec::new();
    if !handle.is_invalid() {
        tasks.push(Task::CloseHandle { handle });
    }
    assert(tasks@ =~= close(handle));
    tasks
}

/// Closing the handles of the listed threads.
fn closing_threads(engine: &DebugEngine, keys: &Vec<u32>) -> (tasks: Vec<Task>)
    requires
        forall|i: int| 0 <= i < keys@.len() ==> engine@.threads.contains_key(#[trigger] keys@[i]),
    ensures
        tasks@ == close_threads(engine@.threads, keys@),
{
    let mut tasks: Vec<Task> = Vec::new();
    let mut i: usize = 0;
    assert(keys@.take(0) =~= Seq::empty());
    while i < keys.len()
        invariant
            i <= keys@.len(),
            forall|j: int|
                0 <= j < keys@.len() ==> engine@.threads.contains_key(#[trigger] keys@[j]),
            tasks@ == close_threads(engine@.threads, keys@.take(i as int)),
        decreases keys@.len() - i,
    {
        assert(keys@.take(i + 1).drop_last() =~= keys@.take(i as int));
        assert(keys@.take(i + 1).last() == keys@[i as int]);
        if let Some(thread) = engine.thread_handle(keys[i]) {
            let mut more = closing(thread);
            tasks.append(&mut more);
        }
        i += 1;
    }
    assert(keys@.take(keys@.len() as int) =~= keys@);
    tasks
}

/// Handles a debug event.
pub fn dispatch(engine: &mut DebugEngine, event: DebugEvent) -> (tasks: Vec<Task>)
    requires
        old(engine)@.wf(),
    ensures
        (final(engine)@, tasks@) == dispatched(old(engine)@, event),
        final(engine)@.wf(),
{
    let thread_id = event.thread_id;
    let mut rest = going_on(event.process_id, thread_id);
    let mut tasks: Vec<Task> = Vec::new();
    match event.kind {
        EventKind::CreateProcess { image_base, file } => {
            engine.symbols.image_base = Some((image_base % 0x1_0000_0000) as u32);
            engine.mark_dirty();
            tasks = closing(file);
            if let Some(thread) = engine.thread_handle(thread_id) {
                let mut slots = engine.apply_hardware_breakpoints_to_thread(thread);
                tasks.append(&mut slots);
            }
        },
        EventKind::CreateThread { thread } => {
            if thread.is_invalid() {
                tasks.push(Task::OpenThread { thread_id });
            } else {
                engine.threads.insert(thread_id, thread);
                tasks = engine.apply_hardware_breakpoints_to_thread(thread);
                tasks.push(Task::Catch);
            }
        },
        EventKind::ExitThread => {
            if let Some(thread) = engine.threads.remove(&thread_id) {
                tasks = closing(thread);
            }
        },
        EventKind::Exception { code } => {
            if let Some(thread) = engine.thread_handle(thread_id) {
                if code == EXCEPTION_BREAKPOINT_CODE {
                    tasks.push(
                        Task::BreakpointHit { thread, process_id: event.process_id, thread_id },
                    );
                    assert(tasks@ =~= dispatched(old(engine)@, event).1);
                    return tasks;
                }
                if code == EXCEPTION_SINGLE_STEP_CODE {
                    match engine.pending_reinsert {
                        Some(address) => {
                            engine.pending_reinsert = None;
                            tasks.push(Task::EditContext { thread, edit: Edit::ClearTrap });
                            tasks.push(Task::ReinsertBreakpoint { address });
                            tasks.push(Task::TakeCommand { thread_id });
                        },
                        None => {
                            tasks.push(
                                Task::StepHit { thread, process_id: event.process_id, thread_id },
                            );
                            assert(tasks@ =~= dispatched(old(engine)@, event).1);
                            return tasks;
                        },
                    }
                }
            }
        },
        EventKind::ExitProcess => {
            tasks.push(Task::NotifyStop { reason: StopReason::ProcessExit, thread_id });
            tasks.push(Task::EndSession);
            assert(tasks@ =~= dispatched(old(engine)@, event).1);
            return tasks;
        },
        EventKind::Other => {},
    }
    tasks.append(&mut rest);
    assert(tasks@ =~= dispatched(old(engine)@, event).1);
    assert(engine@ =~= dispatched(old(engine)@, event).0);
    tasks
}

/// Decides what follows when a thread ran into a breakpoint instruction.
pub fn on_breakpoint_hit(
    engine: &DebugEngine,
    thread: Handle,
    process_id: u32,
    thread_id: u32,
    eip: u32,
) -> (tasks: Vec<Task>)
    ensures
        tasks@ == breakpoint_hit(engine@, thread, process_id, thread_id, eip),
{
    let address = eip.wrapping_sub(1);
    assert(address == ((eip - 1) % 0x1_0000_0000) as u32);
    match engine.software_breakpoints.get(&address) {
        None => going_on(process_id, thread_id),
        Some(breakpoint) => {
            let mut tasks: Vec<Task> = Vec::new();
            if breakpoint.temporary {
                tasks.push(Task::ClearBreakpoint { address });
                tasks.push(Task::EditContext { thread, edit: Edit::StepBack });
                let mut rest = stopping(StopReason::Breakpoint, process_id, thread_id, false);
                tasks.append(&mut rest);
            } else {
                tasks.push(Task::LiftBreakpoint { address });
                tasks.push(Task::EditContext { thread, edit: Edit::StepBack });
                tasks.push(Task::ScheduleReinsert { address });
                tasks.push(Task::EditContext { thread, edit: Edit::EnableTrap });
                let mut rest = going_on(process_id, thread_id);
                tasks.append(&mut rest);
            }
            assert(tasks@ =~= breakpoint_hit(engine@, thread, process_id, thread_id, eip));
            tasks
        },
    }
}

/// Decides what follows when a thread stopped after one instruction.
pub fn on_step_hit(
    context: &crate::system::ThreadContext,
    thread: Handle,
    process_id: u32,
    thread_id: u32,
) -> (tasks: Vec<Task>)
    ensures
        tasks@ == (if crate::context::slot_hit(*context) {
            seq![Task::EditContext { thread, edit: Edit::ClearStatus }] + stop(
                StopReason::Breakpoint,
                process_id,
                thread_id,
                false,
            )
        } else {
            seq![Task::EditContext { thread, edit: Edit::ClearTrap }] + stop(
                StopReason::SingleStep,
                process_id,
                thread_id,
                true,
            )
        }),
{
    let hit = is_hardware_breakpoint_exception(context);
    let mut tasks: Vec<Task> = Vec::new();
    if hit {
        tasks.push(Task::EditContext { thread, edit: Edit::ClearStatus });
        let mut rest = stopping(StopReason::Breakpoint, process_id, thread_id, false);
        tasks.append(&mut rest);
    } else {
        tasks.push(Task::EditContext { thread, edit: Edit::ClearTrap });
        let mut rest = stopping(StopReason::SingleStep, process_id, thread_id, true);
        tasks.append(&mut rest);
    }
    tasks
}

/// Where a failure leaves the tasks.
fn catch_failure(tasks: &Vec<Task>) -> (left: Option<Vec<Task>>)
    ensures
        match left {
            Some(left) => caught(tasks@) == Some(left@),
            None => caught(tasks@) is None,
        },
{
    let mut i: usize = 0;
    assert(tasks@.skip(0) =~= tasks@);
    while i < tasks.len()
        invariant
            i <= tasks@.len(),
            caught(tasks@.skip(i as int)) == caught(tasks@),
        decreases tasks@.len() - i,
    {
        assert(tasks@.skip(i as int).drop_first() =~= tasks@.skip(i + 1));
        if let Task::Catch = tasks[i] {
            let mut left: Vec<Task> = Vec::new();
            let mut j: usize = i + 1;
            while j < tasks.len()
                invariant
                    i + 1 <= j <= tasks@.len(),
                    left@ == tasks@.subrange(i + 1, j as int),
                decreases tasks@.len() - j,
            {
                left.push(tasks[j]);
                assert(tasks@.subrange(i + 1, j + 1) =~= tasks@.subrange(i + 1, j as int).push(
                    tasks@[j as int],
                ));
                j += 1;
            }
            assert(left@ =~= tasks@.skip(i + 1));
            return Some(left);
        }
        i += 1;
    }
    None
}

impl Session {
    /// A session that is about to start its target.
    pub fn new() -> (session: Session)
        ensures
            session@ == (SessionView {
                agenda: seq![Task::Spawn],
                launch: Launch { process: Handle::null_spec(), thread: Handle::null_spec() },
                outcome: None,
            }),
    {
        Session {
            agenda: only(Task::Spawn),
            launch: Launch { process: Handle::null(), thread: Handle::null() },
            outcome: None,
        }
    }

    /// The call that the session waits for; `None` where it has ended.
    pub fn next_call(&self, engine: &DebugEngine) -> (call: Option<Call>)
        ensures
            call == (if self@.agenda.len() == 0 {
                None
            } else {
                Some(self@.agenda[0].call_spec(engine@.process))
            }),
    {
        if self.agenda.len() == 0 {
            None
        } else {
            Some(self.agenda[0].call(engine.process))
        }
    }

    /// Carries out one task, with the outcome of its call.
    fn perform(
        &mut self,
        engine: &mut DebugEngine,
        controller: &mut DebugController,
        task: Task,
        reply: &Reply,
    ) -> (result: DebuggerResult<Vec<Task>>)
        requires
            old(engine)@.wf(),
            task.call_spec(old(engine)@.process).accepts(*reply),
        ensures
            final(engine)@.wf(),
            final(self)@.agenda == old(self)@.agenda,
            final(self)@.outcome == old(self)@.outcome,
            exists|order: WalkOrder|
                #![trigger old(engine)@.walked_by(order)]
                (walks(task) ==> old(engine)@.walked_by(order)) && effect(
                    old(engine)@,
                    old(controller).state,
                    old(self)@.launch,
                    task,
                    *reply,
                    order,
                ) == (Effect {
                    engine: final(engine)@,
                    controller: final(controller).state,
                    launch: final(self)@.launch,
                    flow: crate::task::flow_of(result),
                }),
    {
        let ghost mut order = WalkOrder { threads: Seq::empty(), breakpoints: Seq::empty() };
        let ghost before = engine@;
        let result = match task {
            Task::Sync => {
                let tasks = engine.sync_breakpoints_from_registry();
                proof {
                    order = choose|o: WalkOrder|
                        #![trigger before.walked_by(o)]
                        before.walked_by(o) && (engine@, tasks@) == before.sync_spec(o);
                }
                Ok(tasks)
            },
            Task::SyncLeniently => {
                let mut tasks = engine.sync_breakpoints_from_registry();
                proof {
                    order = choose|o: WalkOrder|
                        #![trigger before.walked_by(o)]
                        before.walked_by(o) && (engine@, tasks@) == before.sync_spec(o);
                }
                tasks.push(Task::Catch);
                Ok(tasks)
            },
            Task::Spawn => match reply {
                Reply::Failed(error) => failure("Could not spawn debugee: ", error),
                Reply::Spawned { process, thread, thread_id } => {
                    controller.set_session_active(true);
                    engine.process = *process;
                    engine.threads.insert(*thread_id, *thread);
                    self.launch = Launch { process: *process, thread: *thread };
                    Ok(only(Task::WaitEvent))
                },
                _ => Ok(nothing()),
            },
            Task::WaitEvent => match reply {
                Reply::Failed(_) => Ok(only(Task::EndSession)),
                Reply::Event(event) => {
                    let mut tasks = only(Task::Sync);
                    tasks.push(Task::Dispatch { event: *event });
                    assert(tasks@ =~= seq![Task::Sync, Task::Dispatch { event: *event }]);
                    Ok(tasks)
                },
                _ => Ok(nothing()),
            },
            Task::Dispatch { event } => Ok(dispatch(engine, event)),
            Task::OpenThread { thread_id } => match reply {
                Reply::Opened(thread) => if thread.is_invalid() {
                    Ok(nothing())
                } else {
                    engine.threads.insert(thread_id, *thread);
                    Ok(engine.apply_hardware_breakpoints_to_thread(*thread))
                },
                _ => Ok(nothing()),
            },
            Task::BreakpointHit { thread, process_id, thread_id } => match reply {
                Reply::Failed(error) => failure("Wow64GetThreadContext failed: ", error),
                Reply::Context(context) => Ok(
                    on_breakpoint_hit(engine, thread, process_id, thread_id, context.eip),
                ),
                _ => Ok(nothing()),
            },
            Task::StepHit { thread, process_id, thread_id } => match reply {
                Reply::Failed(error) => failure("Wow64GetThreadContext failed: ", error),
                Reply::Context(context) => Ok(on_step_hit(context, thread, process_id, thread_id)),
                _ => Ok(nothing()),
            },
            Task::ScheduleReinsert { address } => {
                engine.pending_reinsert = Some(address);
                Ok(nothing())
            },
            Task::NotifyStop { reason, thread_id } => {
                controller.notify_stop(reason, thread_id);
                Ok(nothing())
            },
            Task::AwaitCommand { thread_id } => match reply {
                Reply::Command(command) => Ok(
                    only(Task::ApplyCommand { thread_id, command: *command }),
                ),
                _ => Ok(nothing()),
            },
            Task::TakeCommand { thread_id } => match controller.try_take_command() {
                Some(command) => Ok(only(Task::ApplyCommand { thread_id, command })),
                None => Ok(nothing()),
            },
            Task::EndSession => {
                controller.set_session_active(false);
                let keys = keys_of(&engine.threads);
                let breakpoint_keys = keys_of(&engine.software_breakpoints);
                proof {
                    order = WalkOrder { threads: keys@, breakpoints: breakpoint_keys@ };
                    assert forall|k: int|
                        0 <= k < keys@.len() implies engine@.threads.contains_key(
                        #[trigger] keys@[k],
                    ) by {
                        assert(keys@.to_set().contains(keys@[k]));
                    }
                    assert(before.walked_by(order));
                }
                let mut tasks = closing_threads(engine, &keys);
                engine.threads.clear();
                let mut thread = closing(self.launch.thread);
                tasks.append(&mut thread);
                let mut process = closing(self.launch.process);
                tasks.append(&mut process);
                tasks.push(Task::Detach);
                assert(tasks@ =~= close_threads(before.threads, order.threads) + close(
                    self@.launch.thread,
                ) + close(self@.launch.process) + seq![Task::Detach]);
                Ok(tasks)
            },
            Task::Detach => {
                engine.process = Handle::null();
                Ok(nothing())
            },
            Task::Catch => Ok(nothing()),
            Task::Resume { .. } => Ok(nothing()),
            Task::CloseHandle { .. } => Ok(nothing()),
            _ => engine.perform(task, reply),
        };
        assert(effect(
            before,
            old(controller).state,
            old(self)@.launch,
            task,
            *reply,
            order,
        ) =~= Effect {
            engine: engine@,
            controller: controller.state,
            launch: self@.launch,
            flow: crate::task::flow_of(result),
        });
        let ghost walked = before.walked_by(order);
        result
    }

    /// Takes the reply to the call that the session waits for, and goes on to the next one.
    pub fn step(
        &mut self,
        engine: &mut DebugEngine,
        controller: &mut DebugController,
        reply: &Reply,
    )
        requires
            old(engine)@.wf(),
            old(self)@.agenda.len() > 0,
            old(self)@.agenda[0].call_spec(old(engine)@.process).accepts(*reply),
        ensures
            final(engine)@.wf(),
            exists|order: WalkOrder|
                #![trigger old(engine)@.walked_by(order)]
                (walks(old(self)@.agenda[0]) ==> old(engine)@.walked_by(order)) && (State {
                    session: old(self)@,
                    engine: old(engine)@,
                    controller: old(controller).state,
                }).next(*reply, order) == (State {
                    session: final(self)@,
                    engine: final(engine)@,
                    controller: final(controller).state,
                }),
    {
        let ghost start = State {
            session: self@,
            engine: engine@,
            controller: controller.state,
        };
        let task = self.agenda.remove(0);
        assert(self.agenda@ =~= start.session.agenda.drop_first());
        let result = self.perform(engine, controller, task, reply);
        let ghost order = choose|o: WalkOrder|
            #![trigger start.engine.walked_by(o)]
            (walks(task) ==> start.engine.walked_by(o)) && effect(
                start.engine,
                start.controller,
                start.session.launch,
                task,
                *reply,
                o,
            ) == (Effect {
                engine: engine@,
                controller: controller.state,
                launch: self@.launch,
                flow: crate::task::flow_of(result),
            });
        match result {
            Ok(tasks) => {
                let mut tasks = tasks;
                tasks.append(&mut self.agenda);
                self.agenda = tasks;
                if self.agenda.len() == 0 {
                    self.outcome = Some(Ok(()));
                }
            },
            Err(error) => match catch_failure(&self.agenda) {
                Some(left) => {
                    self.agenda = left;
                    if self.agenda.len() == 0 {
                        self.outcome = Some(Ok(()));
                    }
                },
                None => {
                    self.agenda = Vec::new();
                    self.outcome = Some(Err(error));
                },
            },
        }
        proof {
            let end = State { session: self@, engine: engine@, controller: controller.state };
            reveal(State::next);
            assert(start.next(*reply, order) =~= end);
            let walked = start.engine.walked_by(order);
        }
    }
}

} // verus!
