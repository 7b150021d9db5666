//! What each debug event, each command and each reply leads to.
use vstd::prelude::*;

use crate::context::Edit;
use crate::debug_controller::{ControllerState, DebugCommand, StopReason};
use crate::debug_engine::{self, EngineView, SoftwareBreakpoint, WalkOrder};
use crate::session::{self, Launch, SessionView, State};
use crate::system::{Address, Call, ContextPart, DebugEvent, EventKind, Handle, Reply};
use crate::task::{Flow, Patch, PatchGoal, PatchStep, Task};

verus! {

/// Whether a stop is one at which the client decides how to go on.
pub open spec fn asks_the_client(task: Task) -> bool {
    task is NotifyStop && !(task->NotifyStop_reason is ProcessExit)
}

/// Whether every stop among the tasks at which the client decides is followed at once by the wait
/// for the command to the thread that stopped.
pub open spec fn stops_are_held(tasks: Seq<Task>) -> bool {
    forall|i: int|
        0 <= i < tasks.len() && asks_the_client(#[trigger] tasks[i]) ==> i + 1 < tasks.len()
            && tasks[i + 1] == (Task::AwaitCommand { thread_id: tasks[i]->NotifyStop_thread_id })
}

/// Whether no task tells the client of a stop at which it decides.
pub open spec fn silent(tasks: Seq<Task>) -> bool {
    forall|i: int| 0 <= i < tasks.len() ==> !asks_the_client(#[trigger] tasks[i])
}

/// Tasks in which every stop is held can be put behind each other.
proof fn lemma_held_concat(first: Seq<Task>, last: Seq<Task>)
    requires
        stops_are_held(first),
        stops_are_held(last),
    ensures
        stops_are_held(first + last),
{
    let all = first + last;
    assert forall|i: int| 0 <= i < all.len() && asks_the_client(#[trigger] all[i]) implies i + 1
        < all.len() && all[i + 1] == (Task::AwaitCommand {
        thread_id: all[i]->NotifyStop_thread_id,
    }) by {
        if i < first.len() {
            assert(asks_the_client(first[i]));
            assert(all[i + 1] == first[i + 1]);
        } else {
            assert(asks_the_client(last[i - first.len()]));
            assert(all[i + 1] == last[i + 1 - first.len()]);
        }
    }
}

/// What comes last of tasks in which every stop is held.
proof fn lemma_held_skip(tasks: Seq<Task>, count: int)
    requires
        stops_are_held(tasks),
        0 <= count <= tasks.len(),
    ensures
        stops_are_held(tasks.skip(count)),
{
    let left = tasks.skip(count);
    assert forall|i: int| 0 <= i < left.len() && asks_the_client(#[trigger] left[i]) implies i + 1
        < left.len() && left[i + 1] == (Task::AwaitCommand {
        thread_id: left[i]->NotifyStop_thread_id,
    }) by {
        assert(asks_the_client(tasks[i + count]));
    }
}

/// What a failure leaves is what comes last of the tasks.
proof fn lemma_held_caught(tasks: Seq<Task>)
    requires
        stops_are_held(tasks),
        session::caught(tasks) is Some,
    ensures
        stops_are_held(session::caught(tasks)->0),
    decreases tasks.len(),
{
    lemma_held_skip(tasks, 1);
    assert(tasks.skip(1) =~= tasks.drop_first());
    if !(tasks[0] is Catch) {
        lemma_held_caught(tasks.drop_first());
    }
}

proof fn lemma_thread_tasks_are_silent(
    threads: Map<u32, Handle>,
    keys: Seq<u32>,
    slots: Seq<Option<Address>>,
)
    ensures
        silent(debug_engine::thread_tasks(threads, keys, slots)),
    decreases keys.len(),
{
    if keys.len() > 0 {
        lemma_thread_tasks_are_silent(threads, keys.drop_last(), slots);
    }
}

proof fn lemma_clear_tasks_are_silent(
    breakpoints: Map<Address, SoftwareBreakpoint>,
    keys: Seq<Address>,
    wanted: Seq<Address>,
)
    ensures
        silent(debug_engine::clear_tasks(breakpoints, keys, wanted)),
    decreases keys.len(),
{
    if keys.len() > 0 {
        lemma_clear_tasks_are_silent(breakpoints, keys.drop_last(), wanted);
    }
}

proof fn lemma_sync_is_silent(engine: EngineView, order: WalkOrder)
    ensures
        silent(engine.sync_spec(order).1),
{
    lemma_thread_tasks_are_silent(engine.threads, order.threads, engine.desired_hardware());
    lemma_clear_tasks_are_silent(
        engine.software_breakpoints,
        order.breakpoints,
        engine.desired_software(),
    );
}

/// The tasks of the engine are silent.
proof fn lemma_performing_is_silent(engine: EngineView, task: Task, reply: Reply)
    ensures
        engine.perform_spec(task, reply).1 matches Flow::Next(tasks) ==> silent(tasks),
{
}

/// The tasks that an event gives hold their stops.
proof fn lemma_dispatching_holds_stops(engine: EngineView, event: DebugEvent)
    ensures
        stops_are_held(session::dispatched(engine, event).1),
{
    let tasks = session::dispatched(engine, event).1;
    assert(silent(tasks));
}

/// The tasks for a breakpoint instruction hold their stops.
proof fn lemma_breakpoint_hits_hold_stops(
    engine: EngineView,
    thread: Handle,
    process_id: u32,
    thread_id: u32,
    eip: u32,
)
    ensures
        stops_are_held(session::breakpoint_hit(engine, thread, process_id, thread_id, eip)),
{
    let tasks = session::breakpoint_hit(engine, thread, process_id, thread_id, eip);
    assert forall|i: int| 0 <= i < tasks.len() && asks_the_client(#[trigger] tasks[i]) implies i + 1
        < tasks.len() && tasks[i + 1] == (Task::AwaitCommand {
        thread_id: tasks[i]->NotifyStop_thread_id,
    }) by {
        assert(i == 2);
    }
}

/// The tasks of a stop hold it.
proof fn lemma_stopping_holds_stops(
    task: Task,
    reason: StopReason,
    process_id: u32,
    thread_id: u32,
    lenient: bool,
)
    requires
        !asks_the_client(task),
    ensures
        stops_are_held(seq![task] + session::stop(reason, process_id, thread_id, lenient)),
{
    let tasks = seq![task] + session::stop(reason, process_id, thread_id, lenient);
    assert forall|i: int| 0 <= i < tasks.len() && asks_the_client(#[trigger] tasks[i]) implies i + 1
        < tasks.len() && tasks[i + 1] == (Task::AwaitCommand {
        thread_id: tasks[i]->NotifyStop_thread_id,
    }) by {
        assert(i == 1);
    }
}

/// In the tasks that a task gives, every stop is held.
proof fn lemma_effects_hold_stops(
    engine: EngineView,
    controller: ControllerState,
    launch: Launch,
    task: Task,
    reply: Reply,
    order: WalkOrder,
)
    ensures
        session::effect(engine, controller, launch, task, reply, order).flow matches Flow::Next(
            tasks,
        ) ==> stops_are_held(tasks),
{
    match task {
        Task::Sync | Task::SyncLeniently => {
            lemma_sync_is_silent(engine, order);
        },
        Task::EndSession => {
            crate::session_laws::lemma_close_threads_only_close(engine.threads, order.threads);
        },
        Task::BreakpointHit { thread, process_id, thread_id } => {
            if let Reply::Context(context) = reply {
                lemma_breakpoint_hits_hold_stops(
                    engine,
                    thread,
                    process_id,
                    thread_id,
                    context.eip,
                );
            }
        },
        Task::StepHit { thread, process_id, thread_id } => {
            lemma_stopping_holds_stops(
                Task::EditContext { thread, edit: Edit::ClearStatus },
                StopReason::Breakpoint,
                process_id,
                thread_id,
                false,
            );
            lemma_stopping_holds_stops(
                Task::EditContext { thread, edit: Edit::ClearTrap },
                StopReason::SingleStep,
                process_id,
                thread_id,
                true,
            );
        },
        Task::Dispatch { event } => {
            lemma_dispatching_holds_stops(engine, event);
        },
        Task::Spawn | Task::WaitEvent | Task::OpenThread { .. } | Task::ScheduleReinsert { .. }
        | Task::NotifyStop { .. } | Task::AwaitCommand { .. } | Task::TakeCommand { .. }
        | Task::Detach | Task::Catch | Task::Resume { .. } | Task::CloseHandle { .. } => {
            assert(session::effect(
                engine,
                controller,
                launch,
                task,
                reply,
                order,
            ).flow matches Flow::Next(tasks) ==> silent(tasks));
        },
        _ => {
            lemma_performing_is_silent(engine, task, reply);
        },
    }
}

/// The debuggee is held at every stop, in every state that a session can come to: a stop at which
/// the client decides stays followed by the wait for its command, whatever the system replies.
pub proof fn law_stops_stay_held(state: State, reply: Reply, order: WalkOrder)
    requires
        stops_are_held(state.session.agenda),
        state.running(),
    ensures
        stops_are_held(state.next(reply, order).session.agenda),
{
    reveal(State::next);
    let rest = state.session.agenda.drop_first();
    lemma_held_skip(state.session.agenda, 1);
    assert(state.session.agenda.skip(1) =~= rest);
    lemma_effects_hold_stops(
        state.engine,
        state.controller,
        state.session.launch,
        state.session.agenda[0],
        reply,
        order,
    );
    let flow = session::effect(
        state.engine,
        state.controller,
        state.session.launch,
        state.session.agenda[0],
        reply,
        order,
    ).flow;
    match flow {
        Flow::Next(tasks) => {
            lemma_held_concat(tasks, rest);
        },
        Flow::Raise(_) => {
            if session::caught(rest) is Some {
                lemma_held_caught(rest);
            }
        },
    }
}

/// A session starts with no stop.
pub proof fn law_new_sessions_hold_stops()
    ensures
        stops_are_held(seq![Task::Spawn]),
{
}

/// A stop is told to the client, with its reason and its thread; then the session asks for a
/// command and for nothing else, and the command that comes is the first thing that is carried
/// out, on the thread that stopped. All of what is left to do, letting the debuggee go on
/// included, comes after it.
pub proof fn law_stops_wait_for_the_command(
    state: State,
    reason: StopReason,
    thread_id: u32,
    command: DebugCommand,
    first: WalkOrder,
    second: WalkOrder,
)
    requires
        state.session.agenda.len() > 0,
        state.session.agenda[0] == (Task::NotifyStop { reason, thread_id }),
        !(reason is ProcessExit),
        stops_are_held(state.session.agenda),
    ensures
        ({
            let told = state.next(Reply::Nothing, first);
            let commanded = told.next(Reply::Command(command), second);
            &&& state.call() is Nothing
            &&& told.controller.last_stop_reason == Some(reason)
            &&& told.controller.last_stop_thread_id == Some(thread_id)
            &&& told.controller.pending_command == state.controller.pending_command
            &&& told.controller.is_active == state.controller.is_active
            &&& told.engine == state.engine
            &&& told.call() is AwaitCommand
            &&& commanded.session.agenda == seq![Task::ApplyCommand { thread_id, command }]
                + state.session.agenda.skip(2)
            &&& commanded.engine == state.engine
            &&& commanded.controller == told.controller
        }),
{
    reveal(State::next);
    let agenda = state.session.agenda;
    assert(asks_the_client(agenda[0]));
    let told = state.next(Reply::Nothing, first);
    assert(told.session.agenda =~= agenda.drop_first());
    assert(told.session.agenda[0] == agenda[1]);
    assert(told.session.agenda.drop_first() =~= agenda.skip(2));
}

/// Each command is carried out on the thread that stopped: to continue is to do nothing more, to
/// step in is to set the trap flag, and the other two are worked out from the thread's registers.
/// A thread that is not known any more ends it.
pub proof fn law_commands_are_carried_out(
    state: State,
    rest: Seq<Task>,
    thread_id: u32,
    command: DebugCommand,
    order: WalkOrder,
)
    requires
        state.session.agenda == seq![Task::ApplyCommand { thread_id, command }] + rest,
        rest.len() > 0,
    ensures
        ({
            let after = state.next(Reply::Nothing, order);
            let thread = state.engine.threads[thread_id];
            &&& state.call() is Nothing
            &&& after.engine == state.engine
            &&& after.controller == state.controller
            &&& state.engine.threads.contains_key(thread_id) ==> after.session.agenda == match command {
                DebugCommand::Continue => rest,
                DebugCommand::StepIn => seq![
                    Task::EditContext { thread, edit: Edit::EnableTrap },
                ] + rest,
                DebugCommand::StepOver => seq![Task::StepOver { thread }] + rest,
                DebugCommand::StepOut => seq![Task::StepOut { thread }] + rest,
            }
            &&& !state.engine.threads.contains_key(thread_id) && session::caught(rest) is None
                ==> !after.running() && after.session.outcome is Some
                && after.session.outcome->0 is Err
        }),
{
    reveal(State::next);
    assert(state.session.agenda[0] == Task::ApplyCommand { thread_id, command });
    assert(state.session.agenda.drop_first() =~= rest);
    assert(Seq::<Task>::empty() + rest =~= rest);
}

/// While the session only goes on after a lasting breakpoint, a command that is waiting is taken
/// out of the mailbox and carried out; where none is waiting, nothing happens.
pub proof fn law_waiting_commands_are_taken(
    state: State,
    rest: Seq<Task>,
    thread_id: u32,
    order: WalkOrder,
)
    requires
        state.session.agenda == seq![Task::TakeCommand { thread_id }] + rest,
        rest.len() > 0,
    ensures
        ({
            let after = state.next(Reply::Nothing, order);
            &&& after.controller.pending_command is None
            &&& after.controller.last_stop_reason == state.controller.last_stop_reason
            &&& after.controller.is_active == state.controller.is_active
            &&& after.engine == state.engine
            &&& state.controller.pending_command matches Some(command) ==> after.session.agenda
                == seq![Task::ApplyCommand { thread_id, command }] + rest
            &&& state.controller.pending_command is None ==> after.session.agenda == rest
        }),
{
    reveal(State::next);
    assert(state.session.agenda[0] == Task::TakeCommand { thread_id });
    assert(state.session.agenda.drop_first() =~= rest);
    assert(Seq::<Task>::empty() + rest =~= rest);
}

/// Whether tasks end with letting the debuggee go on after an event, once, for the process and the
/// thread of the event, and waiting for the next one.
pub open spec fn continues(tasks: Seq<Task>, process_id: u32, thread_id: u32) -> bool {
    &&& tasks.len() >= 2
    &&& tasks[tasks.len() - 2] == (Task::Resume { process_id, thread_id })
    &&& tasks[tasks.len() - 1] is WaitEvent
    &&& forall|i: int|
        0 <= i < tasks.len() - 2 ==> !(#[trigger] tasks[i] is Resume) && !(tasks[i] is WaitEvent)
            && !(tasks[i] is Dispatch) && !(tasks[i] is EndSession)
}

/// The state in which an event is about to be handled.
pub open spec fn handling(state: State, event: DebugEvent) -> bool {
    state.session.agenda == seq![Task::Dispatch { event }]
}

/// What remains after the first task of a series of one.
proof fn lemma_only_task(state: State, task: Task)
    requires
        state.session.agenda == seq![task],
    ensures
        state.session.agenda[0] == task,
        state.session.agenda.drop_first() == Seq::<Task>::empty(),
        state.call() == task.call_spec(state.engine.process),
{
    assert(state.session.agenda.drop_first() =~= Seq::<Task>::empty());
}

/// Every event but the exit of the process is continued exactly once before the next one is waited
/// for, for the process and the thread that it came from; a breakpoint or a step is looked at
/// first, for the same process and thread.
pub proof fn law_events_are_continued_once(state: State, event: DebugEvent, order: WalkOrder)
    requires
        handling(state, event),
        !(event.kind is ExitProcess),
    ensures
        ({
            let agenda = state.next(Reply::Nothing, order).session.agenda;
            ||| continues(agenda, event.process_id, event.thread_id)
            ||| agenda == seq![
                Task::BreakpointHit {
                    thread: state.engine.threads[event.thread_id],
                    process_id: event.process_id,
                    thread_id: event.thread_id,
                },
            ]
            ||| agenda == seq![
                Task::StepHit {
                    thread: state.engine.threads[event.thread_id],
                    process_id: event.process_id,
                    thread_id: event.thread_id,
                },
            ]
        }),
        state.call() is Nothing,
{
    reveal(State::next);
    lemma_only_task(state, Task::Dispatch { event });
    let tasks = session::dispatched(state.engine, event).1;
    assert(tasks + Seq::<Task>::empty() =~= tasks);
}

/// What is looked at ends with the event continued exactly once, too, whatever it turns out to be.
pub proof fn law_hits_are_continued_once(
    state: State,
    thread: Handle,
    process_id: u32,
    thread_id: u32,
    context: crate::system::ThreadContext,
    order: WalkOrder,
)
    ensures
        state.session.agenda == seq![Task::BreakpointHit { thread, process_id, thread_id }]
            ==> state.call() == (Call::GetContext { thread, part: ContextPart::Control })
            && continues(
            state.next(Reply::Context(context), order).session.agenda,
            process_id,
            thread_id,
        ),
        state.session.agenda == seq![Task::StepHit { thread, process_id, thread_id }]
            ==> state.call() == (Call::GetContext { thread, part: ContextPart::Debug })
            && continues(
            state.next(Reply::Context(context), order).session.agenda,
            process_id,
            thread_id,
        ),
{
    reveal(State::next);
    if state.session.agenda == seq![Task::BreakpointHit { thread, process_id, thread_id }] {
        lemma_only_task(state, Task::BreakpointHit { thread, process_id, thread_id });
        let tasks = session::breakpoint_hit(
            state.engine,
            thread,
            process_id,
            thread_id,
            context.eip,
        );
        assert(tasks + Seq::<Task>::empty() =~= tasks);
    }
    if state.session.agenda == seq![Task::StepHit { thread, process_id, thread_id }] {
        lemma_only_task(state, Task::StepHit { thread, process_id, thread_id });
        let tasks = state.next(Reply::Context(context), order).session.agenda;
        assert(tasks.len() == 6);
    }
}

/// The start of a process tells where its image lies, in 32 bits, and has every breakpoint looked
/// at anew; its file is closed, the first thread gets the slots, and nothing else changes.
pub proof fn law_process_start(
    state: State,
    event: DebugEvent,
    image_base: u64,
    file: Handle,
    order: WalkOrder,
)
    requires
        handling(state, event),
        event.kind == (EventKind::CreateProcess { image_base, file }),
    ensures
        ({
            let after = state.next(Reply::Nothing, order);
            let before = state.engine;
            let closing = if file.value == 0 || file.value == -1 {
                Seq::<Task>::empty()
            } else {
                seq![Task::CloseHandle { handle: file }]
            };
            let slots = if before.threads.contains_key(event.thread_id) {
                debug_engine::slot_tasks(
                    before.threads[event.thread_id],
                    before.hardware_breakpoints,
                )
            } else {
                Seq::empty()
            };
            &&& after.engine.dirty
            &&& after.engine.symbols.image_base is Some
            &&& after.engine.symbols.image_base->0 == image_base % 0x1_0000_0000
            &&& after.engine.symbols.va == before.symbols.va
            &&& after.engine.symbols.rva == before.symbols.rva
            &&& (EngineView { symbols: before.symbols, dirty: before.dirty, ..after.engine })
                == before
            &&& after.controller == state.controller
            &&& after.session.agenda == closing + slots + seq![
                Task::Resume { process_id: event.process_id, thread_id: event.thread_id },
                Task::WaitEvent,
            ]
        }),
{
    reveal(State::next);
    lemma_only_task(state, Task::Dispatch { event });
    let after = state.next(Reply::Nothing, order);
    let tasks = session::dispatched(state.engine, event).1;
    assert(tasks + Seq::<Task>::empty() =~= tasks);
}

/// A new thread is known from then on and gets the slots, and what fails in that costs only that;
/// one that comes without a handle is opened first.
pub proof fn law_thread_start(state: State, event: DebugEvent, thread: Handle, order: WalkOrder)
    requires
        handling(state, event),
        event.kind == (EventKind::CreateThread { thread }),
    ensures
        ({
            let after = state.next(Reply::Nothing, order);
            let before = state.engine;
            let on = seq![
                Task::Resume { process_id: event.process_id, thread_id: event.thread_id },
                Task::WaitEvent,
            ];
            &&& after.controller == state.controller
            &&& thread.value != 0 && thread.value != -1 ==> {
                &&& after.engine == (EngineView {
                    threads: before.threads.insert(event.thread_id, thread),
                    ..before
                })
                &&& after.session.agenda == debug_engine::slot_tasks(
                    thread,
                    before.hardware_breakpoints,
                ) + (seq![Task::Catch] + on)
            }
            &&& thread.value == 0 || thread.value == -1 ==> {
                &&& after.engine == before
                &&& after.session.agenda == seq![Task::OpenThread { thread_id: event.thread_id }]
                    + on
                &&& after.call() == (Call::OpenThread { thread_id: event.thread_id })
            }
        }),
{
    reveal(State::next);
    lemma_only_task(state, Task::Dispatch { event });
    let after = state.next(Reply::Nothing, order);
    let on = seq![
        Task::Resume { process_id: event.process_id, thread_id: event.thread_id },
        Task::WaitEvent,
    ];
    let tasks = session::dispatched(state.engine, event).1;
    assert(tasks + Seq::<Task>::empty() =~= tasks);
    let slots = debug_engine::slot_tasks(thread, state.engine.hardware_breakpoints);
    assert(slots.push(Task::Catch) + on =~= slots + (seq![Task::Catch] + on));
}

/// A thread that was opened is known from then on and gets the slots; one that could not be opened
/// is passed over, and the session goes on.
pub proof fn law_opened_threads(
    state: State,
    rest: Seq<Task>,
    thread_id: u32,
    thread: Handle,
    error: String,
    order: WalkOrder,
)
    requires
        state.session.agenda == seq![Task::OpenThread { thread_id }] + rest,
        rest.len() > 0,
    ensures
        thread.value != 0 && thread.value != -1 ==> ({
            let after = state.next(Reply::Opened(thread), order);
            &&& after.engine == (EngineView {
                threads: state.engine.threads.insert(thread_id, thread),
                ..state.engine
            })
            &&& after.session.agenda == debug_engine::slot_tasks(
                thread,
                state.engine.hardware_breakpoints,
            ) + rest
            &&& after.controller == state.controller
        }),
        ({
            let after = state.next(Reply::Failed(error), order);
            &&& after.engine == state.engine
            &&& after.session.agenda == rest
            &&& after.controller == state.controller
        }),
        thread.value == 0 || thread.value == -1 ==> ({
            let after = state.next(Reply::Opened(thread), order);
            &&& after.engine == state.engine
            &&& after.session.agenda == rest
        }),
{
    reveal(State::next);
    assert(state.session.agenda[0] == Task::OpenThread { thread_id });
    assert(state.session.agenda.drop_first() =~= rest);
    assert(Seq::<Task>::empty() + rest =~= rest);
}

/// A thread that exits is forgotten, and its handle closed; other threads stay known.
pub proof fn law_thread_exit(state: State, event: DebugEvent, other: u32, order: WalkOrder)
    requires
        handling(state, event),
        event.kind is ExitThread,
        other != event.thread_id,
    ensures
        ({
            let after = state.next(Reply::Nothing, order);
            let before = state.engine;
            let handle = before.threads[event.thread_id];
            let on = seq![
                Task::Resume { process_id: event.process_id, thread_id: event.thread_id },
                Task::WaitEvent,
            ];
            &&& !after.engine.threads.contains_key(event.thread_id)
            &&& after.engine.threads.contains_key(other) == before.threads.contains_key(other)
            &&& before.threads.contains_key(other) ==> after.engine.threads[other]
                == before.threads[other]
            &&& (EngineView { threads: before.threads, ..after.engine }) == before
            &&& after.controller == state.controller
            &&& before.threads.contains_key(event.thread_id) && handle.value != 0 && handle.value
                != -1 ==> after.session.agenda == seq![Task::CloseHandle { handle }] + on
            &&& !before.threads.contains_key(event.thread_id) || handle.value == 0 || handle.value
                == -1 ==> after.session.agenda == on
        }),
{
    reveal(State::next);
    lemma_only_task(state, Task::Dispatch { event });
    let after = state.next(Reply::Nothing, order);
    let tasks = session::dispatched(state.engine, event).1;
    assert(tasks + Seq::<Task>::empty() =~= tasks);
    assert(Seq::<Task>::empty() + session::go_on(event.process_id, event.thread_id)
        =~= session::go_on(event.process_id, event.thread_id));
}

/// The exit of the process is told to the client as what it is, and ends the session: nothing is
/// continued or waited for any more.
pub proof fn law_process_exit(state: State, event: DebugEvent, first: WalkOrder, second: WalkOrder)
    requires
        handling(state, event),
        event.kind is ExitProcess,
    ensures
        ({
            let told = state.next(Reply::Nothing, first).next(Reply::Nothing, second);
            &&& told.session.agenda == seq![Task::EndSession]
            &&& told.controller.last_stop_reason == Some(StopReason::ProcessExit)
            &&& told.controller.last_stop_thread_id == Some(event.thread_id)
            &&& told.engine == state.engine
        }),
{
    reveal(State::next);
    lemma_only_task(state, Task::Dispatch { event });
    let seen = state.next(Reply::Nothing, first);
    assert(seen.session.agenda =~= seq![
        Task::NotifyStop { reason: StopReason::ProcessExit, thread_id: event.thread_id },
        Task::EndSession,
    ]);
    assert(seen.session.agenda.drop_first() =~= seq![Task::EndSession]);
    let told = seen.next(Reply::Nothing, second);
    assert(told.session.agenda =~= seq![Task::EndSession]);
}

/// An event that is none of the debugger's business changes nothing and is continued at once: any
/// other event, any exception but the two that breakpoints and steps raise, and any exception of a
/// thread that is not known.
pub proof fn law_other_events_pass(state: State, event: DebugEvent, order: WalkOrder)
    requires
        handling(state, event),
        event.kind is Other || (event.kind is Exception && (!state.engine.threads.contains_key(
            event.thread_id,
        ) || (event.kind->Exception_code != 0x8000_0003 && event.kind->Exception_code
            != 0x8000_0004))),
    ensures
        ({
            let after = state.next(Reply::Nothing, order);
            &&& after.engine == state.engine
            &&& after.controller == state.controller
            &&& after.session.agenda == seq![
                Task::Resume { process_id: event.process_id, thread_id: event.thread_id },
                Task::WaitEvent,
            ]
        }),
{
    reveal(State::next);
    lemma_only_task(state, Task::Dispatch { event });
    let tasks = session::dispatched(state.engine, event).1;
    assert(tasks + Seq::<Task>::empty() =~= tasks);
}

/// The two exceptions that breakpoints and steps raise, on a thread that is known, are looked at.
/// Only where a lifted breakpoint waits to be written again is a step the end of that.
pub proof fn law_exceptions_are_looked_at(state: State, event: DebugEvent, order: WalkOrder)
    requires
        handling(state, event),
        event.kind is Exception,
        state.engine.threads.contains_key(event.thread_id),
    ensures
        ({
            let after = state.next(Reply::Nothing, order);
            let thread = state.engine.threads[event.thread_id];
            let process_id = event.process_id;
            let thread_id = event.thread_id;
            &&& event.kind->Exception_code == 0x8000_0003 ==> {
                &&& after.session.agenda == seq![
                    Task::BreakpointHit { thread, process_id, thread_id },
                ]
                &&& after.engine == state.engine
            }
            &&& event.kind->Exception_code == 0x8000_0004 && state.engine.pending_reinsert is None
                ==> {
                &&& after.session.agenda == seq![Task::StepHit { thread, process_id, thread_id }]
                &&& after.engine == state.engine
            }
            &&& event.kind->Exception_code == 0x8000_0004 && state.engine.pending_reinsert is Some
                ==> {
                &&& after.session.agenda == seq![
                    Task::EditContext { thread, edit: Edit::ClearTrap },
                    Task::ReinsertBreakpoint { address: state.engine.pending_reinsert->0 },
                    Task::TakeCommand { thread_id },
                    Task::Resume { process_id, thread_id },
                    Task::WaitEvent,
                ]
                &&& after.engine.pending_reinsert is None
            }
            &&& after.controller == state.controller
        }),
{
    reveal(State::next);
    lemma_only_task(state, Task::Dispatch { event });
    let tasks = session::dispatched(state.engine, event).1;
    assert(tasks + Seq::<Task>::empty() =~= tasks);
    if event.kind->Exception_code == 0x8000_0004 && state.engine.pending_reinsert is Some {
        assert(tasks =~= seq![
            Task::EditContext {
                thread: state.engine.threads[event.thread_id],
                edit: Edit::ClearTrap,
            },
            Task::ReinsertBreakpoint { address: state.engine.pending_reinsert->0 },
            Task::TakeCommand { thread_id: event.thread_id },
            Task::Resume { process_id: event.process_id, thread_id: event.thread_id },
            Task::WaitEvent,
        ]);
    }
}

/// A session starts its target, remembers the process and its first thread, tells the controller,
/// and waits for events; a target that cannot be started ends it with the reason.
pub proof fn law_session_start(
    state: State,
    process: Handle,
    thread: Handle,
    thread_id: u32,
    error: String,
    order: WalkOrder,
)
    requires
        state.session.agenda == seq![Task::Spawn],
    ensures
        state.call() is CreateProcess,
        ({
            let after = state.next(Reply::Spawned { process, thread, thread_id }, order);
            &&& after.engine == (EngineView {
                process,
                threads: state.engine.threads.insert(thread_id, thread),
                ..state.engine
            })
            &&& after.controller.is_active
            &&& after.controller.pending_command == state.controller.pending_command
            &&& after.session.launch == (Launch { process, thread })
            &&& after.session.agenda == seq![Task::WaitEvent]
            &&& after.call() is WaitForDebugEvent
        }),
        ({
            let after = state.next(Reply::Failed(error), order);
            &&& !after.running()
            &&& after.session.outcome == Some(
                Err::<(), Seq<char>>("Could not spawn debugee: "@ + error@),
            )
            &&& after.engine == state.engine
            &&& after.controller == state.controller
        }),
{
    reveal(State::next);
    lemma_only_task(state, Task::Spawn);
    let after = state.next(Reply::Spawned { process, thread, thread_id }, order);
    assert(after.session.agenda =~= seq![Task::WaitEvent]);
}

/// Every event is handled after the breakpoints were brought in line with what is requested, and
/// where events cannot be waited for any more, the session ends.
pub proof fn law_events_come_after_a_sync(
    state: State,
    event: DebugEvent,
    error: String,
    order: WalkOrder,
)
    requires
        state.session.agenda == seq![Task::WaitEvent],
    ensures
        state.call() is WaitForDebugEvent,
        state.next(Reply::Event(event), order).session.agenda == seq![
            Task::Sync,
            Task::Dispatch { event },
        ],
        state.next(Reply::Event(event), order).engine == state.engine,
        state.next(Reply::Failed(error), order).session.agenda == seq![Task::EndSession],
        state.next(Reply::Failed(error), order).session.outcome == state.session.outcome,
{
    reveal(State::next);
    lemma_only_task(state, Task::WaitEvent);
    assert(state.next(Reply::Event(event), order).session.agenda =~= seq![
        Task::Sync,
        Task::Dispatch { event },
    ]);
    assert(state.next(Reply::Failed(error), order).session.agenda =~= seq![Task::EndSession]);
}

/// Whether an engine that counts as clean holds the slots of the addresses that are requested, as
/// far as they are known.
pub open spec fn clean_means_current(engine: EngineView) -> bool {
    !engine.dirty ==> engine.hardware_breakpoints == engine.desired_hardware()
}

/// An engine that counts as clean is in line with what is requested, in every state that a session
/// can come to: whenever the image base changes, it does not count as clean any more, and only a
/// sync makes it count as clean again.
pub proof fn law_clean_engines_are_current(state: State, reply: Reply, order: WalkOrder)
    requires
        state.running(),
        clean_means_current(state.engine),
    ensures
        clean_means_current(state.next(reply, order).engine),
        state.engine.dirty && !(state.session.agenda[0] is Sync || state.session.agenda[0]
            is SyncLeniently) ==> state.next(reply, order).engine.dirty,
        state.next(reply, order).engine.requested == state.engine.requested,
        !(state.session.agenda[0] is Dispatch) ==> state.next(reply, order).engine.symbols
            == state.engine.symbols,
        state.next(reply, order).engine.symbols != state.engine.symbols ==> state.next(
            reply,
            order,
        ).engine.dirty,
        state.next(reply, order).engine.hardware_breakpoints != state.engine.hardware_breakpoints
            ==> state.session.agenda[0] is Sync || state.session.agenda[0] is SyncLeniently,
{
    reveal(State::next);
    let engine = state.engine;
    let after = state.next(reply, order).engine;
    let task = state.session.agenda[0];
    lemma_perform_keeps_requests(engine, task, reply);
    if after.symbols == engine.symbols && after.requested == engine.requested {
        assert(after.desired() == engine.desired());
        assert(after.desired_hardware() =~= engine.desired_hardware());
    }
}

/// What the engine does for its own tasks has nothing to do with what is requested.
proof fn lemma_perform_keeps_requests(engine: EngineView, task: Task, reply: Reply)
    ensures
        ({
            let after = engine.perform_spec(task, reply).0;
            &&& after.requested == engine.requested
            &&& after.symbols == engine.symbols
            &&& after.dirty == engine.dirty
            &&& after.hardware_breakpoints == engine.hardware_breakpoints
            &&& after.threads == engine.threads
            &&& after.process == engine.process
        }),
{
}

/// A sync makes the slots those of the first requested addresses, and the engine clean, and it is
/// the only thing that does.
pub proof fn law_syncs_clean_the_engine(state: State, rest: Seq<Task>, order: WalkOrder)
    requires
        state.session.agenda == seq![Task::Sync] + rest || state.session.agenda == seq![
            Task::SyncLeniently,
        ] + rest,
        state.engine.dirty,
    ensures
        ({
            let after = state.next(Reply::Nothing, order).engine;
            &&& !after.dirty
            &&& after.hardware_breakpoints == after.desired_hardware()
            &&& after.requested == state.engine.requested
            &&& after.symbols == state.engine.symbols
            &&& after.software_breakpoints == state.engine.software_breakpoints
        }),
{
    reveal(State::next);
    let after = state.next(Reply::Nothing, order).engine;
    assert(after.desired() == state.engine.desired());
    assert(after.desired_hardware() =~= state.engine.desired_hardware());
}

/// What fails in a lenient sync costs the rest of the sync and nothing behind it; a strict sync is
/// not guarded.
pub proof fn law_lenient_syncs_are_guarded(state: State, rest: Seq<Task>, order: WalkOrder)
    ensures
        state.session.agenda == seq![Task::SyncLeniently] + rest ==> state.next(
            Reply::Nothing,
            order,
        ).session.agenda == state.engine.sync_spec(order).1 + (seq![Task::Catch] + rest),
        state.session.agenda == seq![Task::Sync] + rest ==> state.next(
            Reply::Nothing,
            order,
        ).session.agenda == state.engine.sync_spec(order).1 + rest,
{
    reveal(State::next);
    if state.session.agenda == seq![Task::SyncLeniently] + rest {
        assert(state.session.agenda[0] == Task::SyncLeniently);
        assert(state.session.agenda.drop_first() =~= rest);
        let plan = state.engine.sync_spec(order).1;
        assert(plan.push(Task::Catch) + rest =~= plan + (seq![Task::Catch] + rest));
    }
    if state.session.agenda == seq![Task::Sync] + rest {
        assert(state.session.agenda[0] == Task::Sync);
        assert(state.session.agenda.drop_first() =~= rest);
    }
}

/// At its end a session closes every handle that it holds and that refers to something, and no
/// other: those of the threads that are known, and those of the process and the thread that it
/// started. Then it forgets the process.
pub proof fn law_ended_sessions_close_their_handles(
    state: State,
    handle: Handle,
    reply: Reply,
    order: WalkOrder,
)
    requires
        state.session.agenda == seq![Task::EndSession],
        state.engine.walked_by(order),
    ensures
        ({
            let after = state.next(reply, order);
            let agenda = after.session.agenda;
            &&& agenda.contains(Task::CloseHandle { handle }) <==> handle.value != 0
                && handle.value != -1 && (handle == state.session.launch.thread || handle
                == state.session.launch.process || exists|thread_id: u32| #[trigger]
                state.engine.threads.contains_key(thread_id)
                    && state.engine.threads[thread_id] == handle)
            &&& agenda.last() is Detach
            &&& !after.controller.is_active
            &&& after.engine.threads == Map::<u32, Handle>::empty()
        }),
{
    reveal(State::next);
    lemma_only_task(state, Task::EndSession);
    let threads = state.engine.threads;
    let closes = session::close_threads(threads, order.threads);
    let launch = state.session.launch;
    let agenda = closes + session::close(launch.thread) + session::close(launch.process) + seq![
        Task::Detach,
    ];
    let after = state.next(reply, order);
    assert(after.session.agenda =~= agenda);
    let close = Task::CloseHandle { handle };
    lemma_close_threads(threads, order.threads, handle);
    assert(agenda[agenda.len() - 1] is Detach);
    if agenda.contains(close) {
        let k = choose|k: int| 0 <= k < agenda.len() && agenda[k] == close;
        if k < closes.len() {
            assert(closes[k] == close);
            assert(closes.contains(close));
            let i = choose|i: int|
                0 <= i < order.threads.len() && threads[#[trigger] order.threads[i]] == handle;
            assert(order.threads.to_set().contains(order.threads[i]));
            assert(threads.contains_key(order.threads[i]));
        }
    }
    if handle.value != 0 && handle.value != -1 {
        if handle == launch.thread {
            assert(agenda[closes.len() as int] == close);
        }
        if handle == launch.process {
            assert(agenda[(closes.len() + session::close(launch.thread).len()) as int] == close);
        }
        if exists|thread_id: u32| #[trigger]
            threads.contains_key(thread_id) && threads[thread_id] == handle {
            let thread_id = choose|thread_id: u32| #[trigger]
                threads.contains_key(thread_id) && threads[thread_id] == handle;
            assert(order.threads.to_set().contains(thread_id));
            let i = choose|i: int| 0 <= i < order.threads.len() && order.threads[i] == thread_id;
            assert(threads[order.threads[i]] == handle);
            assert(closes.contains(close));
            let k = choose|k: int| 0 <= k < closes.len() && closes[k] == close;
            assert(agenda[k] == close);
        }
    }
}

/// Closing listed threads closes the handles of just those.
proof fn lemma_close_threads(threads: Map<u32, Handle>, keys: Seq<u32>, handle: Handle)
    ensures
        session::close_threads(threads, keys).contains(Task::CloseHandle { handle })
            <==> !handle.invalid() && exists|i: int|
            0 <= i < keys.len() && threads[#[trigger] keys[i]] == handle,
    decreases keys.len(),
{
    let closes = session::close_threads(threads, keys);
    let close = Task::CloseHandle { handle };
    if keys.len() == 0 {
        assert(!closes.contains(close));
    } else {
        let shorter = keys.drop_last();
        let earlier = session::close_threads(threads, shorter);
        let last = threads[keys.last()];
        lemma_close_threads(threads, shorter, handle);
        if closes.contains(close) {
            let k = choose|k: int| 0 <= k < closes.len() && closes[k] == close;
            if k < earlier.len() {
                assert(earlier[k] == close);
                assert(earlier.contains(close));
                let i = choose|i: int|
                    0 <= i < shorter.len() && threads[#[trigger] shorter[i]] == handle;
                assert(threads[keys[i]] == handle);
            } else {
                assert(threads[keys[keys.len() - 1]] == handle);
            }
        }
        if !handle.invalid() && exists|i: int|
            0 <= i < keys.len() && threads[#[trigger] keys[i]] == handle {
            let i = choose|i: int| 0 <= i < keys.len() && threads[#[trigger] keys[i]] == handle;
            if i < shorter.len() {
                assert(threads[shorter[i]] == handle);
                let k = choose|k: int| 0 <= k < earlier.len() && earlier[k] == close;
                assert(closes[k] == close);
            } else {
                assert(closes[earlier.len() as int] == close);
            }
        }
    }
}

/// The state with another agenda, another engine and another controller.
spec fn moved(
    state: State,
    agenda: Seq<Task>,
    engine: EngineView,
    controller: ControllerState,
) -> State {
    State { session: SessionView { agenda, ..state.session }, engine, controller }
}

/// One task that succeeds and does not change what was started.
proof fn lemma_step(state: State, task: Task, rest: Seq<Task>, reply: Reply, order: WalkOrder)
    requires
        state.session.agenda == seq![task] + rest,
        !(task is Spawn),
        ({
            let flow = session::effect(
                state.engine,
                state.controller,
                state.session.launch,
                task,
                reply,
                order,
            ).flow;
            flow is Next && (flow->Next_0 + rest).len() > 0
        }),
    ensures
        state.call() == task.call_spec(state.engine.process),
        ({
            let e = session::effect(
                state.engine,
                state.controller,
                state.session.launch,
                task,
                reply,
                order,
            );
            state.next(reply, order) == moved(
                state,
                e.flow->Next_0 + rest,
                e.engine,
                e.controller,
            )
        }),
{
    reveal(State::next);
    assert(state.session.agenda[0] == task);
    assert(state.session.agenda.drop_first() =~= rest);
}

/// What follows a stop, whatever it came from.
pub open spec fn waits_for_the_client(
    state: State,
    process_id: u32,
    thread_id: u32,
    reason: StopReason,
    command: DebugCommand,
    order: WalkOrder,
) -> bool {
    let commanded = state.next(Reply::Command(command), order);
    &&& state.controller.last_stop_reason == Some(reason)
    &&& state.controller.last_stop_thread_id == Some(thread_id)
    &&& state.call() is AwaitCommand
    &&& commanded.session.agenda.len() == 4
    &&& commanded.session.agenda[0] == (Task::ApplyCommand { thread_id, command })
    &&& commanded.session.agenda[1] is Sync || commanded.session.agenda[1] is SyncLeniently
    &&& commanded.session.agenda[2] == (Task::Resume { process_id, thread_id })
    &&& commanded.session.agenda[3] is WaitEvent
}

/// The end of every stop.
proof fn lemma_stop(
    state: State,
    reason: StopReason,
    process_id: u32,
    thread_id: u32,
    lenient: bool,
    command: DebugCommand,
    first: WalkOrder,
    second: WalkOrder,
)
    requires
        state.session.agenda == session::stop(reason, process_id, thread_id, lenient),
    ensures
        state.call() is Nothing,
        waits_for_the_client(
            state.next(Reply::Nothing, first),
            process_id,
            thread_id,
            reason,
            command,
            second,
        ),
        state.next(Reply::Nothing, first).engine == state.engine,
{
    let notify = Task::NotifyStop { reason, thread_id };
    let wait = Task::AwaitCommand { thread_id };
    let rest = state.session.agenda.skip(2);
    assert(state.session.agenda =~= seq![notify] + (seq![wait] + rest));
    lemma_step(state, notify, seq![wait] + rest, Reply::Nothing, first);
    let told = state.next(Reply::Nothing, first);
    assert(told.session.agenda =~= seq![wait] + rest);
    lemma_step(told, wait, rest, Reply::Command(command), second);
}

/// A thread that runs into a hardware slot stops for the client: its registers are read, the
/// record of the hit is cleared and nothing else, the client is told of a breakpoint, and the
/// debuggee is held until the client's command came and was carried out on the thread. This holds
/// whichever of the four slots was hit, and only after it is the event continued.
pub proof fn law_hardware_hits_stop(
    state: State,
    event: DebugEvent,
    seen: crate::system::ThreadContext,
    read: crate::system::ThreadContext,
    command: DebugCommand,
    orders: Seq<WalkOrder>,
)
    requires
        handling(state, event),
        event.kind == (EventKind::Exception { code: 0x8000_0004 }),
        state.engine.threads.contains_key(event.thread_id),
        state.engine.pending_reinsert is None,
        seen.dr6 & 0x1 != 0 || seen.dr6 & 0x2 != 0 || seen.dr6 & 0x4 != 0 || seen.dr6 & 0x8 != 0,
    ensures
        ({
            let thread = state.engine.threads[event.thread_id];
            let dispatched = state.next(Reply::Nothing, orders[0]);
            let looked = dispatched.next(Reply::Context(seen), orders[1]);
            let edited = looked.next(Reply::Context(read), orders[2]);
            let stored = edited.next(Reply::Done, orders[3]);
            let told = stored.next(Reply::Nothing, orders[4]);
            &&& state.call() is Nothing
            &&& dispatched.call() == (Call::GetContext { thread, part: ContextPart::Debug })
            &&& looked.call() == (Call::GetContext { thread, part: ContextPart::Debug })
            &&& edited.call() == (Call::SetContext {
                thread,
                context: crate::system::ThreadContext { dr6: 0, ..read },
            })
            &&& stored.call() is Nothing
            &&& waits_for_the_client(
                told,
                event.process_id,
                event.thread_id,
                StopReason::Breakpoint,
                command,
                orders[5],
            )
            &&& told.engine == state.engine
        }),
{
    crate::context::law_hits_of_every_slot(seen);
    lemma_step_hit(
        state,
        event,
        seen,
        read,
        Edit::ClearStatus,
        StopReason::Breakpoint,
        false,
        command,
        orders,
    );
}

/// A thread that stops after one instruction, and in no hardware slot, stops for the client: its
/// trap flag is cleared and nothing else, the client is told of a single step, and the debuggee
/// is held until the client's command came and was carried out on the thread.
pub proof fn law_single_steps_stop(
    state: State,
    event: DebugEvent,
    seen: crate::system::ThreadContext,
    read: crate::system::ThreadContext,
    command: DebugCommand,
    orders: Seq<WalkOrder>,
)
    requires
        handling(state, event),
        event.kind == (EventKind::Exception { code: 0x8000_0004 }),
        state.engine.threads.contains_key(event.thread_id),
        state.engine.pending_reinsert is None,
        seen.dr6 % 16 == 0,
    ensures
        ({
            let thread = state.engine.threads[event.thread_id];
            let dispatched = state.next(Reply::Nothing, orders[0]);
            let looked = dispatched.next(Reply::Context(seen), orders[1]);
            let edited = looked.next(Reply::Context(read), orders[2]);
            let stored = edited.next(Reply::Done, orders[3]);
            let told = stored.next(Reply::Nothing, orders[4]);
            &&& state.call() is Nothing
            &&& dispatched.call() == (Call::GetContext { thread, part: ContextPart::Debug })
            &&& looked.call() == (Call::GetContext { thread, part: ContextPart::Control })
            &&& edited.call() == (Call::SetContext {
                thread,
                context: crate::system::ThreadContext { eflags: read.eflags & !0x100u32, ..read },
            })
            &&& stored.call() is Nothing
            &&& waits_for_the_client(
                told,
                event.process_id,
                event.thread_id,
                StopReason::SingleStep,
                command,
                orders[5],
            )
            &&& told.engine == state.engine
        }),
{
    crate::context::law_hits_of_every_slot(seen);
    lemma_step_hit(
        state,
        event,
        seen,
        read,
        Edit::ClearTrap,
        StopReason::SingleStep,
        true,
        command,
        orders,
    );
}

/// A step that is no end of a lifted breakpoint, from its event to the command.
proof fn lemma_step_hit(
    state: State,
    event: DebugEvent,
    seen: crate::system::ThreadContext,
    read: crate::system::ThreadContext,
    edit: Edit,
    reason: StopReason,
    lenient: bool,
    command: DebugCommand,
    orders: Seq<WalkOrder>,
)
    requires
        handling(state, event),
        event.kind == (EventKind::Exception { code: 0x8000_0004 }),
        state.engine.threads.contains_key(event.thread_id),
        state.engine.pending_reinsert is None,
        if crate::context::slot_hit(seen) {
            edit == Edit::ClearStatus && reason == StopReason::Breakpoint && !lenient
        } else {
            edit == Edit::ClearTrap && reason == StopReason::SingleStep && lenient
        },
    ensures
        ({
            let thread = state.engine.threads[event.thread_id];
            let dispatched = state.next(Reply::Nothing, orders[0]);
            let looked = dispatched.next(Reply::Context(seen), orders[1]);
            let edited = looked.next(Reply::Context(read), orders[2]);
            let stored = edited.next(Reply::Done, orders[3]);
            let told = stored.next(Reply::Nothing, orders[4]);
            &&& state.call() is Nothing
            &&& dispatched.call() == (Call::GetContext { thread, part: ContextPart::Debug })
            &&& looked.call() == (Call::GetContext { thread, part: edit.part_spec() })
            &&& edited.call() == (Call::SetContext { thread, context: edit.applied(read) })
            &&& stored.call() is Nothing
            &&& waits_for_the_client(
                told,
                event.process_id,
                event.thread_id,
                reason,
                command,
                orders[5],
            )
            &&& told.engine == state.engine
        }),
{
    let thread_id = event.thread_id;
    let process_id = event.process_id;
    let thread = state.engine.threads[thread_id];
    let none = Seq::<Task>::empty();
    let dispatch = Task::Dispatch { event };
    let hit = Task::StepHit { thread, process_id, thread_id };
    let change = Task::EditContext { thread, edit };
    let store = Task::StoreContext { thread, context: edit.applied(read) };
    let stop = session::stop(reason, process_id, thread_id, lenient);
    assert(state.session.agenda =~= seq![dispatch] + none);
    lemma_step(state, dispatch, none, Reply::Nothing, orders[0]);
    let dispatched = state.next(Reply::Nothing, orders[0]);
    assert(dispatched.session.agenda =~= seq![hit] + none);
    lemma_step(dispatched, hit, none, Reply::Context(seen), orders[1]);
    let looked = dispatched.next(Reply::Context(seen), orders[1]);
    assert(looked.session.agenda =~= seq![change] + stop);
    lemma_step(looked, change, stop, Reply::Context(read), orders[2]);
    let edited = looked.next(Reply::Context(read), orders[2]);
    assert(edited.session.agenda =~= seq![store] + stop);
    lemma_step(edited, store, stop, Reply::Done, orders[3]);
    let stored = edited.next(Reply::Done, orders[3]);
    assert(stored.session.agenda =~= stop);
    lemma_stop(stored, reason, process_id, thread_id, lenient, command, orders[4], orders[5]);
}

/// A thread that runs into a temporary breakpoint stops for the client: the byte that the
/// breakpoint covered is written back in full, the breakpoint is forgotten, the thread is set back
/// to its address, the client is told of a breakpoint, and the debuggee is held until the
/// client's command came and was carried out on the thread.
#[verifier::rlimit(40)]
pub proof fn law_temporary_hits_stop(
    state: State,
    event: DebugEvent,
    seen: crate::system::ThreadContext,
    protection: u32,
    lifted: u32,
    flushed: Reply,
    read: crate::system::ThreadContext,
    command: DebugCommand,
    orders: Seq<WalkOrder>,
)
    requires
        handling(state, event),
        event.kind == (EventKind::Exception { code: 0x8000_0003 }),
        state.engine.threads.contains_key(event.thread_id),
        seen.eip > 0,
        read.eip > 0,
        state.engine.software_breakpoints.contains_key((seen.eip - 1) as u32),
        state.engine.software_breakpoints[(seen.eip - 1) as u32].temporary,
        flushed is Done || flushed is Failed,
    ensures
        ({
            let thread = state.engine.threads[event.thread_id];
            let process = state.engine.process;
            let address = (seen.eip - 1) as u32;
            let byte = state.engine.software_breakpoints[address].original;
            let s1 = state.next(Reply::Nothing, orders[0]);
            let s2 = s1.next(Reply::Context(seen), orders[1]);
            let s3 = s2.next(Reply::Nothing, orders[2]);
            let s4 = s3.next(Reply::Protection(protection), orders[3]);
            let s5 = s4.next(Reply::Count(1), orders[4]);
            let s6 = s5.next(Reply::Protection(lifted), orders[5]);
            let s7 = s6.next(flushed, orders[6]);
            let s8 = s7.next(Reply::Context(read), orders[7]);
            let s9 = s8.next(Reply::Done, orders[8]);
            let told = s9.next(Reply::Nothing, orders[9]);
            &&& s1.call() == (Call::GetContext { thread, part: ContextPart::Control })
            &&& s2.call() is Nothing
            &&& s3.call() == (Call::Protect { process, address, protection: 0x40 })
            &&& s4.call() == (Call::WriteByte { process, address, byte })
            &&& s5.call() == (Call::Protect { process, address, protection })
            &&& s6.call() == (Call::FlushInstructionCache { process, address })
            &&& s7.call() == (Call::GetContext { thread, part: ContextPart::Control })
            &&& s8.call() == (Call::SetContext {
                thread,
                context: crate::system::ThreadContext { eip: (read.eip - 1) as u32, ..read },
            })
            &&& s9.call() is Nothing
            &&& waits_for_the_client(
                told,
                event.process_id,
                event.thread_id,
                StopReason::Breakpoint,
                command,
                orders[10],
            )
            &&& told.engine == (EngineView {
                software_breakpoints: state.engine.software_breakpoints.remove(address),
                ..state.engine
            })
        }),
{
    let thread_id = event.thread_id;
    let process_id = event.process_id;
    let thread = state.engine.threads[thread_id];
    let address = (seen.eip - 1) as u32;
    let original = state.engine.software_breakpoints[address].original;
    let none = Seq::<Task>::empty();
    let dispatch = Task::Dispatch { event };
    let hit = Task::BreakpointHit { thread, process_id, thread_id };
    let clear = Task::ClearBreakpoint { address };
    let back = Task::EditContext { thread, edit: Edit::StepBack };
    let stop = session::stop(StopReason::Breakpoint, process_id, thread_id, false);
    let rest = seq![back] + stop;
    let patch = Patch::Clear { original };
    let unprotect = Task::Patch(
        PatchStep::Unprotect { address, goal: PatchGoal::Clear { original } },
    );
    let overwrite = Task::Patch(PatchStep::Write { address, protection, patch });
    let reprotect = Task::Patch(PatchStep::Reprotect { address, protection, patch });
    let flush = Task::Patch(PatchStep::Flush { address, patch });
    assert(state.session.agenda =~= seq![dispatch] + none);
    lemma_step(state, dispatch, none, Reply::Nothing, orders[0]);
    let s1 = state.next(Reply::Nothing, orders[0]);
    assert(s1.session.agenda =~= seq![hit] + none);
    lemma_step(s1, hit, none, Reply::Context(seen), orders[1]);
    let s2 = s1.next(Reply::Context(seen), orders[1]);
    assert(s2.session.agenda =~= seq![clear] + rest);
    lemma_step(s2, clear, rest, Reply::Nothing, orders[2]);
    let s3 = s2.next(Reply::Nothing, orders[2]);
    assert(s3.session.agenda =~= seq![unprotect] + rest);
    lemma_step(s3, unprotect, rest, Reply::Protection(protection), orders[3]);
    let s4 = s3.next(Reply::Protection(protection), orders[3]);
    assert(s4.session.agenda =~= seq![overwrite] + rest);
    lemma_step(s4, overwrite, rest, Reply::Count(1), orders[4]);
    let s5 = s4.next(Reply::Count(1), orders[4]);
    assert(s5.session.agenda =~= seq![reprotect] + rest);
    lemma_step(s5, reprotect, rest, Reply::Protection(lifted), orders[5]);
    let s6 = s5.next(Reply::Protection(lifted), orders[5]);
    assert(s6.session.agenda =~= seq![flush] + rest);
    lemma_step(s6, flush, rest, flushed, orders[6]);
    let s7 = s6.next(flushed, orders[6]);
    assert(s7.session.agenda =~= seq![back] + stop);
    lemma_step(s7, back, stop, Reply::Context(read), orders[7]);
    let s8 = s7.next(Reply::Context(read), orders[7]);
    let store = Task::StoreContext { thread, context: Edit::StepBack.applied(read) };
    assert(s8.session.agenda =~= seq![store] + stop);
    lemma_step(s8, store, stop, Reply::Done, orders[8]);
    let s9 = s8.next(Reply::Done, orders[8]);
    assert(s9.session.agenda =~= stop);
    lemma_stop(
        s9,
        StopReason::Breakpoint,
        process_id,
        thread_id,
        false,
        command,
        orders[9],
        orders[10],
    );
}

/// What follows when a thread ran into a breakpoint instruction: one that is not on record is
/// passed over; one that is has its byte put back and the thread set back to it. A lasting one is
/// then to be written again after one instruction, and stays on record.
pub proof fn law_breakpoint_instructions(
    state: State,
    thread: Handle,
    process_id: u32,
    thread_id: u32,
    seen: crate::system::ThreadContext,
    order: WalkOrder,
)
    requires
        state.session.agenda == seq![Task::BreakpointHit { thread, process_id, thread_id }],
        seen.eip > 0,
    ensures
        ({
            let after = state.next(Reply::Context(seen), order);
            let address = (seen.eip - 1) as u32;
            let on = seq![Task::Resume { process_id, thread_id }, Task::WaitEvent];
            let records = state.engine.software_breakpoints;
            &&& after.engine == state.engine
            &&& after.controller == state.controller
            &&& !records.contains_key(address) ==> after.session.agenda == on
            &&& records.contains_key(address) && !records[address].temporary
                ==> after.session.agenda == seq![
                Task::LiftBreakpoint { address },
                Task::EditContext { thread, edit: Edit::StepBack },
                Task::ScheduleReinsert { address },
                Task::EditContext { thread, edit: Edit::EnableTrap },
            ] + on
            &&& records.contains_key(address) && records[address].temporary
                ==> after.session.agenda == seq![
                Task::ClearBreakpoint { address },
                Task::EditContext { thread, edit: Edit::StepBack },
                Task::NotifyStop { reason: StopReason::Breakpoint, thread_id },
                Task::AwaitCommand { thread_id },
                Task::Sync,
            ] + on
        }),
{
    let hit = Task::BreakpointHit { thread, process_id, thread_id };
    let none = Seq::<Task>::empty();
    assert(state.session.agenda =~= seq![hit] + none);
    lemma_step(state, hit, none, Reply::Context(seen), order);
    let tasks = session::breakpoint_hit(state.engine, thread, process_id, thread_id, seen.eip);
    assert(tasks + none =~= tasks);
    let address = (seen.eip - 1) as u32;
    let on = seq![Task::Resume { process_id, thread_id }, Task::WaitEvent];
    let records = state.engine.software_breakpoints;
    if records.contains_key(address) && records[address].temporary {
        assert(tasks =~= seq![
            Task::ClearBreakpoint { address },
            Task::EditContext { thread, edit: Edit::StepBack },
            Task::NotifyStop { reason: StopReason::Breakpoint, thread_id },
            Task::AwaitCommand { thread_id },
            Task::Sync,
        ] + on);
    }
}

/// The breakpoint that waits to be written again is the one that was lifted, and there is one at
/// most.
pub proof fn law_lifted_breakpoints_are_remembered(
    state: State,
    rest: Seq<Task>,
    address: Address,
    order: WalkOrder,
)
    requires
        state.session.agenda == seq![Task::ScheduleReinsert { address }] + rest,
        rest.len() > 0,
    ensures
        ({
            let after = state.next(Reply::Nothing, order);
            &&& after.session.agenda == rest
            &&& after.engine.pending_reinsert == Some(address)
            &&& (EngineView { pending_reinsert: state.engine.pending_reinsert, ..after.engine })
                == state.engine
            &&& after.controller == state.controller
        }),
{
    lemma_step(state, Task::ScheduleReinsert { address }, rest, Reply::Nothing, order);
    assert(Seq::<Task>::empty() + rest =~= rest);
}

/// What tasks that only ask something of the system ask: an event is continued for its own process
/// and thread, a handle that is closed is the one meant, and what changes nothing but the agenda
/// asks for nothing.
pub proof fn law_calls_of_tasks(
    process: Handle,
    handle: Handle,
    process_id: u32,
    thread_id: u32,
    context: crate::system::ThreadContext,
)
    ensures
        (Task::Resume { process_id, thread_id }).call_spec(process) == (Call::ContinueDebugEvent {
            process_id,
            thread_id,
        }),
        (Task::CloseHandle { handle }).call_spec(process) == (Call::CloseHandle { handle }),
        (Task::OpenThread { thread_id }).call_spec(process) == (Call::OpenThread { thread_id }),
        (Task::AwaitCommand { thread_id }).call_spec(process) is AwaitCommand,
        Task::WaitEvent.call_spec(process) is WaitForDebugEvent,
        Task::Spawn.call_spec(process) is CreateProcess,
        (Task::StoreContext { thread: handle, context }).call_spec(process) == (Call::SetContext {
            thread: handle,
            context,
        }),
        Task::Sync.call_spec(process) is Nothing,
        Task::SyncLeniently.call_spec(process) is Nothing,
        Task::EndSession.call_spec(process) is Nothing,
        Task::Detach.call_spec(process) is Nothing,
        Task::Catch.call_spec(process) is Nothing,
        (Task::TakeCommand { thread_id }).call_spec(process) is Nothing,
{
}

/// Letting the debuggee go on, closing a handle and passing a guard change nothing, whatever the
/// system replies.
pub proof fn law_going_on_changes_nothing(
    state: State,
    task: Task,
    rest: Seq<Task>,
    reply: Reply,
    order: WalkOrder,
)
    requires
        task is Resume || task is CloseHandle || task is Catch,
        state.session.agenda == seq![task] + rest,
        rest.len() > 0,
    ensures
        state.next(reply, order).session.agenda == rest,
        state.next(reply, order).engine == state.engine,
        state.next(reply, order).controller == state.controller,
        state.next(reply, order).session.outcome == state.session.outcome,
{
    lemma_step(state, task, rest, reply, order);
    assert(Seq::<Task>::empty() + rest =~= rest);
}

/// Setting a breakpoint takes these calls, in this order and no others: the page is made writable,
/// the one byte there is read, the breakpoint instruction is written over it, the page gets the
/// protection back that it had, and the instructions that the processor keeps are dropped. Only
/// then is the breakpoint on record, with the byte that was read, whether dropping worked or not.
#[verifier::rlimit(40)]
pub proof fn law_setting_a_breakpoint_call_by_call(
    state: State,
    rest: Seq<Task>,
    address: Address,
    temporary: bool,
    protection: u32,
    bytes: Vec<u8>,
    other: u32,
    flushed: Reply,
    orders: Seq<WalkOrder>,
)
    requires
        state.session.agenda == seq![Task::SetBreakpoint { address, temporary }] + rest,
        rest.len() > 0,
        state.engine.process.value != 0 && state.engine.process.value != -1,
        !state.engine.software_breakpoints.contains_key(address),
        bytes@.len() == 1,
        flushed is Done || flushed is Failed,
    ensures
        ({
            let process = state.engine.process;
            let s1 = state.next(Reply::Nothing, orders[0]);
            let s2 = s1.next(Reply::Protection(protection), orders[1]);
            let s3 = s2.next(Reply::Bytes(bytes), orders[2]);
            let s4 = s3.next(Reply::Count(1), orders[3]);
            let s5 = s4.next(Reply::Protection(other), orders[4]);
            let end = s5.next(flushed, orders[5]);
            &&& state.call() is Nothing
            &&& s1.call() == (Call::Protect { process, address, protection: 0x40 })
            &&& s2.call() == (Call::ReadMemory { process, address, count: 1 })
            &&& s3.call() == (Call::WriteByte { process, address, byte: 0xCC })
            &&& s4.call() == (Call::Protect { process, address, protection })
            &&& s5.call() == (Call::FlushInstructionCache { process, address })
            &&& s5.engine == state.engine
            &&& end.session.agenda == rest
            &&& end.engine == (EngineView {
                software_breakpoints: state.engine.software_breakpoints.insert(
                    address,
                    SoftwareBreakpoint { address, original: bytes@[0], temporary },
                ),
                ..state.engine
            })
            &&& end.controller == state.controller
        }),
{
    let original = bytes@[0];
    let set = Task::SetBreakpoint { address, temporary };
    let patch = Patch::Insert { original, temporary };
    let unprotect = Task::Patch(
        PatchStep::Unprotect { address, goal: PatchGoal::Insert { temporary } },
    );
    let read = Task::Patch(PatchStep::ReadOriginal { address, temporary, protection });
    let overwrite = Task::Patch(PatchStep::Write { address, protection, patch });
    let reprotect = Task::Patch(PatchStep::Reprotect { address, protection, patch });
    let flush = Task::Patch(PatchStep::Flush { address, patch });
    lemma_step(state, set, rest, Reply::Nothing, orders[0]);
    let s1 = state.next(Reply::Nothing, orders[0]);
    lemma_step(s1, unprotect, rest, Reply::Protection(protection), orders[1]);
    let s2 = s1.next(Reply::Protection(protection), orders[1]);
    lemma_step(s2, read, rest, Reply::Bytes(bytes), orders[2]);
    let s3 = s2.next(Reply::Bytes(bytes), orders[2]);
    lemma_step(s3, overwrite, rest, Reply::Count(1), orders[3]);
    let s4 = s3.next(Reply::Count(1), orders[3]);
    lemma_step(s4, reprotect, rest, Reply::Protection(other), orders[4]);
    let s5 = s4.next(Reply::Protection(other), orders[4]);
    lemma_step(s5, flush, rest, flushed, orders[5]);
    assert(Seq::<Task>::empty() + rest =~= rest);
}

/// Putting a byte under a breakpoint back, or a breakpoint over it once more, takes these calls, in
/// this order and no others: the page is made writable, the byte is written, the page gets the
/// protection back that it had, and the instructions that the processor keeps are dropped. What is
/// cleared is forgotten; what is lifted or written again stays on record.
#[verifier::rlimit(40)]
pub proof fn law_overwriting_a_byte_call_by_call(
    state: State,
    task: Task,
    rest: Seq<Task>,
    address: Address,
    protection: u32,
    other: u32,
    flushed: Reply,
    orders: Seq<WalkOrder>,
)
    requires
        task == (Task::ClearBreakpoint { address }) || task == (Task::LiftBreakpoint { address })
            || task == (Task::ReinsertBreakpoint { address }),
        state.session.agenda == seq![task] + rest,
        rest.len() > 0,
        state.engine.software_breakpoints.contains_key(address),
        flushed is Done || flushed is Failed,
    ensures
        ({
            let process = state.engine.process;
            let byte = if task is ReinsertBreakpoint {
                0xCCu8
            } else {
                state.engine.software_breakpoints[address].original
            };
            let s1 = state.next(Reply::Nothing, orders[0]);
            let s2 = s1.next(Reply::Protection(protection), orders[1]);
            let s3 = s2.next(Reply::Count(1), orders[2]);
            let s4 = s3.next(Reply::Protection(other), orders[3]);
            let end = s4.next(flushed, orders[4]);
            &&& state.call() is Nothing
            &&& s1.call() == (Call::Protect { process, address, protection: 0x40 })
            &&& s2.call() == (Call::WriteByte { process, address, byte })
            &&& s3.call() == (Call::Protect { process, address, protection })
            &&& s4.call() == (Call::FlushInstructionCache { process, address })
            &&& end.session.agenda == rest
            &&& end.engine == (if task is ClearBreakpoint {
                EngineView {
                    software_breakpoints: state.engine.software_breakpoints.remove(address),
                    ..state.engine
                }
            } else {
                state.engine
            })
            &&& end.controller == state.controller
        }),
{
    let original = state.engine.software_breakpoints[address].original;
    let goal = if task is ReinsertBreakpoint {
        PatchGoal::Reinsert
    } else {
        PatchGoal::Clear { original }
    };
    let patch = if task is ReinsertBreakpoint {
        Patch::Reinsert
    } else {
        Patch::Clear { original }
    };
    let unprotect = Task::Patch(PatchStep::Unprotect { address, goal });
    let overwrite = Task::Patch(PatchStep::Write { address, protection, patch });
    let reprotect = Task::Patch(PatchStep::Reprotect { address, protection, patch });
    let flush = Task::Patch(PatchStep::Flush { address, patch });
    lemma_step(state, task, rest, Reply::Nothing, orders[0]);
    let s1 = state.next(Reply::Nothing, orders[0]);
    assert(s1.session.agenda == seq![unprotect] + rest);
    lemma_step(s1, unprotect, rest, Reply::Protection(protection), orders[1]);
    let s2 = s1.next(Reply::Protection(protection), orders[1]);
    lemma_step(s2, overwrite, rest, Reply::Count(1), orders[2]);
    let s3 = s2.next(Reply::Count(1), orders[2]);
    lemma_step(s3, reprotect, rest, Reply::Protection(other), orders[3]);
    let s4 = s3.next(Reply::Protection(other), orders[3]);
    lemma_step(s4, flush, rest, flushed, orders[4]);
    assert(Seq::<Task>::empty() + rest =~= rest);
}

/// A breakpoint that is there already is not set again, one that is not there is neither cleared
/// nor lifted nor written again, and none is set without a process.
pub proof fn law_breakpoint_tasks_without_work(
    state: State,
    rest: Seq<Task>,
    task: Task,
    address: Address,
    temporary: bool,
    order: WalkOrder,
)
    requires
        state.session.agenda == seq![task] + rest,
        rest.len() > 0,
    ensures
        task == (Task::SetBreakpoint { address, temporary }) && state.engine.process.value != 0
            && state.engine.process.value != -1 && state.engine.software_breakpoints.contains_key(
            address,
        ) || (!state.engine.software_breakpoints.contains_key(address) && (task
            == (Task::ClearBreakpoint { address }) || task == (Task::LiftBreakpoint { address })
            || task == (Task::ReinsertBreakpoint { address }))) ==> ({
            let after = state.next(Reply::Nothing, order);
            &&& after.engine == state.engine
            &&& after.session.agenda == rest
            &&& after.controller == state.controller
        }),
        task == (Task::SetBreakpoint { address, temporary }) && (state.engine.process.value == 0
            || state.engine.process.value == -1) && session::caught(rest) is None ==> ({
            let after = state.next(Reply::Nothing, order);
            &&& !after.running()
            &&& after.session.outcome == Some(
                Err::<(), Seq<char>>("set_breakpoint: no process handle"@),
            )
        }),
{
    reveal(State::next);
    assert(state.session.agenda[0] == task);
    assert(state.session.agenda.drop_first() =~= rest);
    assert(Seq::<Task>::empty() + rest =~= rest);
}

/// A call that the system refuses fails its task, and the reason is the system's, behind the name
/// of what failed; the engine keeps what it had. Only dropping instructions may fail for nothing.
pub proof fn law_refused_calls_fail(
    engine: EngineView,
    address: Address,
    protection: u32,
    temporary: bool,
    patch: Patch,
    goal: PatchGoal,
    thread: Handle,
    edit: Edit,
    context: crate::system::ThreadContext,
    error: String,
)
    ensures
        ({
            let fails = |task: Task, what: Seq<char>|
                engine.perform_spec(task, Reply::Failed(error)) == (
                    engine,
                    Flow::Raise(what + error@),
                );
            &&& fails(
                Task::Patch(PatchStep::Unprotect { address, goal }),
                "VirtualProtectEx failed: "@,
            )
            &&& fails(
                Task::Patch(PatchStep::ReadOriginal { address, temporary, protection }),
                "ReadProcessMemory failed: "@,
            )
            &&& fails(
                Task::Patch(PatchStep::Write { address, protection, patch }),
                "WriteProcessMemory failed: "@,
            )
            &&& fails(
                Task::Patch(PatchStep::Reprotect { address, protection, patch }),
                "VirtualProtectEx restore failed: "@,
            )
            &&& edit.in_range() ==> fails(
                Task::EditContext { thread, edit },
                "Wow64GetThreadContext failed: "@,
            )
            &&& fails(
                Task::StoreContext { thread, context },
                "Wow64SetThreadContext failed: "@,
            )
            &&& fails(Task::StepOver { thread }, "Wow64GetThreadContext failed: "@)
            &&& fails(Task::StepOut { thread }, "Wow64GetThreadContext failed: "@)
            &&& fails(
                Task::StepOverOpcode { thread, ip: address },
                "ReadProcessMemory failed: "@,
            )
            &&& fails(Task::StepOutReturn { esp: address }, "ReadProcessMemory failed: "@)
        }),
        engine.perform_spec(
            Task::Patch(PatchStep::Flush { address, patch }),
            Reply::Failed(error),
        ) == engine.perform_spec(Task::Patch(PatchStep::Flush { address, patch }), Reply::Done),
{
}

/// A transfer that is short fails its task: a byte or an address that was not read in full, and a
/// byte that was not written, unless it is a breakpoint that is written once more.
pub proof fn law_short_transfers_fail(
    engine: EngineView,
    address: Address,
    protection: u32,
    temporary: bool,
    patch: Patch,
    thread: Handle,
    bytes: Vec<u8>,
    count: usize,
)
    ensures
        bytes@.len() != 1 ==> engine.perform_spec(
            Task::Patch(PatchStep::ReadOriginal { address, temporary, protection }),
            Reply::Bytes(bytes),
        ) == (engine, Flow::Raise("ReadProcessMemory: short read"@)),
        bytes@.len() != 1 ==> engine.perform_spec(
            Task::StepOverOpcode { thread, ip: address },
            Reply::Bytes(bytes),
        ) == (engine, Flow::Raise("ReadProcessMemory: short read"@)),
        bytes@.len() != 4 ==> engine.perform_spec(
            Task::StepOutReturn { esp: address },
            Reply::Bytes(bytes),
        ) == (engine, Flow::Raise("ReadProcessMemory: short read"@)),
        count != 1 && !(patch is Reinsert) ==> engine.perform_spec(
            Task::Patch(PatchStep::Write { address, protection, patch }),
            Reply::Count(count),
        ) == (engine, Flow::Raise("WriteProcessMemory: short write"@)),
        engine.perform_spec(
            Task::Patch(PatchStep::Write { address, protection, patch: Patch::Reinsert }),
            Reply::Count(count),
        ).1 is Next,
{
}

/// A failure of a look at registers ends the session with the reason, where nothing guards it.
pub proof fn law_failed_looks_end_the_session(
    state: State,
    thread: Handle,
    process_id: u32,
    thread_id: u32,
    error: String,
    order: WalkOrder,
)
    requires
        state.session.agenda == seq![Task::BreakpointHit { thread, process_id, thread_id }]
            || state.session.agenda == seq![Task::StepHit { thread, process_id, thread_id }],
    ensures
        !state.next(Reply::Failed(error), order).running(),
        state.next(Reply::Failed(error), order).session.outcome == Some(
            Err::<(), Seq<char>>("Wow64GetThreadContext failed: "@ + error@),
        ),
{
    reveal(State::next);
    lemma_only_task(state, state.session.agenda[0]);
    assert(state.session.agenda =~= seq![state.session.agenda[0]]);
}

/// What fails in setting the slots of one thread costs the rest of that thread's slots: behind
/// each of them there is a guard, and what comes behind all the threads is still done.
pub proof fn law_slot_failures_cost_one_thread(
    threads: Map<u32, Handle>,
    keys: Seq<u32>,
    slots: Seq<Option<Address>>,
    behind: Seq<Task>,
    i: int,
)
    requires
        0 <= i < debug_engine::thread_tasks(threads, keys, slots).len(),
        debug_engine::thread_tasks(threads, keys, slots)[i] is EditContext,
    ensures
        ({
            let plan = debug_engine::thread_tasks(threads, keys, slots) + behind;
            let left = session::caught(plan.skip(i + 1));
            &&& left is Some
            &&& left->0.len() >= behind.len()
            &&& left->0.skip(left->0.len() - behind.len()) == behind
        }),
    decreases keys.len(),
{
    if keys.len() > 0 {
        let earlier = debug_engine::thread_tasks(threads, keys.drop_last(), slots);
        let tasks = debug_engine::thread_tasks(threads, keys, slots);
        let last = threads[keys.last()];
        let plan = tasks + behind;
        if last.invalid() {
            law_slot_failures_cost_one_thread(threads, keys.drop_last(), slots, behind, i);
        } else {
            let group = debug_engine::slot_tasks(last, slots);
            let guarded = group.push(Task::Catch) + behind;
            assert(plan =~= earlier + guarded);
            if i < earlier.len() {
                assert(earlier[i] is EditContext);
                law_slot_failures_cost_one_thread(threads, keys.drop_last(), slots, guarded, i);
                let left = session::caught(plan.skip(i + 1))->0;
                let from = left.len() - guarded.len();
                assert(left.skip(left.len() - behind.len()) =~= left.skip(from).skip(5));
                assert(guarded.skip(5) =~= behind);
            } else {
                let k = i - earlier.len();
                let tail = group.skip(k + 1);
                assert(plan.skip(i + 1) =~= tail.push(Task::Catch) + behind);
                crate::session_laws::law_failures_are_contained(tail, behind);
                assert(behind.skip(0) =~= behind);
            }
        }
    }
}

/// A command for a thread that is not known fails, and the reason names the thread by its number in
/// decimal.
pub proof fn law_commands_need_their_thread(
    engine: EngineView,
    thread_id: u32,
    command: DebugCommand,
)
    requires
        !engine.threads.contains_key(thread_id),
    ensures
        engine.perform_spec(Task::ApplyCommand { thread_id, command }, Reply::Nothing) == (
            engine,
            Flow::Raise(
                "apply_command: missing thread handle for thread "@ + crate::text::numeral(
                    thread_id as nat,
                    10,
                ),
            ),
        ),
{
}

/// Stepping in takes these calls, in this order and no others: the control registers of the thread
/// are read, and written back with bit 8 of the flags set and nothing else changed.
pub proof fn law_stepping_in_call_by_call(
    state: State,
    rest: Seq<Task>,
    thread_id: u32,
    thread: Handle,
    context: crate::system::ThreadContext,
    orders: Seq<WalkOrder>,
)
    requires
        state.session.agenda == seq![
            Task::ApplyCommand { thread_id, command: DebugCommand::StepIn },
        ] + rest,
        rest.len() > 0,
        state.engine.threads.contains_key(thread_id),
        state.engine.threads[thread_id] == thread,
    ensures
        ({
            let s1 = state.next(Reply::Nothing, orders[0]);
            let s2 = s1.next(Reply::Context(context), orders[1]);
            let end = s2.next(Reply::Done, orders[2]);
            let written = crate::system::ThreadContext {
                eflags: context.eflags | 0x100u32,
                ..context
            };
            &&& state.call() is Nothing
            &&& s1.call() == (Call::GetContext { thread, part: ContextPart::Control })
            &&& s2.call() == (Call::SetContext { thread, context: written })
            &&& end.session.agenda == rest
            &&& end.engine == state.engine
            &&& end.controller == state.controller
        }),
{
    let apply = Task::ApplyCommand { thread_id, command: DebugCommand::StepIn };
    let edit = Task::EditContext { thread, edit: Edit::EnableTrap };
    let store = Task::StoreContext { thread, context: Edit::EnableTrap.applied(context) };
    lemma_step(state, apply, rest, Reply::Nothing, orders[0]);
    let s1 = state.next(Reply::Nothing, orders[0]);
    lemma_step(s1, edit, rest, Reply::Context(context), orders[1]);
    let s2 = s1.next(Reply::Context(context), orders[1]);
    lemma_step(s2, store, rest, Reply::Done, orders[2]);
    assert(Seq::<Task>::empty() + rest =~= rest);
}

/// Stepping over takes these calls, in this order and no others: the control registers of the thread
/// are read, then the one byte at the instruction pointer. Where that is 0xE8, which starts a
/// call of five bytes, a temporary breakpoint is set behind it; otherwise the trap flag is set.
pub proof fn law_stepping_over_call_by_call(
    state: State,
    rest: Seq<Task>,
    thread_id: u32,
    thread: Handle,
    context: crate::system::ThreadContext,
    bytes: Vec<u8>,
    behind: Address,
    orders: Seq<WalkOrder>,
)
    requires
        state.session.agenda == seq![
            Task::ApplyCommand { thread_id, command: DebugCommand::StepOver },
        ] + rest,
        rest.len() > 0,
        state.engine.threads.contains_key(thread_id),
        state.engine.threads[thread_id] == thread,
        bytes@.len() == 1,
        (behind - context.eip - 5) % 0x1_0000_0000 == 0,
    ensures
        ({
            let process = state.engine.process;
            let s1 = state.next(Reply::Nothing, orders[0]);
            let s2 = s1.next(Reply::Context(context), orders[1]);
            let end = s2.next(Reply::Bytes(bytes), orders[2]);
            &&& state.call() is Nothing
            &&& s1.call() == (Call::GetContext { thread, part: ContextPart::Control })
            &&& s2.call() == (Call::ReadMemory { process, address: context.eip, count: 1 })
            &&& end.engine == state.engine
            &&& end.controller == state.controller
            &&& bytes@[0] == 0xE8 ==> end.session.agenda == seq![
                Task::SetBreakpoint { address: behind, temporary: true },
            ] + rest
            &&& bytes@[0] != 0xE8 ==> end.session.agenda == seq![
                Task::EditContext { thread, edit: Edit::EnableTrap },
            ] + rest
        }),
{
    let apply = Task::ApplyCommand { thread_id, command: DebugCommand::StepOver };
    let over = Task::StepOver { thread };
    let opcode = Task::StepOverOpcode { thread, ip: context.eip };
    lemma_step(state, apply, rest, Reply::Nothing, orders[0]);
    let s1 = state.next(Reply::Nothing, orders[0]);
    lemma_step(s1, over, rest, Reply::Context(context), orders[1]);
    let s2 = s1.next(Reply::Context(context), orders[1]);
    lemma_step(s2, opcode, rest, Reply::Bytes(bytes), orders[2]);
    assert(((context.eip + 5) % 0x1_0000_0000) as u32 == behind);
}

/// Stepping out takes these calls, in this order and no others: the control registers of the thread
/// are read, then the four bytes at the stack pointer. A temporary breakpoint is set at the address
/// that they hold, the lowest byte first.
pub proof fn law_stepping_out_call_by_call(
    state: State,
    rest: Seq<Task>,
    thread_id: u32,
    thread: Handle,
    context: crate::system::ThreadContext,
    bytes: Vec<u8>,
    target: Address,
    orders: Seq<WalkOrder>,
)
    requires
        state.session.agenda == seq![
            Task::ApplyCommand { thread_id, command: DebugCommand::StepOut },
        ] + rest,
        rest.len() > 0,
        state.engine.threads.contains_key(thread_id),
        state.engine.threads[thread_id] == thread,
        bytes@.len() == 4,
        target == bytes@[0] + bytes@[1] * 0x100 + bytes@[2] * 0x1_0000 + bytes@[3] * 0x100_0000,
    ensures
        ({
            let process = state.engine.process;
            let s1 = state.next(Reply::Nothing, orders[0]);
            let s2 = s1.next(Reply::Context(context), orders[1]);
            let end = s2.next(Reply::Bytes(bytes), orders[2]);
            &&& state.call() is Nothing
            &&& s1.call() == (Call::GetContext { thread, part: ContextPart::Control })
            &&& s2.call() == (Call::ReadMemory { process, address: context.esp, count: 4 })
            &&& end.engine == state.engine
            &&& end.controller == state.controller
            &&& end.session.agenda == seq![
                Task::SetBreakpoint { address: target, temporary: true },
            ] + rest
        }),
{
    let apply = Task::ApplyCommand { thread_id, command: DebugCommand::StepOut };
    let out = Task::StepOut { thread };
    let pointer = Task::StepOutReturn { esp: context.esp };
    lemma_step(state, apply, rest, Reply::Nothing, orders[0]);
    let s1 = state.next(Reply::Nothing, orders[0]);
    lemma_step(s1, out, rest, Reply::Context(context), orders[1]);
    let s2 = s1.next(Reply::Context(context), orders[1]);
    lemma_step(s2, pointer, rest, Reply::Bytes(bytes), orders[2]);
}

/// A session that has forgotten its process is over, and succeeded; until then, while its end is
/// being carried out, nothing is said of success or failure.
pub proof fn law_sessions_end_well(state: State, task: Task, rest: Seq<Task>, order: WalkOrder)
    requires
        task is Detach || task is CloseHandle || task is EndSession,
        state.session.agenda == seq![task] + rest,
        state.session.outcome is None,
    ensures
        task is Detach && rest.len() == 0 ==> ({
            let end = state.next(Reply::Nothing, order);
            &&& !end.running()
            &&& end.session.outcome == Some(Ok::<(), Seq<char>>(()))
            &&& end.engine.process.value == 0
            &&& end.controller == state.controller
        }),
        task is CloseHandle && rest.len() > 0 ==> state.next(
            Reply::Done,
            order,
        ).session.outcome is None,
        task is EndSession ==> state.next(Reply::Nothing, order).running() && state.next(
            Reply::Nothing,
            order,
        ).session.outcome is None,
{
    reveal(State::next);
    assert(state.session.agenda[0] == task);
    assert(state.session.agenda.drop_first() =~= rest);
    assert(Seq::<Task>::empty() + rest =~= rest);
}

} // verus!
