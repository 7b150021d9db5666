//! What holds of every debug session.
use vstd::prelude::*;

use crate::debug_engine::{self, EngineView, SoftwareBreakpoint, WalkOrder};
use crate::context::Edit;
use crate::debug_controller::{ControllerState, DebugCommand, StopReason};
use crate::session::{self, Effect, Launch, SessionView, State};
use crate::symbols::{BareDigits, SymbolsView};
use crate::system::{Address, Call, DebugEvent, EventKind, Handle, Reply, ThreadContext};
use crate::task::{Flow, PatchStep, Task};

verus! {

/// The addresses in the slots and those of the requested software breakpoints together are the
/// requested addresses, in order, and no address stands in both.
pub proof fn law_sync_splits_request(engine: EngineView)
    ensures
        ({
            let slots = engine.desired_hardware();
            let software = engine.desired_software();
            &&& slots.len() == 4
            &&& forall|i: int|
                0 <= i < engine.desired().len() ==> #[trigger] engine.desired()[i] == (if i < 4 {
                    slots[i]->0
                } else {
                    software[i - 4]
                })
            &&& forall|i: int|
                0 <= i < 4 ==> (#[trigger] slots[i] is Some <==> i < engine.desired().len())
            &&& forall|i: int, j: int|
                0 <= i < 4 && 0 <= j < software.len() ==> #[trigger] slots[i] != Some(
                    #[trigger] software[j],
                )
        }),
{
    crate::symbols::law_distinct_addresses(
        engine.symbols,
        engine.requested,
        BareDigits::Hexadecimal,
    );
}

/// A sync that follows another with nothing changed in between has nothing to do.
pub proof fn law_sync_is_idempotent(engine: EngineView, first: WalkOrder, second: WalkOrder)
    ensures
        ({
            let after = engine.sync_spec(first).0;
            after.sync_spec(second) == (after, Seq::<Task>::empty())
        }),
{
}

/// The tasks with which an agenda may end: those that settle what comes after them.
pub open spec fn settles(task: Task) -> bool {
    match task {
        Task::Spawn => true,
        Task::WaitEvent => true,
        Task::Dispatch { .. } => true,
        Task::BreakpointHit { .. } => true,
        Task::StepHit { .. } => true,
        Task::EndSession => true,
        Task::Detach => true,
        _ => false,
    }
}

/// Whether no task of a series settles what comes after it.
pub open spec fn passing(tasks: Seq<Task>) -> bool {
    forall|i: int| 0 <= i < tasks.len() ==> !settles(#[trigger] tasks[i])
}

/// Whether a series of tasks ends with the only one that settles what comes after it.
pub open spec fn settled(tasks: Seq<Task>) -> bool {
    tasks.len() > 0 && settles(tasks.last()) && passing(tasks.drop_last())
}

/// What holds of a session at every moment. While it runs it has work to do and no outcome, its
/// agenda settles what comes last, and the client sees it as active from the start of the target
/// until its end. Once it has ended well, nothing of the target is held any more.
pub open spec fn sound(state: State) -> bool {
    let agenda = state.session.agenda;
    if state.running() {
        &&& state.session.outcome is None
        &&& settled(agenda)
        &&& agenda.last() !is Spawn && agenda.last() !is Detach ==> state.controller.is_active
        &&& agenda.last() is Detach ==> {
            &&& !state.controller.is_active
            &&& state.engine.threads == Map::<u32, Handle>::empty()
            &&& forall|i: int| 0 <= i < agenda.len() - 1 ==> #[trigger] agenda[i] is CloseHandle
        }
    } else {
        &&& state.session.outcome is Some
        &&& state.session.outcome == Some(Ok::<(), Seq<char>>(())) ==> {
            &&& !state.controller.is_active
            &&& state.engine.threads == Map::<u32, Handle>::empty()
            &&& state.engine.process == Handle::null_spec()
        }
    }
}

proof fn lemma_sync_passes(engine: EngineView, order: WalkOrder)
    ensures
        passing(engine.sync_spec(order).1),
{
    lemma_thread_tasks_pass(engine.threads, order.threads, engine.desired_hardware());
    lemma_clear_tasks_pass(
        engine.software_breakpoints,
        order.breakpoints,
        engine.desired_software(),
    );
}

proof fn lemma_thread_tasks_pass(
    threads: Map<u32, Handle>,
    keys: Seq<u32>,
    slots: Seq<Option<Address>>,
)
    ensures
        passing(debug_engine::thread_tasks(threads, keys, slots)),
    decreases keys.len(),
{
    if keys.len() > 0 {
        lemma_thread_tasks_pass(threads, keys.drop_last(), slots);
    }
}

proof fn lemma_clear_tasks_pass(
    breakpoints: Map<Address, SoftwareBreakpoint>,
    keys: Seq<Address>,
    wanted: Seq<Address>,
)
    ensures
        passing(debug_engine::clear_tasks(breakpoints, keys, wanted)),
    decreases keys.len(),
{
    if keys.len() > 0 {
        lemma_clear_tasks_pass(breakpoints, keys.drop_last(), wanted);
    }
}

/// Closing the handles of threads closes handles and nothing else.
pub proof fn lemma_close_threads_only_close(threads: Map<u32, Handle>, keys: Seq<u32>)
    ensures
        forall|i: int|
            0 <= i < session::close_threads(threads, keys).len() ==> #[trigger]
            session::close_threads(threads, keys)[i] is CloseHandle,
    decreases keys.len(),
{
    if keys.len() > 0 {
        lemma_close_threads_only_close(threads, keys.drop_last());
    }
}

/// What is left behind a catch is the end of what was there, and is not empty where the last
/// task is no catch.
proof fn lemma_caught_is_the_end(agenda: Seq<Task>)
    requires
        settled(agenda),
        session::caught(agenda) is Some,
    ensures
        ({
            let left = session::caught(agenda)->0;
            &&& settled(left)
            &&& left.last() == agenda.last()
            &&& left.len() <= agenda.len()
            &&& forall|i: int|
                0 <= i < left.len() ==> #[trigger] left[i] == agenda[i + agenda.len() - left.len()]
        }),
    decreases agenda.len(),
{
    let rest = agenda.drop_first();
    if agenda.len() == 1 {
        assert(agenda[0] == agenda.last());
        assert(rest.len() == 0);
    } else {
        assert(rest.last() == agenda.last());
        assert forall|i: int| 0 <= i < rest.drop_last().len() implies !settles(
            #[trigger] rest.drop_last()[i],
        ) by {
            assert(rest.drop_last()[i] == agenda.drop_last()[i + 1]);
        }
        if !(agenda[0] is Catch) {
            lemma_caught_is_the_end(rest);
        }
    }
}

/// How a task that succeeds shapes the agenda: a task in the middle gives tasks that pass, and the
/// last one gives a series that is settled anew, until the process is forgotten.
spec fn well_shaped(engine: EngineView, controller: ControllerState, task: Task, e: Effect) -> bool {
    e.flow matches Flow::Next(tasks) ==> if !settles(task) {
        &&& passing(tasks)
        &&& e.controller.is_active == controller.is_active
        &&& task is CloseHandle ==> tasks.len() == 0 && e.engine == engine
    } else if task is Detach {
        &&& tasks.len() == 0
        &&& e.engine.process == Handle::null_spec()
        &&& e.engine.threads == engine.threads
        &&& e.controller == controller
    } else if task is EndSession {
        &&& settled(tasks)
        &&& tasks.last() is Detach
        &&& forall|i: int| 0 <= i < tasks.len() - 1 ==> #[trigger] tasks[i] is CloseHandle
        &&& e.engine.threads == Map::<u32, Handle>::empty()
        &&& !e.controller.is_active
    } else {
        &&& settled(tasks)
        &&& tasks.last() !is Detach
        &&& tasks.last() !is Spawn
        &&& task is Spawn || controller.is_active ==> e.controller.is_active
    }
}

proof fn lemma_go_on_settles(process_id: u32, thread_id: u32)
    ensures
        settled(session::go_on(process_id, thread_id)),
        session::go_on(process_id, thread_id).last() is WaitEvent,
{
}

proof fn lemma_stop_settles(reason: StopReason, process_id: u32, thread_id: u32, lenient: bool)
    ensures
        settled(session::stop(reason, process_id, thread_id, lenient)),
        session::stop(reason, process_id, thread_id, lenient).last() is WaitEvent,
{
}

/// Tasks that pass may come before a settled series.
proof fn lemma_settled_concat(first: Seq<Task>, last: Seq<Task>)
    requires
        passing(first),
        settled(last),
    ensures
        settled(first + last),
        (first + last).last() == last.last(),
{
    let all = first + last;
    assert(all.last() == last.last());
    assert forall|i: int| 0 <= i < all.drop_last().len() implies !settles(
        #[trigger] all.drop_last()[i],
    ) by {
        if i >= first.len() {
            assert(all.drop_last()[i] == last.drop_last()[i - first.len()]);
        }
    }
}

proof fn lemma_dispatch_settles(engine: EngineView, event: DebugEvent)
    ensures
        settled(session::dispatched(engine, event).1),
        session::dispatched(engine, event).1.last() !is Detach,
        session::dispatched(engine, event).1.last() !is Spawn,
{
    let rest = session::go_on(event.process_id, event.thread_id);
    lemma_go_on_settles(event.process_id, event.thread_id);
    let thread_id = event.thread_id;
    match event.kind {
        EventKind::CreateProcess { image_base, file } => {
            let slots = match engine.thread_handle_spec(thread_id) {
                Some(thread) => debug_engine::slot_tasks(thread, engine.hardware_breakpoints),
                None => Seq::empty(),
            };
            lemma_settled_concat(session::close(file) + slots, rest);
        },
        EventKind::CreateThread { thread } => {
            if thread.invalid() {
                lemma_settled_concat(seq![Task::OpenThread { thread_id }], rest);
            } else {
                lemma_settled_concat(
                    debug_engine::slot_tasks(thread, engine.hardware_breakpoints).push(Task::Catch),
                    rest,
                );
            }
        },
        EventKind::ExitThread => {
            match engine.thread_handle_spec(thread_id) {
                Some(thread) => {
                    lemma_settled_concat(session::close(thread), rest);
                },
                None => {
                    lemma_settled_concat(Seq::empty(), rest);
                },
            }
        },
        EventKind::Exception { code } => {
            if let Some(thread) = engine.thread_handle_spec(thread_id) {
                if let Some(address) = engine.pending_reinsert {
                    lemma_settled_concat(
                        seq![
                            Task::EditContext { thread, edit: Edit::ClearTrap },
                            Task::ReinsertBreakpoint { address },
                            Task::TakeCommand { thread_id },
                        ],
                        rest,
                    );
                }
            }
        },
        _ => {},
    }
}

proof fn lemma_breakpoint_hit_settles(
    engine: EngineView,
    thread: Handle,
    process_id: u32,
    thread_id: u32,
    eip: u32,
)
    ensures
        settled(session::breakpoint_hit(engine, thread, process_id, thread_id, eip)),
        session::breakpoint_hit(engine, thread, process_id, thread_id, eip).last() is WaitEvent,
{
    let address = ((eip - 1) % 0x1_0000_0000) as u32;
    let temporary = seq![
        Task::ClearBreakpoint { address },
        Task::EditContext { thread, edit: Edit::StepBack },
    ];
    let lasting = seq![
        Task::LiftBreakpoint { address },
        Task::EditContext { thread, edit: Edit::StepBack },
        Task::ScheduleReinsert { address },
        Task::EditContext { thread, edit: Edit::EnableTrap },
    ];
    lemma_go_on_settles(process_id, thread_id);
    lemma_stop_settles(StopReason::Breakpoint, process_id, thread_id, false);
    lemma_settled_concat(
        temporary,
        session::stop(StopReason::Breakpoint, process_id, thread_id, false),
    );
    lemma_settled_concat(lasting, session::go_on(process_id, thread_id));
}

/// Every task shapes the agenda well.
proof fn lemma_effect_shape(
    engine: EngineView,
    controller: ControllerState,
    launch: Launch,
    task: Task,
    reply: Reply,
    order: WalkOrder,
)
    requires
        task.call_spec(engine.process).accepts(reply),
    ensures
        well_shaped(
            engine,
            controller,
            task,
            session::effect(engine, controller, launch, task, reply, order),
        ),
{
    match task {
        Task::Sync | Task::SyncLeniently => {
            lemma_sync_passes(engine, order);
        },
        Task::Dispatch { event } => {
            lemma_dispatch_settles(engine, event);
        },
        Task::BreakpointHit { thread, process_id, thread_id } => {
            if let Reply::Context(context) = reply {
                lemma_breakpoint_hit_settles(engine, thread, process_id, thread_id, context.eip);
            }
        },
        Task::StepHit { thread, process_id, thread_id } => {
            lemma_stop_settles(StopReason::Breakpoint, process_id, thread_id, false);
            lemma_stop_settles(StopReason::SingleStep, process_id, thread_id, true);
            lemma_settled_concat(
                seq![Task::EditContext { thread, edit: Edit::ClearStatus }],
                session::stop(StopReason::Breakpoint, process_id, thread_id, false),
            );
            lemma_settled_concat(
                seq![Task::EditContext { thread, edit: Edit::ClearTrap }],
                session::stop(StopReason::SingleStep, process_id, thread_id, true),
            );
        },
        Task::EndSession => {
            lemma_close_threads_only_close(engine.threads, order.threads);
            let tasks = session::close_threads(engine.threads, order.threads) + session::close(
                launch.thread,
            ) + session::close(launch.process) + seq![Task::Detach];
            assert(tasks.last() is Detach);
        },
        Task::Spawn | Task::WaitEvent => {},
        _ => {
            assert(!settles(task) || task is Detach);
        },
    }
}

/// A session that is sound stays so, whatever the system replies.
pub proof fn law_session_stays_sound(state: State, reply: Reply, order: WalkOrder)
    requires
        sound(state),
        state.running(),
        state.call().accepts(reply),
    ensures
        sound(state.next(reply, order)),
{
    reveal(State::next);
    let agenda = state.session.agenda;
    let rest = agenda.drop_first();
    let task = agenda[0];
    lemma_effect_shape(
        state.engine,
        state.controller,
        state.session.launch,
        task,
        reply,
        order,
    );
    let e = session::effect(
        state.engine,
        state.controller,
        state.session.launch,
        task,
        reply,
        order,
    );
    if agenda.len() > 1 {
        assert(task == agenda.drop_last()[0]);
        assert(!settles(task));
        assert(rest.last() == agenda.last());
        assert forall|i: int| 0 <= i < rest.drop_last().len() implies !settles(
            #[trigger] rest.drop_last()[i],
        ) by {
            assert(rest.drop_last()[i] == agenda.drop_last()[i + 1]);
        }
        assert(settled(rest));
    }
    match e.flow {
        Flow::Next(tasks) => {
            let after = tasks + rest;
            if agenda.len() > 1 {
                assert(after.last() == rest.last());
                assert forall|i: int| 0 <= i < after.drop_last().len() implies !settles(
                    #[trigger] after.drop_last()[i],
                ) by {
                    if i >= tasks.len() {
                        assert(after.drop_last()[i] == rest.drop_last()[i - tasks.len()]);
                    }
                }
            } else {
                assert(after =~= tasks);
            }
        },
        Flow::Raise(_) => {
            if session::caught(rest) is Some {
                if agenda.len() > 1 {
                    lemma_caught_is_the_end(rest);
                }
            }
        },
    }
}

/// A session is sound at its start, whatever the engine and the controller hold.
pub proof fn law_new_session_is_sound(engine: EngineView, controller: ControllerState)
    ensures
        sound(
            State {
                session: SessionView {
                    agenda: seq![Task::Spawn],
                    launch: Launch { process: Handle::null_spec(), thread: Handle::null_spec() },
                    outcome: None,
                },
                engine,
                controller,
            },
        ),
{
}

/// Commands and requests of the client, and symbols that are registered or forgotten, do not
/// disturb a session, whenever they come.
pub proof fn law_client_keeps_session_sound(
    state: State,
    command: DebugCommand,
    requested: Seq<Seq<char>>,
    symbols: SymbolsView,
)
    requires
        sound(state),
    ensures
        sound(State { controller: state.controller.with_command(command), ..state }),
        sound(State { engine: EngineView { requested, dirty: true, ..state.engine }, ..state }),
        sound(State { engine: EngineView { symbols, dirty: true, ..state.engine }, ..state }),
{
}

/// A failure inside a guarded group of tasks costs the rest of the group and nothing behind it; a
/// group without a guard catches nothing.
pub proof fn law_failures_are_contained(group: Seq<Task>, behind: Seq<Task>)
    requires
        forall|i: int| 0 <= i < group.len() ==> !(#[trigger] group[i] is Catch),
    ensures
        session::caught(group.push(Task::Catch) + behind) == Some(behind),
        session::caught(group) is None,
    decreases group.len(),
{
    let agenda = group.push(Task::Catch) + behind;
    if group.len() == 0 {
        assert(agenda.drop_first() =~= behind);
    } else {
        law_failures_are_contained(group.drop_first(), behind);
        assert(agenda.drop_first() =~= group.drop_first().push(Task::Catch) + behind);
        assert(agenda[0] == group[0]);
    }
}

/// A failure that nothing catches ends the session with its message.
pub proof fn law_uncaught_failure_ends_session(state: State, reply: Reply, order: WalkOrder)
    requires
        state.running(),
        session::caught(state.session.agenda.drop_first()) is None,
        session::effect(
            state.engine,
            state.controller,
            state.session.launch,
            state.session.agenda[0],
            reply,
            order,
        ).flow is Raise,
    ensures
        ({
            let flow = session::effect(
                state.engine,
                state.controller,
                state.session.launch,
                state.session.agenda[0],
                reply,
                order,
            ).flow;
            let end = state.next(reply, order);
            !end.running() && end.session.outcome == Some(Err::<(), Seq<char>>(flow->Raise_0))
        }),
{
    reveal(State::next);
}

/// After a breakpoint was hit, its original byte is put back, whether the breakpoint lasts or not,
/// and the thread is set back to the very address of the breakpoint.
pub proof fn law_thread_returns_to_breakpoint(
    engine: EngineView,
    thread: Handle,
    process_id: u32,
    thread_id: u32,
    context: ThreadContext,
)
    requires
        context.eip > 0,
        engine.software_breakpoints.contains_key((context.eip - 1) as u32),
    ensures
        ({
            let tasks = session::breakpoint_hit(
                engine,
                thread,
                process_id,
                thread_id,
                context.eip,
            );
            let address = (context.eip - 1) as u32;
            &&& tasks[0] == if engine.software_breakpoints[address].temporary {
                Task::ClearBreakpoint { address }
            } else {
                Task::LiftBreakpoint { address }
            }
            &&& tasks[1] == Task::EditContext { thread, edit: Edit::StepBack }
            &&& Edit::StepBack.applied(context).eip == address
        }),
{
}

/// What a client requested takes effect before the next debug event is handled: the slots are
/// those that were requested, and the plan that brings the breakpoints in line comes before the
/// event.
pub proof fn law_requests_take_effect_at_the_next_event(
    start: State,
    rest: Seq<Task>,
    event: DebugEvent,
    first: WalkOrder,
    order: WalkOrder,
)
    requires
        start.session.agenda == seq![Task::WaitEvent] + rest,
        start.engine.dirty,
    ensures
        ({
            let end = start.next(Reply::Event(event), first).next(Reply::Nothing, order);
            let (engine, plan) = start.engine.sync_spec(order);
            &&& end.engine == engine
            &&& end.engine.hardware_breakpoints == start.engine.desired_hardware()
            &&& !end.engine.dirty
            &&& end.session.agenda == plan + seq![Task::Dispatch { event }] + rest
        }),
{
    reveal(State::next);
    let woken = start.next(Reply::Event(event), first);
    assert(start.session.agenda[0] == Task::WaitEvent);
    assert(start.session.agenda.drop_first() =~= rest);
    assert(woken.session.agenda =~= seq![Task::Sync] + (seq![Task::Dispatch { event }] + rest));
    assert(woken.session.agenda[0] == Task::Sync);
    assert(woken.session.agenda.drop_first() =~= seq![Task::Dispatch { event }] + rest);
    let end = woken.next(Reply::Nothing, order);
    assert(end.session.agenda =~= start.engine.sync_spec(order).1 + seq![
        Task::Dispatch { event },
    ] + rest);
}

/// The page protection that a step has to give back.
pub open spec fn saved_protection(step: PatchStep) -> Option<u32> {
    match step {
        PatchStep::Unprotect { .. } => None,
        PatchStep::ReadOriginal { protection, .. } => Some(protection),
        PatchStep::Write { protection, .. } => Some(protection),
        PatchStep::Reprotect { protection, .. } => Some(protection),
        PatchStep::Flush { .. } => None,
    }
}

/// The address that a step works on.
pub open spec fn patched_address(step: PatchStep) -> Address {
    match step {
        PatchStep::Unprotect { address, .. } => address,
        PatchStep::ReadOriginal { address, .. } => address,
        PatchStep::Write { address, .. } => address,
        PatchStep::Reprotect { address, .. } => address,
        PatchStep::Flush { address, .. } => address,
    }
}

/// Overwriting a byte gives its page the protection back that it had: what the system reported
/// when the page was made writable is carried from step to step, and the last call but the flush
/// sets it for the same address.
pub proof fn law_protection_is_given_back(engine: EngineView, step: PatchStep, reply: Reply)
    requires
        Task::Patch(step).call_spec(engine.process).accepts(reply),
        engine.patch_spec(step, reply).1 is Next,
    ensures
        ({
            let tasks = engine.patch_spec(step, reply).1->Next_0;
            &&& step is Flush <==> tasks.len() == 0
            &&& !(step is Flush) ==> tasks.len() == 1 && tasks[0] is Patch && {
                let next = tasks[0]->Patch_0;
                &&& patched_address(next) == patched_address(step)
                &&& step is Unprotect ==> saved_protection(next) == Some(reply->Protection_0)
                &&& step is ReadOriginal || step is Write ==> saved_protection(next)
                    == saved_protection(step)
                &&& step is Reprotect <==> next is Flush
            }
        }),
        step is Reprotect ==> Task::Patch(step).call_spec(engine.process) == (Call::Protect {
            process: engine.process,
            address: patched_address(step),
            protection: saved_protection(step)->0,
        }),
{
}

/// Where the requested names all resolve, each to an address of its own, the first four get the
/// slots, in the order of the names, every other one gets a software breakpoint, and no slot is
/// filled without a request.
pub proof fn law_requests_get_their_places(engine: EngineView, i: int)
    requires
        forall|k: int|
            0 <= k < engine.requested.len() ==> engine.symbols.resolved(
                #[trigger] engine.requested[k],
                BareDigits::Hexadecimal,
            ) is Some,
        forall|j: int, k: int|
            0 <= j < k < engine.requested.len() ==> engine.symbols.resolved(
                #[trigger] engine.requested[j],
                BareDigits::Hexadecimal,
            ) != engine.symbols.resolved(#[trigger] engine.requested[k], BareDigits::Hexadecimal),
    ensures
        engine.desired_hardware().len() == 4,
        0 <= i < 4 && i < engine.requested.len() ==> engine.desired_hardware()[i]
            == engine.symbols.resolved(engine.requested[i], BareDigits::Hexadecimal),
        0 <= i < 4 && i >= engine.requested.len() ==> engine.desired_hardware()[i] is None,
        4 <= i < engine.requested.len() ==> engine.desired_software().len()
            == engine.requested.len() - 4 && Some(engine.desired_software()[i - 4])
            == engine.symbols.resolved(engine.requested[i], BareDigits::Hexadecimal),
        engine.requested.len() <= 4 ==> engine.desired_software().len() == 0,
{
    crate::symbols::law_distinct_names_all_count(
        engine.symbols,
        engine.requested,
        BareDigits::Hexadecimal,
    );
    let desired = engine.desired();
    if 0 <= i < engine.requested.len() {
        assert(engine.symbols.resolved(engine.requested[i], BareDigits::Hexadecimal) == Some(
            desired[i],
        ));
    }
}

/// Every address that a request resolves to is broken at: it is in a slot or it has a software
/// breakpoint, and nothing else is broken at.
pub proof fn law_every_request_is_broken_at(engine: EngineView, address: Address)
    ensures
        (engine.desired_hardware().contains(Some(address)) || engine.desired_software().contains(
            address,
        )) <==> exists|i: int|
            0 <= i < engine.requested.len() && engine.symbols.resolved(
                #[trigger] engine.requested[i],
                BareDigits::Hexadecimal,
            ) == Some(address),
{
    crate::symbols::law_distinct_addresses(
        engine.symbols,
        engine.requested,
        BareDigits::Hexadecimal,
    );
    let desired = engine.desired();
    let slots = engine.desired_hardware();
    let software = engine.desired_software();
    if desired.contains(address) {
        let k = choose|k: int| 0 <= k < desired.len() && desired[k] == address;
        if k < 4 {
            assert(slots[k] == Some(address));
        } else {
            assert(software[k - 4] == address);
        }
    }
    if slots.contains(Some(address)) {
        let k = choose|k: int| 0 <= k < slots.len() && slots[k] == Some(address);
        assert(desired[k] == address);
    }
    if software.contains(address) {
        let k = choose|k: int| 0 <= k < software.len() && software[k] == address;
        assert(desired[k + 4] == address);
    }
}

} // verus!
