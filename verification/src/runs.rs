//! Runs of a session on a system that does what it is asked: what becomes of the debuggee's
//! memory, of the registers of its threads, and of the records of its breakpoints.
use vstd::prelude::*;

use crate::context::{self, Edit, TRAP_FLAG};
use crate::debug_engine::{self, EngineView, SoftwareBreakpoint, WalkOrder};
use crate::session::{self, SessionView, State};
use crate::symbols::SymbolsView;
use crate::system::{Address, Call, ContextPart, DebugEvent, EventKind, Handle, Reply, ThreadContext};
use crate::system::EXCEPTION_SINGLE_STEP_CODE;
use crate::task::{Patch, PatchGoal, PatchStep, Task, INT3, NEAR_CALL};

verus! {

/// The debuggee's memory, byte by byte.
pub type Memory = Map<Address, u8>;

/// The registers of the debuggee's threads, by the handles of the threads; which part of them
/// counts does not count here.
pub type Registers = Map<Handle, ThreadContext>;

/// One turn of a run: the reply to the call of the next task, the order in which the engine's
/// tables happen to be walked in it and, where the debuggee runs in it, the registers that it
/// comes back with.
pub struct Turn {
    pub reply: Reply,
    pub order: WalkOrder,
    pub registers: Registers,
}

/// A session with the debuggee's memory and registers.
#[verifier::ext_equal]
pub struct World {
    pub state: State,
    pub memory: Memory,
    pub registers: Registers,
}

/// The first registers with one part of the second ones.
pub open spec fn merged(
    registers: ThreadContext,
    context: ThreadContext,
    part: ContextPart,
) -> ThreadContext {
    match part {
        ContextPart::Control => ThreadContext {
            ebp: context.ebp,
            eip: context.eip,
            seg_cs: context.seg_cs,
            eflags: context.eflags,
            esp: context.esp,
            seg_ss: context.seg_ss,
            ..registers
        },
        ContextPart::Debug => ThreadContext {
            dr0: context.dr0,
            dr1: context.dr1,
            dr2: context.dr2,
            dr3: context.dr3,
            dr6: context.dr6,
            dr7: context.dr7,
            ..registers
        },
    }
}

/// Whether a call succeeds in full: it is not refused, and it transfers every byte that it asks
/// for; bytes that are read are those in memory, and registers those of the thread.
pub open spec fn succeeds(memory: Memory, registers: Registers, call: Call, reply: Reply) -> bool {
    &&& call.accepts(reply)
    &&& match (call, reply) {
        (_, Reply::Failed(_)) => false,
        (Call::ReadMemory { address, count, .. }, Reply::Bytes(bytes)) => {
            &&& bytes@.len() == count
            &&& forall|i: int|
                0 <= i < bytes@.len() ==> #[trigger] bytes@[i] == memory[((address + i)
                    % 0x1_0000_0000) as u32]
        },
        (Call::WriteByte { .. }, Reply::Count(count)) => count == 1,
        (Call::GetContext { thread, part }, Reply::Context(context)) => merged(
            registers[thread],
            context,
            part,
        ) == registers[thread],
        _ => true,
    }
}

/// The memory after a call: a byte that is reported as written is there, and nothing else changes.
pub open spec fn memory_after(memory: Memory, call: Call, reply: Reply) -> Memory {
    match (call, reply) {
        (Call::WriteByte { address, byte, .. }, Reply::Count(count)) => if count == 1 {
            memory.insert(address, byte)
        } else {
            memory
        },
        _ => memory,
    }
}

/// The registers after a call: those that are written are there, and nothing else changes; only
/// while an event is waited for does the debuggee run.
pub open spec fn registers_after(registers: Registers, call: Call, turn: Turn) -> Registers {
    match call {
        Call::SetContext { thread, context } => if turn.reply is Done {
            registers.insert(thread, merged(registers[thread], context, context.part))
        } else {
            registers
        },
        Call::WaitForDebugEvent => turn.registers,
        _ => registers,
    }
}

impl World {
    /// The world after one turn.
    pub open spec fn next(self, turn: Turn) -> World {
        World {
            state: self.state.next(turn.reply, turn.order),
            memory: memory_after(self.memory, self.state.call(), turn.reply),
            registers: registers_after(self.registers, self.state.call(), turn),
        }
    }

    /// The world after a series of turns.
    pub open spec fn after(self, turns: Seq<Turn>) -> World
        decreases turns.len(),
    {
        if turns.len() == 0 {
            self
        } else {
            self.next(turns[0]).after(turns.drop_first())
        }
    }

    /// Whether every call of a series of turns succeeds in full, and tables are walked in an order
    /// that they have.
    pub open spec fn smooth(self, turns: Seq<Turn>) -> bool
        decreases turns.len(),
    {
        turns.len() > 0 ==> {
            &&& succeeds(self.memory, self.registers, self.state.call(), turns[0].reply)
            &&& session::walks(self.state.session.agenda[0]) ==> self.state.engine.walked_by(
                turns[0].order,
            )
            &&& self.next(turns[0]).smooth(turns.drop_first())
        }
    }

    /// The same world with another agenda, another engine and another memory.
    pub open spec fn at(self, agenda: Seq<Task>, engine: EngineView, memory: Memory) -> World {
        World {
            state: State {
                session: SessionView { agenda, ..self.state.session },
                engine,
                ..self.state
            },
            memory,
            registers: self.registers,
        }
    }

    /// The same world with other registers.
    pub open spec fn with_registers(self, registers: Registers) -> World {
        World { registers, ..self }
    }

    /// The breakpoints on record, the memory and the registers.
    pub open spec fn code(self) -> Code {
        Code {
            breakpoints: self.state.engine.software_breakpoints,
            memory: self.memory,
            registers: self.registers,
        }
    }

    /// The same world with another agenda, and other breakpoints, memory and registers.
    pub open spec fn with_code(self, agenda: Seq<Task>, code: Code) -> World {
        self.at(
            agenda,
            EngineView { software_breakpoints: code.breakpoints, ..self.state.engine },
            code.memory,
        ).with_registers(code.registers)
    }
}

/// The software breakpoints on record, the memory that they stand in, and the registers of the
/// threads that run into them.
#[verifier::ext_equal]
pub struct Code {
    pub breakpoints: Map<Address, SoftwareBreakpoint>,
    pub memory: Memory,
    pub registers: Registers,
}

impl Code {
    /// What a task that succeeds does to breakpoints, memory and registers.
    pub open spec fn done(self, task: Task) -> Code {
        match task {
            Task::SetBreakpoint { address, temporary } => if self.breakpoints.contains_key(
                address,
            ) {
                self
            } else {
                Code {
                    breakpoints: self.breakpoints.insert(
                        address,
                        SoftwareBreakpoint { address, original: self.memory[address], temporary },
                    ),
                    memory: self.memory.insert(address, INT3),
                    ..self
                }
            },
            Task::ClearBreakpoint { address } => if self.breakpoints.contains_key(address) {
                Code {
                    breakpoints: self.breakpoints.remove(address),
                    memory: self.memory.insert(address, self.breakpoints[address].original),
                    ..self
                }
            } else {
                self
            },
            Task::LiftBreakpoint { address } => if self.breakpoints.contains_key(address) {
                Code {
                    memory: self.memory.insert(address, self.breakpoints[address].original),
                    ..self
                }
            } else {
                self
            },
            Task::ReinsertBreakpoint { address } => if self.breakpoints.contains_key(address) {
                Code { memory: self.memory.insert(address, INT3), ..self }
            } else {
                self
            },
            Task::EditContext { thread, edit } => Code {
                registers: self.registers.insert(thread, edit.applied(self.registers[thread])),
                ..self
            },
            _ => self,
        }
    }

    /// What a series of tasks that succeed does to breakpoints, memory and registers.
    pub open spec fn all_done(self, tasks: Seq<Task>) -> Code
        decreases tasks.len(),
    {
        if tasks.len() == 0 {
            self
        } else {
            self.done(tasks[0]).all_done(tasks.drop_first())
        }
    }

    /// How many turns a task takes that succeeds.
    pub open spec fn duration(self, task: Task) -> nat {
        match task {
            Task::SetBreakpoint { address, .. } => if self.breakpoints.contains_key(address) {
                1
            } else {
                6
            },
            Task::ClearBreakpoint { address } => self.patch_duration(address),
            Task::LiftBreakpoint { address } => self.patch_duration(address),
            Task::ReinsertBreakpoint { address } => self.patch_duration(address),
            Task::EditContext { .. } => 2,
            _ => 1,
        }
    }

    /// How many turns it takes to overwrite the byte under a breakpoint; without a breakpoint
    /// there is nothing to overwrite.
    pub open spec fn patch_duration(self, address: Address) -> nat {
        if self.breakpoints.contains_key(address) {
            5
        } else {
            1
        }
    }

    /// How many turns a series of tasks takes that succeed.
    pub open spec fn total_duration(self, tasks: Seq<Task>) -> nat
        decreases tasks.len(),
    {
        if tasks.len() == 0 {
            0
        } else {
            self.duration(tasks[0]) + self.done(tasks[0]).total_duration(tasks.drop_first())
        }
    }
}

/// Whether a task is about breakpoints or about registers that there are.
pub open spec fn plain(task: Task) -> bool {
    match task {
        Task::SetBreakpoint { .. } => true,
        Task::ClearBreakpoint { .. } => true,
        Task::LiftBreakpoint { .. } => true,
        Task::ReinsertBreakpoint { .. } => true,
        Task::EditContext { edit, .. } => edit.in_range(),
        Task::Catch => true,
        _ => false,
    }
}

/// The first turn of a run answers the first task.
pub proof fn lemma_first_turn(world: World, task: Task, rest: Seq<Task>, turns: Seq<Turn>)
    requires
        world.state.session.agenda == seq![task] + rest,
        turns.len() > 0,
        world.smooth(turns),
    ensures
        world.state.session.agenda[0] == task,
        world.state.session.agenda.drop_first() == rest,
        world.state.call() == task.call_spec(world.state.engine.process),
        succeeds(
            world.memory,
            world.registers,
            task.call_spec(world.state.engine.process),
            turns[0].reply,
        ),
        session::walks(task) ==> world.state.engine.walked_by(turns[0].order),
        world.after(turns) == world.next(turns[0]).after(turns.skip(1)),
        world.next(turns[0]).smooth(turns.skip(1)),
{
    assert(world.state.session.agenda[0] == task);
    assert(world.state.session.agenda.drop_first() =~= rest);
    assert(turns.drop_first() =~= turns.skip(1));
}

/// The first turn of a run on which the engine's own task succeeds.
pub proof fn lemma_engine_turn(world: World, task: Task, rest: Seq<Task>, turns: Seq<Turn>)
    requires
        world.state.session.agenda == seq![task] + rest,
        rest.len() > 0,
        turns.len() > 0,
        world.smooth(turns),
        plain(task) || task is Patch || task is StoreContext || task is StepOver
            || task is StepOverOpcode || task is StepOut || task is StepOutReturn,
        world.state.engine.perform_spec(task, turns[0].reply).1 is Next,
    ensures
        ({
            let (engine, flow) = world.state.engine.perform_spec(task, turns[0].reply);
            let call = task.call_spec(world.state.engine.process);
            let then = world.at(
                flow->Next_0 + rest,
                engine,
                memory_after(world.memory, call, turns[0].reply),
            ).with_registers(registers_after(world.registers, call, turns[0]));
            &&& world.after(turns) == then.after(turns.skip(1))
            &&& then.smooth(turns.skip(1))
        }),
{
    lemma_first_turn(world, task, rest, turns);
    reveal(State::next);
    let (engine, flow) = world.state.engine.perform_spec(task, turns[0].reply);
    let call = task.call_spec(world.state.engine.process);
    assert(world.next(turns[0]) =~= world.at(
        flow->Next_0 + rest,
        engine,
        memory_after(world.memory, call, turns[0].reply),
    ).with_registers(registers_after(world.registers, call, turns[0])));
}

/// Skipping twice is skipping once.
pub proof fn lemma_skips(turns: Seq<Turn>, first: int, second: int)
    requires
        0 <= first,
        0 <= second,
        first + second <= turns.len(),
    ensures
        turns.skip(first).skip(second) == turns.skip(first + second),
{
    assert(turns.skip(first).skip(second) =~= turns.skip(first + second));
}

/// Writing a byte, giving the page its protection back, and dropping cached instructions.
proof fn lemma_write(
    world: World,
    address: Address,
    protection: u32,
    patch: Patch,
    rest: Seq<Task>,
    turns: Seq<Turn>,
)
    requires
        world.state.session.agenda == seq![
            Task::Patch(PatchStep::Write { address, protection, patch }),
        ] + rest,
        rest.len() > 0,
        turns.len() >= 3,
        world.smooth(turns),
    ensures
        ({
            let then = world.with_code(
                rest,
                Code {
                    breakpoints: match patch {
                        Patch::Insert {
                            original,
                            temporary,
                        } => world.state.engine.software_breakpoints.insert(
                            address,
                            SoftwareBreakpoint { address, original, temporary },
                        ),
                        _ => world.state.engine.software_breakpoints,
                    },
                    memory: world.memory.insert(address, patch.byte_spec()),
                    registers: world.registers,
                },
            );
            &&& world.after(turns) == then.after(turns.skip(3))
            &&& then.smooth(turns.skip(3))
        }),
{
    let engine = world.state.engine;
    let memory = world.memory.insert(address, patch.byte_spec());
    let write = Task::Patch(PatchStep::Write { address, protection, patch });
    let reprotect = Task::Patch(PatchStep::Reprotect { address, protection, patch });
    let flush = Task::Patch(PatchStep::Flush { address, patch });
    lemma_first_turn(world, write, rest, turns);
    lemma_engine_turn(world, write, rest, turns);
    let second = world.at(seq![reprotect] + rest, engine, memory);
    lemma_first_turn(second, reprotect, rest, turns.skip(1));
    lemma_engine_turn(second, reprotect, rest, turns.skip(1));
    lemma_skips(turns, 1, 1);
    let third = world.at(seq![flush] + rest, engine, memory);
    lemma_first_turn(third, flush, rest, turns.skip(2));
    lemma_engine_turn(third, flush, rest, turns.skip(2));
    lemma_skips(turns, 2, 1);
    assert(Seq::<Task>::empty() + rest =~= rest);
}

/// Overwriting a byte under a breakpoint whose original byte is known.
proof fn lemma_overwrite(
    world: World,
    address: Address,
    goal: PatchGoal,
    patch: Patch,
    rest: Seq<Task>,
    turns: Seq<Turn>,
)
    requires
        world.state.session.agenda == seq![
            Task::Patch(PatchStep::Unprotect { address, goal }),
        ] + rest,
        match goal {
            PatchGoal::Insert { .. } => false,
            PatchGoal::Clear { original } => patch == (Patch::Clear { original }),
            PatchGoal::Reinsert => patch is Reinsert,
        },
        rest.len() > 0,
        turns.len() >= 4,
        world.smooth(turns),
    ensures
        ({
            let then = world.at(
                rest,
                world.state.engine,
                world.memory.insert(address, patch.byte_spec()),
            );
            &&& world.after(turns) == then.after(turns.skip(4))
            &&& then.smooth(turns.skip(4))
        }),
{
    let unprotect = Task::Patch(PatchStep::Unprotect { address, goal });
    lemma_first_turn(world, unprotect, rest, turns);
    lemma_engine_turn(world, unprotect, rest, turns);
    let protection = turns[0].reply->Protection_0;
    let write = Task::Patch(PatchStep::Write { address, protection, patch });
    let second = world.at(seq![write] + rest, world.state.engine, world.memory);
    lemma_write(second, address, protection, patch, rest, turns.skip(1));
    lemma_skips(turns, 1, 3);
}

/// Reading the byte at an address and putting a breakpoint over it.
proof fn lemma_insert(
    world: World,
    address: Address,
    temporary: bool,
    rest: Seq<Task>,
    turns: Seq<Turn>,
)
    requires
        world.state.session.agenda == seq![
            Task::Patch(PatchStep::Unprotect { address, goal: PatchGoal::Insert { temporary } }),
        ] + rest,
        !world.state.engine.software_breakpoints.contains_key(address),
        rest.len() > 0,
        turns.len() >= 5,
        world.smooth(turns),
    ensures
        ({
            let task = Task::SetBreakpoint { address, temporary };
            let then = world.with_code(rest, world.code().done(task));
            &&& world.after(turns) == then.after(turns.skip(5))
            &&& then.smooth(turns.skip(5))
        }),
{
    let goal = PatchGoal::Insert { temporary };
    let unprotect = Task::Patch(PatchStep::Unprotect { address, goal });
    lemma_first_turn(world, unprotect, rest, turns);
    lemma_engine_turn(world, unprotect, rest, turns);
    let protection = turns[0].reply->Protection_0;
    let read = Task::Patch(PatchStep::ReadOriginal { address, temporary, protection });
    let second = world.at(seq![read] + rest, world.state.engine, world.memory);
    lemma_first_turn(second, read, rest, turns.skip(1));
    let original = turns.skip(1)[0].reply->Bytes_0@[0];
    assert(original == world.memory[((address + 0) % 0x1_0000_0000) as u32]);
    lemma_engine_turn(second, read, rest, turns.skip(1));
    lemma_skips(turns, 1, 1);
    let patch = Patch::Insert { original, temporary };
    let write = Task::Patch(PatchStep::Write { address, protection, patch });
    let third = world.at(seq![write] + rest, world.state.engine, world.memory);
    lemma_write(third, address, protection, patch, rest, turns.skip(2));
    lemma_skips(turns, 2, 3);
}

/// Changing the registers of a thread takes two turns and leaves everything else alone.
pub proof fn lemma_edit(world: World, thread: Handle, edit: Edit, rest: Seq<Task>, turns: Seq<Turn>)
    requires
        world.state.session.agenda == seq![Task::EditContext { thread, edit }] + rest,
        edit.in_range(),
        rest.len() > 0,
        turns.len() >= 2,
        world.smooth(turns),
    ensures
        ({
            let task = Task::EditContext { thread, edit };
            let then = world.with_code(rest, world.code().done(task));
            &&& world.after(turns) == then.after(turns.skip(2))
            &&& then.smooth(turns.skip(2))
        }),
{
    let task = Task::EditContext { thread, edit };
    lemma_first_turn(world, task, rest, turns);
    lemma_engine_turn(world, task, rest, turns);
    let context = edit.applied(turns[0].reply->Context_0);
    let store = Task::StoreContext { thread, context };
    let second = world.at(seq![store] + rest, world.state.engine, world.memory);
    lemma_first_turn(second, store, rest, turns.skip(1));
    assert(merged(world.registers[thread], context, context.part) == edit.applied(
        world.registers[thread],
    ));
    lemma_engine_turn(second, store, rest, turns.skip(1));
    lemma_skips(turns, 1, 1);
    assert(Seq::<Task>::empty() + rest =~= rest);
}

/// A plain task, when every call succeeds, does what it is for in the turns that it takes, and
/// changes nothing else.
pub proof fn lemma_plain_task(world: World, task: Task, rest: Seq<Task>, turns: Seq<Turn>)
    requires
        world.state.session.agenda == seq![task] + rest,
        plain(task),
        task is SetBreakpoint ==> !world.state.engine.process.invalid(),
        rest.len() > 0,
        turns.len() >= world.code().duration(task),
        world.smooth(turns),
    ensures
        ({
            let then = world.with_code(rest, world.code().done(task));
            let skipped = turns.skip(world.code().duration(task) as int);
            &&& world.after(turns) == then.after(skipped)
            &&& then.smooth(skipped)
        }),
{
    let engine = world.state.engine;
    let records = engine.software_breakpoints;
    assert(Seq::<Task>::empty() + rest =~= rest);
    lemma_first_turn(world, task, rest, turns);
    match task {
        Task::SetBreakpoint { address, temporary } => {
            lemma_engine_turn(world, task, rest, turns);
            if !records.contains_key(address) {
                let goal = PatchGoal::Insert { temporary };
                let unprotect = Task::Patch(PatchStep::Unprotect { address, goal });
                let second = world.at(seq![unprotect] + rest, engine, world.memory);
                lemma_insert(second, address, temporary, rest, turns.skip(1));
                lemma_skips(turns, 1, 5);
            }
        },
        Task::ClearBreakpoint { address } => {
            lemma_engine_turn(world, task, rest, turns);
            if records.contains_key(address) {
                let original = records[address].original;
                let goal = PatchGoal::Clear { original };
                let unprotect = Task::Patch(PatchStep::Unprotect { address, goal });
                let cleared = EngineView { software_breakpoints: records.remove(address), ..engine };
                let second = world.at(seq![unprotect] + rest, cleared, world.memory);
                lemma_overwrite(
                    second,
                    address,
                    goal,
                    Patch::Clear { original },
                    rest,
                    turns.skip(1),
                );
                lemma_skips(turns, 1, 4);
            }
        },
        Task::LiftBreakpoint { address } => {
            lemma_engine_turn(world, task, rest, turns);
            if records.contains_key(address) {
                let original = records[address].original;
                let goal = PatchGoal::Clear { original };
                let unprotect = Task::Patch(PatchStep::Unprotect { address, goal });
                let second = world.at(seq![unprotect] + rest, engine, world.memory);
                lemma_overwrite(
                    second,
                    address,
                    goal,
                    Patch::Clear { original },
                    rest,
                    turns.skip(1),
                );
                lemma_skips(turns, 1, 4);
            }
        },
        Task::ReinsertBreakpoint { address } => {
            lemma_engine_turn(world, task, rest, turns);
            if records.contains_key(address) {
                let goal = PatchGoal::Reinsert;
                let unprotect = Task::Patch(PatchStep::Unprotect { address, goal });
                let second = world.at(seq![unprotect] + rest, engine, world.memory);
                lemma_overwrite(second, address, goal, Patch::Reinsert, rest, turns.skip(1));
                lemma_skips(turns, 1, 4);
            }
        },
        Task::EditContext { thread, edit } => {
            lemma_edit(world, thread, edit, rest, turns);
        },
        _ => {
            lemma_engine_turn(world, task, rest, turns);
        },
    }
}

/// A series of plain tasks, when every call succeeds, does what they are for.
pub proof fn lemma_plain_tasks(world: World, tasks: Seq<Task>, rest: Seq<Task>, turns: Seq<Turn>)
    requires
        world.state.session.agenda == tasks + rest,
        forall|i: int| 0 <= i < tasks.len() ==> plain(#[trigger] tasks[i]),
        forall|i: int|
            0 <= i < tasks.len() && #[trigger] tasks[i] is SetBreakpoint
                ==> !world.state.engine.process.invalid(),
        rest.len() > 0,
        turns.len() >= world.code().total_duration(tasks),
        world.smooth(turns),
    ensures
        ({
            let then = world.with_code(rest, world.code().all_done(tasks));
            let skipped = turns.skip(world.code().total_duration(tasks) as int);
            &&& world.after(turns) == then.after(skipped)
            &&& then.smooth(skipped)
        }),
    decreases tasks.len(),
{
    let code = world.code();
    if tasks.len() == 0 {
        assert(tasks + rest =~= rest);
        assert(turns.skip(0) =~= turns);
        assert(world.with_code(rest, code) =~= world);
    } else {
        let task = tasks[0];
        let left = tasks.drop_first();
        assert(tasks + rest =~= seq![task] + (left + rest));
        assert(plain(task));
        lemma_plain_task(world, task, left + rest, turns);
        let second = world.with_code(left + rest, code.done(task));
        let first = code.duration(task) as int;
        assert(second.code() =~= code.done(task));
        assert forall|i: int| 0 <= i < left.len() implies plain(#[trigger] left[i]) by {
            assert(left[i] == tasks[i + 1]);
        }
        assert forall|i: int| 0 <= i < left.len() && #[trigger] left[i] is SetBreakpoint implies
            !second.state.engine.process.invalid() by {
            assert(left[i] == tasks[i + 1]);
        }
        lemma_plain_tasks(second, left, rest, turns.skip(first));
        lemma_skips(turns, first, second.code().total_duration(left) as int);
    }
}

/// Setting a breakpoint, when every call succeeds: the byte at the address becomes the
/// breakpoint instruction, no other byte changes, the byte that was there is on record, and the
/// session goes on with what it had left to do.
pub proof fn law_set_breakpoint(
    start: World,
    rest: Seq<Task>,
    address: Address,
    temporary: bool,
    turns: Seq<Turn>,
)
    requires
        start.state.session.agenda == seq![Task::SetBreakpoint { address, temporary }] + rest,
        rest.len() > 0,
        !start.state.engine.process.invalid(),
        !start.state.engine.software_breakpoints.contains_key(address),
        turns.len() == 6,
        start.smooth(turns),
    ensures
        ({
            let engine = start.state.engine;
            let record = SoftwareBreakpoint {
                address,
                original: start.memory[address],
                temporary,
            };
            start.after(turns) == start.at(
                rest,
                EngineView {
                    software_breakpoints: engine.software_breakpoints.insert(address, record),
                    ..engine
                },
                start.memory.insert(address, INT3),
            )
        }),
{
    lemma_plain_task(start, Task::SetBreakpoint { address, temporary }, rest, turns);
    assert(turns.skip(6) =~= Seq::empty());
}

/// Clearing a breakpoint, when every call succeeds: its original byte is back, no other byte
/// changes, and its record is gone.
pub proof fn law_clear_breakpoint(
    start: World,
    rest: Seq<Task>,
    address: Address,
    turns: Seq<Turn>,
)
    requires
        start.state.session.agenda == seq![Task::ClearBreakpoint { address }] + rest,
        rest.len() > 0,
        start.state.engine.software_breakpoints.contains_key(address),
        turns.len() == 5,
        start.smooth(turns),
    ensures
        ({
            let engine = start.state.engine;
            let record = engine.software_breakpoints[address];
            start.after(turns) == start.at(
                rest,
                EngineView {
                    software_breakpoints: engine.software_breakpoints.remove(address),
                    ..engine
                },
                start.memory.insert(address, record.original),
            )
        }),
{
    lemma_plain_task(start, Task::ClearBreakpoint { address }, rest, turns);
    assert(turns.skip(5) =~= Seq::empty());
}

/// Lifting a breakpoint, when every call succeeds: its original byte is back, no other byte
/// changes, and its record stays as it is.
pub proof fn law_lift_breakpoint(start: World, rest: Seq<Task>, address: Address, turns: Seq<Turn>)
    requires
        start.state.session.agenda == seq![Task::LiftBreakpoint { address }] + rest,
        rest.len() > 0,
        start.state.engine.software_breakpoints.contains_key(address),
        turns.len() == 5,
        start.smooth(turns),
    ensures
        start.after(turns) == start.at(
            rest,
            start.state.engine,
            start.memory.insert(
                address,
                start.state.engine.software_breakpoints[address].original,
            ),
        ),
{
    lemma_plain_task(start, Task::LiftBreakpoint { address }, rest, turns);
    assert(turns.skip(5) =~= Seq::empty());
}

/// Writing a recorded breakpoint once more, when every call succeeds: the byte at its address is
/// the breakpoint instruction, no other byte changes, and its record stays as it is.
pub proof fn law_reinsert_breakpoint(
    start: World,
    rest: Seq<Task>,
    address: Address,
    turns: Seq<Turn>,
)
    requires
        start.state.session.agenda == seq![Task::ReinsertBreakpoint { address }] + rest,
        rest.len() > 0,
        start.state.engine.software_breakpoints.contains_key(address),
        turns.len() == 5,
        start.smooth(turns),
    ensures
        start.after(turns) == start.at(
            rest,
            start.state.engine,
            start.memory.insert(address, INT3),
        ),
{
    lemma_plain_task(start, Task::ReinsertBreakpoint { address }, rest, turns);
    assert(turns.skip(5) =~= Seq::empty());
}

/// Clearing a breakpoint undoes setting it: when every call succeeds, the debuggee's memory and
/// the engine are what they were before.
pub proof fn law_clear_undoes_set(
    start: World,
    rest: Seq<Task>,
    address: Address,
    temporary: bool,
    turns: Seq<Turn>,
)
    requires
        start.state.session.agenda == seq![
            Task::SetBreakpoint { address, temporary },
            Task::ClearBreakpoint { address },
        ] + rest,
        rest.len() > 0,
        !start.state.engine.process.invalid(),
        !start.state.engine.software_breakpoints.contains_key(address),
        start.memory.contains_key(address),
        turns.len() == 11,
        start.smooth(turns),
    ensures
        start.after(turns) == start.at(rest, start.state.engine, start.memory),
{
    let set = Task::SetBreakpoint { address, temporary };
    let clear = Task::ClearBreakpoint { address };
    let left = seq![clear] + rest;
    assert(start.state.session.agenda =~= seq![set] + left);
    lemma_plain_task(start, set, left, turns);
    let second = start.with_code(left, start.code().done(set));
    lemma_plain_task(second, clear, rest, turns.skip(6));
    lemma_skips(turns, 6, 5);
    assert(turns.skip(11) =~= Seq::empty());
    assert(start.after(turns) =~= start.at(rest, start.state.engine, start.memory));
}

/// Tasks that are done can be taken in two parts.
proof fn lemma_all_done_concat(code: Code, first: Seq<Task>, last: Seq<Task>)
    ensures
        code.all_done(first + last) == code.all_done(first).all_done(last),
    decreases first.len(),
{
    if first.len() == 0 {
        assert(first + last =~= last);
    } else {
        lemma_all_done_concat(code.done(first[0]), first.drop_first(), last);
        assert((first + last).drop_first() =~= first.drop_first() + last);
    }
}

/// One more task that is done.
proof fn lemma_all_done_push(code: Code, tasks: Seq<Task>, task: Task)
    ensures
        code.all_done(tasks.push(task)) == code.all_done(tasks).done(task),
{
    assert(tasks.push(task) =~= tasks + seq![task]);
    lemma_all_done_concat(code, tasks, seq![task]);
    let then = code.all_done(tasks);
    assert(seq![task].drop_first() =~= Seq::empty());
    assert(then.done(task).all_done(Seq::empty()) == then.done(task));
}

/// The tasks on the slots of one thread set every slot of it, and change nothing else.
pub proof fn lemma_slot_tasks(code: Code, thread: Handle, slots: Seq<Option<Address>>)
    ensures
        code.all_done(debug_engine::slot_tasks(thread, slots)) == (Code {
            registers: code.registers.insert(
                thread,
                context::with_slots(code.registers[thread], slots),
            ),
            ..code
        }),
{
    let tasks = debug_engine::slot_tasks(thread, slots);
    reveal_with_fuel(Code::all_done, 5);
    assert(tasks.drop_first()[0] == tasks[1]);
    assert(tasks.drop_first().drop_first()[0] == tasks[2]);
    assert(tasks.drop_first().drop_first().drop_first()[0] == tasks[3]);
    assert(code.all_done(tasks) =~= Code {
        registers: code.registers.insert(
            thread,
            context::with_slots(code.registers[thread], slots),
        ),
        ..code
    });
}

/// The tasks on the slots of one thread, when every call succeeds: whatever its registers held,
/// the thread stops at the given addresses and nowhere else, its other registers are what they
/// were, and nothing else changes.
pub proof fn law_slots_reach_the_thread(
    start: World,
    rest: Seq<Task>,
    thread: Handle,
    slots: Seq<Option<Address>>,
    turns: Seq<Turn>,
)
    requires
        start.state.session.agenda == debug_engine::slot_tasks(thread, slots) + rest,
        rest.len() > 0,
        turns.len() == 8,
        start.smooth(turns),
    ensures
        ({
            let end = start.after(turns);
            let after = end.registers[thread];
            &&& end == start.at(rest, start.state.engine, start.memory).with_registers(
                start.registers.insert(thread, after),
            )
            &&& context::armed(after, slots)
            &&& context::same_beside_slots(after, start.registers[thread])
        }),
{
    let tasks = debug_engine::slot_tasks(thread, slots);
    let code = start.code();
    assert(code.total_duration(tasks) == 8) by {
        reveal_with_fuel(Code::total_duration, 5);
        assert(tasks.drop_first()[0] == tasks[1]);
        assert(tasks.drop_first().drop_first()[0] == tasks[2]);
        assert(tasks.drop_first().drop_first().drop_first()[0] == tasks[3]);
    }
    lemma_plain_tasks(start, tasks, rest, turns);
    lemma_slot_tasks(code, thread, slots);
    context::law_slots_arm_the_thread(start.registers[thread], slots);
    assert(turns.skip(8) =~= Seq::empty());
}

/// Whether one of the listed threads has this handle, and the handle refers to something.
spec fn listed(threads: Map<u32, Handle>, keys: Seq<u32>, thread: Handle) -> bool {
    !thread.invalid() && exists|i: int|
        0 <= i < keys.len() && threads[#[trigger] keys[i]] == thread
}

/// Whether a thread that is known has this handle, and the handle refers to something.
pub open spec fn known_thread(threads: Map<u32, Handle>, thread: Handle) -> bool {
    !thread.invalid() && exists|thread_id: u32| #[trigger]
        threads.contains_key(thread_id) && threads[thread_id] == thread
}

/// Whether a thread stops at the addresses in the slots, if it is to, and its registers are
/// otherwise what they were.
pub open spec fn rearmed(
    before: ThreadContext,
    slots: Seq<Option<Address>>,
    touched: bool,
    after: ThreadContext,
) -> bool {
    if touched {
        context::armed(after, slots) && context::same_beside_slots(after, before)
    } else {
        after == before
    }
}

/// The tasks on the slots of threads arm every listed thread, and change nothing else.
proof fn lemma_thread_tasks(
    code: Code,
    threads: Map<u32, Handle>,
    keys: Seq<u32>,
    slots: Seq<Option<Address>>,
)
    ensures
        ({
            let then = code.all_done(debug_engine::thread_tasks(threads, keys, slots));
            &&& then == (Code { registers: then.registers, ..code })
            &&& forall|thread: Handle|
                rearmed(
                    code.registers[thread],
                    slots,
                    listed(threads, keys, thread),
                    #[trigger] then.registers[thread],
                )
        }),
    decreases keys.len(),
{
    if keys.len() > 0 {
        let shorter = keys.drop_last();
        let earlier = debug_engine::thread_tasks(threads, shorter, slots);
        let middle = code.all_done(earlier);
        let last = threads[keys.last()];
        lemma_thread_tasks(code, threads, shorter, slots);
        let tasks = debug_engine::thread_tasks(threads, keys, slots);
        let then = code.all_done(tasks);
        if !last.invalid() {
            let group = debug_engine::slot_tasks(last, slots);
            lemma_all_done_concat(code, earlier, group.push(Task::Catch));
            lemma_all_done_push(middle, group, Task::Catch);
            lemma_slot_tasks(middle, last, slots);
            context::law_slots_arm_the_thread(middle.registers[last], slots);
        }
        assert forall|thread: Handle|
            rearmed(
                code.registers[thread],
                slots,
                listed(threads, keys, thread),
                #[trigger] then.registers[thread],
            ) by {
            assert(rearmed(
                code.registers[thread],
                slots,
                listed(threads, shorter, thread),
                middle.registers[thread],
            ));
            if listed(threads, shorter, thread) {
                let i = choose|i: int|
                    0 <= i < shorter.len() && threads[#[trigger] shorter[i]] == thread;
                assert(threads[keys[i]] == thread);
            } else if listed(threads, keys, thread) {
                let i = choose|i: int|
                    0 <= i < keys.len() && threads[#[trigger] keys[i]] == thread;
                assert(i < shorter.len() ==> threads[shorter[i]] == thread);
            }
            if thread == last {
                assert(threads[keys[keys.len() - 1]] == last);
            }
        }
    }
}

/// The tasks on the slots of threads are about registers that there are.
proof fn lemma_thread_tasks_are_plain(
    threads: Map<u32, Handle>,
    keys: Seq<u32>,
    slots: Seq<Option<Address>>,
)
    ensures
        ({
            let tasks = debug_engine::thread_tasks(threads, keys, slots);
            forall|i: int|
                0 <= i < tasks.len() ==> plain(#[trigger] tasks[i]) && !(tasks[i]
                    is SetBreakpoint)
        }),
    decreases keys.len(),
{
    if keys.len() > 0 {
        lemma_thread_tasks_are_plain(threads, keys.drop_last(), slots);
    }
}

/// Clearing what is no longer wanted takes lasting breakpoints only, and puts their bytes back.
proof fn lemma_clear_tasks(code: Code, keys: Seq<Address>, wanted: Seq<Address>)
    requires
        keys.no_duplicates(),
        forall|i: int|
            0 <= i < keys.len() ==> code.breakpoints.contains_key(#[trigger] keys[i]),
    ensures
        ({
            let tasks = debug_engine::clear_tasks(code.breakpoints, keys, wanted);
            let then = code.all_done(tasks);
            &&& forall|i: int| 0 <= i < tasks.len() ==> #[trigger] tasks[i] is ClearBreakpoint
            &&& forall|a: Address| #[trigger]
                then.breakpoints.contains_key(a) <==> code.breakpoints.contains_key(a)
                    && !(keys.contains(a) && unwanted(code, wanted, a))
            &&& forall|a: Address| #[trigger]
                then.breakpoints.contains_key(a) ==> then.breakpoints[a] == code.breakpoints[a]
            &&& forall|a: Address| #[trigger]
                then.memory[a] == if keys.contains(a) && unwanted(code, wanted, a) {
                    code.breakpoints[a].original
                } else {
                    code.memory[a]
                }
            &&& then.registers == code.registers
        }),
    decreases keys.len(),
{
    if keys.len() > 0 {
        let last = keys.last();
        let shorter = keys.drop_last();
        assert forall|i: int| 0 <= i < shorter.len() implies code.breakpoints.contains_key(
            #[trigger] shorter[i],
        ) by {
            assert(shorter[i] == keys[i]);
        }
        lemma_clear_tasks(code, shorter, wanted);
        let earlier = debug_engine::clear_tasks(code.breakpoints, shorter, wanted);
        assert(keys[keys.len() - 1] == last);
        assert(!shorter.contains(last)) by {
            if shorter.contains(last) {
                let k = choose|k: int| 0 <= k < shorter.len() && shorter[k] == last;
                assert(keys[k] == keys[keys.len() - 1]);
            }
        }
        assert forall|a: Address| keys.contains(a) <==> shorter.contains(a) || a == last by {
            if keys.contains(a) && a != last {
                let k = choose|k: int| 0 <= k < keys.len() && keys[k] == a;
                assert(shorter[k] == a);
            }
            if shorter.contains(a) {
                let k = choose|k: int| 0 <= k < shorter.len() && shorter[k] == a;
                assert(keys[k] == a);
            }
        }
        if unwanted(code, wanted, last) {
            lemma_all_done_push(code, earlier, Task::ClearBreakpoint { address: last });
        }
    }
}

/// Whether a breakpoint is neither temporary nor wanted.
pub open spec fn unwanted(code: Code, wanted: Seq<Address>, address: Address) -> bool {
    !code.breakpoints[address].temporary && !wanted.contains(address)
}

/// Setting adds the addresses that have no breakpoint yet, and leaves those that have one.
proof fn lemma_set_tasks(code: Code, wanted: Seq<Address>)
    ensures
        ({
            let then = code.all_done(debug_engine::set_tasks(wanted));
            &&& forall|a: Address| #[trigger]
                then.breakpoints.contains_key(a) <==> code.breakpoints.contains_key(a)
                    || wanted.contains(a)
            &&& forall|a: Address| #[trigger]
                then.breakpoints.contains_key(a) ==> then.breakpoints[a] == (
                if code.breakpoints.contains_key(a) {
                    code.breakpoints[a]
                } else {
                    SoftwareBreakpoint { address: a, original: code.memory[a], temporary: false }
                })
            &&& forall|a: Address| #[trigger]
                then.memory[a] == if wanted.contains(a) && !code.breakpoints.contains_key(a) {
                    INT3
                } else {
                    code.memory[a]
                }
            &&& then.registers == code.registers
        }),
    decreases wanted.len(),
{
    if wanted.len() > 0 {
        let last = wanted.last();
        let shorter = wanted.drop_last();
        lemma_set_tasks(code, shorter);
        assert(debug_engine::set_tasks(wanted) =~= debug_engine::set_tasks(shorter).push(
            Task::SetBreakpoint { address: last, temporary: false },
        ));
        lemma_all_done_push(
            code,
            debug_engine::set_tasks(shorter),
            Task::SetBreakpoint { address: last, temporary: false },
        );
        assert(wanted[wanted.len() - 1] == last);
        assert forall|a: Address| wanted.contains(a) <==> shorter.contains(a) || a == last by {
            if wanted.contains(a) && a != last {
                let k = choose|k: int| 0 <= k < wanted.len() && wanted[k] == a;
                assert(shorter[k] == a);
            }
            if shorter.contains(a) {
                let k = choose|k: int| 0 <= k < shorter.len() && shorter[k] == a;
                assert(wanted[k] == a);
            }
        }
    }
}

/// Every task of a sync is plain, and only a sync that wants software breakpoints sets any.
proof fn lemma_sync_is_plain(engine: EngineView, order: WalkOrder)
    requires
        engine.walked_by(order),
    ensures
        ({
            let plan = engine.sync_spec(order).1;
            &&& forall|i: int| 0 <= i < plan.len() ==> plain(#[trigger] plan[i])
            &&& forall|i: int|
                0 <= i < plan.len() && #[trigger] plan[i] is SetBreakpoint
                    ==> engine.desired_software().len() > 0
        }),
{
    if engine.dirty {
        let wanted = engine.desired_software();
        let slots = debug_engine::thread_tasks(
            engine.threads,
            order.threads,
            engine.desired_hardware(),
        );
        let code = Code {
            breakpoints: engine.software_breakpoints,
            memory: Map::empty(),
            registers: Map::empty(),
        };
        lemma_thread_tasks_are_plain(engine.threads, order.threads, engine.desired_hardware());
        lemma_walked_breakpoints(engine, order);
        lemma_clear_tasks(code, order.breakpoints, wanted);
    }
}

/// An order that walks the breakpoints lists every one of them.
proof fn lemma_walked_breakpoints(engine: EngineView, order: WalkOrder)
    requires
        engine.walked_by(order),
    ensures
        order.breakpoints.no_duplicates(),
        forall|i: int|
            0 <= i < order.breakpoints.len() ==> engine.software_breakpoints.contains_key(
                #[trigger] order.breakpoints[i],
            ),
        forall|a: Address|
            engine.software_breakpoints.contains_key(a) <==> #[trigger] order.breakpoints.contains(
                a,
            ),
{
    assert forall|i: int|
        0 <= i < order.breakpoints.len() implies engine.software_breakpoints.contains_key(
        #[trigger] order.breakpoints[i],
    ) by {
        assert(order.breakpoints.to_set().contains(order.breakpoints[i]));
    }
    assert forall|a: Address|
        engine.software_breakpoints.contains_key(a) <==> #[trigger] order.breakpoints.contains(
            a,
        ) by {
        assert(order.breakpoints.to_set().contains(a) <==> engine.software_breakpoints.dom().contains(
            a,
        ));
    }
}

/// A sync and the tasks of its plan, when every call succeeds.
pub proof fn lemma_sync(world: World, rest: Seq<Task>, turns: Seq<Turn>)
    requires
        world.state.session.agenda == seq![Task::Sync] + rest,
        rest.len() > 0,
        !world.state.engine.process.invalid() || !world.state.engine.dirty
            || world.state.engine.desired_software().len() == 0,
        turns.len() > 0,
        turns.len() >= 1 + world.code().total_duration(
            world.state.engine.sync_spec(turns[0].order).1,
        ),
        world.smooth(turns),
    ensures
        ({
            let (engine, plan) = world.state.engine.sync_spec(turns[0].order);
            let code = world.code().all_done(plan);
            let then = world.at(
                rest,
                EngineView { software_breakpoints: code.breakpoints, ..engine },
                code.memory,
            ).with_registers(code.registers);
            let skipped = turns.skip(1 + world.code().total_duration(plan) as int);
            &&& world.state.engine.walked_by(turns[0].order)
            &&& world.after(turns) == then.after(skipped)
            &&& then.smooth(skipped)
        }),
{
    let (engine, plan) = world.state.engine.sync_spec(turns[0].order);
    lemma_first_turn(world, Task::Sync, rest, turns);
    lemma_sync_is_plain(world.state.engine, turns[0].order);
    let second = world.at(plan + rest, engine, world.memory);
    assert(world.next(turns[0]) =~= second) by {
        reveal(State::next);
    }
    assert(second.code() =~= world.code());
    lemma_plain_tasks(second, plan, rest, turns.skip(1));
    lemma_skips(turns, 1, world.code().total_duration(plan) as int);
}

/// What the plan of a sync does to breakpoints, memory and registers.
pub proof fn lemma_sync_code(code: Code, engine: EngineView, order: WalkOrder)
    requires
        engine.dirty,
        engine.walked_by(order),
        code.breakpoints == engine.software_breakpoints,
    ensures
        ({
            let then = code.all_done(engine.sync_spec(order).1);
            &&& synced(code, engine.desired_software(), then)
            &&& synced_threads(engine, code.registers, then.registers)
        }),
{
    let wanted = engine.desired_software();
    let slots = debug_engine::thread_tasks(
        engine.threads,
        order.threads,
        engine.desired_hardware(),
    );
    let clears = debug_engine::clear_tasks(engine.software_breakpoints, order.breakpoints, wanted);
    let sets = debug_engine::set_tasks(wanted);
    let middle = code.all_done(slots);
    lemma_thread_tasks(code, engine.threads, order.threads, engine.desired_hardware());
    lemma_walked_breakpoints(engine, order);
    lemma_clear_tasks(middle, order.breakpoints, wanted);
    lemma_set_tasks(middle.all_done(clears), wanted);
    lemma_all_done_concat(code, slots, clears);
    lemma_all_done_concat(code, slots + clears, sets);
    let then = code.all_done(engine.sync_spec(order).1);
    assert forall|thread: Handle|
        rearmed(
            code.registers[thread],
            engine.desired_hardware(),
            known_thread(engine.threads, thread),
            #[trigger] then.registers[thread],
        ) by {
        lemma_walked_threads(engine, order, thread);
        assert(then.registers[thread] == middle.registers[thread]);
    }
}

/// An order that walks the threads lists every one of them.
proof fn lemma_walked_threads(engine: EngineView, order: WalkOrder, thread: Handle)
    requires
        engine.walked_by(order),
    ensures
        listed(engine.threads, order.threads, thread) <==> known_thread(engine.threads, thread),
{
    if listed(engine.threads, order.threads, thread) {
        let i = choose|i: int|
            0 <= i < order.threads.len() && engine.threads[#[trigger] order.threads[i]] == thread;
        assert(order.threads.to_set().contains(order.threads[i]));
        assert(engine.threads.contains_key(order.threads[i]));
    }
    if known_thread(engine.threads, thread) {
        let thread_id = choose|thread_id: u32| #[trigger]
            engine.threads.contains_key(thread_id) && engine.threads[thread_id] == thread;
        assert(order.threads.to_set().contains(thread_id));
        let i = choose|i: int| 0 <= i < order.threads.len() && order.threads[i] == thread_id;
        assert(engine.threads[order.threads[i]] == thread);
    }
}

/// Whether a sync was committed to all threads: the debug registers of every thread that is known
/// stop it at the addresses that are to go into slots and nowhere else, its other registers are
/// what they were, and so are all registers of every other thread.
pub open spec fn synced_threads(
    engine: EngineView,
    before: Registers,
    after: Registers,
) -> bool {
    forall|thread: Handle|
        rearmed(
            before[thread],
            engine.desired_hardware(),
            known_thread(engine.threads, thread),
            #[trigger] after[thread],
        )
}

/// Whether breakpoints and memory are what a sync is for, given what they were before and the
/// addresses of the software breakpoints that are wanted. Those on record are the temporary ones
/// and those at the wanted addresses: what was on record stays as it was, what is new is lasting
/// and has the byte that was there. A new one is in memory, one that went has its byte back, and
/// no other byte changed.
pub open spec fn synced(before: Code, wanted: Seq<Address>, after: Code) -> bool {
    &&& forall|a: Address| #[trigger]
        after.breakpoints.contains_key(a) <==> wanted.contains(a) || (
        before.breakpoints.contains_key(a) && before.breakpoints[a].temporary)
    &&& forall|a: Address| #[trigger]
        after.breakpoints.contains_key(a) ==> after.breakpoints[a] == (
        if before.breakpoints.contains_key(a) {
            before.breakpoints[a]
        } else {
            SoftwareBreakpoint { address: a, original: before.memory[a], temporary: false }
        })
    &&& forall|a: Address| #[trigger]
        after.memory[a] == (if wanted.contains(a) && !before.breakpoints.contains_key(a) {
            INT3
        } else if before.breakpoints.contains_key(a) && unwanted(before, wanted, a) {
            before.breakpoints[a].original
        } else {
            before.memory[a]
        })
}

/// A sync whose tasks all succeed reaches what was requested: the slots hold the first four
/// addresses that were requested, in the engine and in the debug registers of every thread, the
/// software breakpoints on record and in memory are the other ones and the temporary ones, and
/// nothing else in the engine or in the registers changes.
pub proof fn law_sync_reaches_request(start: World, rest: Seq<Task>, turns: Seq<Turn>)
    requires
        start.state.session.agenda == seq![Task::Sync] + rest,
        rest.len() > 0,
        start.state.engine.dirty,
        !start.state.engine.process.invalid() || start.state.engine.desired_software().len() == 0,
        turns.len() > 0,
        turns.len() == 1 + start.code().total_duration(
            start.state.engine.sync_spec(turns[0].order).1,
        ),
        start.smooth(turns),
    ensures
        ({
            let end = start.after(turns);
            let engine = start.state.engine;
            &&& end == start.at(
                rest,
                EngineView {
                    software_breakpoints: end.state.engine.software_breakpoints,
                    hardware_breakpoints: engine.desired_hardware(),
                    dirty: false,
                    ..engine
                },
                end.memory,
            ).with_registers(end.registers)
            &&& synced(start.code(), engine.desired_software(), end.code())
            &&& synced_threads(engine, start.registers, end.registers)
        }),
{
    lemma_sync(start, rest, turns);
    lemma_sync_code(start.code(), start.state.engine, turns[0].order);
    let plan = start.state.engine.sync_spec(turns[0].order).1;
    assert(turns.skip(1 + start.code().total_duration(plan) as int) =~= Seq::empty());
}

/// After a sync, the lasting software breakpoints are exactly the wanted ones, wherever no wanted
/// address holds a temporary breakpoint.
pub proof fn law_synced_breakpoints_are_the_wanted_ones(
    before: Code,
    wanted: Seq<Address>,
    after: Code,
)
    requires
        synced(before, wanted, after),
        forall|a: Address| #[trigger]
            before.breakpoints.contains_key(a) && wanted.contains(a)
                ==> !before.breakpoints[a].temporary,
    ensures
        forall|a: Address| #[trigger]
            after.breakpoints.contains_key(a) && !after.breakpoints[a].temporary
                <==> wanted.contains(a),
{
    assert forall|a: Address| #[trigger]
        after.breakpoints.contains_key(a) && !after.breakpoints[a].temporary
            <==> wanted.contains(a) by {
        if wanted.contains(a) {
            assert(after.breakpoints.contains_key(a));
            assert(before.breakpoints.contains_key(a) ==> !before.breakpoints[a].temporary);
        }
    }
}

/// The first turn of a run on a task of the session that leaves the controller alone.
pub proof fn lemma_session_turn(world: World, task: Task, rest: Seq<Task>, turns: Seq<Turn>)
    requires
        world.state.session.agenda == seq![task] + rest,
        turns.len() > 0,
        world.smooth(turns),
        task is BreakpointHit || task is ScheduleReinsert || task is Resume || task is WaitEvent
            || task is Dispatch || task is CloseHandle,
        ({
            let flow = session::effect(
                world.state.engine,
                world.state.controller,
                world.state.session.launch,
                task,
                turns[0].reply,
                turns[0].order,
            ).flow;
            flow is Next && (flow->Next_0 + rest).len() > 0
        }),
    ensures
        ({
            let e = session::effect(
                world.state.engine,
                world.state.controller,
                world.state.session.launch,
                task,
                turns[0].reply,
                turns[0].order,
            );
            let call = task.call_spec(world.state.engine.process);
            let then = world.at(e.flow->Next_0 + rest, e.engine, world.memory).with_registers(
                registers_after(world.registers, call, turns[0]),
            );
            &&& world.after(turns) == then.after(turns.skip(1))
            &&& then.smooth(turns.skip(1))
        }),
{
    lemma_first_turn(world, task, rest, turns);
    reveal(State::next);
    let e = session::effect(
        world.state.engine,
        world.state.controller,
        world.state.session.launch,
        task,
        turns[0].reply,
        turns[0].order,
    );
    let call = task.call_spec(world.state.engine.process);
    assert(world.next(turns[0]) =~= world.at(
        e.flow->Next_0 + rest,
        e.engine,
        world.memory,
    ).with_registers(registers_after(world.registers, call, turns[0])));
}

/// The address of the breakpoint instruction that a thread ran into, given its registers.
pub open spec fn hit_address(reply: Reply) -> Address {
    ((reply->Context_0.eip - 1) % 0x1_0000_0000) as u32
}

/// Whether a session looks at a hit on a lasting breakpoint, and the thread that ran into it then
/// runs one instruction.
pub open spec fn lasting_hit(
    start: World,
    thread: Handle,
    process_id: u32,
    thread_id: u32,
    event: DebugEvent,
    turns: Seq<Turn>,
) -> bool {
    let address = hit_address(turns[0].reply);
    &&& start.state.session.agenda == seq![Task::BreakpointHit { thread, process_id, thread_id }]
    &&& start.state.engine.software_breakpoints.contains_key(address)
    &&& !start.state.engine.software_breakpoints[address].temporary
    &&& turns.len() > 12
    &&& turns[12].reply == Reply::Event(event)
    &&& event.thread_id == thread_id
    &&& event.kind == (EventKind::Exception { code: EXCEPTION_SINGLE_STEP_CODE })
    &&& start.state.engine.threads.contains_key(thread_id)
}

/// From the hit on a lasting breakpoint to the event of the one instruction that runs without it.
proof fn lemma_lasting_hit(
    start: World,
    thread: Handle,
    process_id: u32,
    thread_id: u32,
    event: DebugEvent,
    turns: Seq<Turn>,
)
    requires
        lasting_hit(start, thread, process_id, thread_id, event, turns),
        start.smooth(turns),
    ensures
        ({
            let address = hit_address(turns[0].reply);
            let then = start.at(
                seq![Task::Sync, Task::Dispatch { event }],
                EngineView { pending_reinsert: Some(address), ..start.state.engine },
                start.memory.insert(
                    address,
                    start.state.engine.software_breakpoints[address].original,
                ),
            ).with_registers(turns[12].registers);
            &&& start.after(turns) == then.after(turns.skip(13))
            &&& then.smooth(turns.skip(13))
        }),
{
    let engine = start.state.engine;
    let hit = Task::BreakpointHit { thread, process_id, thread_id };
    assert(start.state.session.agenda =~= seq![hit] + Seq::empty());
    lemma_first_turn(start, hit, Seq::empty(), turns);
    assert(turns[0].reply is Context);
    let address = hit_address(turns[0].reply);
    let lift = Task::LiftBreakpoint { address };
    let back = Task::EditContext { thread, edit: Edit::StepBack };
    let schedule = Task::ScheduleReinsert { address };
    let trap = Task::EditContext { thread, edit: Edit::EnableTrap };
    let resume = Task::Resume { process_id, thread_id };
    let behind_schedule = seq![trap, resume, Task::WaitEvent];
    let behind_back = seq![schedule] + behind_schedule;
    let behind_lift = seq![back] + behind_back;
    let tasks = session::breakpoint_hit(
        engine,
        thread,
        process_id,
        thread_id,
        turns[0].reply->Context_0.eip,
    );
    lemma_session_turn(start, hit, Seq::empty(), turns);
    assert(tasks + Seq::empty() =~= seq![lift] + behind_lift);
    let found = start.at(seq![lift] + behind_lift, engine, start.memory);
    lemma_plain_task(found, lift, behind_lift, turns.skip(1));
    lemma_skips(turns, 1, 5);
    let memory = start.memory.insert(address, engine.software_breakpoints[address].original);
    let lifted = start.at(behind_lift, engine, memory);
    assert(found.with_code(behind_lift, found.code().done(lift)) =~= lifted);
    lemma_edit(lifted, thread, Edit::StepBack, behind_back, turns.skip(6));
    lemma_skips(turns, 6, 2);
    let set_back = lifted.with_code(behind_back, lifted.code().done(back));
    lemma_session_turn(set_back, schedule, behind_schedule, turns.skip(8));
    lemma_skips(turns, 8, 1);
    assert(Seq::<Task>::empty() + behind_schedule =~= behind_schedule);
    let pending = EngineView { pending_reinsert: Some(address), ..engine };
    let scheduled = set_back.at(behind_schedule, pending, memory);
    let on = seq![resume, Task::WaitEvent];
    assert(behind_schedule =~= seq![trap] + on);
    lemma_edit(scheduled, thread, Edit::EnableTrap, on, turns.skip(9));
    lemma_skips(turns, 9, 2);
    let trapped = scheduled.with_code(on, scheduled.code().done(trap));
    assert(on =~= seq![resume] + seq![Task::WaitEvent]);
    lemma_session_turn(trapped, resume, seq![Task::WaitEvent], turns.skip(11));
    lemma_skips(turns, 11, 1);
    assert(Seq::<Task>::empty() + seq![Task::WaitEvent] =~= seq![Task::WaitEvent]);
    let waiting = trapped.at(seq![Task::WaitEvent], pending, memory);
    assert(seq![Task::WaitEvent] =~= seq![Task::WaitEvent] + Seq::empty());
    assert(turns.skip(12)[0] == turns[12]);
    lemma_session_turn(waiting, Task::WaitEvent, Seq::empty(), turns.skip(12));
    lemma_skips(turns, 12, 1);
    assert(seq![Task::Sync, Task::Dispatch { event }] + Seq::empty() =~= seq![
        Task::Sync,
        Task::Dispatch { event },
    ]);
}

/// From the event of the one instruction that ran without a breakpoint to the moment when the
/// breakpoint is back.
proof fn lemma_lifted_breakpoint_returns(
    world: World,
    address: Address,
    event: DebugEvent,
    turns: Seq<Turn>,
)
    requires
        world.state.session.agenda == seq![Task::Dispatch { event }],
        world.state.engine.pending_reinsert == Some(address),
        world.state.engine.software_breakpoints.contains_key(address),
        world.state.engine.threads.contains_key(event.thread_id),
        event.kind == (EventKind::Exception { code: EXCEPTION_SINGLE_STEP_CODE }),
        turns.len() == 8,
        world.smooth(turns),
    ensures
        world.after(turns) == world.at(
            seq![Task::TakeCommand { thread_id: event.thread_id }] + session::go_on(
                event.process_id,
                event.thread_id,
            ),
            EngineView { pending_reinsert: None, ..world.state.engine },
            world.memory.insert(address, INT3),
        ).with_registers(
            world.registers.insert(
                world.state.engine.threads[event.thread_id],
                Edit::ClearTrap.applied(
                    world.registers[world.state.engine.threads[event.thread_id]],
                ),
            ),
        ),
{
    let thread_id = event.thread_id;
    let thread = world.state.engine.threads[thread_id];
    let dispatch = Task::Dispatch { event };
    let clear = Task::EditContext { thread, edit: Edit::ClearTrap };
    let reinsert = Task::ReinsertBreakpoint { address };
    let rest = seq![Task::TakeCommand { thread_id }] + session::go_on(event.process_id, thread_id);
    let engine = EngineView { pending_reinsert: None, ..world.state.engine };
    assert(world.state.session.agenda =~= seq![dispatch] + Seq::empty());
    lemma_session_turn(world, dispatch, Seq::empty(), turns);
    assert(session::dispatched(world.state.engine, event).1 + Seq::empty() =~= seq![clear] + (seq![
        reinsert,
    ] + rest));
    let seen = world.at(seq![clear] + (seq![reinsert] + rest), engine, world.memory);
    lemma_edit(seen, thread, Edit::ClearTrap, seq![reinsert] + rest, turns.skip(1));
    lemma_skips(turns, 1, 2);
    let cleared = seen.with_code(seq![reinsert] + rest, seen.code().done(clear));
    lemma_plain_task(cleared, reinsert, rest, turns.skip(3));
    lemma_skips(turns, 3, 5);
    assert(turns.skip(8) =~= Seq::empty());
    assert(cleared.with_code(rest, cleared.code().done(reinsert)) =~= world.at(
        rest,
        engine,
        world.memory.insert(address, INT3),
    ).with_registers(cleared.registers));
}

/// The breakpoints and the memory while a breakpoint is lifted, with the registers that the one
/// instruction leaves.
pub open spec fn lifted_code(start: World, address: Address, registers: Registers) -> Code {
    Code { registers, ..start.code().done(Task::LiftBreakpoint { address }) }
}

/// A lasting breakpoint outlives its hits. When every call succeeds from the hit, through the one
/// instruction that runs without the breakpoint and the sync before its event, to the moment when
/// the session goes on: the breakpoint is on record as it was, its instruction is back in memory,
/// the thread's trap flag is clear, and the next hit at its address is handled just as this one
/// was. Where nothing new was requested meanwhile, no breakpoint changed and no other byte did.
pub proof fn law_lasting_breakpoint_is_kept(
    start: World,
    thread: Handle,
    process_id: u32,
    thread_id: u32,
    event: DebugEvent,
    turns: Seq<Turn>,
)
    requires
        lasting_hit(start, thread, process_id, thread_id, event, turns),
        start.smooth(turns),
        start.state.engine.dirty ==> !start.state.engine.process.invalid()
            && start.state.engine.desired_software().contains(hit_address(turns[0].reply)),
        turns.len() == 22 + lifted_code(
            start,
            hit_address(turns[0].reply),
            turns[12].registers,
        ).total_duration(start.state.engine.sync_spec(turns[13].order).1),
    ensures
        ({
            let address = hit_address(turns[0].reply);
            let eip = turns[0].reply->Context_0.eip;
            let before = start.state.engine;
            let end = start.after(turns);
            let after = end.state.engine;
            &&& after.software_breakpoints.contains_key(address)
            &&& after.software_breakpoints[address] == before.software_breakpoints[address]
            &&& end.memory[address] == INT3
            &&& end.registers[before.threads[thread_id]].eflags & TRAP_FLAG == 0
            &&& session::breakpoint_hit(after, thread, process_id, thread_id, eip)
                == session::breakpoint_hit(before, thread, process_id, thread_id, eip)
            &&& end.state.session.agenda == seq![Task::TakeCommand { thread_id }] + session::go_on(
                event.process_id,
                thread_id,
            )
            &&& after.pending_reinsert is None
            &&& !before.dirty ==> {
                &&& after.software_breakpoints == before.software_breakpoints
                &&& end.memory == start.memory.insert(address, INT3)
            }
        }),
{
    let address = hit_address(turns[0].reply);
    let engine = start.state.engine;
    let pending = EngineView { pending_reinsert: Some(address), ..engine };
    let plan = engine.sync_spec(turns[13].order).1;
    let code = lifted_code(start, address, turns[12].registers);
    let dispatch = seq![Task::Dispatch { event }];
    lemma_lasting_hit(start, thread, process_id, thread_id, event, turns);
    let stepped = start.at(
        seq![Task::Sync, Task::Dispatch { event }],
        pending,
        code.memory,
    ).with_registers(code.registers);
    assert(stepped.state.session.agenda =~= seq![Task::Sync] + dispatch);
    assert(stepped.code() =~= code);
    assert(turns.skip(13)[0] == turns[13]);
    assert(pending.desired_software() == engine.desired_software());
    assert(pending.sync_spec(turns[13].order).1 == plan);
    lemma_sync(stepped, dispatch, turns.skip(13));
    let length = 1 + code.total_duration(plan) as int;
    lemma_skips(turns, 13, length);
    let done = code.all_done(plan);
    let synced_engine = EngineView {
        software_breakpoints: done.breakpoints,
        ..pending.sync_spec(turns[13].order).0
    };
    if engine.dirty {
        lemma_sync_code(code, pending, turns[13].order);
        assert(done.breakpoints.contains_key(address));
    } else {
        assert(plan =~= Seq::empty());
    }
    let dispatched = start.at(dispatch, synced_engine, done.memory).with_registers(done.registers);
    context::law_trap_flag(done.registers[engine.threads[thread_id]]);
    lemma_lifted_breakpoint_returns(dispatched, address, event, turns.skip(13 + length));
    if !engine.dirty {
        assert(start.after(turns).memory =~= start.memory.insert(address, INT3));
    }
}

/// Stepping over runs to behind the instruction where that is a near call, and stops after the
/// one instruction where it is any other.
pub proof fn law_step_over(start: World, rest: Seq<Task>, thread: Handle, turns: Seq<Turn>)
    requires
        start.state.session.agenda == seq![Task::StepOver { thread }] + rest,
        rest.len() > 0,
        turns.len() == 2,
        start.smooth(turns),
    ensures
        ({
            let eip = turns[0].reply->Context_0.eip;
            let step = if start.memory[eip] == NEAR_CALL {
                Task::SetBreakpoint {
                    address: ((eip + 5) % 0x1_0000_0000) as u32,
                    temporary: true,
                }
            } else {
                Task::EditContext { thread, edit: Edit::EnableTrap }
            };
            &&& start.state.call() == (Call::GetContext { thread, part: ContextPart::Control })
            &&& start.after(turns) == start.at(
                seq![step] + rest,
                start.state.engine,
                start.memory,
            )
        }),
{
    let over = Task::StepOver { thread };
    lemma_first_turn(start, over, rest, turns);
    lemma_engine_turn(start, over, rest, turns);
    let eip = turns[0].reply->Context_0.eip;
    let opcode = Task::StepOverOpcode { thread, ip: eip };
    let second = start.at(seq![opcode] + rest, start.state.engine, start.memory);
    lemma_first_turn(second, opcode, rest, turns.skip(1));
    assert(turns.skip(1)[0].reply->Bytes_0@[0] == start.memory[((eip + 0) % 0x1_0000_0000) as u32]);
    lemma_engine_turn(second, opcode, rest, turns.skip(1));
    assert(turns.skip(1).skip(1) =~= Seq::empty());
}

/// Stepping out breaks, once, at the address that the stack holds on its top.
pub proof fn law_step_out(start: World, rest: Seq<Task>, thread: Handle, turns: Seq<Turn>)
    requires
        start.state.session.agenda == seq![Task::StepOut { thread }] + rest,
        rest.len() > 0,
        turns.len() == 2,
        start.smooth(turns),
    ensures
        ({
            let esp = turns[0].reply->Context_0.esp;
            let stack = Seq::new(4, |i: int| start.memory[((esp + i) % 0x1_0000_0000) as u32]);
            let step = Task::SetBreakpoint {
                address: crate::context::little_endian(stack) as u32,
                temporary: true,
            };
            &&& start.state.call() == (Call::GetContext { thread, part: ContextPart::Control })
            &&& start.after(turns) == start.at(
                seq![step] + rest,
                start.state.engine,
                start.memory,
            )
        }),
{
    let out = Task::StepOut { thread };
    lemma_first_turn(start, out, rest, turns);
    lemma_engine_turn(start, out, rest, turns);
    let esp = turns[0].reply->Context_0.esp;
    let read = Task::StepOutReturn { esp };
    let second = start.at(seq![read] + rest, start.state.engine, start.memory);
    lemma_first_turn(second, read, rest, turns.skip(1));
    let stack = Seq::new(4, |i: int| start.memory[((esp + i) % 0x1_0000_0000) as u32]);
    assert(turns.skip(1)[0].reply->Bytes_0@ =~= stack);
    lemma_engine_turn(second, read, rest, turns.skip(1));
    assert(turns.skip(1).skip(1) =~= Seq::empty());
}

/// Closing handles does nothing but take the calls off the agenda, and forgetting the process
/// ends the session.
proof fn lemma_closing_ends(start: World, closes: Seq<Task>, turns: Seq<Turn>)
    requires
        start.state.session.agenda == closes.push(Task::Detach),
        forall|i: int| 0 <= i < closes.len() ==> #[trigger] closes[i] is CloseHandle,
        turns.len() == closes.len() + 1,
    ensures
        start.after(turns).state == (State {
            session: SessionView {
                agenda: Seq::empty(),
                outcome: Some(Ok(())),
                ..start.state.session
            },
            engine: EngineView { process: Handle::null_spec(), ..start.state.engine },
            ..start.state
        }),
    decreases closes.len(),
{
    reveal(State::next);
    let first = start.next(turns[0]);
    let left = turns.drop_first();
    assert(start.after(turns) == first.after(left));
    if closes.len() == 0 {
        assert(start.state.session.agenda[0] == Task::Detach);
        assert(first.state.session.agenda =~= Seq::empty());
        assert(first.after(left) == first);
    } else {
        assert(start.state.session.agenda[0] == closes[0]);
        assert(closes[0] is CloseHandle);
        let open = closes.drop_first();
        assert(start.state.session.agenda.drop_first() =~= open.push(Task::Detach));
        assert(first.state.session.agenda =~= open.push(Task::Detach));
        lemma_closing_ends(first, open, left);
    }
}

/// A session that comes to its end leaves nothing behind, whatever the system replies: it knows
/// no thread and no process any more, the controller knows that it is over, and its outcome is
/// success.
pub proof fn law_ended_session_leaves_nothing(start: World, turns: Seq<Turn>)
    requires
        start.state.session.agenda == seq![Task::EndSession],
        turns.len() == session::close_threads(
            start.state.engine.threads,
            turns[0].order.threads,
        ).len() + session::close(start.state.session.launch.thread).len() + session::close(
            start.state.session.launch.process,
        ).len() + 2,
    ensures
        ({
            let end = start.after(turns).state;
            &&& !end.running()
            &&& end.session.outcome == Some(Ok::<(), Seq<char>>(()))
            &&& end.engine.threads == Map::<u32, Handle>::empty()
            &&& end.engine.process == Handle::null_spec()
            &&& end.controller == start.state.controller.with_session(false)
        }),
{
    reveal(State::next);
    let threads = start.state.engine.threads;
    let launch = start.state.session.launch;
    let keys = turns[0].order.threads;
    let closes = session::close_threads(threads, keys) + session::close(launch.thread)
        + session::close(launch.process);
    crate::session_laws::lemma_close_threads_only_close(threads, keys);
    let first = start.next(turns[0]);
    assert(start.after(turns) == first.after(turns.drop_first()));
    assert(start.state.session.agenda.drop_first() =~= Seq::empty());
    assert(first.state.session.agenda =~= closes.push(Task::Detach));
    lemma_closing_ends(first, closes, turns.drop_first());
}

/// The engine once it heard where the image lies.
pub open spec fn placed(engine: EngineView, image_base: u64) -> EngineView {
    EngineView {
        symbols: SymbolsView {
            image_base: Some((image_base % 0x1_0000_0000) as u32),
            ..engine.symbols
        },
        dirty: true,
        ..engine
    }
}

/// Breakpoints that were requested before the image base was known are in place once it is: when
/// every call succeeds from the event that tells the base to the one after it, then before that
/// one is handled the debug registers of every known thread stop it at the first four addresses
/// that the requests resolve to with the new base, and nowhere else, and the other addresses have
/// software breakpoints, on record and in memory.
pub proof fn law_breakpoints_are_placed_once_the_base_is_known(
    start: World,
    event: DebugEvent,
    image_base: u64,
    file: Handle,
    next: DebugEvent,
    turns: Seq<Turn>,
    wait: int,
)
    requires
        start.state.session.agenda == seq![Task::Dispatch { event }],
        event.kind == (EventKind::CreateProcess { image_base, file }),
        start.state.engine.threads.contains_key(event.thread_id),
        start.smooth(turns),
        wait == if file.invalid() {
            10int
        } else {
            11int
        },
        turns.len() > wait + 1,
        turns[wait].reply == Reply::Event(next),
        ({
            let engine = placed(start.state.engine, image_base);
            let code = Code { registers: turns[wait].registers, ..start.code() };
            &&& !engine.process.invalid() || engine.desired_software().len() == 0
            &&& turns.len() == wait + 2 + code.total_duration(
                engine.sync_spec(turns[wait + 1].order).1,
            )
        }),
    ensures
        ({
            let end = start.after(turns);
            let engine = placed(start.state.engine, image_base);
            &&& end.state.session.agenda == seq![Task::Dispatch { event: next }]
            &&& !end.state.engine.dirty
            &&& end.state.engine.symbols == engine.symbols
            &&& end.state.engine.requested == start.state.engine.requested
            &&& end.state.engine.hardware_breakpoints == engine.desired_hardware()
            &&& synced_threads(engine, turns[wait].registers, end.registers)
            &&& synced(
                Code { registers: turns[wait].registers, ..start.code() },
                engine.desired_software(),
                end.code(),
            )
        }),
{
    let engine = placed(start.state.engine, image_base);
    let thread = start.state.engine.threads[event.thread_id];
    let slots = debug_engine::slot_tasks(thread, start.state.engine.hardware_breakpoints);
    let on = session::go_on(event.process_id, event.thread_id);
    let first = wait - 9;
    lemma_process_start(start, event, image_base, file, turns);
    let closed = start.at(slots + on, engine, start.memory);
    assert(turns.skip(first)[9] == turns[wait]);
    lemma_slots_and_next_event(
        closed,
        thread,
        start.state.engine.hardware_breakpoints,
        event.process_id,
        event.thread_id,
        next,
        turns.skip(first),
    );
    lemma_skips(turns, first, 10);
    let rest = seq![Task::Dispatch { event: next }];
    let woken = start.at(seq![Task::Sync] + rest, engine, start.memory).with_registers(
        turns[wait].registers,
    );
    assert(turns.skip(wait + 1)[0] == turns[wait + 1]);
    assert(woken.code() =~= Code { registers: turns[wait].registers, ..start.code() });
    law_sync_reaches_request(woken, rest, turns.skip(wait + 1));
}

/// From the event that tells the image base to the slots of its thread.
proof fn lemma_process_start(
    start: World,
    event: DebugEvent,
    image_base: u64,
    file: Handle,
    turns: Seq<Turn>,
)
    requires
        start.state.session.agenda == seq![Task::Dispatch { event }],
        event.kind == (EventKind::CreateProcess { image_base, file }),
        start.state.engine.threads.contains_key(event.thread_id),
        start.smooth(turns),
        turns.len() >= 2,
    ensures
        ({
            let engine = start.state.engine;
            let then = start.at(
                debug_engine::slot_tasks(
                    engine.threads[event.thread_id],
                    engine.hardware_breakpoints,
                ) + session::go_on(event.process_id, event.thread_id),
                placed(engine, image_base),
                start.memory,
            );
            let left = turns.skip(
                if file.invalid() {
                    1
                } else {
                    2
                },
            );
            start.after(turns) == then.after(left) && then.smooth(left)
        }),
{
    let none = Seq::<Task>::empty();
    let dispatch = Task::Dispatch { event };
    let engine = placed(start.state.engine, image_base);
    let thread = start.state.engine.threads[event.thread_id];
    let slots = debug_engine::slot_tasks(thread, start.state.engine.hardware_breakpoints);
    let on = session::go_on(event.process_id, event.thread_id);
    assert(start.state.session.agenda =~= seq![dispatch] + none);
    lemma_session_turn(start, dispatch, none, turns);
    let tasks = session::dispatched(start.state.engine, event).1;
    assert(session::dispatched(start.state.engine, event).0 =~= engine);
    if file.invalid() {
        assert(tasks + none =~= slots + on);
    } else {
        let close = Task::CloseHandle { handle: file };
        assert(tasks + none =~= seq![close] + (slots + on));
        let told = start.at(seq![close] + (slots + on), engine, start.memory);
        lemma_session_turn(told, close, slots + on, turns.skip(1));
        assert(none + (slots + on) =~= slots + on);
        lemma_skips(turns, 1, 1);
    }
}

/// From the slots of a thread to the sync before the next event.
proof fn lemma_slots_and_next_event(
    start: World,
    thread: Handle,
    addresses: Seq<Option<Address>>,
    process_id: u32,
    thread_id: u32,
    next: DebugEvent,
    turns: Seq<Turn>,
)
    requires
        start.state.session.agenda == debug_engine::slot_tasks(thread, addresses) + session::go_on(
            process_id,
            thread_id,
        ),
        start.smooth(turns),
        turns.len() >= 10,
        turns[9].reply == Reply::Event(next),
    ensures
        ({
            let then = start.at(
                seq![Task::Sync] + seq![Task::Dispatch { event: next }],
                start.state.engine,
                start.memory,
            ).with_registers(turns[9].registers);
            start.after(turns) == then.after(turns.skip(10)) && then.smooth(turns.skip(10))
        }),
{
    let none = Seq::<Task>::empty();
    let engine = start.state.engine;
    let slots = debug_engine::slot_tasks(thread, addresses);
    let resume = Task::Resume { process_id, thread_id };
    let on = session::go_on(process_id, thread_id);
    let code = start.code();
    assert(code.total_duration(slots) == 8) by {
        reveal_with_fuel(Code::total_duration, 5);
        assert(slots.drop_first()[0] == slots[1]);
        assert(slots.drop_first().drop_first()[0] == slots[2]);
        assert(slots.drop_first().drop_first().drop_first()[0] == slots[3]);
    }
    lemma_plain_tasks(start, slots, on, turns);
    let slotted = start.with_code(on, code.all_done(slots));
    lemma_slot_tasks(code, thread, addresses);
    assert(on =~= seq![resume] + seq![Task::WaitEvent]);
    lemma_session_turn(slotted, resume, seq![Task::WaitEvent], turns.skip(8));
    lemma_skips(turns, 8, 1);
    assert(none + seq![Task::WaitEvent] =~= seq![Task::WaitEvent]);
    let waiting = slotted.at(seq![Task::WaitEvent], engine, start.memory);
    assert(seq![Task::WaitEvent] =~= seq![Task::WaitEvent] + none);
    assert(turns.skip(9)[0] == turns[9]);
    lemma_session_turn(waiting, Task::WaitEvent, none, turns.skip(9));
    lemma_skips(turns, 9, 1);
    assert(seq![Task::Sync, Task::Dispatch { event: next }] + none =~= seq![Task::Sync] + seq![
        Task::Dispatch { event: next },
    ]);
}

} // verus!
