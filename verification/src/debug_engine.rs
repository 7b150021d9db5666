//! The debug engine: the debuggee's threads, its breakpoints, and the work that keeps them so.
use std::collections::HashMap;

use vstd::prelude::*;

use crate::context::{u32_from_bytes, Edit};
use crate::dap::{DebuggerError, DebuggerResult};
use crate::debug_controller::DebugCommand;
use crate::symbols::{read_address, BareDigits, SymbolTable, SymbolsView};
use crate::system::{Address, Call, Handle, Reply};
use crate::task::{failure, nothing, only, refusal};
use crate::task::{Flow, Patch, PatchGoal, PatchStep, Task, NEAR_CALL};
use crate::text::numeral_text;

verus! {

broadcast use vstd::std_specs::hash::group_hash_axioms;

/// A breakpoint instruction in the debuggee's code, and the byte that it covers.
#[derive(Debug, Clone, Copy, PartialEq, Eq, Structural)]
pub struct SoftwareBreakpoint {
    pub address: Address,
    pub original: u8,
    /// Whether it goes away when it is hit.
    pub temporary: bool,
}

/// The debug engine. No process and no thread is known at first, and nothing was ever synced.
pub struct DebugEngine {
    pub process: Handle,
    pub threads: HashMap<u32, Handle>,
    pub software_breakpoints: HashMap<Address, SoftwareBreakpoint>,
    /// The breakpoint that waits to be written again.
    pub pending_reinsert: Option<Address>,
    pub hardware_breakpoints: [Option<Address>; 4],
    pub requested_function_breakpoints: Vec<String>,
    pub symbols: SymbolTable,
    pub hardware_breakpoints_dirty: bool,
}

/// What an engine holds.
#[verifier::ext_equal]
pub struct EngineView {
    pub process: Handle,
    pub threads: Map<u32, Handle>,
    pub software_breakpoints: Map<Address, SoftwareBreakpoint>,
    pub pending_reinsert: Option<Address>,
    pub hardware_breakpoints: Seq<Option<Address>>,
    pub requested: Seq<Seq<char>>,
    pub symbols: SymbolsView,
    pub dirty: bool,
}

impl View for DebugEngine {
    type V = EngineView;

    open spec fn view(&self) -> EngineView {
        EngineView {
            process: self.process,
            threads: self.threads@,
            software_breakpoints: self.software_breakpoints@,
            pending_reinsert: self.pending_reinsert,
            hardware_breakpoints: self.hardware_breakpoints@,
            requested: crate::symbols::names_view(self.requested_function_breakpoints@),
            symbols: self.symbols@,
            dirty: self.hardware_breakpoints_dirty,
        }
    }
}

/// The order in which the engine's two tables happen to be walked: every key once.
pub struct WalkOrder {
    pub threads: Seq<u32>,
    pub breakpoints: Seq<Address>,
}

/// Whether a sequence lists the members of a set, each once.
pub open spec fn lists(keys: Seq<u32>, set: Set<u32>) -> bool {
    keys.no_duplicates() && keys.to_set() == set
}

impl EngineView {
    /// Every record stands under its own address, and the processor has four slots.
    pub open spec fn wf(self) -> bool {
        &&& self.hardware_breakpoints.len() == 4
        &&& forall|address: Address| #[trigger]
            self.software_breakpoints.contains_key(address)
                ==> self.software_breakpoints[address].address == address
    }

    /// Whether an order walks both tables of the engine.
    pub open spec fn walked_by(self, order: WalkOrder) -> bool {
        &&& lists(order.threads, self.threads.dom())
        &&& lists(order.breakpoints, self.software_breakpoints.dom())
    }

    /// The handle of a thread.
    pub open spec fn thread_handle_spec(self, thread_id: u32) -> Option<Handle> {
        if self.threads.contains_key(thread_id) {
            Some(self.threads[thread_id])
        } else {
            None
        }
    }

    /// The addresses that the requested names stand for, each once.
    pub open spec fn desired(self) -> Seq<Address> {
        self.symbols.distinct_addresses(self.requested, BareDigits::Hexadecimal)
    }

    /// The first four desired addresses, for the processor's slots.
    pub open spec fn desired_hardware(self) -> Seq<Option<Address>> {
        Seq::new(
            4,
            |slot: int|
                if slot < self.desired().len() {
                    Some(self.desired()[slot])
                } else {
                    None
                },
        )
    }

    /// The desired addresses that found no slot.
    pub open spec fn desired_software(self) -> Seq<Address> {
        if self.desired().len() <= 4 {
            Seq::empty()
        } else {
            self.desired().skip(4)
        }
    }

    /// Starting to set a breakpoint: without a process it fails, a breakpoint that is there
    /// already is left as it is.
    pub open spec fn set_breakpoint_spec(self, address: Address, temporary: bool) -> Flow {
        if self.process.invalid() {
            Flow::Raise("set_breakpoint: no process handle"@)
        } else if self.software_breakpoints.contains_key(address) {
            Flow::Next(Seq::empty())
        } else {
            Flow::Next(
                seq![
                    Task::Patch(
                        PatchStep::Unprotect { address, goal: PatchGoal::Insert { temporary } },
                    ),
                ],
            )
        }
    }

    /// Starting to clear a breakpoint: its record goes at once, and its original byte is to be
    /// written back.
    pub open spec fn clear_breakpoint_spec(self, address: Address) -> (EngineView, Flow) {
        if self.software_breakpoints.contains_key(address) {
            let original = self.software_breakpoints[address].original;
            (
                EngineView {
                    software_breakpoints: self.software_breakpoints.remove(address),
                    ..self
                },
                Flow::Next(
                    seq![
                        Task::Patch(
                            PatchStep::Unprotect { address, goal: PatchGoal::Clear { original } },
                        ),
                    ],
                ),
            )
        } else {
            (self, Flow::Next(Seq::empty()))
        }
    }

    /// Starting to lift a breakpoint: its original byte is to be written back, and its record
    /// stays.
    pub open spec fn lift_breakpoint_spec(self, address: Address) -> Flow {
        if self.software_breakpoints.contains_key(address) {
            let original = self.software_breakpoints[address].original;
            Flow::Next(
                seq![
                    Task::Patch(
                        PatchStep::Unprotect { address, goal: PatchGoal::Clear { original } },
                    ),
                ],
            )
        } else {
            Flow::Next(Seq::empty())
        }
    }

    /// Starting to write a recorded breakpoint once more.
    pub open spec fn reinsert_breakpoint_spec(self, address: Address) -> Flow {
        if self.software_breakpoints.contains_key(address) {
            Flow::Next(
                seq![Task::Patch(PatchStep::Unprotect { address, goal: PatchGoal::Reinsert })],
            )
        } else {
            Flow::Next(Seq::empty())
        }
    }

    /// One step of overwriting a byte, with the outcome of its call.
    pub open spec fn patch_spec(self, step: PatchStep, reply: Reply) -> (EngineView, Flow) {
        match step {
            PatchStep::Unprotect { address, goal } => match reply {
                Reply::Protection(protection) => (
                    self,
                    Flow::Next(
                        seq![
                            Task::Patch(
                                match goal {
                                    PatchGoal::Insert { temporary } => PatchStep::ReadOriginal {
                                        address,
                                        temporary,
                                        protection,
                                    },
                                    PatchGoal::Clear { original } => PatchStep::Write {
                                        address,
                                        protection,
                                        patch: Patch::Clear { original },
                                    },
                                    PatchGoal::Reinsert => PatchStep::Write {
                                        address,
                                        protection,
                                        patch: Patch::Reinsert,
                                    },
                                },
                            ),
                        ],
                    ),
                ),
                Reply::Failed(error) => (
                    self,
                    Flow::Raise("VirtualProtectEx failed: "@ + error@),
                ),
                _ => (self, Flow::Next(Seq::empty())),
            },
            PatchStep::ReadOriginal { address, temporary, protection } => match reply {
                Reply::Bytes(bytes) => if bytes@.len() == 1 {
                    (
                        self,
                        Flow::Next(
                            seq![
                                Task::Patch(
                                    PatchStep::Write {
                                        address,
                                        protection,
                                        patch: Patch::Insert { original: bytes@[0], temporary },
                                    },
                                ),
                            ],
                        ),
                    )
                } else {
                    (self, Flow::Raise("ReadProcessMemory: short read"@))
                },
                Reply::Failed(error) => (
                    self,
                    Flow::Raise("ReadProcessMemory failed: "@ + error@),
                ),
                _ => (self, Flow::Next(Seq::empty())),
            },
            PatchStep::Write { address, protection, patch } => match reply {
                Reply::Count(count) => if count == 1 || patch is Reinsert {
                    (
                        self,
                        Flow::Next(
                            seq![
                                Task::Patch(PatchStep::Reprotect { address, protection, patch }),
                            ],
                        ),
                    )
                } else {
                    (self, Flow::Raise("WriteProcessMemory: short write"@))
                },
                Reply::Failed(error) => (
                    self,
                    Flow::Raise("WriteProcessMemory failed: "@ + error@),
                ),
                _ => (self, Flow::Next(Seq::empty())),
            },
            PatchStep::Reprotect { address, protection, patch } => match reply {
                Reply::Protection(_) => (
                    self,
                    Flow::Next(seq![Task::Patch(PatchStep::Flush { address, patch })]),
                ),
                Reply::Failed(error) => (
                    self,
                    Flow::Raise("VirtualProtectEx restore failed: "@ + error@),
                ),
                _ => (self, Flow::Next(Seq::empty())),
            },
            PatchStep::Flush { address, patch } => match patch {
                Patch::Insert { original, temporary } => (
                    EngineView {
                        software_breakpoints: self.software_breakpoints.insert(
                            address,
                            SoftwareBreakpoint { address, original, temporary },
                        ),
                        ..self
                    },
                    Flow::Next(Seq::empty()),
                ),
                _ => (self, Flow::Next(Seq::empty())),
            },
        }
    }
}

/// The tasks that put four addresses into the slots of one thread.
pub open spec fn slot_tasks(thread: Handle, addresses: Seq<Option<Address>>) -> Seq<Task> {
    Seq::new(
        4,
        |slot: int|
            Task::EditContext {
                thread,
                edit: Edit::HardwareSlot { slot: slot as usize, address: addresses[slot] },
            },
    )
}

/// The tasks that put the slots of each listed thread right; a thread where that fails is left
/// as it is, and threads without a handle are passed over.
pub open spec fn thread_tasks(
    threads: Map<u32, Handle>,
    keys: Seq<u32>,
    addresses: Seq<Option<Address>>,
) -> Seq<Task>
    decreases keys.len(),
{
    if keys.len() == 0 {
        Seq::empty()
    } else {
        let earlier = thread_tasks(threads, keys.drop_last(), addresses);
        let thread = threads[keys.last()];
        if thread.invalid() {
            earlier
        } else {
            earlier + slot_tasks(thread, addresses).push(Task::Catch)
        }
    }
}

/// The tasks that clear those of the listed breakpoints that neither are temporary nor are
/// wanted.
pub open spec fn clear_tasks(
    breakpoints: Map<Address, SoftwareBreakpoint>,
    keys: Seq<Address>,
    wanted: Seq<Address>,
) -> Seq<Task>
    decreases keys.len(),
{
    if keys.len() == 0 {
        Seq::empty()
    } else {
        let earlier = clear_tasks(breakpoints, keys.drop_last(), wanted);
        if breakpoints[keys.last()].temporary || wanted.contains(keys.last()) {
            earlier
        } else {
            earlier.push(Task::ClearBreakpoint { address: keys.last() })
        }
    }
}

/// The tasks that set lasting breakpoints.
pub open spec fn set_tasks(addresses: Seq<Address>) -> Seq<Task> {
    addresses.map_values(|address: Address| Task::SetBreakpoint { address, temporary: false })
}

impl EngineView {
    /// The engine after a sync was planned, and the plan: the slots of every thread, then the
    /// software breakpoints that go, then those that come. Without a change since the last sync
    /// there is nothing to do.
    pub open spec fn sync_spec(self, order: WalkOrder) -> (EngineView, Seq<Task>) {
        if !self.dirty {
            (self, Seq::empty())
        } else {
            (
                EngineView {
                    dirty: false,
                    hardware_breakpoints: self.desired_hardware(),
                    ..self
                },
                thread_tasks(self.threads, order.threads, self.desired_hardware()) + clear_tasks(
                    self.software_breakpoints,
                    order.breakpoints,
                    self.desired_software(),
                ) + set_tasks(self.desired_software()),
            )
        }
    }

    /// A client's command becomes the tasks that carry it out on its thread.
    pub open spec fn command_spec(self, thread_id: u32, command: DebugCommand) -> Flow {
        match self.thread_handle_spec(thread_id) {
            None => Flow::Raise(
                "apply_command: missing thread handle for thread "@ + crate::text::numeral(
                    thread_id as nat,
                    10,
                ),
            ),
            Some(thread) => Flow::Next(
                match command {
                    DebugCommand::Continue => Seq::empty(),
                    DebugCommand::StepIn => seq![
                        Task::EditContext { thread, edit: Edit::EnableTrap },
                    ],
                    DebugCommand::StepOver => seq![Task::StepOver { thread }],
                    DebugCommand::StepOut => seq![Task::StepOut { thread }],
                },
            ),
        }
    }

    /// What the engine's own tasks do, with the outcome of their calls.
    pub open spec fn perform_spec(self, task: Task, reply: Reply) -> (EngineView, Flow) {
        match task {
            Task::SetBreakpoint { address, temporary } => (
                self,
                self.set_breakpoint_spec(address, temporary),
            ),
            Task::ClearBreakpoint { address } => self.clear_breakpoint_spec(address),
            Task::LiftBreakpoint { address } => (self, self.lift_breakpoint_spec(address)),
            Task::ReinsertBreakpoint { address } => (
                self,
                self.reinsert_breakpoint_spec(address),
            ),
            Task::Patch(step) => self.patch_spec(step, reply),
            Task::EditContext { thread, edit } => (
                self,
                if !edit.in_range() {
                    Flow::Raise("set_hardware_breakpoint_slot: slot out of range"@)
                } else {
                    match reply {
                        Reply::Context(context) => Flow::Next(
                            seq![Task::StoreContext { thread, context: edit.applied(context) }],
                        ),
                        Reply::Failed(error) => Flow::Raise(
                            "Wow64GetThreadContext failed: "@ + error@,
                        ),
                        _ => Flow::Next(Seq::empty()),
                    }
                },
            ),
            Task::StoreContext { .. } => (
                self,
                match reply {
                    Reply::Failed(error) => Flow::Raise("Wow64SetThreadContext failed: "@ + error@),
                    _ => Flow::Next(Seq::empty()),
                },
            ),
            Task::StepOver { thread } => (
                self,
                match reply {
                    Reply::Context(context) => Flow::Next(
                        seq![Task::StepOverOpcode { thread, ip: context.eip }],
                    ),
                    Reply::Failed(error) => Flow::Raise("Wow64GetThreadContext failed: "@ + error@),
                    _ => Flow::Next(Seq::empty()),
                },
            ),
            Task::StepOverOpcode { thread, ip } => (
                self,
                match reply {
                    Reply::Bytes(bytes) => if bytes@.len() != 1 {
                        Flow::Raise("ReadProcessMemory: short read"@)
                    } else if bytes@[0] == NEAR_CALL {
                        Flow::Next(
                            seq![
                                Task::SetBreakpoint {
                                    address: ((ip + 5) % 0x1_0000_0000) as u32,
                                    temporary: true,
                                },
                            ],
                        )
                    } else {
                        Flow::Next(seq![Task::EditContext { thread, edit: Edit::EnableTrap }])
                    },
                    Reply::Failed(error) => Flow::Raise("ReadProcessMemory failed: "@ + error@),
                    _ => Flow::Next(Seq::empty()),
                },
            ),
            Task::StepOut { thread } => (
                self,
                match reply {
                    Reply::Context(context) => Flow::Next(
                        seq![Task::StepOutReturn { esp: context.esp }],
                    ),
                    Reply::Failed(error) => Flow::Raise("Wow64GetThreadContext failed: "@ + error@),
                    _ => Flow::Next(Seq::empty()),
                },
            ),
            Task::StepOutReturn { esp } => (
                self,
                match reply {
                    Reply::Bytes(bytes) => if bytes@.len() != 4 {
                        Flow::Raise("ReadProcessMemory: short read"@)
                    } else {
                        Flow::Next(
                            seq![
                                Task::SetBreakpoint {
                                    address: crate::context::little_endian(bytes@) as u32,
                                    temporary: true,
                                },
                            ],
                        )
                    },
                    Reply::Failed(error) => Flow::Raise("ReadProcessMemory failed: "@ + error@),
                    _ => Flow::Next(Seq::empty()),
                },
            ),
            Task::ApplyCommand { thread_id, command } => (
                self,
                self.command_spec(thread_id, command),
            ),
            _ => (self, Flow::Next(Seq::empty())),
        }
    }
}

/// The keys of a table, each once.
pub fn keys_of<V>(table: &HashMap<u32, V>) -> (keys: Vec<u32>)
    ensures
        lists(keys@, table@.dom()),
{
    let ghost all: Seq<u32> = vstd::std_specs::iter::IteratorSpec::remaining(
        &table.keys(),
    ).unref();
    let mut keys: Vec<u32> = Vec::new();
    for key in it: table.keys()
        invariant
            it.seq().unref() == all,
            keys@ == all.take(it.index() as int),
    {
        keys.push(*key);
        assert(all.take(it.index() as int + 1) =~= all.take(it.index() as int).push(*key));
    }
    assert(keys@ =~= all);
    keys
}

impl DebugEngine {
    /// An engine with nothing to debug; its breakpoints are still to be synced.
    pub fn new() -> (engine: DebugEngine)
        ensures
            engine@ == (EngineView {
                process: Handle::null_spec(),
                threads: Map::empty(),
                software_breakpoints: Map::empty(),
                pending_reinsert: None,
                hardware_breakpoints: seq![None, None, None, None],
                requested: Seq::empty(),
                symbols: SymbolsView::none(),
                dirty: true,
            }),
            engine@.wf(),
    {
        let engine = DebugEngine {
            process: Handle::null(),
            threads: HashMap::new(),
            software_breakpoints: HashMap::new(),
            pending_reinsert: None,
            hardware_breakpoints: [None, None, None, None],
            requested_function_breakpoints: Vec::new(),
            symbols: SymbolTable::new(),
            hardware_breakpoints_dirty: true,
        };
        assert(engine@.hardware_breakpoints =~= seq![None, None, None, None]);
        assert(engine@.requested =~= Seq::empty());
        engine
    }

    /// Asks for a sync.
    pub fn mark_dirty(&mut self)
        ensures
            final(self)@ == (EngineView { dirty: true, ..old(self)@ }),
    {
        self.hardware_breakpoints_dirty = true;
    }

    /// The address of a function name.
    pub fn resolve_function_address(&self, name: &str) -> (address: Option<Address>)
        ensures
            address == self@.symbols.resolved(name@, BareDigits::Hexadecimal),
    {
        self.symbols.resolve(name, BareDigits::Hexadecimal)
    }

    /// The handle of a thread.
    pub fn thread_handle(&self, thread_id: u32) -> (thread: Option<Handle>)
        ensures
            thread == self@.thread_handle_spec(thread_id),
    {
        match self.threads.get(&thread_id) {
            Some(thread) => Some(*thread),
            None => None,
        }
    }

    /// Starts to put a software breakpoint at an address.
    pub fn set_breakpoint(&self, address: Address, temporary: bool) -> (result: DebuggerResult<
        Vec<Task>,
    >)
        ensures
            crate::task::flow_of(result) == self@.set_breakpoint_spec(address, temporary),
    {
        if self.process.is_invalid() {
            return refusal("set_breakpoint: no process handle");
        }
        if self.software_breakpoints.contains_key(&address) {
            return Ok(nothing());
        }
        Ok(
            only(
                Task::Patch(
                    PatchStep::Unprotect { address, goal: PatchGoal::Insert { temporary } },
                ),
            ),
        )
    }

    /// Starts to take a software breakpoint away.
    pub fn clear_breakpoint(&mut self, address: Address) -> (result: DebuggerResult<Vec<Task>>)
        ensures
            (final(self)@, crate::task::flow_of(result)) == old(self)@.clear_breakpoint_spec(
                address,
            ),
            old(self)@.wf() ==> final(self)@.wf(),
    {
        match self.software_breakpoints.remove(&address) {
            None => {
                assert(self@ =~= old(self)@);
                Ok(nothing())
            },
            Some(breakpoint) => Ok(
                only(
                    Task::Patch(
                        PatchStep::Unprotect {
                            address,
                            goal: PatchGoal::Clear { original: breakpoint.original },
                        },
                    ),
                ),
            ),
        }
    }

    /// Starts to put back the byte under a software breakpoint, which stays on record.
    pub fn lift_breakpoint(&self, address: Address) -> (result: DebuggerResult<Vec<Task>>)
        ensures
            crate::task::flow_of(result) == self@.lift_breakpoint_spec(address),
    {
        match self.software_breakpoints.get(&address) {
            None => Ok(nothing()),
            Some(breakpoint) => Ok(
                only(
                    Task::Patch(
                        PatchStep::Unprotect {
                            address,
                            goal: PatchGoal::Clear { original: breakpoint.original },
                        },
                    ),
                ),
            ),
        }
    }

    /// Starts to write a recorded software breakpoint once more.
    pub fn reinsert_breakpoint(&self, address: Address) -> (result: DebuggerResult<Vec<Task>>)
        ensures
            crate::task::flow_of(result) == self@.reinsert_breakpoint_spec(address),
    {
        if !self.software_breakpoints.contains_key(&address) {
            return Ok(nothing());
        }
        Ok(only(Task::Patch(PatchStep::Unprotect { address, goal: PatchGoal::Reinsert })))
    }

    /// Takes one step of overwriting a byte.
    fn patch(&mut self, step: PatchStep, reply: &Reply) -> (result: DebuggerResult<Vec<Task>>)
        requires
            Task::Patch(step).call_spec(old(self)@.process).accepts(*reply),
        ensures
            (final(self)@, crate::task::flow_of(result)) == old(self)@.patch_spec(step, *reply),
            old(self)@.wf() ==> final(self)@.wf(),
    {
        match step {
            PatchStep::Unprotect { address, goal } => match reply {
                Reply::Failed(error) => failure("VirtualProtectEx failed: ", error),
                Reply::Protection(protection) => Ok(
                    only(
                        Task::Patch(
                            match goal {
                                PatchGoal::Insert { temporary } => PatchStep::ReadOriginal {
                                    address,
                                    temporary,
                                    protection: *protection,
                                },
                                PatchGoal::Clear { original } => PatchStep::Write {
                                    address,
                                    protection: *protection,
                                    patch: Patch::Clear { original },
                                },
                                PatchGoal::Reinsert => PatchStep::Write {
                                    address,
                                    protection: *protection,
                                    patch: Patch::Reinsert,
                                },
                            },
                        ),
                    ),
                ),
                _ => Ok(nothing()),
            },
            PatchStep::ReadOriginal { address, temporary, protection } => match reply {
                Reply::Failed(error) => failure("ReadProcessMemory failed: ", error),
                Reply::Bytes(bytes) => {
                    if bytes.len() != 1 {
                        return refusal("ReadProcessMemory: short read");
                    }
                    let original: u8 = bytes[0];
                    Ok(
                        only(
                            Task::Patch(
                                PatchStep::Write {
                                    address,
                                    protection,
                                    patch: Patch::Insert { original, temporary },
                                },
                            ),
                        ),
                    )
                },
                _ => Ok(nothing()),
            },
            PatchStep::Write { address, protection, patch } => match reply {
                Reply::Failed(error) => failure("WriteProcessMemory failed: ", error),
                Reply::Count(count) => {
                    let checked: bool = match patch {
                        Patch::Reinsert => false,
                        _ => true,
                    };
                    if checked && *count != 1 {
                        return refusal("WriteProcessMemory: short write");
                    }
                    Ok(only(Task::Patch(PatchStep::Reprotect { address, protection, patch })))
                },
                _ => Ok(nothing()),
            },
            PatchStep::Reprotect { address, protection, patch } => match reply {
                Reply::Failed(error) => failure("VirtualProtectEx restore failed: ", error),
                Reply::Protection(_) => Ok(
                    only(Task::Patch(PatchStep::Flush { address, patch })),
                ),
                _ => Ok(nothing()),
            },
            PatchStep::Flush { address, patch } => {
                if let Patch::Insert { original, temporary } = patch {
                    self.software_breakpoints.insert(
                        address,
                        SoftwareBreakpoint { address, original, temporary },
                    );
                }
                Ok(nothing())
            },
        }
    }

    /// Starts to stop a thread after its next instruction.
    pub fn step_in(&self, thread: Handle) -> (tasks: Vec<Task>)
        ensures
            tasks@ == seq![Task::EditContext { thread, edit: Edit::EnableTrap }],
    {
        only(Task::EditContext { thread, edit: Edit::EnableTrap })
    }

    /// Carries out a client's command on the thread that stopped.
    pub fn apply_command(&self, thread_id: u32, command: DebugCommand) -> (result:
        DebuggerResult<Vec<Task>>)
        ensures
            crate::task::flow_of(result) == self@.command_spec(thread_id, command),
    {
        match self.thread_handle(thread_id) {
            None => failure(
                "apply_command: missing thread handle for thread ",
                &numeral_text(thread_id as u64, 10),
            ),
            Some(thread) => Ok(
                match command {
                    DebugCommand::Continue => nothing(),
                    DebugCommand::StepIn => self.step_in(thread),
                    DebugCommand::StepOver => only(Task::StepOver { thread }),
                    DebugCommand::StepOut => only(Task::StepOut { thread }),
                },
            ),
        }
    }

    /// Goes on stepping over, with the thread's registers.
    fn step_over(&self, thread: Handle, reply: &Reply) -> (result: DebuggerResult<Vec<Task>>)
        ensures
            crate::task::flow_of(result) == self@.perform_spec(Task::StepOver { thread }, *reply).1,
    {
        match reply {
            Reply::Failed(error) => failure("Wow64GetThreadContext failed: ", error),
            Reply::Context(context) => Ok(
                only(Task::StepOverOpcode { thread, ip: context.eip }),
            ),
            _ => Ok(nothing()),
        }
    }

    /// Goes on stepping over, with the byte of code at the instruction pointer: behind a call
    /// there comes a breakpoint, any other instruction is stepped into.
    fn step_over_opcode(&self, thread: Handle, ip: Address, reply: &Reply) -> (result:
        DebuggerResult<Vec<Task>>)
        ensures
            crate::task::flow_of(result) == self@.perform_spec(
                Task::StepOverOpcode { thread, ip },
                *reply,
            ).1,
    {
        match reply {
            Reply::Failed(error) => failure("ReadProcessMemory failed: ", error),
            Reply::Bytes(bytes) => {
                if bytes.len() != 1 {
                    return refusal("ReadProcessMemory: short read");
                }
                if bytes[0] == NEAR_CALL {
                    return Ok(
                        only(
                            Task::SetBreakpoint { address: ip.wrapping_add(5), temporary: true },
                        ),
                    );
                }
                Ok(self.step_in(thread))
            },
            _ => Ok(nothing()),
        }
    }

    /// Goes on stepping out, with the thread's registers.
    fn step_out(&self, thread: Handle, reply: &Reply) -> (result: DebuggerResult<Vec<Task>>)
        ensures
            crate::task::flow_of(result) == self@.perform_spec(Task::StepOut { thread }, *reply).1,
    {
        match reply {
            Reply::Failed(error) => failure("Wow64GetThreadContext failed: ", error),
            Reply::Context(context) => Ok(only(Task::StepOutReturn { esp: context.esp })),
            _ => Ok(nothing()),
        }
    }

    /// Goes on stepping out, with the return address from the stack.
    fn step_out_return(&self, esp: Address, reply: &Reply) -> (result: DebuggerResult<Vec<Task>>)
        ensures
            crate::task::flow_of(result) == self@.perform_spec(
                Task::StepOutReturn { esp },
                *reply,
            ).1,
    {
        match reply {
            Reply::Failed(error) => failure("ReadProcessMemory failed: ", error),
            Reply::Bytes(bytes) => {
                if bytes.len() != 4 {
                    return refusal("ReadProcessMemory: short read");
                }
                Ok(
                    only(
                        Task::SetBreakpoint { address: u32_from_bytes(bytes), temporary: true },
                    ),
                )
            },
            _ => Ok(nothing()),
        }
    }

    /// Changes registers that were read.
    fn edit_context(&self, thread: Handle, edit: Edit, reply: &Reply) -> (result: DebuggerResult<
        Vec<Task>,
    >)
        ensures
            crate::task::flow_of(result) == self@.perform_spec(
                Task::EditContext { thread, edit },
                *reply,
            ).1,
    {
        if !edit.is_in_range() {
            return refusal("set_hardware_breakpoint_slot: slot out of range");
        }
        match reply {
            Reply::Failed(error) => failure("Wow64GetThreadContext failed: ", error),
            Reply::Context(context) => Ok(
                only(Task::StoreContext { thread, context: edit.apply(*context) }),
            ),
            _ => Ok(nothing()),
        }
    }

    /// Carries out one of the engine's own tasks, with the outcome of its call.
    pub fn perform(&mut self, task: Task, reply: &Reply) -> (result: DebuggerResult<Vec<Task>>)
        requires
            task.call_spec(old(self)@.process).accepts(*reply),
        ensures
            (final(self)@, crate::task::flow_of(result)) == old(self)@.perform_spec(task, *reply),
            old(self)@.wf() ==> final(self)@.wf(),
    {
        match task {
            Task::SetBreakpoint { address, temporary } => self.set_breakpoint(address, temporary),
            Task::ClearBreakpoint { address } => self.clear_breakpoint(address),
            Task::LiftBreakpoint { address } => self.lift_breakpoint(address),
            Task::ReinsertBreakpoint { address } => self.reinsert_breakpoint(address),
            Task::Patch(step) => self.patch(step, reply),
            Task::EditContext { thread, edit } => self.edit_context(thread, edit, reply),
            Task::StoreContext { .. } => match reply {
                Reply::Failed(error) => failure("Wow64SetThreadContext failed: ", error),
                _ => Ok(nothing()),
            },
            Task::StepOver { thread } => self.step_over(thread, reply),
            Task::StepOverOpcode { thread, ip } => self.step_over_opcode(thread, ip, reply),
            Task::StepOut { thread } => self.step_out(thread, reply),
            Task::StepOutReturn { esp } => self.step_out_return(esp, reply),
            Task::ApplyCommand { thread_id, command } => self.apply_command(thread_id, command),
            _ => Ok(nothing()),
        }
    }
}

impl DebugEngine {
    /// The tasks that put the engine's addresses into the slots of one thread.
    pub fn apply_hardware_breakpoints_to_thread(&self, thread: Handle) -> (tasks: Vec<Task>)
        ensures
            tasks@ == slot_tasks(thread, self@.hardware_breakpoints),
    {
        let mut tasks: Vec<Task> = Vec::new();
        let mut slot: usize = 0;
        while slot < 4
            invariant
                slot <= 4,
                tasks@ == slot_tasks(thread, self@.hardware_breakpoints).take(slot as int),
            decreases 4 - slot,
        {
            let address = self.hardware_breakpoints[slot];
            tasks.push(
                Task::EditContext { thread, edit: Edit::HardwareSlot { slot, address } },
            );
            assert(slot_tasks(thread, self@.hardware_breakpoints).take(slot + 1) =~= slot_tasks(
                thread,
                self@.hardware_breakpoints,
            ).take(slot as int).push(tasks@.last()));
            slot += 1;
        }
        assert(tasks@ =~= slot_tasks(thread, self@.hardware_breakpoints));
        tasks
    }

    /// The tasks that put the engine's addresses into the slots of each listed thread.
    fn slots_of_threads(&self, keys: &Vec<u32>) -> (tasks: Vec<Task>)
        requires
            forall|i: int| 0 <= i < keys@.len() ==> self@.threads.contains_key(#[trigger] keys@[i]),
        ensures
            tasks@ == thread_tasks(self@.threads, keys@, self@.hardware_breakpoints),
    {
        let mut tasks: Vec<Task> = Vec::new();
        let mut i: usize = 0;
        assert(keys@.take(0) =~= Seq::empty());
        while i < keys.len()
            invariant
                i <= keys@.len(),
                forall|j: int|
                    0 <= j < keys@.len() ==> self@.threads.contains_key(#[trigger] keys@[j]),
                tasks@ == thread_tasks(
                    self@.threads,
                    keys@.take(i as int),
                    self@.hardware_breakpoints,
                ),
            decreases keys@.len() - i,
        {
            assert(keys@.take(i + 1).drop_last() =~= keys@.take(i as int));
            assert(keys@.take(i + 1).last() == keys@[i as int]);
            let ghost before = tasks@;
            if let Some(thread) = self.thread_handle(keys[i]) {
                if !thread.is_invalid() {
                    let mut slots = self.apply_hardware_breakpoints_to_thread(thread);
                    tasks.append(&mut slots);
                    tasks.push(Task::Catch);
                    assert(tasks@ =~= before + slot_tasks(
                        thread,
                        self@.hardware_breakpoints,
                    ).push(Task::Catch));
                }
            }
            i += 1;
        }
        assert(keys@.take(keys@.len() as int) =~= keys@);
        tasks
    }

    /// The tasks that clear the listed breakpoints that are no longer wanted.
    fn unwanted(&self, keys: &Vec<Address>, wanted: &Vec<Address>) -> (tasks: Vec<Task>)
        requires
            forall|i: int|
                0 <= i < keys@.len() ==> self@.software_breakpoints.contains_key(
                    #[trigger] keys@[i],
                ),
        ensures
            tasks@ == clear_tasks(self@.software_breakpoints, keys@, wanted@),
    {
        let mut tasks: Vec<Task> = Vec::new();
        let mut i: usize = 0;
        assert(keys@.take(0) =~= Seq::empty());
        while i < keys.len()
            invariant
                i <= keys@.len(),
                forall|j: int|
                    0 <= j < keys@.len() ==> self@.software_breakpoints.contains_key(
                        #[trigger] keys@[j],
                    ),
                tasks@ == clear_tasks(
                    self@.software_breakpoints,
                    keys@.take(i as int),
                    wanted@,
                ),
            decreases keys@.len() - i,
        {
            assert(keys@.take(i + 1).drop_last() =~= keys@.take(i as int));
            assert(keys@.take(i + 1).last() == keys@[i as int]);
            let address = keys[i];
            if let Some(breakpoint) = self.software_breakpoints.get(&address) {
                if !breakpoint.temporary && !listed(wanted, address) {
                    tasks.push(Task::ClearBreakpoint { address });
                }
            }
            i += 1;
        }
        assert(keys@.take(keys@.len() as int) =~= keys@);
        tasks
    }

    /// Plans the work that brings the breakpoints in line with the requested names: the first
    /// four addresses go into the processor's slots of every thread, the others become software
    /// breakpoints, and lasting software breakpoints that are no longer requested go.
    pub fn sync_breakpoints_from_registry(&mut self) -> (tasks: Vec<Task>)
        requires
            old(self)@.wf(),
        ensures
            final(self)@.wf(),
            exists|order: WalkOrder|
                #![trigger old(self)@.walked_by(order)]
                old(self)@.walked_by(order) && (final(self)@, tasks@) == old(self)@.sync_spec(
                    order,
                ),
    {
        let thread_keys = keys_of(&self.threads);
        let breakpoint_keys = keys_of(&self.software_breakpoints);
        let ghost order = WalkOrder { threads: thread_keys@, breakpoints: breakpoint_keys@ };
        assert(self@.walked_by(order));
        if !self.hardware_breakpoints_dirty {
            return nothing();
        }
        self.hardware_breakpoints_dirty = false;
        let desired = self.symbols.distinct_addresses(
            &self.requested_function_breakpoints,
            BareDigits::Hexadecimal,
            usize::MAX,
        );
        proof {
            crate::symbols::lemma_distinct_addresses_len(
                self@.symbols,
                self@.requested,
                BareDigits::Hexadecimal,
            );
            assert(self.requested_function_breakpoints.len() <= usize::MAX);
            assert(desired@ =~= old(self)@.desired());
        }
        let mut software: Vec<Address> = Vec::new();
        self.hardware_breakpoints = [None, None, None, None];
        let mut i: usize = 0;
        while i < desired.len()
            invariant
                i <= desired@.len(),
                self@.hardware_breakpoints.len() == 4,
                forall|slot: int|
                    0 <= slot < 4 ==> #[trigger] self@.hardware_breakpoints[slot] == (if slot < i {
                        Some(desired@[slot])
                    } else {
                        None
                    }),
                software@ == (if i <= 4 {
                    Seq::empty()
                } else {
                    desired@.subrange(4, i as int)
                }),
                self@ == (EngineView {
                    dirty: false,
                    hardware_breakpoints: self@.hardware_breakpoints,
                    ..old(self)@
                }),
            decreases desired@.len() - i,
        {
            if i < 4 {
                self.hardware_breakpoints[i] = Some(desired[i]);
            } else {
                software.push(desired[i]);
                assert(desired@.subrange(4, i + 1) =~= desired@.subrange(4, i as int).push(
                    desired@[i as int],
                ));
            }
            i += 1;
        }
        proof {
            assert(self@.hardware_breakpoints =~= old(self)@.desired_hardware());
            assert(software@ =~= old(self)@.desired_software());
            assert forall|k: int| 0 <= k < thread_keys@.len() implies self@.threads.contains_key(
                #[trigger] thread_keys@[k],
            ) by {
                assert(thread_keys@.to_set().contains(thread_keys@[k]));
            }
            assert forall|k: int|
                0 <= k < breakpoint_keys@.len() implies self@.software_breakpoints.contains_key(
                #[trigger] breakpoint_keys@[k],
            ) by {
                assert(breakpoint_keys@.to_set().contains(breakpoint_keys@[k]));
            }
        }
        let mut tasks = self.slots_of_threads(&thread_keys);
        let mut removals = self.unwanted(&breakpoint_keys, &software);
        tasks.append(&mut removals);
        let ghost before = tasks@;
        let mut j: usize = 0;
        assert(set_tasks(software@.take(0)) =~= Seq::empty());
        while j < software.len()
            invariant
                j <= software@.len(),
                tasks@ == before + set_tasks(software@.take(j as int)),
            decreases software@.len() - j,
        {
            tasks.push(Task::SetBreakpoint { address: software[j], temporary: false });
            assert(set_tasks(software@.take(j + 1)) =~= set_tasks(software@.take(j as int)).push(
                tasks@.last(),
            ));
            assert(tasks@ =~= before + set_tasks(software@.take(j + 1)));
            j += 1;
        }
        assert(software@.take(software@.len() as int) =~= software@);
        assert((self@, tasks@) == old(self)@.sync_spec(order));
        tasks
    }
}

/// Whether a list holds an address.
fn listed(addresses: &Vec<Address>, address: Address) -> (found: bool)
    ensures
        found == addresses@.contains(address),
{
    let mut i: usize = 0;
    while i < addresses.len()
        invariant
            i <= addresses@.len(),
            forall|j: int| 0 <= j < i ==> #[trigger] addresses@[j] != address,
        decreases addresses@.len() - i,
    {
        if addresses[i] == address {
            assert(addresses@[i as int] == address);
            return true;
        }
        i += 1;
    }
    false
}

/// Reads an address from text: a text of digits alone is hexadecimal here, with `0x` or without.
pub fn parse_address_literal(name: &str) -> (address: Option<Address>)
    ensures
        address == crate::symbols::address_literal(name@, BareDigits::Hexadecimal),
{
    read_address(name, BareDigits::Hexadecimal)
}

/// Replaces the requested function breakpoints, and says of each whether its name is a symbol or
/// writes an address.
pub fn set_requested_function_breakpoints(engine: &mut DebugEngine, names: Vec<String>) -> (known:
    Vec<bool>)
    ensures
        final(engine)@ == (EngineView {
            requested: crate::symbols::names_view(names@),
            dirty: true,
            ..old(engine)@
        }),
        final(engine)@.dirty,
        final(engine)@.requested.len() == names@.len(),
        known@.len() == names@.len(),
        known@ == crate::symbols::names_view(names@).map_values(
            |name: Seq<char>| old(engine)@.symbols.known(name, BareDigits::Hexadecimal),
        ),
{
    let known = engine.symbols.knows_each(&names, BareDigits::Hexadecimal);
    engine.requested_function_breakpoints = names;
    engine.mark_dirty();
    known
}

/// Whether a buffer of `count` bytes can be had, `count` taken as a size.
pub fn is_readable(count: i64) -> (readable: bool)
    ensures
        readable == (count as usize <= isize::MAX),
{
    count as usize <= isize::MAX as usize
}

/// The call that reads the debuggee's memory.
pub fn read_memory(engine: &DebugEngine, address: Address, count: i64) -> (call: Call)
    requires
        count as usize <= isize::MAX,
    ensures
        call == (Call::ReadMemory { process: engine@.process, address, count: count as usize }),
{
    Call::ReadMemory { process: engine.process, address, count: count as usize }
}

/// The bytes that were read, or why they were not.
pub fn memory_read(reply: Reply) -> (result: DebuggerResult<Vec<u8>>)
    requires
        reply is Bytes || reply is Failed,
    ensures
        match reply {
            Reply::Bytes(bytes) => result == Ok::<Vec<u8>, DebuggerError>(bytes),
            Reply::Failed(error) => result is Err && result->Err_0.0@
                == "ReadProcessMemory failed: "@ + error@,
            _ => true,
        },
{
    match reply {
        Reply::Bytes(bytes) => Ok(bytes),
        Reply::Failed(error) => failure("ReadProcessMemory failed: ", &error),
        _ => Ok(Vec::new()),
    }
}

/// Forgets every function symbol.
pub fn mist_clear_function_symbols(engine: &mut DebugEngine) -> (done: bool)
    ensures
        done,
        final(engine)@ == (EngineView {
            symbols: SymbolsView {
                image_base: old(engine)@.symbols.image_base,
                ..SymbolsView::none()
            },
            dirty: true,
            ..old(engine)@
        }),
        final(engine)@.dirty,
        forall|name: Seq<char>|
            !(#[trigger] final(engine)@.symbols.rva.contains_key(name))
                && !final(engine)@.symbols.va.contains_key(name),
        final(engine)@.requested == old(engine)@.requested,
{
    engine.symbols.clear();
    engine.mark_dirty();
    true
}

/// Registers a function by its offset in the image; without a name there is nothing to register.
pub fn mist_register_function_symbol_rva(
    engine: &mut DebugEngine,
    name: Option<String>,
    rva: Address,
) -> (done: bool)
    ensures
        done == (name is Some),
        final(engine)@ == (match name {
            Some(name) => EngineView {
                symbols: SymbolsView {
                    rva: old(engine)@.symbols.rva.insert(name@, rva),
                    ..old(engine)@.symbols
                },
                dirty: true,
                ..old(engine)@
            },
            None => old(engine)@,
        }),
        name matches Some(name) ==> final(engine)@.dirty && final(engine)@.symbols.rva.contains_key(
            name@,
        ) && final(engine)@.symbols.rva[name@] == rva,
        final(engine)@.requested == old(engine)@.requested,
{
    match name {
        None => false,
        Some(name) => {
            engine.symbols.rva.insert(name, rva);
            engine.mark_dirty();
            true
        },
    }
}

/// Registers a function by its address; without a name there is nothing to register.
pub fn mist_register_function_symbol_va(
    engine: &mut DebugEngine,
    name: Option<String>,
    va: Address,
) -> (done: bool)
    ensures
        done == (name is Some),
        final(engine)@ == (match name {
            Some(name) => EngineView {
                symbols: SymbolsView {
                    va: old(engine)@.symbols.va.insert(name@, va),
                    ..old(engine)@.symbols
                },
                dirty: true,
                ..old(engine)@
            },
            None => old(engine)@,
        }),
        name matches Some(name) ==> final(engine)@.dirty && final(engine)@.symbols.va.contains_key(
            name@,
        ) && final(engine)@.symbols.va[name@] == va,
        final(engine)@.requested == old(engine)@.requested,
{
    match name {
        None => false,
        Some(name) => {
            engine.symbols.va.insert(name, va);
            engine.mark_dirty();
            true
        },
    }
}

} // verus!
