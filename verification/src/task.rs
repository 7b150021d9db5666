//! The work of a debug session, cut into tasks of at most one call each.
use vstd::prelude::*;

use crate::context::Edit;
use crate::dap::{DebuggerError, DebuggerResult};
use crate::debug_controller::{DebugCommand, StopReason};
use crate::system::{Address, Call, ContextPart, DebugEvent, Handle, ThreadContext};
use crate::system::PAGE_EXECUTE_READWRITE;
use crate::text::{joined, owned};

verus! {

/// The one-byte breakpoint instruction.
pub const INT3: u8 = 0xCC;

/// The first byte of a near call; the instruction is five bytes long.
pub const NEAR_CALL: u8 = 0xE8;

/// Why a byte of code is about to be overwritten.
#[derive(Debug, Clone, Copy, PartialEq, Eq, Structural)]
pub enum PatchGoal {
    /// To put a new breakpoint there; the byte under it is still to be read.
    Insert { temporary: bool },
    /// To put back the byte that a breakpoint covered.
    Clear { original: u8 },
    /// To put back a breakpoint whose original byte is known.
    Reinsert,
}

/// A byte of code to overwrite, with all that is known of it.
#[derive(Debug, Clone, Copy, PartialEq, Eq, Structural)]
pub enum Patch {
    Insert { original: u8, temporary: bool },
    Clear { original: u8 },
    Reinsert,
}

impl Patch {
    /// The byte that the patch writes.
    pub open spec fn byte_spec(self) -> u8 {
        match self {
            Patch::Insert { .. } => INT3,
            Patch::Clear { original } => original,
            Patch::Reinsert => INT3,
        }
    }

    /// The byte that the patch writes.
    pub fn byte(&self) -> (byte: u8)
        ensures
            byte == self.byte_spec(),
    {
        match self {
            Patch::Insert { .. } => INT3,
            Patch::Clear { original } => *original,
            Patch::Reinsert => INT3,
        }
    }
}

/// The steps that overwrite one byte of code.
#[derive(Debug, Clone, Copy, PartialEq, Eq, Structural)]
pub enum PatchStep {
    /// Make the page writable.
    Unprotect { address: Address, goal: PatchGoal },
    /// Read the byte that a new breakpoint will cover.
    ReadOriginal { address: Address, temporary: bool, protection: u32 },
    /// Write the byte.
    Write { address: Address, protection: u32, patch: Patch },
    /// Give the page its protection back.
    Reprotect { address: Address, protection: u32, patch: Patch },
    /// Drop cached instructions, and record a new breakpoint.
    Flush { address: Address, patch: Patch },
}

/// One piece of work.
#[derive(Debug, Clone, Copy, PartialEq, Eq, Structural)]
pub enum Task {
    /// Put a software breakpoint at an address.
    SetBreakpoint { address: Address, temporary: bool },
    /// Take a software breakpoint away.
    ClearBreakpoint { address: Address },
    /// Put back the byte under a software breakpoint, and keep the breakpoint on record.
    LiftBreakpoint { address: Address },
    /// Write a recorded software breakpoint once more.
    ReinsertBreakpoint { address: Address },
    /// One step of overwriting a byte.
    Patch(PatchStep),
    /// Read registers that are to be changed.
    EditContext { thread: Handle, edit: Edit },
    /// Write changed registers.
    StoreContext { thread: Handle, context: ThreadContext },
    /// Run to behind the current instruction, calls included.
    StepOver { thread: Handle },
    /// Look at the current instruction.
    StepOverOpcode { thread: Handle, ip: Address },
    /// Run until the current function returns.
    StepOut { thread: Handle },
    /// Look at the return address on the stack.
    StepOutReturn { esp: Address },
    /// Carry out a client's command.
    ApplyCommand { thread_id: u32, command: DebugCommand },
    /// Bring the breakpoints in line with those that were requested.
    Sync,
    /// The same; what fails in it ends it and nothing else.
    SyncLeniently,
    /// Where work goes on after a failure in the tasks before it.
    Catch,
    /// Start the target.
    Spawn,
    /// Wait for the next debug event.
    WaitEvent,
    /// Handle a debug event.
    Dispatch { event: DebugEvent },
    /// Open a new thread that came without a handle.
    OpenThread { thread_id: u32 },
    /// Find out which breakpoint instruction a thread ran into.
    BreakpointHit { thread: Handle, process_id: u32, thread_id: u32 },
    /// Find out why a thread stopped after one instruction.
    StepHit { thread: Handle, process_id: u32, thread_id: u32 },
    /// Remember a breakpoint that is to be written again after one instruction.
    ScheduleReinsert { address: Address },
    /// Tell the client of a stop.
    NotifyStop { reason: StopReason, thread_id: u32 },
    /// Wait for the client's next command.
    AwaitCommand { thread_id: u32 },
    /// Take the client's command if there is one.
    TakeCommand { thread_id: u32 },
    /// Let the debuggee go on.
    Resume { process_id: u32, thread_id: u32 },
    /// Close a handle.
    CloseHandle { handle: Handle },
    /// End the session.
    EndSession,
    /// Forget the process.
    Detach,
}

impl Task {
    /// What a task asks of the operating system.
    pub open spec fn call_spec(self, process: Handle) -> Call {
        match self {
            Task::Patch(step) => match step {
                PatchStep::Unprotect { address, .. } => Call::Protect {
                    process,
                    address,
                    protection: PAGE_EXECUTE_READWRITE,
                },
                PatchStep::ReadOriginal { address, .. } => Call::ReadMemory {
                    process,
                    address,
                    count: 1,
                },
                PatchStep::Write { address, patch, .. } => Call::WriteByte {
                    process,
                    address,
                    byte: patch.byte_spec(),
                },
                PatchStep::Reprotect { address, protection, .. } => Call::Protect {
                    process,
                    address,
                    protection,
                },
                PatchStep::Flush { address, .. } => Call::FlushInstructionCache {
                    process,
                    address,
                },
            },
            Task::EditContext { thread, edit } => if edit.in_range() {
                Call::GetContext { thread, part: edit.part_spec() }
            } else {
                Call::Nothing
            },
            Task::StoreContext { thread, context } => Call::SetContext { thread, context },
            Task::StepOver { thread } | Task::StepOut { thread } => Call::GetContext {
                thread,
                part: ContextPart::Control,
            },
            Task::StepOverOpcode { ip, .. } => Call::ReadMemory { process, address: ip, count: 1 },
            Task::StepOutReturn { esp } => Call::ReadMemory { process, address: esp, count: 4 },
            Task::Spawn => Call::CreateProcess,
            Task::WaitEvent => Call::WaitForDebugEvent,
            Task::OpenThread { thread_id } => Call::OpenThread { thread_id },
            Task::BreakpointHit { thread, .. } => Call::GetContext {
                thread,
                part: ContextPart::Control,
            },
            Task::StepHit { thread, .. } => Call::GetContext { thread, part: ContextPart::Debug },
            Task::AwaitCommand { .. } => Call::AwaitCommand,
            Task::Resume { process_id, thread_id } => Call::ContinueDebugEvent {
                process_id,
                thread_id,
            },
            Task::CloseHandle { handle } => Call::CloseHandle { handle },
            _ => Call::Nothing,
        }
    }

    /// What a task asks of the operating system.
    pub fn call(&self, process: Handle) -> (call: Call)
        ensures
            call == self.call_spec(process),
    {
        match self {
            Task::Patch(step) => match step {
                PatchStep::Unprotect { address, .. } => Call::Protect {
                    process,
                    address: *address,
                    protection: PAGE_EXECUTE_READWRITE,
                },
                PatchStep::ReadOriginal { address, .. } => Call::ReadMemory {
                    process,
                    address: *address,
                    count: 1,
                },
                PatchStep::Write { address, patch, .. } => Call::WriteByte {
                    process,
                    address: *address,
                    byte: patch.byte(),
                },
                PatchStep::Reprotect { address, protection, .. } => Call::Protect {
                    process,
                    address: *address,
                    protection: *protection,
                },
                PatchStep::Flush { address, .. } => Call::FlushInstructionCache {
                    process,
                    address: *address,
                },
            },
            Task::EditContext { thread, edit } => if edit.is_in_range() {
                Call::GetContext { thread: *thread, part: edit.part() }
            } else {
                Call::Nothing
            },
            Task::StoreContext { thread, context } => Call::SetContext {
                thread: *thread,
                context: *context,
            },
            Task::StepOver { thread } => Call::GetContext {
                thread: *thread,
                part: ContextPart::Control,
            },
            Task::StepOut { thread } => Call::GetContext {
                thread: *thread,
                part: ContextPart::Control,
            },
            Task::StepOverOpcode { ip, .. } => Call::ReadMemory { process, address: *ip, count: 1 },
            Task::StepOutReturn { esp } => Call::ReadMemory { process, address: *esp, count: 4 },
            Task::Spawn => Call::CreateProcess,
            Task::WaitEvent => Call::WaitForDebugEvent,
            Task::OpenThread { thread_id } => Call::OpenThread { thread_id: *thread_id },
            Task::BreakpointHit { thread, .. } => Call::GetContext {
                thread: *thread,
                part: ContextPart::Control,
            },
            Task::StepHit { thread, .. } => Call::GetContext {
                thread: *thread,
                part: ContextPart::Debug,
            },
            Task::AwaitCommand { .. } => Call::AwaitCommand,
            Task::Resume { process_id, thread_id } => Call::ContinueDebugEvent {
                process_id: *process_id,
                thread_id: *thread_id,
            },
            Task::CloseHandle { handle } => Call::CloseHandle { handle: *handle },
            _ => Call::Nothing,
        }
    }
}

/// What a finished task leaves: the tasks that take its place, or a failure and its message.
#[verifier::ext_equal]
pub enum Flow {
    Next(Seq<Task>),
    Raise(Seq<char>),
}

/// The flow that a result stands for.
pub open spec fn flow_of(result: DebuggerResult<Vec<Task>>) -> Flow {
    match result {
        Ok(tasks) => Flow::Next(tasks@),
        Err(error) => Flow::Raise(error.0@),
    }
}

/// A failure whose message ends in the system's account of it.
pub fn failure<T>(what: &str, error: &String) -> (result: DebuggerResult<T>)
    ensures
        result is Err,
        result->Err_0.0@ == what@ + error@,
{
    Err(DebuggerError(joined(what, error.as_str())))
}

/// A failure with a fixed message.
pub fn refusal<T>(message: &str) -> (result: DebuggerResult<T>)
    ensures
        result is Err,
        result->Err_0.0@ == message@,
{
    Err(DebuggerError(owned(message)))
}

/// No more work.
pub fn nothing() -> (tasks: Vec<Task>)
    ensures
        tasks@ == Seq::<Task>::empty(),
{
    Vec::new()
}

/// One more task.
pub fn only(task: Task) -> (tasks: Vec<Task>)
    ensures
        tasks@ == seq![task],
{
    let mut tasks: Vec<Task> = Vec::new();
    tasks.push(task);
    assert(tasks@ =~= seq![task]);
    tasks
}

} // verus!
