//! What the debugger says to the operating system and hears back, as plain values.
//!
//! The library decides, a driver acts: a `Call` names one request to Windows, and the driver
//! hands the outcome back as a `Reply`.
use vstd::prelude::*;

use crate::debug_controller::DebugCommand;

verus! {

/// An address in the 32-bit debuggee.
pub type Address = u32;

/// A Windows handle, by the integer in it.
#[derive(Debug, Clone, Copy, PartialEq, Eq, Structural)]
pub struct Handle {
    pub value: i64,
}

impl Handle {
    /// No handle at all, and the handle that stands for failure, refer to nothing.
    pub open spec fn invalid(self) -> bool {
        self.value == 0 || self.value == -1
    }

    /// The handle that refers to nothing.
    pub open spec fn null_spec() -> Handle {
        Handle { value: 0 }
    }

    /// The handle that refers to nothing.
    pub fn null() -> (handle: Handle)
        ensures
            handle == Handle::null_spec(),
    {
        Handle { value: 0 }
    }

    /// Whether the handle refers to nothing.
    pub fn is_invalid(&self) -> (invalid: bool)
        ensures
            invalid == self.invalid(),
    {
        self.value == 0 || self.value == -1
    }
}

/// Which registers of a thread a call reads or writes.
#[derive(Debug, Clone, Copy, PartialEq, Eq, Structural)]
pub enum ContextPart {
    /// Instruction pointer, stack pointers, flags.
    Control,
    /// The debug registers.
    Debug,
}

/// The control and debug registers of a 32-bit thread; `part` says which of them count.
#[derive(Debug, Clone, Copy, PartialEq, Eq, Structural)]
pub struct ThreadContext {
    pub part: ContextPart,
    pub ebp: u32,
    pub eip: u32,
    pub seg_cs: u32,
    pub eflags: u32,
    pub esp: u32,
    pub seg_ss: u32,
    pub dr0: u32,
    pub dr1: u32,
    pub dr2: u32,
    pub dr3: u32,
    pub dr6: u32,
    pub dr7: u32,
}

/// What happened in the debuggee.
#[derive(Debug, Clone, Copy, PartialEq, Eq, Structural)]
pub enum EventKind {
    CreateProcess { image_base: u64, file: Handle },
    CreateThread { thread: Handle },
    ExitThread,
    Exception { code: u32 },
    ExitProcess,
    Other,
}

/// One debug event: where it happened, and what it is.
#[derive(Debug, Clone, Copy, PartialEq, Eq, Structural)]
pub struct DebugEvent {
    pub process_id: u32,
    pub thread_id: u32,
    pub kind: EventKind,
}

/// The code of the exception that a breakpoint instruction raises.
pub const EXCEPTION_BREAKPOINT_CODE: u32 = 0x8000_0003;

/// The code of the exception that the trap flag and the debug registers raise.
pub const EXCEPTION_SINGLE_STEP_CODE: u32 = 0x8000_0004;

/// The page protection under which code can be read, written and run.
pub const PAGE_EXECUTE_READWRITE: u32 = 0x40;

/// One request to the operating system, or to the driver's own mailbox.
#[derive(Debug, Clone, Copy, PartialEq, Eq, Structural)]
pub enum Call {
    /// There is nothing to ask; the answer is `Reply::Nothing`.
    Nothing,
    /// Start the session's target, for debugging that process only.
    CreateProcess,
    /// Wait for the next debug event, without limit.
    WaitForDebugEvent,
    /// Let the debuggee go on after an event.
    ContinueDebugEvent { process_id: u32, thread_id: u32 },
    /// Block until the client has submitted a command.
    AwaitCommand,
    /// Open a thread with every access right.
    OpenThread { thread_id: u32 },
    /// Close a handle.
    CloseHandle { handle: Handle },
    /// Change the protection of the page that holds one byte.
    Protect { process: Handle, address: Address, protection: u32 },
    /// Read bytes of the debuggee's memory.
    ReadMemory { process: Handle, address: Address, count: usize },
    /// Write one byte of the debuggee's memory.
    WriteByte { process: Handle, address: Address, byte: u8 },
    /// Drop cached instructions at one byte.
    FlushInstructionCache { process: Handle, address: Address },
    /// Read registers of a thread.
    GetContext { thread: Handle, part: ContextPart },
    /// Write the registers that the context's part names.
    SetContext { thread: Handle, context: ThreadContext },
}

/// The outcome of one call.
pub enum Reply {
    /// Nothing was asked.
    Nothing,
    /// The call succeeded and gives no value.
    Done,
    /// The call failed; the text is the system's own account of it.
    Failed(String),
    /// The process that was started, and its first thread.
    Spawned { process: Handle, thread: Handle, thread_id: u32 },
    /// The next debug event.
    Event(DebugEvent),
    /// The command that the client submitted.
    Command(DebugCommand),
    /// A handle that was opened.
    Opened(Handle),
    /// The protection that the page had before.
    Protection(u32),
    /// The bytes that could be read: all that were asked for, or fewer.
    Bytes(Vec<u8>),
    /// How many bytes were written.
    Count(usize),
    /// The registers that were read.
    Context(ThreadContext),
}

impl Call {
    /// Which replies answer a call.
    pub open spec fn accepts(self, reply: Reply) -> bool {
        match self {
            Call::Nothing => reply is Nothing,
            Call::CreateProcess => reply is Failed || reply is Spawned,
            Call::WaitForDebugEvent => reply is Failed || reply is Event,
            Call::ContinueDebugEvent { .. } => reply is Failed || reply is Done,
            Call::AwaitCommand => reply is Command,
            Call::OpenThread { .. } => reply is Failed || reply is Opened,
            Call::CloseHandle { .. } => reply is Failed || reply is Done,
            Call::Protect { .. } => reply is Failed || reply is Protection,
            Call::ReadMemory { count, .. } => match reply {
                Reply::Failed(_) => true,
                Reply::Bytes(bytes) => bytes@.len() <= count,
                _ => false,
            },
            Call::WriteByte { .. } => reply is Failed || reply is Count,
            Call::FlushInstructionCache { .. } => reply is Failed || reply is Done,
            Call::GetContext { part, .. } => match reply {
                Reply::Failed(_) => true,
                Reply::Context(context) => context.part == part,
                _ => false,
            },
            Call::SetContext { .. } => reply is Failed || reply is Done,
        }
    }

    /// Whether a reply answers the call.
    pub fn is_answered_by(&self, reply: &Reply) -> (answered: bool)
        ensures
            answered == self.accepts(*reply),
    {
        match (self, reply) {
            (Call::Nothing, Reply::Nothing) => true,
            (Call::Nothing, _) => false,
            (Call::AwaitCommand, Reply::Command(_)) => true,
            (Call::AwaitCommand, _) => false,
            (_, Reply::Failed(_)) => true,
            (Call::CreateProcess, Reply::Spawned { .. }) => true,
            (Call::WaitForDebugEvent, Reply::Event(_)) => true,
            (Call::ContinueDebugEvent { .. }, Reply::Done) => true,
            (Call::OpenThread { .. }, Reply::Opened(_)) => true,
            (Call::CloseHandle { .. }, Reply::Done) => true,
            (Call::Protect { .. }, Reply::Protection(_)) => true,
            (Call::ReadMemory { count, .. }, Reply::Bytes(bytes)) => bytes.len() <= *count,
            (Call::WriteByte { .. }, Reply::Count(_)) => true,
            (Call::FlushInstructionCache { .. }, Reply::Done) => true,
            (Call::GetContext { part, .. }, Reply::Context(context)) => context.part == *part,
            (Call::SetContext { .. }, Reply::Done) => true,
            _ => false,
        }
    }
}

/// Two handles refer to nothing, zero and minus one, and every other one refers to something.
pub proof fn law_which_handles_refer_to_something(handle: Handle)
    ensures
        handle.value == 0 ==> handle.invalid(),
        handle.value == -1 ==> handle.invalid(),
        handle.value > 0 ==> !handle.invalid(),
        handle.value < -1 ==> !handle.invalid(),
        Handle::null_spec().invalid(),
{
}

/// Every call to the system may fail, and only a call to the system may; a reply with a value
/// answers just the calls that give such a value. A read never gives more bytes than were asked
/// for, nor any registers but those that were.
pub proof fn law_replies_to_calls(call: Call, error: String, bytes: Vec<u8>, context: ThreadContext)
    ensures
        call.accepts(Reply::Failed(error)) == (!(call is Nothing) && !(call is AwaitCommand)),
        call.accepts(Reply::Nothing) == (call is Nothing),
        call.accepts(Reply::Bytes(bytes)) ==> call is ReadMemory && bytes@.len()
            <= call->ReadMemory_count,
        call is ReadMemory && bytes@.len() <= call->ReadMemory_count ==> call.accepts(
            Reply::Bytes(bytes),
        ),
        call.accepts(Reply::Context(context)) == (call is GetContext && context.part
            == call->GetContext_part),
        forall|command: DebugCommand| #[trigger]
            call.accepts(Reply::Command(command)) == (call is AwaitCommand),
        forall|event: DebugEvent| #[trigger]
            call.accepts(Reply::Event(event)) == (call is WaitForDebugEvent),
        forall|count: usize| #[trigger]
            call.accepts(Reply::Count(count)) == (call is WriteByte),
        forall|protection: u32| #[trigger]
            call.accepts(Reply::Protection(protection)) == (call is Protect),
        forall|handle: Handle| #[trigger]
            call.accepts(Reply::Opened(handle)) == (call is OpenThread),
        call.accepts(Reply::Done) == (call is ContinueDebugEvent || call is CloseHandle
            || call is FlushInstructionCache || call is SetContext),
{
}

} // verus!
