//! The mailbox between the protocol server, which submits commands, and the debug loop, which
//! takes them and reports stops.
//!
//! One thread holds the controller at a time; whoever shares it wakes the waiting threads after
//! every change.
use vstd::prelude::*;

verus! {

/// What the client asks of a stopped debuggee.
#[derive(Debug, Clone, Copy, PartialEq, Eq, Structural)]
pub enum DebugCommand {
    Continue,
    StepIn,
    StepOver,
    StepOut,
}

/// Why the debuggee stopped.
#[derive(Debug, Clone, Copy, PartialEq, Eq, Structural)]
pub enum StopReason {
    Breakpoint,
    SingleStep,
    ProcessExit,
    Unknown,
}

/// What the controller remembers: the command that nobody took yet, the last stop, and whether a
/// session runs.
#[derive(Debug, Clone, Copy, PartialEq, Eq, Structural)]
pub struct ControllerState {
    pub pending_command: Option<DebugCommand>,
    pub last_stop_reason: Option<StopReason>,
    pub last_stop_thread_id: Option<u32>,
    pub is_active: bool,
}

impl ControllerState {
    /// The state with a command waiting; an earlier one that nobody took is gone.
    pub open spec fn with_command(self, command: DebugCommand) -> ControllerState {
        ControllerState { pending_command: Some(command), ..self }
    }

    /// The state with no command waiting.
    pub open spec fn without_command(self) -> ControllerState {
        ControllerState { pending_command: None, ..self }
    }

    /// The state after a stop of the thread.
    pub open spec fn stopped(self, reason: StopReason, thread_id: u32) -> ControllerState {
        ControllerState {
            last_stop_reason: Some(reason),
            last_stop_thread_id: Some(thread_id),
            ..self
        }
    }

    /// The state with the session started or ended.
    pub open spec fn with_session(self, active: bool) -> ControllerState {
        ControllerState { is_active: active, ..self }
    }
}

/// The controller of one debug session at a time.
pub struct DebugController {
    pub state: ControllerState,
}

impl DebugController {
    /// A controller with no command, no stop and no session.
    pub fn new() -> (controller: Self)
        ensures
            controller.state == (ControllerState {
                pending_command: None,
                last_stop_reason: None,
                last_stop_thread_id: None,
                is_active: false,
            }),
    {
        DebugController {
            state: ControllerState {
                pending_command: None,
                last_stop_reason: None,
                last_stop_thread_id: None,
                is_active: false,
            },
        }
    }

    /// Records that a session started or ended.
    pub fn set_session_active(&mut self, active: bool)
        ensures
            final(self).state == old(self).state.with_session(active),
    {
        self.state.is_active = active;
    }

    /// Whether a session runs.
    pub fn is_session_active(&self) -> (active: bool)
        ensures
            active == self.state.is_active,
    {
        self.state.is_active
    }

    /// Leaves a command for the debug loop, in place of one that it did not take yet.
    pub fn submit(&mut self, command: DebugCommand)
        ensures
            final(self).state == old(self).state.with_command(command),
    {
        self.state.pending_command = Some(command);
    }

    /// Records the last stop.
    pub fn notify_stop(&mut self, reason: StopReason, thread_id: u32)
        ensures
            final(self).state == old(self).state.stopped(reason, thread_id),
    {
        self.state.last_stop_reason = Some(reason);
        self.state.last_stop_thread_id = Some(thread_id);
    }

    /// One look of the debug loop while it waits: the command, taken out of the mailbox, or
    /// `None` where it has to sleep until the next change and look again.
    pub fn wait_for_command(&mut self) -> (command: Option<DebugCommand>)
        ensures
            command == old(self).state.pending_command,
            final(self).state == old(self).state.without_command(),
    {
        self.try_take_command()
    }

    /// Takes the waiting command, if there is one.
    pub fn try_take_command(&mut self) -> (command: Option<DebugCommand>)
        ensures
            command == old(self).state.pending_command,
            final(self).state == old(self).state.without_command(),
    {
        let command = self.state.pending_command;
        self.state.pending_command = None;
        command
    }
}

/// A submitted command is taken exactly once, the last one submitted is the one taken, and
/// taking it leaves nothing else changed.
pub proof fn law_last_command_is_taken_once(
    state: ControllerState,
    first: DebugCommand,
    last: DebugCommand,
)
    ensures
        state.with_command(first).with_command(last).pending_command == Some(last),
        state.with_command(first).with_command(last).without_command() == state.without_command(),
        state.without_command().pending_command is None,
{
}

/// Stops and session changes leave a waiting command where it is.
pub proof fn law_stops_keep_the_command(
    state: ControllerState,
    reason: StopReason,
    thread_id: u32,
    active: bool,
)
    ensures
        state.stopped(reason, thread_id).pending_command == state.pending_command,
        state.with_session(active).pending_command == state.pending_command,
{
}

/// A stop is recorded with its reason and its thread, whatever stopped before; a session is on
/// record exactly from its start to its end. Each of the changes leaves what it is not about.
pub proof fn law_stops_and_sessions_are_recorded(
    state: ControllerState,
    reason: StopReason,
    thread_id: u32,
    active: bool,
    command: DebugCommand,
)
    ensures
        state.stopped(reason, thread_id).last_stop_reason == Some(reason),
        state.stopped(reason, thread_id).last_stop_thread_id == Some(thread_id),
        state.stopped(reason, thread_id).is_active == state.is_active,
        state.with_session(active).is_active == active,
        state.with_session(active).last_stop_reason == state.last_stop_reason,
        state.with_session(active).last_stop_thread_id == state.last_stop_thread_id,
        state.with_command(command).last_stop_reason == state.last_stop_reason,
        state.with_command(command).last_stop_thread_id == state.last_stop_thread_id,
        state.with_command(command).is_active == state.is_active,
        state.without_command().last_stop_reason == state.last_stop_reason,
        state.without_command().last_stop_thread_id == state.last_stop_thread_id,
        state.without_command().is_active == state.is_active,
{
}

} // verus!
