//! Attaching to a running process, one system call at a time.
use vstd::prelude::*;

use crate::dap::{DebuggerError, DebuggerResult};
use crate::system::{EventKind, Handle, EXCEPTION_BREAKPOINT_CODE};
use crate::task::{failure, refusal};
use crate::text::{joined, owned};
use crate::tooling::{
    ImageBaseLookup, LookupOutcome, LookupOutcomeView, LookupPhase, LookupView, ProcessSearch,
    SearchOutcome, SearchOutcomeView, SearchPhase, SearchView, ToolCall, ToolReply,
};
use crate::utility::wide_to_string;

verus! {

/// Every access right to a process.
pub const PROCESS_ALL_ACCESS: u32 = 0x1f_ffff;

/// A debugger that is attached to a process.
#[derive(Debug, Clone, Copy, PartialEq, Eq, Structural)]
pub struct Debugger {
    pub toolhelp_snapshot: Handle,
    pub process_id: Option<u32>,
    pub thread_id: Option<u32>,
    pub thread_handle: Option<Handle>,
    pub process_handle: Option<Handle>,
    pub image_base: Option<u64>,
}

/// What an operation gave: its value, or the message of its failure.
pub open spec fn result_view<T>(result: DebuggerResult<T>) -> Result<T, Seq<char>> {
    match result {
        Ok(value) => Ok(value),
        Err(error) => Err(error.0@),
    }
}

/// What an operation gave, where it is over.
pub open spec fn outcome_view<T>(outcome: Option<DebuggerResult<T>>) -> Option<
    Result<T, Seq<char>>,
> {
    match outcome {
        Some(result) => Some(result_view(result)),
        None => None,
    }
}

/// What taking a snapshot gives.
pub open spec fn snapshot_result(reply: ToolReply) -> Result<Handle, Seq<char>> {
    match reply {
        ToolReply::Opened(snapshot) => if snapshot.invalid() {
            Err("Toolhelp snapshot handle is invalid"@)
        } else {
            Ok(snapshot)
        },
        ToolReply::Failed(error) => Err("CreateToolhelp32Snapshot failed: "@ + error@),
        _ => Err(Seq::empty()),
    }
}

/// What a search gives that is over.
pub open spec fn search_result(search: SearchView) -> Result<(u32, Handle), Seq<char>> {
    match search.outcome {
        SearchOutcomeView::Found { process_id, process } => Ok((process_id, process)),
        SearchOutcomeView::SnapshotFailed(error) => Err(
            "CreateToolhelp32Snapshot failed: "@ + error,
        ),
        SearchOutcomeView::SnapshotInvalid => Err("Toolhelp snapshot handle is invalid"@),
        SearchOutcomeView::ListFailed => Err("Process32FirstW failed"@),
        SearchOutcomeView::OpenFailed(error) => Err("Failed to open process: "@ + error),
        SearchOutcomeView::Missing | SearchOutcomeView::Pending => Err(
            "Failed to find process matching name: "@ + match crate::utility::decoded_utf16(
                search.name,
            ) {
                Some(name) => name,
                None => "Unknown process"@,
            },
        ),
    }
}

/// What a lookup gives that is over.
pub open spec fn lookup_result(lookup: LookupView) -> Result<u64, Seq<char>> {
    match lookup.outcome {
        LookupOutcomeView::Base(base) => Ok(base),
        LookupOutcomeView::ListFailed(error) => Err("EnumProcessModulesEx failed: "@ + error),
        LookupOutcomeView::NoModules | LookupOutcomeView::Pending => Err(
            "No modules loaded in the target process"@,
        ),
        LookupOutcomeView::InformationFailed(error) => Err(
            "GetModuleInformation failed: "@ + error,
        ),
    }
}

impl Debugger {
    /// The call that takes a snapshot of a process, with its modules and threads.
    pub fn snapshot_process(process_id: u32) -> (call: ToolCall)
        ensures
            call == (ToolCall::CreateSnapshot { with_modules_and_threads: true, process_id }),
    {
        ToolCall::CreateSnapshot { with_modules_and_threads: true, process_id }
    }

    /// The snapshot that was taken, or why there is none.
    pub fn snapshot_taken(reply: &ToolReply) -> (result: DebuggerResult<Handle>)
        requires
            reply is Opened || reply is Failed,
        ensures
            result_view(result) == snapshot_result(*reply),
    {
        match reply {
            ToolReply::Opened(snapshot) => if snapshot.is_invalid() {
                refusal("Toolhelp snapshot handle is invalid")
            } else {
                Ok(*snapshot)
            },
            ToolReply::Failed(error) => failure("CreateToolhelp32Snapshot failed: ", error),
            _ => refusal(""),
        }
    }

    /// The search for a process by the name of its executable.
    pub fn get_process_handle(name: Vec<u16>, desired_access: u32) -> (search: ProcessSearch)
        ensures
            search@ == SearchView::start(name@, desired_access, true),
    {
        ProcessSearch::new(name, desired_access, true)
    }

    /// The process that a search found, or why it found none.
    pub fn process_found(search: &ProcessSearch) -> (result: DebuggerResult<(u32, Handle)>)
        requires
            !(search@.outcome is Pending),
        ensures
            result_view(result) == search_result(search@),
    {
        match &search.outcome {
            SearchOutcome::Found { process_id, process } => Ok((*process_id, *process)),
            SearchOutcome::SnapshotFailed(error) => failure(
                "CreateToolhelp32Snapshot failed: ",
                error,
            ),
            SearchOutcome::SnapshotInvalid => refusal("Toolhelp snapshot handle is invalid"),
            SearchOutcome::ListFailed => refusal("Process32FirstW failed"),
            SearchOutcome::OpenFailed(error) => failure("Failed to open process: ", error),
            SearchOutcome::Missing | SearchOutcome::Pending => {
                let name = match wide_to_string(search.name.as_slice()) {
                    Some(name) => name,
                    None => owned("Unknown process"),
                };
                failure("Failed to find process matching name: ", &name)
            },
        }
    }

    /// The lookup of where the executable of a process lies.
    pub fn resolve_image_base(process: Handle) -> (lookup: ImageBaseLookup)
        ensures
            lookup@ == LookupView::start(process, true),
    {
        ImageBaseLookup::new(process, true)
    }

    /// The image base that a lookup found, or why it found none.
    pub fn image_base_found(lookup: &ImageBaseLookup) -> (result: DebuggerResult<u64>)
        requires
            !(lookup@.outcome is Pending),
        ensures
            result_view(result) == lookup_result(lookup@),
    {
        match &lookup.outcome {
            LookupOutcome::Base(base) => Ok(*base),
            LookupOutcome::ListFailed(error) => failure("EnumProcessModulesEx failed: ", error),
            LookupOutcome::NoModules | LookupOutcome::Pending => refusal(
                "No modules loaded in the target process",
            ),
            LookupOutcome::InformationFailed(error) => failure(
                "GetModuleInformation failed: ",
                error,
            ),
        }
    }

    /// The call that lets go of the debugger's snapshot; there is none where the snapshot refers
    /// to nothing.
    pub fn closing_call(&self) -> (call: Option<ToolCall>)
        ensures
            call == (if self.toolhelp_snapshot.invalid() {
                None
            } else {
                Some(ToolCall::CloseHandle { handle: self.toolhelp_snapshot })
            }),
    {
        if self.toolhelp_snapshot.is_invalid() {
            None
        } else {
            Some(ToolCall::CloseHandle { handle: self.toolhelp_snapshot })
        }
    }
}

/// Where attaching to a process stands.
#[derive(Debug, Clone, Copy, PartialEq, Eq, Structural)]
pub enum ProcessAttachPhase {
    /// The process is being searched for.
    Searching,
    /// The process is about to be debugged.
    Activating { process_id: u32, process: Handle },
    /// The process cannot be debugged, and its handle is being closed.
    Abandoning { process: Handle },
    /// It is over.
    Ended,
}

/// Finds a process and starts to debug it.
pub struct ProcessAttach {
    pub search: ProcessSearch,
    pub phase: ProcessAttachPhase,
    pub result: Option<DebuggerResult<(u32, Handle)>>,
}

/// What attaching to a process holds.
pub struct ProcessAttachView {
    pub search: SearchView,
    pub phase: ProcessAttachPhase,
    pub result: Option<Result<(u32, Handle), Seq<char>>>,
}

impl View for ProcessAttach {
    type V = ProcessAttachView;

    open spec fn view(&self) -> ProcessAttachView {
        ProcessAttachView {
            search: self.search@,
            phase: self.phase,
            result: outcome_view(self.result),
        }
    }
}

impl ProcessAttachView {
    /// Attaching that is about to start.
    pub open spec fn start(name: Seq<u16>) -> ProcessAttachView {
        ProcessAttachView {
            search: SearchView::start(name, PROCESS_ALL_ACCESS, true),
            phase: ProcessAttachPhase::Searching,
            result: None,
        }
    }

    /// There is something to search while a search runs, a process that refers to something
    /// behind it, and a result at the end.
    pub open spec fn wf(self) -> bool {
        &&& self.search.wf()
        &&& match self.phase {
            ProcessAttachPhase::Searching => self.result is None && !(self.search.phase is Ended),
            ProcessAttachPhase::Activating { process, .. } => self.result is None
                && !process.invalid(),
            ProcessAttachPhase::Abandoning { .. } => self.result is Some && self.result->0 is Err,
            ProcessAttachPhase::Ended => self.result is Some,
        }
        &&& self.result matches Some(Ok((_, process))) ==> !process.invalid()
    }

    /// The call that is waited for.
    pub open spec fn call(self) -> Option<ToolCall> {
        match self.phase {
            ProcessAttachPhase::Searching => self.search.call(),
            ProcessAttachPhase::Activating { process_id, .. } => Some(
                ToolCall::DebugActiveProcess { process_id },
            ),
            ProcessAttachPhase::Abandoning { process } => Some(
                ToolCall::CloseHandle { handle: process },
            ),
            ProcessAttachPhase::Ended => None,
        }
    }

    /// Attaching, ended.
    pub open spec fn ended(self, result: Result<(u32, Handle), Seq<char>>) -> ProcessAttachView {
        ProcessAttachView { phase: ProcessAttachPhase::Ended, result: Some(result), ..self }
    }

    /// What follows the reply to the call.
    pub open spec fn next(self, reply: ToolReply) -> ProcessAttachView {
        match (self.phase, reply) {
            (ProcessAttachPhase::Searching, _) => {
                let searched = ProcessAttachView { search: self.search.next(reply), ..self };
                if searched.search.phase is Ended {
                    match search_result(searched.search) {
                        Ok((process_id, process)) => if process.invalid() {
                            searched.ended(Err("Retrieved process handle is invalid"@))
                        } else {
                            ProcessAttachView {
                                phase: ProcessAttachPhase::Activating { process_id, process },
                                ..searched
                            }
                        },
                        Err(message) => searched.ended(Err(message)),
                    }
                } else {
                    searched
                }
            },
            (ProcessAttachPhase::Activating { process, .. }, ToolReply::Failed(error)) =>
                ProcessAttachView {
                phase: ProcessAttachPhase::Abandoning { process },
                result: Some(Err("DebugActiveProcess failed: "@ + error@)),
                ..self
            },
            (ProcessAttachPhase::Activating { process_id, process }, _) => self.ended(
                Ok((process_id, process)),
            ),
            (ProcessAttachPhase::Abandoning { .. }, _) => ProcessAttachView {
                phase: ProcessAttachPhase::Ended,
                ..self
            },
            (ProcessAttachPhase::Ended, _) => self,
        }
    }
}

impl ProcessAttach {
    /// The call that is waited for; `None` where it is over.
    pub fn call(&self) -> (call: Option<ToolCall>)
        ensures
            call == self@.call(),
    {
        match self.phase {
            ProcessAttachPhase::Searching => self.search.call(),
            ProcessAttachPhase::Activating { process_id, .. } => Some(
                ToolCall::DebugActiveProcess { process_id },
            ),
            ProcessAttachPhase::Abandoning { process } => Some(
                ToolCall::CloseHandle { handle: process },
            ),
            ProcessAttachPhase::Ended => None,
        }
    }

    /// Goes on from the reply to the call.
    pub fn step(&mut self, reply: &ToolReply)
        requires
            old(self)@.wf(),
            old(self)@.call() is Some,
            old(self)@.call()->0.accepts(*reply),
        ensures
            final(self)@ == old(self)@.next(*reply),
            final(self)@.wf(),
    {
        match (self.phase, reply) {
            (ProcessAttachPhase::Searching, _) => {
                self.search.step(reply);
                if let SearchPhase::Ended = self.search.phase {
                    match Debugger::process_found(&self.search) {
                        Ok((process_id, process)) => {
                            if process.is_invalid() {
                                self.result = Some(refusal("Retrieved process handle is invalid"));
                                self.phase = ProcessAttachPhase::Ended;
                            } else {
                                self.phase = ProcessAttachPhase::Activating { process_id, process };
                            }
                        },
                        Err(error) => {
                            self.result = Some(Err(error));
                            self.phase = ProcessAttachPhase::Ended;
                        },
                    }
                }
            },
            (ProcessAttachPhase::Activating { process, .. }, ToolReply::Failed(error)) => {
                self.result = Some(failure("DebugActiveProcess failed: ", error));
                self.phase = ProcessAttachPhase::Abandoning { process };
            },
            (ProcessAttachPhase::Activating { process_id, process }, _) => {
                self.result = Some(Ok((process_id, process)));
                self.phase = ProcessAttachPhase::Ended;
            },
            (ProcessAttachPhase::Abandoning { .. }, _) => {
                self.phase = ProcessAttachPhase::Ended;
            },
            (ProcessAttachPhase::Ended, _) => {},
        }
    }
}

/// Where the wait for the first breakpoint stands.
#[derive(Debug, Clone, Copy, PartialEq, Eq, Structural)]
pub enum ThreadWaitPhase {
    /// The next event is being waited for.
    Waiting,
    /// An event of no interest is being continued.
    Continuing { process_id: u32, thread_id: u32 },
    /// It is over.
    Ended,
}

/// Waits for the thread that hits the first breakpoint.
pub struct ThreadWait {
    pub phase: ThreadWaitPhase,
    pub result: Option<DebuggerResult<u32>>,
}

/// What the wait for the first breakpoint holds.
pub struct ThreadWaitView {
    pub phase: ThreadWaitPhase,
    pub result: Option<Result<u32, Seq<char>>>,
}

impl View for ThreadWait {
    type V = ThreadWaitView;

    open spec fn view(&self) -> ThreadWaitView {
        ThreadWaitView { phase: self.phase, result: outcome_view(self.result) }
    }
}

impl ThreadWaitView {
    /// A wait that is about to start.
    pub open spec fn start() -> ThreadWaitView {
        ThreadWaitView { phase: ThreadWaitPhase::Waiting, result: None }
    }

    /// There is a result at the end, and not before.
    pub open spec fn wf(self) -> bool {
        (self.phase is Ended) == (self.result is Some)
    }

    /// The call that is waited for.
    pub open spec fn call(self) -> Option<ToolCall> {
        match self.phase {
            ThreadWaitPhase::Waiting => Some(ToolCall::WaitForDebugEvent),
            ThreadWaitPhase::Continuing { process_id, thread_id } => Some(
                ToolCall::ContinueDebugEvent { process_id, thread_id },
            ),
            ThreadWaitPhase::Ended => None,
        }
    }

    /// The wait, ended.
    pub open spec fn ended(self, result: Result<u32, Seq<char>>) -> ThreadWaitView {
        ThreadWaitView { phase: ThreadWaitPhase::Ended, result: Some(result) }
    }

    /// What follows the reply to the call.
    pub open spec fn next(self, reply: ToolReply) -> ThreadWaitView {
        match (self.phase, reply) {
            (ThreadWaitPhase::Waiting, ToolReply::Failed(error)) => self.ended(
                Err("WaitForDebugEvent failed: "@ + error@),
            ),
            (ThreadWaitPhase::Waiting, ToolReply::Event(event)) => if event.kind == (
            EventKind::Exception { code: EXCEPTION_BREAKPOINT_CODE }) {
                self.ended(Ok(event.thread_id))
            } else {
                ThreadWaitView {
                    phase: ThreadWaitPhase::Continuing {
                        process_id: event.process_id,
                        thread_id: event.thread_id,
                    },
                    ..self
                }
            },
            (ThreadWaitPhase::Continuing { .. }, ToolReply::Failed(error)) => self.ended(
                Err("ContinueDebugEvent failed: "@ + error@),
            ),
            (ThreadWaitPhase::Continuing { .. }, _) => ThreadWaitView {
                phase: ThreadWaitPhase::Waiting,
                ..self
            },
            _ => self,
        }
    }

    /// The wait after the events, from a place in their sequence on, as far as it asks for them,
    /// each of them continued.
    pub open spec fn after(self, events: Seq<crate::system::DebugEvent>, from: int) -> ThreadWaitView
        decreases events.len() - from,
    {
        if from >= events.len() || !(self.phase is Waiting) {
            self
        } else {
            let woken = self.next(ToolReply::Event(events[from]));
            if woken.phase is Ended {
                woken
            } else {
                woken.next(ToolReply::Done).after(events, from + 1)
            }
        }
    }
}

impl ThreadWait {
    /// The call that is waited for; `None` where it is over.
    pub fn call(&self) -> (call: Option<ToolCall>)
        ensures
            call == self@.call(),
    {
        match self.phase {
            ThreadWaitPhase::Waiting => Some(ToolCall::WaitForDebugEvent),
            ThreadWaitPhase::Continuing { process_id, thread_id } => Some(
                ToolCall::ContinueDebugEvent { process_id, thread_id },
            ),
            ThreadWaitPhase::Ended => None,
        }
    }

    /// Goes on from the reply to the call.
    pub fn step(&mut self, reply: &ToolReply)
        requires
            old(self)@.wf(),
            old(self)@.call() is Some,
            old(self)@.call()->0.accepts(*reply),
        ensures
            final(self)@ == old(self)@.next(*reply),
            final(self)@.wf(),
    {
        match (self.phase, reply) {
            (ThreadWaitPhase::Waiting, ToolReply::Failed(error)) => {
                self.result = Some(failure("WaitForDebugEvent failed: ", error));
                self.phase = ThreadWaitPhase::Ended;
            },
            (ThreadWaitPhase::Waiting, ToolReply::Event(event)) => {
                let stopped = match event.kind {
                    EventKind::Exception { code } => code == EXCEPTION_BREAKPOINT_CODE,
                    _ => false,
                };
                if stopped {
                    self.result = Some(Ok(event.thread_id));
                    self.phase = ThreadWaitPhase::Ended;
                } else {
                    self.phase = ThreadWaitPhase::Continuing {
                        process_id: event.process_id,
                        thread_id: event.thread_id,
                    };
                }
            },
            (ThreadWaitPhase::Continuing { .. }, ToolReply::Failed(error)) => {
                self.result = Some(failure("ContinueDebugEvent failed: ", error));
                self.phase = ThreadWaitPhase::Ended;
            },
            (ThreadWaitPhase::Continuing { .. }, _) => {
                self.phase = ThreadWaitPhase::Waiting;
            },
            _ => {},
        }
    }
}

impl Debugger {
    /// Finds a process by the name of its executable and starts to debug it.
    pub fn attach_to_process(name: Vec<u16>) -> (attach: ProcessAttach)
        ensures
            attach@ == ProcessAttachView::start(name@),
            attach@.wf(),
    {
        ProcessAttach {
            search: Debugger::get_process_handle(name, PROCESS_ALL_ACCESS),
            phase: ProcessAttachPhase::Searching,
            result: None,
        }
    }

    /// Waits for the thread that hits the first breakpoint.
    pub fn await_get_thread_id() -> (wait: ThreadWait)
        ensures
            wait@ == ThreadWaitView::start(),
            wait@.wf(),
    {
        ThreadWait { phase: ThreadWaitPhase::Waiting, result: None }
    }
}

/// Where attaching the debugger stands.
#[derive(Debug, Clone, Copy, PartialEq, Eq, Structural)]
pub enum AttachStage {
    /// The process is being found and attached to.
    Process,
    /// The first breakpoint is being waited for.
    Thread { process_id: u32, process: Handle },
    /// The thread is being opened.
    Opening { process_id: u32, process: Handle, thread_id: u32 },
    /// The image base is being looked up.
    Image { process_id: u32, process: Handle, thread_id: u32, thread: Handle },
    /// The snapshot is being taken.
    Snapshot {
        process_id: u32,
        process: Handle,
        thread_id: u32,
        thread: Handle,
        image_base: u64,
    },
    /// It is over.
    Ended,
}

/// Attaches a debugger to a process: finds it, debugs it, stops at the first breakpoint, and
/// gathers what a debugger needs.
pub struct DebuggerAttach {
    pub process: ProcessAttach,
    pub wait: ThreadWait,
    pub lookup: ImageBaseLookup,
    pub stage: AttachStage,
    pub result: Option<DebuggerResult<Debugger>>,
}

/// What attaching a debugger holds.
pub struct DebuggerAttachView {
    pub process: ProcessAttachView,
    pub wait: ThreadWaitView,
    pub lookup: LookupView,
    pub stage: AttachStage,
    pub result: Option<Result<Debugger, Seq<char>>>,
}

impl View for DebuggerAttach {
    type V = DebuggerAttachView;

    open spec fn view(&self) -> DebuggerAttachView {
        DebuggerAttachView {
            process: self.process@,
            wait: self.wait@,
            lookup: self.lookup@,
            stage: self.stage,
            result: outcome_view(self.result),
        }
    }
}

impl Debugger {
    /// Whether every handle of the debugger refers to something.
    pub open spec fn usable(self) -> bool {
        &&& !self.toolhelp_snapshot.invalid()
        &&& self.process_handle is Some && !self.process_handle->0.invalid()
        &&& self.thread_handle is Some && !self.thread_handle->0.invalid()
        &&& self.process_id is Some && self.thread_id is Some && self.image_base is Some
    }
}

impl DebuggerAttachView {
    /// Attaching that is about to start.
    pub open spec fn start(name: Seq<u16>) -> DebuggerAttachView {
        DebuggerAttachView {
            process: ProcessAttachView::start(name),
            wait: ThreadWaitView::start(),
            lookup: LookupView::start(Handle::null_spec(), true),
            stage: AttachStage::Process,
            result: None,
        }
    }

    /// What has been opened so far refers to something, and there is a result at the end and not
    /// before.
    pub open spec fn wf(self) -> bool {
        &&& self.process.wf()
        &&& self.wait.wf()
        &&& self.lookup.wf()
        &&& (self.stage is Ended) == (self.result is Some)
        &&& self.result matches Some(Ok(debugger)) ==> debugger.usable()
        &&& match self.stage {
            AttachStage::Process => !(self.process.phase is Ended) && self.wait
                == ThreadWaitView::start(),
            AttachStage::Thread { process, .. } => !process.invalid() && !(self.wait.phase is Ended),
            AttachStage::Opening { process, .. } => !process.invalid(),
            AttachStage::Image { process, thread, .. } => !process.invalid() && !thread.invalid()
                && !(self.lookup.phase is Ended),
            AttachStage::Snapshot { process, thread, .. } => !process.invalid()
                && !thread.invalid(),
            AttachStage::Ended => true,
        }
    }

    /// The call that is waited for.
    pub open spec fn call(self) -> Option<ToolCall> {
        match self.stage {
            AttachStage::Process => self.process.call(),
            AttachStage::Thread { .. } => self.wait.call(),
            AttachStage::Opening { thread_id, .. } => Some(ToolCall::OpenThread { thread_id }),
            AttachStage::Image { .. } => self.lookup.call(),
            AttachStage::Snapshot { process_id, .. } => Some(
                ToolCall::CreateSnapshot { with_modules_and_threads: true, process_id },
            ),
            AttachStage::Ended => None,
        }
    }

    /// Attaching, ended.
    pub open spec fn ended(self, result: Result<Debugger, Seq<char>>) -> DebuggerAttachView {
        DebuggerAttachView { stage: AttachStage::Ended, result: Some(result), ..self }
    }

    /// What follows the reply to the call.
    pub open spec fn next(self, reply: ToolReply) -> DebuggerAttachView {
        match self.stage {
            AttachStage::Process => {
                let gone_on = DebuggerAttachView { process: self.process.next(reply), ..self };
                if gone_on.process.phase is Ended {
                    match gone_on.process.result->0 {
                        Ok((process_id, process)) => DebuggerAttachView {
                            stage: AttachStage::Thread { process_id, process },
                            ..gone_on
                        },
                        Err(message) => gone_on.ended(Err(message)),
                    }
                } else {
                    gone_on
                }
            },
            AttachStage::Thread { process_id, process } => {
                let gone_on = DebuggerAttachView { wait: self.wait.next(reply), ..self };
                if gone_on.wait.phase is Ended {
                    match gone_on.wait.result->0 {
                        Ok(thread_id) => DebuggerAttachView {
                            stage: AttachStage::Opening { process_id, process, thread_id },
                            ..gone_on
                        },
                        Err(message) => gone_on.ended(Err(message)),
                    }
                } else {
                    gone_on
                }
            },
            AttachStage::Opening { process_id, process, thread_id } => match reply {
                ToolReply::Opened(thread) => if thread.invalid() {
                    self.ended(Err("Opened thread handle is invalid"@))
                } else {
                    DebuggerAttachView {
                        lookup: LookupView::start(process, true),
                        stage: AttachStage::Image { process_id, process, thread_id, thread },
                        ..self
                    }
                },
                ToolReply::Failed(error) => self.ended(
                    Err("Failed to open thread: "@ + error@),
                ),
                _ => self,
            },
            AttachStage::Image { process_id, process, thread_id, thread } => {
                let gone_on = DebuggerAttachView { lookup: self.lookup.next(reply), ..self };
                if gone_on.lookup.phase is Ended {
                    match lookup_result(gone_on.lookup) {
                        Ok(image_base) => DebuggerAttachView {
                            stage: AttachStage::Snapshot {
                                process_id,
                                process,
                                thread_id,
                                thread,
                                image_base,
                            },
                            ..gone_on
                        },
                        Err(message) => gone_on.ended(Err(message)),
                    }
                } else {
                    gone_on
                }
            },
            AttachStage::Snapshot { process_id, process, thread_id, thread, image_base } => match snapshot_result(
            reply) {
                Ok(snapshot) => self.ended(
                    Ok(
                        Debugger {
                            toolhelp_snapshot: snapshot,
                            process_id: Some(process_id),
                            thread_id: Some(thread_id),
                            thread_handle: Some(thread),
                            process_handle: Some(process),
                            image_base: Some(image_base),
                        },
                    ),
                ),
                Err(message) => self.ended(Err(message)),
            },
            AttachStage::Ended => self,
        }
    }
}

impl DebuggerAttach {
    /// The call that is waited for; `None` where it is over.
    pub fn call(&self) -> (call: Option<ToolCall>)
        ensures
            call == self@.call(),
    {
        match self.stage {
            AttachStage::Process => self.process.call(),
            AttachStage::Thread { .. } => self.wait.call(),
            AttachStage::Opening { thread_id, .. } => Some(ToolCall::OpenThread { thread_id }),
            AttachStage::Image { .. } => self.lookup.call(),
            AttachStage::Snapshot { process_id, .. } => Some(
                Debugger::snapshot_process(process_id),
            ),
            AttachStage::Ended => None,
        }
    }

    /// Ends with a failure.
    fn fail(&mut self, error: DebuggerError)
        ensures
            final(self)@ == old(self)@.ended(Err(error.0@)),
    {
        self.result = Some(Err(error));
        self.stage = AttachStage::Ended;
    }

    /// Goes on from the reply to the call.
    pub fn step(&mut self, reply: &ToolReply)
        requires
            old(self)@.wf(),
            old(self)@.call() is Some,
            old(self)@.call()->0.accepts(*reply),
        ensures
            final(self)@ == old(self)@.next(*reply),
            final(self)@.wf(),
    {
        match self.stage {
            AttachStage::Process => {
                self.process.step(reply);
                if let ProcessAttachPhase::Ended = self.process.phase {
                    match &self.process.result {
                        Some(Ok((process_id, process))) => {
                            self.stage = AttachStage::Thread {
                                process_id: *process_id,
                                process: *process,
                            };
                        },
                        Some(Err(error)) => {
                            let error = DebuggerError(owned(error.0.as_str()));
                            self.fail(error);
                        },
                        None => {},
                    }
                }
            },
            AttachStage::Thread { process_id, process } => {
                self.wait.step(reply);
                if let ThreadWaitPhase::Ended = self.wait.phase {
                    match &self.wait.result {
                        Some(Ok(thread_id)) => {
                            self.stage = AttachStage::Opening {
                                process_id,
                                process,
                                thread_id: *thread_id,
                            };
                        },
                        Some(Err(error)) => {
                            let error = DebuggerError(owned(error.0.as_str()));
                            self.fail(error);
                        },
                        None => {},
                    }
                }
            },
            AttachStage::Opening { process_id, process, thread_id } => match reply {
                ToolReply::Opened(thread) => {
                    if thread.is_invalid() {
                        self.fail(DebuggerError(owned("Opened thread handle is invalid")));
                    } else {
                        self.lookup = Debugger::resolve_image_base(process);
                        self.stage = AttachStage::Image {
                            process_id,
                            process,
                            thread_id,
                            thread: *thread,
                        };
                    }
                },
                ToolReply::Failed(error) => {
                    self.fail(DebuggerError(joined("Failed to open thread: ", error.as_str())));
                },
                _ => {},
            },
            AttachStage::Image { process_id, process, thread_id, thread } => {
                self.lookup.step(reply);
                if let LookupPhase::Ended = self.lookup.phase {
                    match Debugger::image_base_found(&self.lookup) {
                        Ok(image_base) => {
                            self.stage = AttachStage::Snapshot {
                                process_id,
                                process,
                                thread_id,
                                thread,
                                image_base,
                            };
                        },
                        Err(error) => {
                            self.fail(error);
                        },
                    }
                }
            },
            AttachStage::Snapshot { process_id, process, thread_id, thread, image_base } => {
                match Debugger::snapshot_taken(reply) {
                    Ok(snapshot) => {
                        self.result = Some(
                            Ok(
                                Debugger {
                                    toolhelp_snapshot: snapshot,
                                    process_id: Some(process_id),
                                    thread_id: Some(thread_id),
                                    thread_handle: Some(thread),
                                    process_handle: Some(process),
                                    image_base: Some(image_base),
                                },
                            ),
                        );
                        self.stage = AttachStage::Ended;
                    },
                    Err(error) => {
                        self.fail(error);
                    },
                }
            },
            AttachStage::Ended => {},
        }
    }
}

impl Debugger {
    /// Attaches a debugger to the process with a name.
    pub fn attach_debugger(name: Vec<u16>) -> (attach: DebuggerAttach)
        ensures
            attach@ == DebuggerAttachView::start(name@),
            attach@.wf(),
    {
        DebuggerAttach {
            process: Debugger::attach_to_process(name),
            wait: Debugger::await_get_thread_id(),
            lookup: Debugger::resolve_image_base(Handle::null()),
            stage: AttachStage::Process,
            result: None,
        }
    }
}

/// Attaching keeps its invariant whatever the system answers: it ends with a result, and a
/// debugger that it gives holds only handles that refer to something.
pub proof fn law_attached_debuggers_are_usable(attach: DebuggerAttachView, reply: ToolReply)
    requires
        attach.wf(),
        attach.call() is Some,
        attach.call()->0.accepts(reply),
    ensures
        attach.next(reply).wf(),
        attach.next(reply).call() is None <==> attach.next(reply).result is Some,
        attach.next(reply).result matches Some(Ok(debugger)) ==> debugger.usable(),
{
}

/// The thread that is waited for is that of the first event that is a breakpoint.
pub proof fn law_wait_ends_at_first_breakpoint(
    events: Seq<crate::system::DebugEvent>,
    from: int,
    k: int,
)
    requires
        0 <= from <= k < events.len(),
        events[k].kind == (EventKind::Exception { code: EXCEPTION_BREAKPOINT_CODE }),
        forall|i: int|
            from <= i < k ==> (#[trigger] events[i]).kind != (EventKind::Exception {
                code: EXCEPTION_BREAKPOINT_CODE,
            }),
    ensures
        ThreadWaitView::start().after(events, from) == ThreadWaitView::start().ended(
            Ok(events[k].thread_id),
        ),
    decreases k - from,
{
    if from < k {
        assert(events[from].kind != (EventKind::Exception { code: EXCEPTION_BREAKPOINT_CODE }));
        law_wait_ends_at_first_breakpoint(events, from + 1, k);
    }
}

/// A process that is found but cannot be debugged is let go of, and the reason is told.
pub proof fn law_failed_activation_closes_the_process(
    attach: ProcessAttachView,
    process_id: u32,
    process: Handle,
    error: String,
    closed: ToolReply,
)
    requires
        attach.phase == (ProcessAttachPhase::Activating { process_id, process }),
    ensures
        ({
            let abandoned = attach.next(ToolReply::Failed(error));
            &&& abandoned.call() == Some(ToolCall::CloseHandle { handle: process })
            &&& abandoned.next(closed).call() is None
            &&& abandoned.next(closed).result == Some(
                Err::<(u32, Handle), Seq<char>>("DebugActiveProcess failed: "@ + error@),
            )
        }),
{
}

/// Attaching to a process asks for every right to it, and debugs the one that was found; where
/// that works the process is the result. One that cannot be found is not debugged, and neither is
/// one whose handle refers to nothing.
pub proof fn law_found_processes_are_debugged(
    attach: ProcessAttachView,
    name: Seq<u16>,
    snapshot: Handle,
    process_id: u32,
    process: Handle,
    closed: ToolReply,
)
    requires
        attach.phase is Searching,
        attach.search.phase == (SearchPhase::Close { snapshot }),
    ensures
        ProcessAttachView::start(name).search.access == 0x1f_ffff,
        ProcessAttachView::start(name).search.strict,
        ProcessAttachView::start(name).search.name == name,
        attach.call() == Some(ToolCall::CloseHandle { handle: snapshot }),
        attach.search.outcome == (SearchOutcomeView::Found { process_id, process })
            && !process.invalid() ==> ({
            let found = attach.next(closed);
            &&& found.call() == Some(ToolCall::DebugActiveProcess { process_id })
            &&& found.next(ToolReply::Done).call() is None
            &&& found.next(ToolReply::Done).result == Some(
                Ok::<(u32, Handle), Seq<char>>((process_id, process)),
            )
        }),
        attach.search.outcome == (SearchOutcomeView::Found { process_id, process })
            && process.invalid() ==> attach.next(closed).call() is None && attach.next(
            closed,
        ).result == Some(Err::<(u32, Handle), Seq<char>>("Retrieved process handle is invalid"@)),
        attach.search.outcome is Missing || attach.search.outcome is ListFailed
            || attach.search.outcome is OpenFailed ==> attach.next(closed).call() is None
            && attach.next(closed).result is Some && attach.next(closed).result->0 is Err,
{
}

/// What is said where no process is found: what failed, with the system's reason where there is
/// one, or that no process has the name, which is given as far as it is a text.
pub proof fn law_failed_searches_say_why(search: SearchView, error: Seq<char>, name: Seq<char>)
    ensures
        search.outcome == SearchOutcomeView::SnapshotFailed(error) ==> search_result(search) == Err::<
            (u32, Handle),
            Seq<char>,
        >("CreateToolhelp32Snapshot failed: "@ + error),
        search.outcome is SnapshotInvalid ==> search_result(search) == Err::<
            (u32, Handle),
            Seq<char>,
        >("Toolhelp snapshot handle is invalid"@),
        search.outcome is ListFailed ==> search_result(search) == Err::<(u32, Handle), Seq<char>>(
            "Process32FirstW failed"@,
        ),
        search.outcome == SearchOutcomeView::OpenFailed(error) ==> search_result(search) == Err::<
            (u32, Handle),
            Seq<char>,
        >("Failed to open process: "@ + error),
        search.outcome is Missing && search.name == crate::utility::utf16(name) ==> search_result(
            search,
        ) == Err::<(u32, Handle), Seq<char>>("Failed to find process matching name: "@ + name),
        search.outcome is Missing && (forall|text: Seq<char>|
            #[trigger] crate::utility::utf16(text) != search.name) ==> search_result(search)
            == Err::<(u32, Handle), Seq<char>>(
            "Failed to find process matching name: "@ + "Unknown process"@,
        ),
{
    crate::utility::law_units_of_texts(name, Seq::empty(), 'a');
}

/// What is said where no image base or no snapshot is found.
pub proof fn law_failed_lookups_say_why(lookup: LookupView, error: String, snapshot: Handle)
    ensures
        lookup.outcome == LookupOutcomeView::ListFailed(error@) ==> lookup_result(lookup) == Err::<
            u64,
            Seq<char>,
        >("EnumProcessModulesEx failed: "@ + error@),
        lookup.outcome is NoModules ==> lookup_result(lookup) == Err::<u64, Seq<char>>(
            "No modules loaded in the target process"@,
        ),
        lookup.outcome == LookupOutcomeView::InformationFailed(error@) ==> lookup_result(lookup)
            == Err::<u64, Seq<char>>("GetModuleInformation failed: "@ + error@),
        snapshot_result(ToolReply::Failed(error)) == Err::<Handle, Seq<char>>(
            "CreateToolhelp32Snapshot failed: "@ + error@,
        ),
        snapshot.invalid() ==> snapshot_result(ToolReply::Opened(snapshot)) == Err::<
            Handle,
            Seq<char>,
        >("Toolhelp snapshot handle is invalid"@),
        !snapshot.invalid() ==> snapshot_result(ToolReply::Opened(snapshot)) == Ok::<
            Handle,
            Seq<char>,
        >(snapshot),
{
}

/// A wait continues every event but a breakpoint, for the process and the thread that it came from,
/// and then waits on; where the system does not let it, the wait fails with the reason. At a
/// breakpoint it ends, with the event not continued.
pub proof fn law_waits_continue_other_events(
    wait: ThreadWaitView,
    event: crate::system::DebugEvent,
    error: String,
)
    requires
        wait.phase is Waiting,
    ensures
        wait.call() == Some(ToolCall::WaitForDebugEvent),
        wait.next(ToolReply::Failed(error)).call() is None,
        wait.next(ToolReply::Failed(error)).result == Some(
            Err::<u32, Seq<char>>("WaitForDebugEvent failed: "@ + error@),
        ),
        event.kind == (EventKind::Exception { code: 0x8000_0003 }) ==> ({
            let ended = wait.next(ToolReply::Event(event));
            &&& ended.call() is None
            &&& ended.result == Some(Ok::<u32, Seq<char>>(event.thread_id))
        }),
        event.kind != (EventKind::Exception { code: 0x8000_0003 }) ==> ({
            let going_on = wait.next(ToolReply::Event(event));
            &&& going_on.call() == Some(
                ToolCall::ContinueDebugEvent {
                    process_id: event.process_id,
                    thread_id: event.thread_id,
                },
            )
            &&& going_on.next(ToolReply::Done) == wait
            &&& going_on.next(ToolReply::Failed(error)).call() is None
            &&& going_on.next(ToolReply::Failed(error)).result == Some(
                Err::<u32, Seq<char>>("ContinueDebugEvent failed: "@ + error@),
            )
        }),
{
}

/// From the process that is debugged on, attaching opens the thread that hit the first breakpoint,
/// looks up where the image of that process lies, and takes a snapshot of it; the debugger holds
/// what the system gave for each.
pub proof fn law_debuggers_hold_what_was_opened(
    attach: DebuggerAttachView,
    process_id: u32,
    process: Handle,
    event: crate::system::DebugEvent,
    thread: Handle,
    first: Handle,
    bytes: u32,
    base: u64,
    snapshot: Handle,
)
    requires
        attach.wf(),
        attach.stage == (AttachStage::Thread { process_id, process }),
        attach.wait.phase is Waiting,
        event.kind == (EventKind::Exception { code: 0x8000_0003 }),
        !thread.invalid(),
        bytes > 0,
        !snapshot.invalid(),
    ensures
        ({
            let opening = attach.next(ToolReply::Event(event));
            let listing = opening.next(ToolReply::Opened(thread));
            let locating = listing.next(ToolReply::Modules { first, bytes });
            let taking = locating.next(ToolReply::Base(base));
            let end = taking.next(ToolReply::Opened(snapshot));
            &&& attach.call() == Some(ToolCall::WaitForDebugEvent)
            &&& opening.call() == Some(ToolCall::OpenThread { thread_id: event.thread_id })
            &&& listing.call() == Some(ToolCall::ListModules { process, only_32_bit: true })
            &&& locating.call() == Some(ToolCall::ModuleInformation { process, module: first })
            &&& taking.call() == Some(
                ToolCall::CreateSnapshot { with_modules_and_threads: true, process_id },
            )
            &&& end.call() is None
            &&& end.result == Some(
                Ok::<Debugger, Seq<char>>(
                    (Debugger {
                        toolhelp_snapshot: snapshot,
                        process_id: Some(process_id),
                        thread_id: Some(event.thread_id),
                        thread_handle: Some(thread),
                        process_handle: Some(process),
                        image_base: Some(base),
                    }),
                ),
            )
        }),
{
}

/// What fails on the way ends attaching with its reason: the thread that cannot be opened, the
/// image that cannot be located, the snapshot that cannot be taken.
pub proof fn law_failed_attaching_says_why(
    attach: DebuggerAttachView,
    error: String,
    nothing: Handle,
)
    requires
        attach.wf(),
        nothing.value == 0 || nothing.value == -1,
    ensures
        attach.stage is Opening ==> attach.next(ToolReply::Failed(error)).call() is None
            && attach.next(ToolReply::Failed(error)).result == Some(
            Err::<Debugger, Seq<char>>("Failed to open thread: "@ + error@),
        ),
        attach.stage is Opening ==> attach.next(ToolReply::Opened(nothing)).call() is None
            && attach.next(ToolReply::Opened(nothing)).result == Some(
            Err::<Debugger, Seq<char>>("Opened thread handle is invalid"@),
        ),
        attach.stage is Image && attach.lookup.phase is Modules ==> attach.next(
            ToolReply::Failed(error),
        ).result == Some(Err::<Debugger, Seq<char>>("EnumProcessModulesEx failed: "@ + error@)),
        attach.stage is Image && attach.lookup.phase is Information ==> attach.next(
            ToolReply::Failed(error),
        ).result == Some(Err::<Debugger, Seq<char>>("GetModuleInformation failed: "@ + error@)),
        attach.stage is Snapshot ==> attach.next(ToolReply::Failed(error)).result == Some(
            Err::<Debugger, Seq<char>>("CreateToolhelp32Snapshot failed: "@ + error@),
        ),
        attach.stage is Thread && attach.wait.phase is Waiting ==> attach.next(
            ToolReply::Failed(error),
        ).result == Some(Err::<Debugger, Seq<char>>("WaitForDebugEvent failed: "@ + error@)),
{
}

} // verus!
