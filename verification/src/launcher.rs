//! Running a target under the debugger without breakpoints, one system call at a time.
use vstd::prelude::*;

use crate::system::{Call, EventKind, Handle, Reply};
use crate::text::{joined, owned};
use crate::utility::{c_string, to_pcstr};

verus! {

/// Where a run stands.
#[derive(Debug, Clone, Copy, PartialEq, Eq, Structural)]
pub enum RunPhase {
    /// The target is being started.
    Starting,
    /// The next event is being waited for.
    Waiting,
    /// An event is being continued.
    Continuing { process_id: u32, thread_id: u32 },
    /// The handle of the first thread is being closed.
    ClosingThread,
    /// The handle of the process is being closed.
    ClosingProcess,
    /// The run is over.
    Ended,
}

/// What a user may want to hear of a run.
#[derive(Debug, Clone, Copy, PartialEq, Eq, Structural)]
pub enum Notice {
    /// The process was created, with its image at an address.
    Created { image_base: u64 },
    /// The process exited.
    Exited,
}

/// A run of a target from its start to its exit.
pub struct TargetRun {
    /// The path of the target, with a final zero.
    pub path: Vec<u8>,
    /// Whether a failed wait is tried again, and handles are left to the system.
    pub patient: bool,
    pub process: Handle,
    pub thread: Handle,
    pub phase: RunPhase,
    /// Why the run failed.
    pub error: Option<String>,
}

/// What a run holds.
pub struct RunView {
    pub path: Seq<u8>,
    pub patient: bool,
    pub process: Handle,
    pub thread: Handle,
    pub phase: RunPhase,
    pub error: Option<Seq<char>>,
}

impl View for TargetRun {
    type V = RunView;

    open spec fn view(&self) -> RunView {
        RunView {
            path: self.path@,
            patient: self.patient,
            process: self.process,
            thread: self.thread,
            phase: self.phase,
            error: match self.error {
                Some(error) => Some(error@),
                None => None,
            },
        }
    }
}

impl RunView {
    /// A run that is about to start its target.
    pub open spec fn start(path: Seq<u8>, patient: bool) -> RunView {
        RunView {
            path,
            patient,
            process: Handle::null_spec(),
            thread: Handle::null_spec(),
            phase: RunPhase::Starting,
            error: None,
        }
    }

    /// The run of a text that is no path, since it holds a zero.
    pub open spec fn refused() -> RunView {
        RunView {
            phase: RunPhase::Ended,
            error: Some("Invalid target path (contains NUL byte)"@),
            ..RunView::start(Seq::empty(), false)
        }
    }

    /// The call that the run waits for.
    pub open spec fn call(self) -> Option<Call> {
        match self.phase {
            RunPhase::Starting => Some(Call::CreateProcess),
            RunPhase::Waiting => Some(Call::WaitForDebugEvent),
            RunPhase::Continuing { process_id, thread_id } => Some(
                Call::ContinueDebugEvent { process_id, thread_id },
            ),
            RunPhase::ClosingThread => Some(Call::CloseHandle { handle: self.thread }),
            RunPhase::ClosingProcess => Some(Call::CloseHandle { handle: self.process }),
            RunPhase::Ended => None,
        }
    }

    /// The run with the process to close next, where that refers to something.
    pub open spec fn closing_process(self) -> RunView {
        if self.process.invalid() {
            RunView { phase: RunPhase::Ended, ..self }
        } else {
            RunView { phase: RunPhase::ClosingProcess, ..self }
        }
    }

    /// The run after its last event: the handles that refer to something are closed, unless they
    /// are left to the system.
    pub open spec fn closing(self) -> RunView {
        if self.patient {
            RunView { phase: RunPhase::Ended, ..self }
        } else if self.thread.invalid() {
            self.closing_process()
        } else {
            RunView { phase: RunPhase::ClosingThread, ..self }
        }
    }

    /// The run after the reply to its call.
    pub open spec fn next(self, reply: Reply) -> RunView {
        match (self.phase, reply) {
            (RunPhase::Starting, Reply::Failed(error)) => RunView {
                phase: RunPhase::Ended,
                error: Some("CreateProcessA failed: "@ + error@),
                ..self
            },
            (RunPhase::Starting, Reply::Spawned { process, thread, .. }) => RunView {
                process,
                thread,
                phase: RunPhase::Waiting,
                ..self
            },
            (RunPhase::Waiting, Reply::Event(event)) => if event.kind is ExitProcess {
                self.closing()
            } else {
                RunView {
                    phase: RunPhase::Continuing {
                        process_id: event.process_id,
                        thread_id: event.thread_id,
                    },
                    ..self
                }
            },
            (RunPhase::Waiting, Reply::Failed(_)) => if self.patient {
                self
            } else {
                self.closing()
            },
            (RunPhase::Continuing { .. }, _) => RunView { phase: RunPhase::Waiting, ..self },
            (RunPhase::ClosingThread, _) => self.closing_process(),
            (RunPhase::ClosingProcess, _) => RunView { phase: RunPhase::Ended, ..self },
            _ => self,
        }
    }

    /// What a user may want to hear of the reply to the run's call.
    pub open spec fn notice(self, reply: Reply) -> Option<Notice> {
        match (self.phase, reply) {
            (RunPhase::Waiting, Reply::Event(event)) => match event.kind {
                EventKind::CreateProcess { image_base, .. } => Some(Notice::Created { image_base }),
                EventKind::ExitProcess => Some(Notice::Exited),
                _ => None,
            },
            _ => None,
        }
    }
}

impl TargetRun {
    /// A run that is about to start its target.
    fn start(path: Vec<u8>, patient: bool) -> (run: TargetRun)
        ensures
            run@ == RunView::start(path@, patient),
    {
        TargetRun {
            path,
            patient,
            process: Handle::null(),
            thread: Handle::null(),
            phase: RunPhase::Starting,
            error: None,
        }
    }

    /// The call that the run waits for; `None` where it is over.
    pub fn call(&self) -> (call: Option<Call>)
        ensures
            call == self@.call(),
    {
        match self.phase {
            RunPhase::Starting => Some(Call::CreateProcess),
            RunPhase::Waiting => Some(Call::WaitForDebugEvent),
            RunPhase::Continuing { process_id, thread_id } => Some(
                Call::ContinueDebugEvent { process_id, thread_id },
            ),
            RunPhase::ClosingThread => Some(Call::CloseHandle { handle: self.thread }),
            RunPhase::ClosingProcess => Some(Call::CloseHandle { handle: self.process }),
            RunPhase::Ended => None,
        }
    }

    /// Closes the process next, where that refers to something.
    fn close_process(&mut self)
        ensures
            final(self)@ == old(self)@.closing_process(),
    {
        if self.process.is_invalid() {
            self.phase = RunPhase::Ended;
        } else {
            self.phase = RunPhase::ClosingProcess;
        }
    }

    /// Goes on after the last event.
    fn close(&mut self)
        ensures
            final(self)@ == old(self)@.closing(),
    {
        if self.patient {
            self.phase = RunPhase::Ended;
        } else if self.thread.is_invalid() {
            self.close_process();
        } else {
            self.phase = RunPhase::ClosingThread;
        }
    }

    /// Goes on from the reply to the call, and says what a user may want to hear of it.
    pub fn step(&mut self, reply: &Reply) -> (notice: Option<Notice>)
        requires
            old(self)@.call() is Some,
            old(self)@.call()->0.accepts(*reply),
        ensures
            final(self)@ == old(self)@.next(*reply),
            notice == old(self)@.notice(*reply),
    {
        match (self.phase, reply) {
            (RunPhase::Starting, Reply::Failed(error)) => {
                self.error = Some(joined("CreateProcessA failed: ", error.as_str()));
                self.phase = RunPhase::Ended;
                None
            },
            (RunPhase::Starting, Reply::Spawned { process, thread, .. }) => {
                self.process = *process;
                self.thread = *thread;
                self.phase = RunPhase::Waiting;
                None
            },
            (RunPhase::Waiting, Reply::Event(event)) => match event.kind {
                EventKind::ExitProcess => {
                    self.close();
                    Some(Notice::Exited)
                },
                kind => {
                    self.phase = RunPhase::Continuing {
                        process_id: event.process_id,
                        thread_id: event.thread_id,
                    };
                    match kind {
                        EventKind::CreateProcess { image_base, .. } => Some(
                            Notice::Created { image_base },
                        ),
                        _ => None,
                    }
                },
            },
            (RunPhase::Waiting, Reply::Failed(_)) => {
                if !self.patient {
                    self.close();
                }
                None
            },
            (RunPhase::Continuing { .. }, _) => {
                self.phase = RunPhase::Waiting;
                None
            },
            (RunPhase::ClosingThread, _) => {
                self.close_process();
                None
            },
            (RunPhase::ClosingProcess, _) => {
                self.phase = RunPhase::Ended;
                None
            },
            _ => None,
        }
    }
}

/// Runs a target and closes its handles at the end, or as soon as events cannot be waited for.
pub fn launch_and_debug(target_path: &str) -> (run: TargetRun)
    ensures
        run@ == (if vstd::utf8::encode_utf8(target_path@).contains(0) {
            RunView::refused()
        } else {
            RunView::start(vstd::utf8::encode_utf8(target_path@).push(0), false)
        }),
{
    match c_string(target_path) {
        Some(path) => TargetRun::start(path, false),
        None => {
            let mut run = TargetRun::start(Vec::new(), false);
            run.error = Some(owned("Invalid target path (contains NUL byte)"));
            run.phase = RunPhase::Ended;
            assert(run@.path =~= Seq::empty());
            run
        },
    }
}

/// Runs a target for as long as it lives, whatever fails while it does.
pub fn run_target(target_path: &str) -> (run: TargetRun)
    requires
        !vstd::utf8::encode_utf8(target_path@).contains(0),
    ensures
        run@ == RunView::start(vstd::utf8::encode_utf8(target_path@).push(0), true),
{
    TargetRun::start(to_pcstr(target_path), true)
}

/// Every event but the exit is continued, for the process and the thread that it came from, and
/// then the next one is waited for.
pub proof fn law_events_are_continued(
    run: RunView,
    event: crate::system::DebugEvent,
    continued: Reply,
)
    requires
        run.phase is Waiting,
        !(event.kind is ExitProcess),
    ensures
        run.next(Reply::Event(event)).call() == Some(
            Call::ContinueDebugEvent { process_id: event.process_id, thread_id: event.thread_id },
        ),
        run.next(Reply::Event(event)).next(continued) == run,
{
}

/// Once its target exited, a run that is not patient closes each handle that refers to something,
/// once, the thread's before the process's, and is over without an error.
pub proof fn law_run_closes_its_handles(
    run: RunView,
    event: crate::system::DebugEvent,
    first: Reply,
    second: Reply,
)
    requires
        run.phase is Waiting,
        run.error is None,
        !run.patient,
        event.kind is ExitProcess,
    ensures
        ({
            let after = run.next(Reply::Event(event));
            let close_thread = Some(Call::CloseHandle { handle: run.thread });
            let close_process = Some(Call::CloseHandle { handle: run.process });
            match (run.thread.invalid(), run.process.invalid()) {
                (false, false) => after.call() == close_thread && after.next(first).call()
                    == close_process && after.next(first).next(second).call() is None,
                (false, true) => after.call() == close_thread && after.next(first).call() is None,
                (true, false) => after.call() == close_process && after.next(first).call() is None,
                (true, true) => after.call() is None,
            }
        }),
        run.next(Reply::Event(event)).next(first).next(second).error is None,
{
}

/// A run starts its target first. Where that fails the run is over, with the system's reason;
/// otherwise it waits for events of the process that was started, without an error.
pub proof fn law_start_of_a_run(
    path: Seq<u8>,
    patient: bool,
    error: String,
    process: Handle,
    thread: Handle,
    thread_id: u32,
)
    ensures
        ({
            let run = RunView::start(path, patient);
            let failed = run.next(Reply::Failed(error));
            let started = run.next(Reply::Spawned { process, thread, thread_id });
            &&& run.path == path
            &&& run.call() == Some(Call::CreateProcess)
            &&& failed.call() is None
            &&& failed.error == Some("CreateProcessA failed: "@ + error@)
            &&& started.call() == Some(Call::WaitForDebugEvent)
            &&& started.process == process
            &&& started.thread == thread
            &&& started.error is None
        }),
        RunView::refused().call() is None,
        RunView::refused().error == Some("Invalid target path (contains NUL byte)"@),
{
}

/// A wait that fails is tried again by a patient run, without end; any other run takes it for the
/// last event. A patient run closes nothing once its target exited.
pub proof fn law_failed_waits(run: RunView, error: String, event: crate::system::DebugEvent)
    requires
        run.phase is Waiting,
        event.kind is ExitProcess,
    ensures
        run.patient ==> run.next(Reply::Failed(error)) == run,
        run.patient ==> run.next(Reply::Event(event)).call() is None,
        run.patient ==> run.next(Reply::Event(event)).error == run.error,
        !run.patient ==> run.next(Reply::Failed(error)) == run.next(Reply::Event(event)),
{
}

/// A user hears of the process and where its image lies when it was created, and of its exit, and
/// of nothing else: neither of other events nor of failures.
pub proof fn law_what_a_user_hears(
    run: RunView,
    reply: Reply,
    event: crate::system::DebugEvent,
)
    ensures
        run.phase is Waiting && event.kind is CreateProcess ==> run.notice(Reply::Event(event))
            == Some(Notice::Created { image_base: event.kind->CreateProcess_image_base }),
        run.phase is Waiting && event.kind is ExitProcess ==> run.notice(Reply::Event(event))
            == Some(Notice::Exited),
        !(event.kind is CreateProcess) && !(event.kind is ExitProcess) ==> run.notice(
            Reply::Event(event),
        ) is None,
        !(reply is Event) ==> run.notice(reply) is None,
        !(run.phase is Waiting) ==> run.notice(reply) is None,
{
}

} // verus!
