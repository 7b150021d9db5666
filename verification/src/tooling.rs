//! Finding a running process, the base of its image, and stepping a thread, one system call at a
//! time.
//!
//! Each procedure is a machine: it names the call that it waits for, and goes on from the reply.
use vstd::prelude::*;

use crate::context::TRAP_FLAG;
use crate::system::{DebugEvent, Handle};
use crate::text::owned;
use crate::utility::compare_pcwstr_case_insensitive;

verus! {

/// One request of these procedures to the operating system.
#[derive(Debug, Clone, Copy, PartialEq, Eq, Structural)]
pub enum ToolCall {
    /// Take a snapshot of the processes, or of a process with its modules and threads.
    CreateSnapshot { with_modules_and_threads: bool, process_id: u32 },
    /// The first process of a snapshot.
    FirstProcess { snapshot: Handle },
    /// The process of a snapshot after the one that was listed last.
    NextProcess { snapshot: Handle },
    /// Open a process.
    OpenProcess { access: u32, process_id: u32 },
    /// Open a thread with every access right.
    OpenThread { thread_id: u32 },
    /// Close a handle.
    CloseHandle { handle: Handle },
    /// List the modules of a process, or only its 32-bit ones.
    ListModules { process: Handle, only_32_bit: bool },
    /// Ask where a module lies.
    ModuleInformation { process: Handle, module: Handle },
    /// Debug a running process.
    DebugActiveProcess { process_id: u32 },
    /// Wait for the next debug event, without limit.
    WaitForDebugEvent,
    /// Let the debuggee go on after an event.
    ContinueDebugEvent { process_id: u32, thread_id: u32 },
    /// Read every register of a thread; the reply tells the flags.
    ReadRegisters { thread: Handle },
    /// Write the registers that were read last back, with these flags.
    WriteRegisters { thread: Handle, eflags: u32 },
    /// Continue a debug event of the debugger's own process and thread.
    ContinueOwnEvent,
}

/// A process of a snapshot; the name is that of its executable, up to the final zero.
pub struct ProcessEntry {
    pub process_id: u32,
    pub name: Vec<u16>,
}

/// The outcome of one such request.
pub enum ToolReply {
    /// The call succeeded and gives no value.
    Done,
    /// The call failed; the text is the system's own account of it.
    Failed(String),
    /// A handle that was opened.
    Opened(Handle),
    /// A process of a snapshot.
    Listed(ProcessEntry),
    /// The first module, and how many bytes the list of modules takes.
    Modules { first: Handle, bytes: u32 },
    /// Where a module lies.
    Base(u64),
    /// The next debug event.
    Event(DebugEvent),
    /// The flags of a thread.
    Flags(u32),
}

impl ToolCall {
    /// Which replies answer a call.
    pub open spec fn accepts(self, reply: ToolReply) -> bool {
        reply is Failed || match self {
            ToolCall::CreateSnapshot { .. } => reply is Opened,
            ToolCall::FirstProcess { .. } => reply is Listed,
            ToolCall::NextProcess { .. } => reply is Listed,
            ToolCall::OpenProcess { .. } => reply is Opened,
            ToolCall::OpenThread { .. } => reply is Opened,
            ToolCall::CloseHandle { .. } => reply is Done,
            ToolCall::ListModules { .. } => reply is Modules,
            ToolCall::ModuleInformation { .. } => reply is Base,
            ToolCall::DebugActiveProcess { .. } => reply is Done,
            ToolCall::WaitForDebugEvent => reply is Event,
            ToolCall::ContinueDebugEvent { .. } => reply is Done,
            ToolCall::ReadRegisters { .. } => reply is Flags,
            ToolCall::WriteRegisters { .. } => reply is Done,
            ToolCall::ContinueOwnEvent => reply is Done,
        }
    }

    /// Whether a reply answers the call.
    pub fn is_answered_by(&self, reply: &ToolReply) -> (answered: bool)
        ensures
            answered == self.accepts(*reply),
    {
        match (self, reply) {
            (_, ToolReply::Failed(_)) => true,
            (ToolCall::CreateSnapshot { .. }, ToolReply::Opened(_)) => true,
            (ToolCall::FirstProcess { .. }, ToolReply::Listed(_)) => true,
            (ToolCall::NextProcess { .. }, ToolReply::Listed(_)) => true,
            (ToolCall::OpenProcess { .. }, ToolReply::Opened(_)) => true,
            (ToolCall::OpenThread { .. }, ToolReply::Opened(_)) => true,
            (ToolCall::CloseHandle { .. }, ToolReply::Done) => true,
            (ToolCall::ListModules { .. }, ToolReply::Modules { .. }) => true,
            (ToolCall::ModuleInformation { .. }, ToolReply::Base(_)) => true,
            (ToolCall::DebugActiveProcess { .. }, ToolReply::Done) => true,
            (ToolCall::WaitForDebugEvent, ToolReply::Event(_)) => true,
            (ToolCall::ContinueDebugEvent { .. }, ToolReply::Done) => true,
            (ToolCall::ReadRegisters { .. }, ToolReply::Flags(_)) => true,
            (ToolCall::WriteRegisters { .. }, ToolReply::Done) => true,
            (ToolCall::ContinueOwnEvent, ToolReply::Done) => true,
            _ => false,
        }
    }
}

/// Where a search for a process stands.
#[derive(Debug, Clone, Copy, PartialEq, Eq, Structural)]
pub enum SearchPhase {
    /// A snapshot is being taken.
    Snapshot,
    /// The first process is being listed.
    First { snapshot: Handle },
    /// Another process is being listed.
    Next { snapshot: Handle },
    /// The process with the name is being opened.
    Open { snapshot: Handle, process_id: u32 },
    /// The outcome is known, and the snapshot is being closed.
    Close { snapshot: Handle },
    /// The search is over.
    Ended,
}

/// What a search for a process led to.
pub enum SearchOutcome {
    /// Nothing yet.
    Pending,
    /// The process.
    Found { process_id: u32, process: Handle },
    /// No process has the name.
    Missing,
    /// There is no snapshot.
    SnapshotFailed(String),
    /// The snapshot refers to nothing.
    SnapshotInvalid,
    /// Not even the first process could be listed.
    ListFailed,
    /// The process could not be opened.
    OpenFailed(String),
}

/// What a search for a process led to.
pub enum SearchOutcomeView {
    Pending,
    Found { process_id: u32, process: Handle },
    Missing,
    SnapshotFailed(Seq<char>),
    SnapshotInvalid,
    ListFailed,
    OpenFailed(Seq<char>),
}

impl View for SearchOutcome {
    type V = SearchOutcomeView;

    open spec fn view(&self) -> SearchOutcomeView {
        match self {
            SearchOutcome::Pending => SearchOutcomeView::Pending,
            SearchOutcome::Found { process_id, process } => SearchOutcomeView::Found {
                process_id: *process_id,
                process: *process,
            },
            SearchOutcome::Missing => SearchOutcomeView::Missing,
            SearchOutcome::SnapshotFailed(error) => SearchOutcomeView::SnapshotFailed(error@),
            SearchOutcome::SnapshotInvalid => SearchOutcomeView::SnapshotInvalid,
            SearchOutcome::ListFailed => SearchOutcomeView::ListFailed,
            SearchOutcome::OpenFailed(error) => SearchOutcomeView::OpenFailed(error@),
        }
    }
}

/// A search for a running process by the name of its executable.
pub struct ProcessSearch {
    pub name: Vec<u16>,
    pub access: u32,
    /// Whether the snapshot holds modules and threads too, and must refer to something.
    pub strict: bool,
    pub phase: SearchPhase,
    pub outcome: SearchOutcome,
}

/// What a search for a process holds.
pub struct SearchView {
    pub name: Seq<u16>,
    pub access: u32,
    pub strict: bool,
    pub phase: SearchPhase,
    pub outcome: SearchOutcomeView,
}

impl View for ProcessSearch {
    type V = SearchView;

    open spec fn view(&self) -> SearchView {
        SearchView {
            name: self.name@,
            access: self.access,
            strict: self.strict,
            phase: self.phase,
            outcome: self.outcome@,
        }
    }
}

impl SearchView {
    /// A search that is about to start.
    pub open spec fn start(name: Seq<u16>, access: u32, strict: bool) -> SearchView {
        SearchView {
            name,
            access,
            strict,
            phase: SearchPhase::Snapshot,
            outcome: SearchOutcomeView::Pending,
        }
    }

    /// A search closes its snapshot and ends only once it has an outcome.
    pub open spec fn wf(self) -> bool {
        self.phase is Close || self.phase is Ended ==> !(self.outcome is Pending)
    }

    /// The call that the search waits for.
    pub open spec fn call(self) -> Option<ToolCall> {
        match self.phase {
            SearchPhase::Snapshot => Some(
                ToolCall::CreateSnapshot { with_modules_and_threads: self.strict, process_id: 0 },
            ),
            SearchPhase::First { snapshot } => Some(ToolCall::FirstProcess { snapshot }),
            SearchPhase::Next { snapshot } => Some(ToolCall::NextProcess { snapshot }),
            SearchPhase::Open { process_id, .. } => Some(
                ToolCall::OpenProcess { access: self.access, process_id },
            ),
            SearchPhase::Close { snapshot } => Some(ToolCall::CloseHandle { handle: snapshot }),
            SearchPhase::Ended => None,
        }
    }

    /// The search with an outcome, in another phase.
    pub open spec fn decided(self, outcome: SearchOutcomeView, phase: SearchPhase) -> SearchView {
        SearchView { outcome, phase, ..self }
    }

    /// The search after a process was listed: the first with the name is opened.
    pub open spec fn listed(self, snapshot: Handle, entry: ProcessEntry) -> SearchView {
        if crate::utility::same_name(entry.name@, self.name) {
            SearchView {
                phase: SearchPhase::Open { snapshot, process_id: entry.process_id },
                ..self
            }
        } else {
            SearchView { phase: SearchPhase::Next { snapshot }, ..self }
        }
    }

    /// The search after one process after another was listed, from a place in the list on, and
    /// then none any more, as far as it asks for them.
    pub open spec fn walked(
        self,
        entries: Seq<ProcessEntry>,
        from: int,
        end: ToolReply,
    ) -> SearchView
        decreases entries.len() - from,
    {
        if !(self.phase is First || self.phase is Next) {
            self
        } else if from >= entries.len() {
            self.next(end)
        } else {
            self.next(ToolReply::Listed(entries[from])).walked(entries, from + 1, end)
        }
    }

    /// The search after the reply to its call.
    pub open spec fn next(self, reply: ToolReply) -> SearchView {
        match (self.phase, reply) {
            (SearchPhase::Snapshot, ToolReply::Failed(error)) => self.decided(
                SearchOutcomeView::SnapshotFailed(error@),
                SearchPhase::Ended,
            ),
            (SearchPhase::Snapshot, ToolReply::Opened(snapshot)) => if self.strict
                && snapshot.invalid() {
                self.decided(SearchOutcomeView::SnapshotInvalid, SearchPhase::Ended)
            } else {
                SearchView { phase: SearchPhase::First { snapshot }, ..self }
            },
            (SearchPhase::First { snapshot }, ToolReply::Failed(_)) => self.decided(
                SearchOutcomeView::ListFailed,
                SearchPhase::Close { snapshot },
            ),
            (SearchPhase::First { snapshot }, ToolReply::Listed(entry)) => self.listed(
                snapshot,
                entry,
            ),
            (SearchPhase::Next { snapshot }, ToolReply::Failed(_)) => self.decided(
                SearchOutcomeView::Missing,
                SearchPhase::Close { snapshot },
            ),
            (SearchPhase::Next { snapshot }, ToolReply::Listed(entry)) => self.listed(
                snapshot,
                entry,
            ),
            (SearchPhase::Open { snapshot, .. }, ToolReply::Failed(error)) => self.decided(
                SearchOutcomeView::OpenFailed(error@),
                SearchPhase::Close { snapshot },
            ),
            (SearchPhase::Open { snapshot, process_id }, ToolReply::Opened(process)) => self.decided(
                SearchOutcomeView::Found { process_id, process },
                SearchPhase::Close { snapshot },
            ),
            (SearchPhase::Close { .. }, _) => SearchView { phase: SearchPhase::Ended, ..self },
            _ => self,
        }
    }
}

impl ProcessSearch {
    /// A search that is about to start.
    pub fn new(name: Vec<u16>, access: u32, strict: bool) -> (search: ProcessSearch)
        ensures
            search@ == SearchView::start(name@, access, strict),
    {
        ProcessSearch {
            name,
            access,
            strict,
            phase: SearchPhase::Snapshot,
            outcome: SearchOutcome::Pending,
        }
    }

    /// The call that the search waits for; `None` where it is over.
    pub fn call(&self) -> (call: Option<ToolCall>)
        ensures
            call == self@.call(),
    {
        match self.phase {
            SearchPhase::Snapshot => Some(
                ToolCall::CreateSnapshot { with_modules_and_threads: self.strict, process_id: 0 },
            ),
            SearchPhase::First { snapshot } => Some(ToolCall::FirstProcess { snapshot }),
            SearchPhase::Next { snapshot } => Some(ToolCall::NextProcess { snapshot }),
            SearchPhase::Open { process_id, .. } => Some(
                ToolCall::OpenProcess { access: self.access, process_id },
            ),
            SearchPhase::Close { snapshot } => Some(ToolCall::CloseHandle { handle: snapshot }),
            SearchPhase::Ended => None,
        }
    }

    /// Goes on after a process was listed.
    fn examine(&mut self, snapshot: Handle, entry: &ProcessEntry)
        ensures
            final(self)@ == old(self)@.listed(snapshot, *entry),
    {
        if compare_pcwstr_case_insensitive(entry.name.as_slice(), self.name.as_slice()) {
            self.phase = SearchPhase::Open { snapshot, process_id: entry.process_id };
        } else {
            self.phase = SearchPhase::Next { snapshot };
        }
    }

    /// Goes on from the reply to the call.
    pub fn step(&mut self, reply: &ToolReply)
        requires
            old(self)@.call() is Some,
            old(self)@.call()->0.accepts(*reply),
        ensures
            final(self)@ == old(self)@.next(*reply),
            old(self)@.wf() ==> final(self)@.wf(),
    {
        match (self.phase, reply) {
            (SearchPhase::Snapshot, ToolReply::Failed(error)) => {
                self.outcome = SearchOutcome::SnapshotFailed(owned(error.as_str()));
                self.phase = SearchPhase::Ended;
            },
            (SearchPhase::Snapshot, ToolReply::Opened(snapshot)) => {
                if self.strict && snapshot.is_invalid() {
                    self.outcome = SearchOutcome::SnapshotInvalid;
                    self.phase = SearchPhase::Ended;
                } else {
                    self.phase = SearchPhase::First { snapshot: *snapshot };
                }
            },
            (SearchPhase::First { snapshot }, ToolReply::Failed(_)) => {
                self.outcome = SearchOutcome::ListFailed;
                self.phase = SearchPhase::Close { snapshot };
            },
            (SearchPhase::First { snapshot }, ToolReply::Listed(entry)) => {
                self.examine(snapshot, entry);
            },
            (SearchPhase::Next { snapshot }, ToolReply::Failed(_)) => {
                self.outcome = SearchOutcome::Missing;
                self.phase = SearchPhase::Close { snapshot };
            },
            (SearchPhase::Next { snapshot }, ToolReply::Listed(entry)) => {
                self.examine(snapshot, entry);
            },
            (SearchPhase::Open { snapshot, .. }, ToolReply::Failed(error)) => {
                self.outcome = SearchOutcome::OpenFailed(owned(error.as_str()));
                self.phase = SearchPhase::Close { snapshot };
            },
            (SearchPhase::Open { snapshot, process_id }, ToolReply::Opened(process)) => {
                self.outcome = SearchOutcome::Found { process_id, process: *process };
                self.phase = SearchPhase::Close { snapshot };
            },
            (SearchPhase::Close { .. }, _) => {
                self.phase = SearchPhase::Ended;
            },
            _ => {},
        }
    }

    /// The handle of the process that was found; the null handle where none was.
    pub fn found_handle(&self) -> (process: Handle)
        ensures
            process == (match self@.outcome {
                SearchOutcomeView::Found { process, .. } => process,
                _ => Handle::null_spec(),
            }),
    {
        match &self.outcome {
            SearchOutcome::Found { process, .. } => *process,
            _ => Handle::null(),
        }
    }
}

/// The search for a process by the name of its executable, for its handle alone.
pub fn get_process_handle(name: Vec<u16>, desired_access: u32) -> (search: ProcessSearch)
    ensures
        search@ == SearchView::start(name@, desired_access, false),
{
    ProcessSearch::new(name, desired_access, false)
}

/// Processes whose names differ from the one sought are passed over.
proof fn lemma_search_passes(
    search: SearchView,
    snapshot: Handle,
    entries: Seq<ProcessEntry>,
    from: int,
    to: int,
    end: ToolReply,
)
    requires
        0 <= from <= to <= entries.len(),
        search.phase == (SearchPhase::First { snapshot }) || search.phase == (SearchPhase::Next {
            snapshot,
        }),
        forall|i: int|
            from <= i < to ==> !crate::utility::same_name(
                (#[trigger] entries[i]).name@,
                search.name,
            ),
    ensures
        from < to ==> search.walked(entries, from, end) == (SearchView {
            phase: SearchPhase::Next { snapshot },
            ..search
        }).walked(entries, to, end),
    decreases to - from,
{
    if from < to {
        let next = SearchView { phase: SearchPhase::Next { snapshot }, ..search };
        assert(search.next(ToolReply::Listed(entries[from])) == next);
        lemma_search_passes(next, snapshot, entries, from + 1, to, end);
    }
}

/// The process that is opened is the first one listed whose name is the one sought, but for the
/// case of its letters.
pub proof fn law_search_opens_first_match(
    search: SearchView,
    snapshot: Handle,
    entries: Seq<ProcessEntry>,
    k: int,
    end: ToolReply,
)
    requires
        search.phase == (SearchPhase::First { snapshot }),
        0 <= k < entries.len(),
        crate::utility::same_name(entries[k].name@, search.name),
        forall|i: int|
            0 <= i < k ==> !crate::utility::same_name((#[trigger] entries[i]).name@, search.name),
    ensures
        search.walked(entries, 0, end) == (SearchView {
            phase: SearchPhase::Open { snapshot, process_id: entries[k].process_id },
            ..search
        }),
        search.walked(entries, 0, end).call() == Some(
            ToolCall::OpenProcess { access: search.access, process_id: entries[k].process_id },
        ),
{
    lemma_search_passes(search, snapshot, entries, 0, k, end);
    let before = if k == 0 {
        search
    } else {
        SearchView { phase: SearchPhase::Next { snapshot }, ..search }
    };
    let opening = before.next(ToolReply::Listed(entries[k]));
    assert(before.walked(entries, k, end) == opening.walked(entries, k + 1, end));
    assert(opening.walked(entries, k + 1, end) == opening);
}

/// Where no process listed has the name, no process is opened, and the search says that none has
/// it.
pub proof fn law_search_without_match(
    search: SearchView,
    snapshot: Handle,
    entries: Seq<ProcessEntry>,
    end: ToolReply,
)
    requires
        search.phase == (SearchPhase::First { snapshot }),
        entries.len() > 0,
        end is Failed,
        forall|i: int|
            0 <= i < entries.len() ==> !crate::utility::same_name(
                (#[trigger] entries[i]).name@,
                search.name,
            ),
    ensures
        search.walked(entries, 0, end) == search.decided(
            SearchOutcomeView::Missing,
            SearchPhase::Close { snapshot },
        ),
{
    lemma_search_passes(search, snapshot, entries, 0, entries.len() as int, end);
}

/// A search that took a snapshot does not end before it closed that snapshot.
pub proof fn law_search_closes_its_snapshot(search: SearchView, snapshot: Handle, reply: ToolReply)
    requires
        search.call() is Some,
        search.call()->0.accepts(reply),
        search.phase == (SearchPhase::First { snapshot }) || search.phase == (SearchPhase::Next {
            snapshot,
        }) || (search.phase is Open && search.phase->Open_snapshot == snapshot),
    ensures
        ({
            let phase = search.next(reply).phase;
            ||| phase == (SearchPhase::Next { snapshot })
            ||| phase is Open && phase->Open_snapshot == snapshot
            ||| phase == (SearchPhase::Close { snapshot }) && search.next(reply).call() == Some(
                ToolCall::CloseHandle { handle: snapshot },
            )
        }),
{
}

/// Where a lookup of an image base stands.
#[derive(Debug, Clone, Copy, PartialEq, Eq, Structural)]
pub enum LookupPhase {
    /// The modules are being listed.
    Modules,
    /// The first module, which is the executable, is being located.
    Information { module: Handle },
    /// The lookup is over.
    Ended,
}

/// What a lookup of an image base led to.
pub enum LookupOutcome {
    /// Nothing yet.
    Pending,
    /// The image base.
    Base(u64),
    /// The modules could not be listed.
    ListFailed(String),
    /// The process has no modules.
    NoModules,
    /// The module could not be located.
    InformationFailed(String),
}

/// What a lookup of an image base led to.
pub enum LookupOutcomeView {
    Pending,
    Base(u64),
    ListFailed(Seq<char>),
    NoModules,
    InformationFailed(Seq<char>),
}

impl View for LookupOutcome {
    type V = LookupOutcomeView;

    open spec fn view(&self) -> LookupOutcomeView {
        match self {
            LookupOutcome::Pending => LookupOutcomeView::Pending,
            LookupOutcome::Base(base) => LookupOutcomeView::Base(*base),
            LookupOutcome::ListFailed(error) => LookupOutcomeView::ListFailed(error@),
            LookupOutcome::NoModules => LookupOutcomeView::NoModules,
            LookupOutcome::InformationFailed(error) => LookupOutcomeView::InformationFailed(error@),
        }
    }
}

/// A lookup of where the executable of a process lies in its memory.
pub struct ImageBaseLookup {
    pub process: Handle,
    /// Whether only 32-bit modules count, and there must be one.
    pub strict: bool,
    pub phase: LookupPhase,
    pub outcome: LookupOutcome,
}

/// What a lookup of an image base holds.
pub struct LookupView {
    pub process: Handle,
    pub strict: bool,
    pub phase: LookupPhase,
    pub outcome: LookupOutcomeView,
}

impl View for ImageBaseLookup {
    type V = LookupView;

    open spec fn view(&self) -> LookupView {
        LookupView {
            process: self.process,
            strict: self.strict,
            phase: self.phase,
            outcome: self.outcome@,
        }
    }
}

impl LookupView {
    /// A lookup that is about to start.
    pub open spec fn start(process: Handle, strict: bool) -> LookupView {
        LookupView {
            process,
            strict,
            phase: LookupPhase::Modules,
            outcome: LookupOutcomeView::Pending,
        }
    }

    /// A lookup ends only once it has an outcome.
    pub open spec fn wf(self) -> bool {
        self.phase is Ended ==> !(self.outcome is Pending)
    }

    /// The call that the lookup waits for.
    pub open spec fn call(self) -> Option<ToolCall> {
        match self.phase {
            LookupPhase::Modules => Some(
                ToolCall::ListModules { process: self.process, only_32_bit: self.strict },
            ),
            LookupPhase::Information { module } => Some(
                ToolCall::ModuleInformation { process: self.process, module },
            ),
            LookupPhase::Ended => None,
        }
    }

    /// The lookup, ended.
    pub open spec fn ended(self, outcome: LookupOutcomeView) -> LookupView {
        LookupView { outcome, phase: LookupPhase::Ended, ..self }
    }

    /// The lookup after the reply to its call.
    pub open spec fn next(self, reply: ToolReply) -> LookupView {
        match (self.phase, reply) {
            (LookupPhase::Modules, ToolReply::Failed(error)) => self.ended(
                LookupOutcomeView::ListFailed(error@),
            ),
            (LookupPhase::Modules, ToolReply::Modules { first, bytes }) => if self.strict && bytes
                == 0 {
                self.ended(LookupOutcomeView::NoModules)
            } else {
                LookupView { phase: LookupPhase::Information { module: first }, ..self }
            },
            (LookupPhase::Information { .. }, ToolReply::Failed(error)) => self.ended(
                LookupOutcomeView::InformationFailed(error@),
            ),
            (LookupPhase::Information { .. }, ToolReply::Base(base)) => self.ended(
                LookupOutcomeView::Base(base),
            ),
            _ => self,
        }
    }
}

impl ImageBaseLookup {
    /// A lookup that is about to start.
    pub fn new(process: Handle, strict: bool) -> (lookup: ImageBaseLookup)
        ensures
            lookup@ == LookupView::start(process, strict),
    {
        ImageBaseLookup {
            process,
            strict,
            phase: LookupPhase::Modules,
            outcome: LookupOutcome::Pending,
        }
    }

    /// The call that the lookup waits for; `None` where it is over.
    pub fn call(&self) -> (call: Option<ToolCall>)
        ensures
            call == self@.call(),
    {
        match self.phase {
            LookupPhase::Modules => Some(
                ToolCall::ListModules { process: self.process, only_32_bit: self.strict },
            ),
            LookupPhase::Information { module } => Some(
                ToolCall::ModuleInformation { process: self.process, module },
            ),
            LookupPhase::Ended => None,
        }
    }

    /// Goes on from the reply to the call.
    pub fn step(&mut self, reply: &ToolReply)
        requires
            old(self)@.call() is Some,
            old(self)@.call()->0.accepts(*reply),
        ensures
            final(self)@ == old(self)@.next(*reply),
            old(self)@.wf() ==> final(self)@.wf(),
    {
        match (self.phase, reply) {
            (LookupPhase::Modules, ToolReply::Failed(error)) => {
                self.outcome = LookupOutcome::ListFailed(owned(error.as_str()));
                self.phase = LookupPhase::Ended;
            },
            (LookupPhase::Modules, ToolReply::Modules { first, bytes }) => {
                if self.strict && *bytes == 0 {
                    self.outcome = LookupOutcome::NoModules;
                    self.phase = LookupPhase::Ended;
                } else {
                    self.phase = LookupPhase::Information { module: *first };
                }
            },
            (LookupPhase::Information { .. }, ToolReply::Failed(error)) => {
                self.outcome = LookupOutcome::InformationFailed(owned(error.as_str()));
                self.phase = LookupPhase::Ended;
            },
            (LookupPhase::Information { .. }, ToolReply::Base(base)) => {
                self.outcome = LookupOutcome::Base(*base);
                self.phase = LookupPhase::Ended;
            },
            _ => {},
        }
    }

    /// The image base; zero where it is not known.
    pub fn found_base(&self) -> (base: u64)
        ensures
            base == (match self@.outcome {
                LookupOutcomeView::Base(base) => base,
                _ => 0,
            }),
    {
        match &self.outcome {
            LookupOutcome::Base(base) => *base,
            _ => 0,
        }
    }
}

/// The lookup of where the executable of a running process lies, for the address alone.
pub fn resolve_image_base(process: Handle) -> (lookup: ImageBaseLookup)
    ensures
        lookup@ == LookupView::start(process, false),
{
    ImageBaseLookup::new(process, false)
}

/// Where the switching on of single steps stands.
#[derive(Debug, Clone, Copy, PartialEq, Eq, Structural)]
pub enum SingleStep {
    /// The registers are being read.
    Reading { thread: Handle },
    /// The registers are being written, with the trap flag set.
    Writing { thread: Handle, eflags: u32 },
    /// The debug event is being continued, whether the registers were written or not.
    Resuming { written: bool },
    /// It is over, and single steps are on or not.
    Ended { enabled: bool },
}

impl SingleStep {
    /// The call that is waited for.
    pub open spec fn call_spec(self) -> Option<ToolCall> {
        match self {
            SingleStep::Reading { thread } => Some(ToolCall::ReadRegisters { thread }),
            SingleStep::Writing { thread, eflags } => Some(
                ToolCall::WriteRegisters { thread, eflags },
            ),
            SingleStep::Resuming { .. } => Some(ToolCall::ContinueOwnEvent),
            SingleStep::Ended { .. } => None,
        }
    }

    /// What follows the reply to the call.
    pub open spec fn next(self, reply: ToolReply) -> SingleStep {
        match (self, reply) {
            (SingleStep::Reading { .. }, ToolReply::Failed(_)) => SingleStep::Ended {
                enabled: false,
            },
            (SingleStep::Reading { thread }, ToolReply::Flags(eflags)) => SingleStep::Writing {
                thread,
                eflags: eflags | TRAP_FLAG,
            },
            (SingleStep::Writing { .. }, _) => SingleStep::Resuming { written: reply is Done },
            (SingleStep::Resuming { written }, _) => SingleStep::Ended { enabled: written },
            _ => self,
        }
    }

    /// The call that is waited for; `None` where it is over.
    pub fn call(&self) -> (call: Option<ToolCall>)
        ensures
            call == self.call_spec(),
    {
        match *self {
            SingleStep::Reading { thread } => Some(ToolCall::ReadRegisters { thread }),
            SingleStep::Writing { thread, eflags } => Some(
                ToolCall::WriteRegisters { thread, eflags },
            ),
            SingleStep::Resuming { .. } => Some(ToolCall::ContinueOwnEvent),
            SingleStep::Ended { .. } => None,
        }
    }

    /// Goes on from the reply to the call.
    pub fn step(&mut self, reply: &ToolReply)
        requires
            old(self).call_spec() is Some,
            old(self).call_spec()->0.accepts(*reply),
        ensures
            *final(self) == old(self).next(*reply),
    {
        *self = match (*self, reply) {
            (SingleStep::Reading { .. }, ToolReply::Failed(_)) => SingleStep::Ended {
                enabled: false,
            },
            (SingleStep::Reading { thread }, ToolReply::Flags(eflags)) => SingleStep::Writing {
                thread,
                eflags: *eflags | TRAP_FLAG,
            },
            (SingleStep::Writing { .. }, ToolReply::Done) => SingleStep::Resuming { written: true },
            (SingleStep::Writing { .. }, _) => SingleStep::Resuming { written: false },
            (SingleStep::Resuming { written }, _) => SingleStep::Ended { enabled: written },
            (other, _) => other,
        };
    }
}

/// Switches single steps of a thread on, by the trap flag.
pub fn enable_single_step(thread: Handle) -> (machine: SingleStep)
    ensures
        machine == (SingleStep::Reading { thread }),
{
    SingleStep::Reading { thread }
}

/// Single steps are on at the end exactly if the registers were read and written, and the flags
/// that are written are those that were read, with the trap flag.
pub proof fn law_single_step(thread: Handle, read: ToolReply, write: ToolReply, resume: ToolReply)
    requires
        (ToolCall::ReadRegisters { thread }).accepts(read),
        (ToolCall::WriteRegisters { thread, eflags: 0 }).accepts(write),
    ensures
        ({
            let start = SingleStep::Reading { thread };
            match read {
                ToolReply::Flags(eflags) => {
                    &&& start.next(read).call_spec() == Some(
                        ToolCall::WriteRegisters { thread, eflags: eflags | TRAP_FLAG },
                    )
                    &&& start.next(read).next(write).next(resume) == (SingleStep::Ended {
                        enabled: write is Done,
                    })
                },
                _ => start.next(read) == (SingleStep::Ended { enabled: false }),
            }
        }),
{
}

/// A search takes a snapshot of everything first, and lists its first process next; a snapshot that
/// fails, or that refers to nothing where the search is strict, ends it with nothing to close.
pub proof fn law_start_of_a_search(
    name: Seq<u16>,
    access: u32,
    strict: bool,
    snapshot: Handle,
    error: String,
)
    ensures
        ({
            let search = SearchView::start(name, access, strict);
            let opened = search.next(ToolReply::Opened(snapshot));
            let failed = search.next(ToolReply::Failed(error));
            &&& search.call() == Some(
                ToolCall::CreateSnapshot { with_modules_and_threads: strict, process_id: 0 },
            )
            &&& failed.call() is None
            &&& failed.outcome == SearchOutcomeView::SnapshotFailed(error@)
            &&& strict && snapshot.invalid() ==> opened.call() is None && opened.outcome
                == SearchOutcomeView::SnapshotInvalid
            &&& !strict || !snapshot.invalid() ==> opened.call() == Some(
                ToolCall::FirstProcess { snapshot },
            ) && opened.outcome is Pending
            &&& opened.name == name && opened.access == access && opened.strict == strict
        }),
{
}

/// How a search ends: the snapshot is closed, whatever comes of that, and the outcome is the
/// process that was opened, or why it could not be opened or listed.
pub proof fn law_end_of_a_search(
    search: SearchView,
    snapshot: Handle,
    process_id: u32,
    process: Handle,
    error: String,
    closed: ToolReply,
)
    ensures
        search.phase == (SearchPhase::Open { snapshot, process_id }) ==> ({
            let found = search.next(ToolReply::Opened(process));
            let failed = search.next(ToolReply::Failed(error));
            let close = Some(ToolCall::CloseHandle { handle: snapshot });
            &&& search.call() == Some(ToolCall::OpenProcess { access: search.access, process_id })
            &&& found.call() == close && found.next(closed).call() is None
            &&& found.next(closed).outcome == (SearchOutcomeView::Found { process_id, process })
            &&& failed.call() == close && failed.next(closed).call() is None
            &&& failed.next(closed).outcome == SearchOutcomeView::OpenFailed(error@)
        }),
        search.phase == (SearchPhase::First { snapshot }) ==> ({
            let failed = search.next(ToolReply::Failed(error));
            &&& failed.call() == Some(ToolCall::CloseHandle { handle: snapshot })
            &&& failed.next(closed).call() is None
            &&& failed.next(closed).outcome is ListFailed
        }),
        search.phase == (SearchPhase::Next { snapshot }) ==> ({
            let failed = search.next(ToolReply::Failed(error));
            &&& search.call() == Some(ToolCall::NextProcess { snapshot })
            &&& failed.call() == Some(ToolCall::CloseHandle { handle: snapshot })
            &&& failed.next(closed).call() is None
            &&& failed.next(closed).outcome is Missing
        }),
{
}

/// A lookup lists the modules of its process and asks where the first one lies; that is the image
/// base. A strict lookup counts 32-bit modules alone, and without any there is no image base.
pub proof fn law_lookup_of_an_image_base(
    process: Handle,
    strict: bool,
    first: Handle,
    bytes: u32,
    base: u64,
    error: String,
)
    ensures
        ({
            let lookup = LookupView::start(process, strict);
            let listed = lookup.next(ToolReply::Modules { first, bytes });
            &&& lookup.call() == Some(ToolCall::ListModules { process, only_32_bit: strict })
            &&& lookup.next(ToolReply::Failed(error)).call() is None
            &&& lookup.next(ToolReply::Failed(error)).outcome == LookupOutcomeView::ListFailed(
                error@,
            )
            &&& strict && bytes == 0 ==> listed.call() is None && listed.outcome is NoModules
            &&& !strict || bytes > 0 ==> listed.call() == Some(
                ToolCall::ModuleInformation { process, module: first },
            )
            &&& !strict || bytes > 0 ==> listed.next(ToolReply::Base(base)) == (LookupView {
                phase: LookupPhase::Ended,
                outcome: LookupOutcomeView::Base(base),
                ..lookup
            })
            &&& !strict || bytes > 0 ==> listed.next(ToolReply::Failed(error)) == (LookupView {
                phase: LookupPhase::Ended,
                outcome: LookupOutcomeView::InformationFailed(error@),
                ..lookup
            })
        }),
{
}

/// The flags that are written for single steps have bit 8 set, and every other bit as it was read;
/// registers that could not be read are not written, and the event is then not continued either.
pub proof fn law_flags_of_single_steps(thread: Handle, eflags: u32, bit: u32, reply: ToolReply)
    requires
        bit < 32,
    ensures
        ({
            let machine = (SingleStep::Reading { thread }).next(ToolReply::Flags(eflags));
            &&& machine.call_spec() is Some
            &&& machine.call_spec()->0 is WriteRegisters
            &&& machine.call_spec()->0->WriteRegisters_thread == thread
            &&& machine.call_spec()->0->WriteRegisters_eflags & 0x100 == 0x100
            &&& bit != 8 ==> machine.call_spec()->0->WriteRegisters_eflags & (1u32 << bit) == eflags
                & (1u32 << bit)
            &&& machine.next(reply).call_spec() == Some(ToolCall::ContinueOwnEvent)
            &&& (SingleStep::Reading { thread }).call_spec() == Some(
                ToolCall::ReadRegisters { thread },
            )
        }),
        reply is Failed ==> (SingleStep::Reading { thread }).next(reply).call_spec() is None,
{
    assert((eflags | 0x100) & 0x100 == 0x100) by (bit_vector);
    assert(bit < 32 && bit != 8 ==> (eflags | 0x100) & (1u32 << bit) == eflags & (1u32 << bit))
        by (bit_vector);
}

/// Every call may fail; a reply with a value answers just the calls that give such a value.
pub proof fn law_replies_to_tool_calls(call: ToolCall, error: String, first: Handle, bytes: u32)
    ensures
        call.accepts(ToolReply::Failed(error)),
        forall|handle: Handle| #[trigger]
            call.accepts(ToolReply::Opened(handle)) == (call is CreateSnapshot
                || call is OpenProcess || call is OpenThread),
        forall|entry: ProcessEntry| #[trigger]
            call.accepts(ToolReply::Listed(entry)) == (call is FirstProcess || call is NextProcess),
        call.accepts(ToolReply::Modules { first, bytes }) == (call is ListModules),
        forall|base: u64| #[trigger]
            call.accepts(ToolReply::Base(base)) == (call is ModuleInformation),
        forall|event: DebugEvent| #[trigger]
            call.accepts(ToolReply::Event(event)) == (call is WaitForDebugEvent),
        forall|flags: u32| #[trigger]
            call.accepts(ToolReply::Flags(flags)) == (call is ReadRegisters),
        call.accepts(ToolReply::Done) == (call is CloseHandle || call is DebugActiveProcess
            || call is ContinueDebugEvent || call is WriteRegisters || call is ContinueOwnEvent),
{
}

} // verus!
