use mist::system::Handle;
use mist::tooling::{
    enable_single_step, get_process_handle, resolve_image_base, ImageBaseLookup, LookupOutcome,
    ProcessEntry, ProcessSearch, SearchOutcome, SingleStep, ToolCall, ToolReply,
};

fn utf16_name(text: &str) -> Vec<u16> {
    text.encode_utf16().collect()
}

fn tool_handle(value: i64) -> Handle {
    Handle { value }
}

fn tool_failure(text: &str) -> ToolReply {
    ToolReply::Failed(text.to_string())
}

fn process_entry(process_id: u32, name: &str) -> ToolReply {
    ToolReply::Listed(ProcessEntry { process_id, name: utf16_name(name) })
}

fn answer_search(search: &mut ProcessSearch, call: ToolCall, reply: ToolReply) {
    assert_eq!(search.call(), Some(call));
    assert!(call.is_answered_by(&reply));
    search.step(&reply);
}

fn answer_lookup(lookup: &mut ImageBaseLookup, call: ToolCall, reply: ToolReply) {
    assert_eq!(lookup.call(), Some(call));
    assert!(call.is_answered_by(&reply));
    lookup.step(&reply);
}

fn answer_step(machine: &mut SingleStep, call: ToolCall, reply: ToolReply) {
    assert_eq!(machine.call(), Some(call));
    assert!(call.is_answered_by(&reply));
    machine.step(&reply);
}

#[test]
fn the_first_process_with_the_name_is_opened() {
    let snapshot = tool_handle(5);
    let mut search = get_process_handle(utf16_name("TARGET.exe"), 0x10);
    answer_search(
        &mut search,
        ToolCall::CreateSnapshot { with_modules_and_threads: false, process_id: 0 },
        ToolReply::Opened(snapshot),
    );
    answer_search(&mut search, ToolCall::FirstProcess { snapshot }, process_entry(1, "system"));
    answer_search(&mut search, ToolCall::NextProcess { snapshot }, process_entry(2, "target.EXE"));
    answer_search(
        &mut search,
        ToolCall::OpenProcess { access: 0x10, process_id: 2 },
        ToolReply::Opened(tool_handle(77)),
    );
    answer_search(&mut search, ToolCall::CloseHandle { handle: snapshot }, ToolReply::Done);
    assert_eq!(search.call(), None);
    assert_eq!(search.found_handle(), tool_handle(77));
}

#[test]
fn a_search_without_a_match_gives_the_null_handle() {
    let snapshot = tool_handle(5);
    let mut search = get_process_handle(utf16_name("target.exe"), 0);
    search.step(&ToolReply::Opened(snapshot));
    answer_search(&mut search, ToolCall::FirstProcess { snapshot }, process_entry(1, "a"));
    answer_search(&mut search, ToolCall::NextProcess { snapshot }, process_entry(2, "b"));
    answer_search(&mut search, ToolCall::NextProcess { snapshot }, tool_failure("no more"));
    answer_search(&mut search, ToolCall::CloseHandle { handle: snapshot }, tool_failure("oops"));
    assert_eq!(search.call(), None);
    assert!(matches!(search.outcome, SearchOutcome::Missing));
    assert_eq!(search.found_handle(), Handle::null());
}

#[test]
fn a_failed_snapshot_ends_the_search() {
    let mut search = get_process_handle(utf16_name("a"), 0);
    search.step(&tool_failure("denied"));
    assert_eq!(search.call(), None);
    assert_eq!(search.found_handle(), Handle::null());
    assert!(matches!(&search.outcome, SearchOutcome::SnapshotFailed(error) if error == "denied"));
}

#[test]
fn a_failed_first_listing_closes_the_snapshot() {
    let snapshot = tool_handle(5);
    let mut search = get_process_handle(utf16_name("a"), 0);
    search.step(&ToolReply::Opened(snapshot));
    search.step(&tool_failure("empty"));
    answer_search(&mut search, ToolCall::CloseHandle { handle: snapshot }, ToolReply::Done);
    assert!(matches!(search.outcome, SearchOutcome::ListFailed));
    assert_eq!(search.found_handle(), Handle::null());
}

#[test]
fn a_process_that_cannot_be_opened_ends_the_search() {
    let snapshot = tool_handle(5);
    let mut search = get_process_handle(utf16_name("a"), 0);
    search.step(&ToolReply::Opened(snapshot));
    search.step(&process_entry(3, "A"));
    search.step(&tool_failure("denied"));
    answer_search(&mut search, ToolCall::CloseHandle { handle: snapshot }, ToolReply::Done);
    assert!(matches!(&search.outcome, SearchOutcome::OpenFailed(error) if error == "denied"));
    assert_eq!(search.found_handle(), Handle::null());
}

#[test]
fn only_a_strict_search_minds_an_invalid_snapshot() {
    let invalid = tool_handle(-1);
    let mut lenient = ProcessSearch::new(utf16_name("a"), 0, false);
    lenient.step(&ToolReply::Opened(invalid));
    assert_eq!(lenient.call(), Some(ToolCall::FirstProcess { snapshot: invalid }));
    let mut strict = ProcessSearch::new(utf16_name("a"), 0, true);
    strict.step(&ToolReply::Opened(invalid));
    assert_eq!(strict.call(), None);
    assert!(matches!(strict.outcome, SearchOutcome::SnapshotInvalid));
}

#[test]
fn the_base_is_that_of_the_first_module() {
    let process = tool_handle(4);
    let mut lookup = resolve_image_base(process);
    answer_lookup(
        &mut lookup,
        ToolCall::ListModules { process, only_32_bit: false },
        ToolReply::Modules { first: tool_handle(8), bytes: 0 },
    );
    answer_lookup(
        &mut lookup,
        ToolCall::ModuleInformation { process, module: tool_handle(8) },
        ToolReply::Base(0x40_0000),
    );
    assert_eq!(lookup.call(), None);
    assert_eq!(lookup.found_base(), 0x40_0000);
}

#[test]
fn failed_lookups_give_no_base() {
    let mut unlisted = resolve_image_base(tool_handle(4));
    unlisted.step(&tool_failure("list"));
    assert_eq!((unlisted.call(), unlisted.found_base()), (None, 0));
    assert!(matches!(&unlisted.outcome, LookupOutcome::ListFailed(error) if error == "list"));
    let mut unlocated = resolve_image_base(tool_handle(4));
    unlocated.step(&ToolReply::Modules { first: tool_handle(8), bytes: 8 });
    unlocated.step(&tool_failure("info"));
    assert_eq!((unlocated.call(), unlocated.found_base()), (None, 0));
    assert!(matches!(&unlocated.outcome, LookupOutcome::InformationFailed(error) if error == "info"));
}

#[test]
fn a_strict_lookup_needs_a_module() {
    let mut lookup = ImageBaseLookup::new(tool_handle(4), true);
    lookup.step(&ToolReply::Modules { first: tool_handle(0), bytes: 0 });
    assert_eq!(lookup.call(), None);
    assert!(matches!(lookup.outcome, LookupOutcome::NoModules));
}

#[test]
fn single_steps_are_switched_on_by_the_trap_flag() {
    let thread = tool_handle(6);
    let mut machine = enable_single_step(thread);
    answer_step(&mut machine, ToolCall::ReadRegisters { thread }, ToolReply::Flags(0x202));
    answer_step(
        &mut machine,
        ToolCall::WriteRegisters { thread, eflags: 0x302 },
        ToolReply::Done,
    );
    answer_step(&mut machine, ToolCall::ContinueOwnEvent, tool_failure("never mind"));
    assert_eq!(machine, SingleStep::Ended { enabled: true });
    assert_eq!(machine.call(), None);
}

#[test]
fn single_steps_stay_off_where_registers_cannot_be_had() {
    let mut unread = enable_single_step(tool_handle(6));
    unread.step(&tool_failure("read"));
    assert_eq!(unread, SingleStep::Ended { enabled: false });
    let mut unwritten = enable_single_step(tool_handle(6));
    unwritten.step(&ToolReply::Flags(0));
    unwritten.step(&tool_failure("write"));
    answer_step(&mut unwritten, ToolCall::ContinueOwnEvent, ToolReply::Done);
    assert_eq!(unwritten, SingleStep::Ended { enabled: false });
}

#[test]
fn replies_answer_only_their_calls() {
    let call = ToolCall::WaitForDebugEvent;
    assert!(call.is_answered_by(&tool_failure("x")));
    assert!(!call.is_answered_by(&ToolReply::Done));
    assert!(!ToolCall::ContinueOwnEvent.is_answered_by(&ToolReply::Flags(1)));
    assert!(!ToolCall::FirstProcess { snapshot: tool_handle(1) }.is_answered_by(&ToolReply::Base(0)));
}
