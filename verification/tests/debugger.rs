use mist::debugger::{Debugger, DebuggerAttach, ProcessAttach, PROCESS_ALL_ACCESS};
use mist::system::{DebugEvent, EventKind, Handle, EXCEPTION_BREAKPOINT_CODE, EXCEPTION_SINGLE_STEP_CODE};
use mist::tooling::{ProcessEntry, ToolCall, ToolReply};

fn attach_name() -> Vec<u16> {
    "target.exe".encode_utf16().collect()
}

fn some_handle(value: i64) -> Handle {
    Handle { value }
}

fn attach_failure(text: &str) -> ToolReply {
    ToolReply::Failed(text.to_string())
}

fn listed_target() -> ToolReply {
    ToolReply::Listed(ProcessEntry { process_id: 42, name: attach_name() })
}

fn debug_event(thread_id: u32, kind: EventKind) -> ToolReply {
    ToolReply::Event(DebugEvent { process_id: 42, thread_id, kind })
}

fn breakpoint_event(thread_id: u32) -> ToolReply {
    debug_event(thread_id, EventKind::Exception { code: EXCEPTION_BREAKPOINT_CODE })
}

fn feed(attach: &mut DebuggerAttach, replies: Vec<ToolReply>) {
    for reply in replies {
        assert!(attach.call().unwrap().is_answered_by(&reply));
        attach.step(&reply);
    }
}

fn feed_process(attach: &mut ProcessAttach, replies: Vec<ToolReply>) {
    for reply in replies {
        assert!(attach.call().unwrap().is_answered_by(&reply));
        attach.step(&reply);
    }
}

fn process_found_replies() -> Vec<ToolReply> {
    vec![
        ToolReply::Opened(some_handle(5)),
        listed_target(),
        ToolReply::Opened(some_handle(6)),
        ToolReply::Done,
    ]
}

fn attach_error(replies: Vec<ToolReply>) -> String {
    let mut attach = Debugger::attach_debugger(attach_name());
    feed(&mut attach, replies);
    assert_eq!(attach.call(), None);
    match attach.result {
        Some(Err(error)) => error.0,
        _ => panic!("attached"),
    }
}

fn with_process(mut more: Vec<ToolReply>) -> Vec<ToolReply> {
    let mut replies = process_found_replies();
    replies.append(&mut more);
    replies
}

#[test]
fn attaching_gathers_what_a_debugger_needs() {
    let mut attach = Debugger::attach_debugger(attach_name());
    feed(&mut attach, process_found_replies());
    assert_eq!(attach.call(), Some(ToolCall::DebugActiveProcess { process_id: 42 }));
    feed(&mut attach, vec![ToolReply::Done]);
    assert_eq!(attach.call(), Some(ToolCall::WaitForDebugEvent));
    feed(&mut attach, vec![debug_event(7, EventKind::Other)]);
    assert_eq!(attach.call(), Some(ToolCall::ContinueDebugEvent { process_id: 42, thread_id: 7 }));
    feed(&mut attach, vec![ToolReply::Done, breakpoint_event(8)]);
    assert_eq!(attach.call(), Some(ToolCall::OpenThread { thread_id: 8 }));
    feed(&mut attach, vec![ToolReply::Opened(some_handle(9))]);
    assert_eq!(
        attach.call(),
        Some(ToolCall::ListModules { process: some_handle(6), only_32_bit: true })
    );
    feed(
        &mut attach,
        vec![ToolReply::Modules { first: some_handle(10), bytes: 8 }, ToolReply::Base(0x40_0000)],
    );
    assert_eq!(attach.call(), Some(Debugger::snapshot_process(42)));
    feed(&mut attach, vec![ToolReply::Opened(some_handle(11))]);
    assert_eq!(attach.call(), None);
    let debugger = match attach.result {
        Some(Ok(debugger)) => debugger,
        _ => panic!(),
    };
    assert_eq!(
        debugger,
        Debugger {
            toolhelp_snapshot: some_handle(11),
            process_id: Some(42),
            thread_id: Some(8),
            thread_handle: Some(some_handle(9)),
            process_handle: Some(some_handle(6)),
            image_base: Some(0x40_0000),
        }
    );
    assert_eq!(debugger.closing_call(), Some(ToolCall::CloseHandle { handle: some_handle(11) }));
}

#[test]
fn nothing_is_closed_without_a_snapshot() {
    let debugger = Debugger {
        toolhelp_snapshot: some_handle(-1),
        process_id: None,
        thread_id: None,
        thread_handle: None,
        process_handle: None,
        image_base: None,
    };
    assert_eq!(debugger.closing_call(), None);
}

#[test]
fn attaching_tells_why_no_process_was_found() {
    let opened = || ToolReply::Opened(some_handle(5));
    assert_eq!(attach_error(vec![attach_failure("e")]), "CreateToolhelp32Snapshot failed: e");
    assert_eq!(
        attach_error(vec![ToolReply::Opened(some_handle(-1))]),
        "Toolhelp snapshot handle is invalid"
    );
    assert_eq!(
        attach_error(vec![opened(), attach_failure("e"), ToolReply::Done]),
        "Process32FirstW failed"
    );
    assert_eq!(
        attach_error(vec![opened(), listed_target(), attach_failure("e"), ToolReply::Done]),
        "Failed to open process: e"
    );
    let other = ToolReply::Listed(ProcessEntry { process_id: 1, name: vec![0x41] });
    assert_eq!(
        attach_error(vec![opened(), other, attach_failure("e"), ToolReply::Done]),
        "Failed to find process matching name: target.exe"
    );
    assert_eq!(
        attach_error(vec![
            opened(),
            listed_target(),
            ToolReply::Opened(some_handle(0)),
            ToolReply::Done
        ]),
        "Retrieved process handle is invalid"
    );
}

#[test]
fn a_name_that_is_no_text_is_not_shown() {
    let mut search = Debugger::get_process_handle(vec![0xd800], PROCESS_ALL_ACCESS);
    search.step(&ToolReply::Opened(some_handle(5)));
    search.step(&listed_target());
    search.step(&attach_failure("no more"));
    search.step(&ToolReply::Done);
    match Debugger::process_found(&search) {
        Err(error) => assert_eq!(error.0, "Failed to find process matching name: Unknown process"),
        Ok(_) => panic!(),
    }
}

#[test]
fn attaching_tells_why_the_process_cannot_be_debugged() {
    let mut attach = Debugger::attach_to_process(attach_name());
    feed_process(&mut attach, with_process(vec![attach_failure("e")]));
    assert_eq!(attach.call(), Some(ToolCall::CloseHandle { handle: some_handle(6) }));
    feed_process(&mut attach, vec![ToolReply::Done]);
    assert_eq!(attach.call(), None);
    assert!(matches!(&attach.result, Some(Err(error)) if error.0 == "DebugActiveProcess failed: e"));
}

#[test]
fn attaching_to_a_process_gives_its_handle() {
    let mut attach = Debugger::attach_to_process(attach_name());
    feed_process(&mut attach, with_process(vec![ToolReply::Done]));
    assert!(matches!(&attach.result, Some(Ok((42, process))) if *process == some_handle(6)));
}

#[test]
fn attaching_tells_why_no_thread_was_found() {
    assert_eq!(
        attach_error(with_process(vec![ToolReply::Done, attach_failure("e")])),
        "WaitForDebugEvent failed: e"
    );
    assert_eq!(
        attach_error(with_process(vec![
            ToolReply::Done,
            debug_event(1, EventKind::ExitThread),
            attach_failure("e")
        ])),
        "ContinueDebugEvent failed: e"
    );
    assert_eq!(
        attach_error(with_process(vec![
            ToolReply::Done,
            breakpoint_event(1),
            attach_failure("e")
        ])),
        "Failed to open thread: e"
    );
    assert_eq!(
        attach_error(with_process(vec![
            ToolReply::Done,
            breakpoint_event(1),
            ToolReply::Opened(some_handle(0))
        ])),
        "Opened thread handle is invalid"
    );
}

#[test]
fn attaching_tells_why_no_image_or_snapshot_was_found() {
    let with_thread = |more: ToolReply, last: Option<ToolReply>| {
        let mut replies = with_process(vec![
            ToolReply::Done,
            breakpoint_event(1),
            ToolReply::Opened(some_handle(9)),
            more,
        ]);
        if let Some(last) = last {
            replies.push(last);
        }
        replies
    };
    let modules = || ToolReply::Modules { first: some_handle(10), bytes: 8 };
    assert_eq!(
        attach_error(with_thread(attach_failure("e"), None)),
        "EnumProcessModulesEx failed: e"
    );
    assert_eq!(
        attach_error(with_thread(ToolReply::Modules { first: some_handle(0), bytes: 0 }, None)),
        "No modules loaded in the target process"
    );
    assert_eq!(
        attach_error(with_thread(modules(), Some(attach_failure("e")))),
        "GetModuleInformation failed: e"
    );
    let mut snapshotless = with_thread(modules(), Some(ToolReply::Base(1)));
    snapshotless.push(attach_failure("e"));
    assert_eq!(attach_error(snapshotless), "CreateToolhelp32Snapshot failed: e");
}

#[test]
fn the_wait_ends_at_the_first_breakpoint() {
    let mut wait = Debugger::await_get_thread_id();
    let step = EventKind::Exception { code: EXCEPTION_SINGLE_STEP_CODE };
    for kind in [EventKind::Other, step, EventKind::ExitThread] {
        wait.step(&debug_event(3, kind));
        assert_eq!(wait.call(), Some(ToolCall::ContinueDebugEvent { process_id: 42, thread_id: 3 }));
        wait.step(&ToolReply::Done);
        assert_eq!(wait.call(), Some(ToolCall::WaitForDebugEvent));
    }
    wait.step(&breakpoint_event(4));
    assert_eq!(wait.call(), None);
    assert!(matches!(wait.result, Some(Ok(4))));
}
