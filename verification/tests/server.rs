use mist::connection::Incoming;
use mist::debug_controller::{DebugCommand, DebugController};
use mist::debug_engine::DebugEngine;
use mist::json::parse;
use mist::server::{
    finish_message, finish_read_memory, handle_dap_message, handle_incoming, handle_message, Answer,
    PendingRead, Unanswered,
};
use mist::system::{Call, Handle, Reply};

struct Server {
    engine: DebugEngine,
    controller: DebugController,
}

fn new_server() -> Server {
    Server { engine: DebugEngine::new(), controller: DebugController::new() }
}

fn ask(server: &mut Server, message: &str) -> String {
    match handle_message(message, &mut server.engine, &mut server.controller) {
        Ok(Answer::Text(text)) => text,
        _ => panic!("no text answers {}", message),
    }
}

fn ask_read(server: &mut Server, message: &str) -> PendingRead {
    match handle_message(message, &mut server.engine, &mut server.controller) {
        Ok(Answer::Read(pending)) => pending,
        _ => panic!("no read answers {}", message),
    }
}

const NO_DETAILS: &str = "\"message\":null,\"source\":null,\"line\":null,\"column\":null,\
     \"end_line\":null,\"end_column\":null,\"instruction_reference\":null,\"offset\":null}";

#[test]
fn initialize_tells_the_capabilities() {
    let mut server = new_server();
    assert_eq!(
        ask(&mut server, "{\"seq\":1,\"type\":\"request\",\"command\":\"initialize\"}"),
        "{\"type\":\"response\",\"request_seq\":1,\"success\":true,\"command\":\"initialize\",\
         \"body\":{\"supportsConfigurationDoneRequest\":true,\"supportsFunctionBreakpoints\":true,\
         \"supportsModulesRequest\":false,\"supportsReadMemoryRequest\":true,\"breakpointModes\":[\
         {\"mode\":\"software\",\"label\":\"Software Breakpoint\",\
         \"appliesTo\":[\"source\",\"instruction\"]},\
         {\"mode\":\"hardware\",\"label\":\"Hardware Breakpoint\",\
         \"appliesTo\":[\"source\",\"instruction\"]}]}}"
    );
}

#[test]
fn function_breakpoints_are_requested_and_verified() {
    let mut server = new_server();
    server.engine.hardware_breakpoints_dirty = false;
    server.engine.symbols.va.insert("main".to_string(), 0x40_1000);
    let answer = ask(
        &mut server,
        "{\"seq\":2,\"command\":\"setFunctionBreakpoints\",\"arguments\":{\"breakpoints\":[\
         {\"name\":\"main\"},{\"name\":7},{},{\"name\":\"zoo\"},{\"name\":\"0x20\"}]}}",
    );
    assert_eq!(
        answer,
        format!(
            "{{\"type\":\"response\",\"request_seq\":2,\"success\":true,\
             \"command\":\"setFunctionBreakpoints\",\"body\":{{\"breakpoints\":[\
             {{\"verified\":true,{0},{{\"verified\":false,{0},{{\"verified\":true,{0}]}}}}",
            NO_DETAILS
        )
    );
    assert_eq!(server.engine.requested_function_breakpoints, vec!["main", "zoo", "0x20"]);
    assert!(server.engine.hardware_breakpoints_dirty);
}

#[test]
fn function_breakpoints_without_a_list_are_none() {
    let mut server = new_server();
    server.engine.requested_function_breakpoints = vec!["main".to_string()];
    let answer = ask(&mut server, "{\"command\":\"setFunctionBreakpoints\",\"arguments\":[]}");
    assert_eq!(
        answer,
        "{\"type\":\"response\",\"request_seq\":0,\"success\":true,\
         \"command\":\"setFunctionBreakpoints\",\"body\":{\"breakpoints\":[]}}"
    );
    assert!(server.engine.requested_function_breakpoints.is_empty());
}

#[test]
fn source_breakpoints_cannot_be_placed() {
    let mut server = new_server();
    let answer = ask(
        &mut server,
        "{\"seq\":4,\"command\":\"setBreakpoints\",\"arguments\":{\"breakpoints\":[1,{\"line\":2}]}}",
    );
    assert_eq!(
        answer,
        format!(
            "{{\"type\":\"response\",\"request_seq\":4,\"success\":true,\
             \"command\":\"setBreakpoints\",\"body\":{{\"breakpoints\":[\
             {{\"verified\":false,{0},{{\"verified\":false,{0}]}}}}",
            NO_DETAILS
        )
    );
    assert!(server.engine.requested_function_breakpoints.is_empty());
}

#[test]
fn resuming_submits_the_command() {
    let cases = [
        ("continue", DebugCommand::Continue),
        ("stepIn", DebugCommand::StepIn),
        ("stepOut", DebugCommand::StepOut),
        ("next", DebugCommand::StepOver),
    ];
    for (name, command) in cases {
        let mut server = new_server();
        let answer = ask(&mut server, &format!("{{\"seq\":5,\"command\":\"{}\"}}", name));
        assert_eq!(
            answer,
            format!(
                "{{\"type\":\"response\",\"request_seq\":5,\"success\":true,\"command\":\"{}\"}}",
                name
            )
        );
        assert_eq!(server.controller.try_take_command(), Some(command));
        assert_eq!(server.controller.try_take_command(), None);
    }
}

#[test]
fn unknown_commands_are_refused_and_change_nothing() {
    for name in ["dance", "Initialize", ""] {
        let mut server = new_server();
        let answer = ask(&mut server, &format!("{{\"seq\":6,\"command\":\"{}\"}}", name));
        assert_eq!(
            answer,
            format!(
                "{{\"type\":\"response\",\"request_seq\":6,\"success\":false,\"command\":\"{}\",\
                 \"message\":\"Command not implemented\"}}",
                name
            )
        );
        assert_eq!(server.controller.try_take_command(), None);
        assert!(server.engine.requested_function_breakpoints.is_empty());
    }
}

#[test]
fn requests_without_fields_are_answered_with_defaults() {
    let refused = "{\"type\":\"response\",\"request_seq\":0,\"success\":false,\"command\":\"\",\
                   \"message\":\"Command not implemented\"}";
    for message in ["{}", "[]", "3", "null", "{\"seq\":\"1\",\"command\":2}"] {
        assert_eq!(ask(&mut new_server(), message), refused);
    }
}

#[test]
fn memory_reads_are_handed_out_and_answered() {
    let mut server = new_server();
    server.engine.process = Handle { value: 9 };
    let pending = ask_read(
        &mut server,
        "{\"seq\":8,\"command\":\"readMemory\",\"arguments\":{\"offset\":\" 0x40100f \",\"count\":3}}",
    );
    assert_eq!(
        pending.call,
        Call::ReadMemory { process: Handle { value: 9 }, address: 0x40_100f, count: 3 }
    );
    assert_eq!(
        finish_message(&pending, Reply::Bytes(vec![1, 2, 3])),
        "{\"type\":\"response\",\"request_seq\":8,\"success\":true,\"command\":\"readMemory\",\
         \"body\":{\"address\":\"0x40100F\",\"unreadableBytes\":0,\"data\":\"AQID\"}}"
    );
    assert_eq!(
        finish_message(&pending, Reply::Failed("access \"denied\"".to_string())),
        "{\"type\":\"response\",\"request_seq\":8,\"success\":false,\"command\":\"readMemory\",\
         \"message\":\"Failed to read memory: DebuggerError(\\\"ReadProcessMemory failed: \
         access \\\\\\\"denied\\\\\\\"\\\")\"}"
    );
}

#[test]
fn failed_reads_quote_their_reason() {
    let pending = PendingRead { sequence: 1, address: 0, call: Call::Nothing };
    match finish_read_memory(&pending, Reply::Failed("a\nb".to_string())) {
        Err(error) => assert_eq!(
            error.0,
            "Failed to read memory: DebuggerError(\"ReadProcessMemory failed: a\\nb\")"
        ),
        Ok(_) => panic!(),
    }
}

#[test]
fn memory_reads_have_a_default_size() {
    let mut server = new_server();
    let pending = ask_read(
        &mut server,
        "{\"command\":\"readMemory\",\"arguments\":{\"offset\":\"10\",\"count\":\"3\"}}",
    );
    assert_eq!(
        pending.call,
        Call::ReadMemory { process: Handle { value: 0 }, address: 0x10, count: 0x1000 }
    );
    assert_eq!(pending.sequence, 0);
}

#[test]
fn memory_reads_need_an_address() {
    let cases = [("{\"offset\":\"here\"}", "here"), ("{\"offset\":16}", ""), ("{}", "")];
    for (arguments, shown) in cases {
        let message = format!("{{\"seq\":1,\"command\":\"readMemory\",\"arguments\":{}}}", arguments);
        assert_eq!(
            ask(&mut new_server(), &message),
            format!(
                "{{\"type\":\"response\",\"request_seq\":1,\"success\":false,\
                 \"command\":\"readMemory\",\"message\":\"Invalid memory address: {}\"}}",
                shown
            )
        );
    }
}

#[test]
fn messages_without_json_are_not_answered() {
    let mut server = new_server();
    let result = handle_message("{", &mut server.engine, &mut server.controller);
    assert!(matches!(result, Err(Unanswered::NotJson)));
}

#[test]
fn reads_without_a_buffer_are_not_answered() {
    let mut server = new_server();
    let message = "{\"command\":\"readMemory\",\"arguments\":{\"offset\":\"1\",\"count\":-1}}";
    let result = handle_message(message, &mut server.engine, &mut server.controller);
    assert!(matches!(result, Err(Unanswered::NoBuffer)));
}

#[test]
fn refusals_are_errors_before_they_are_answers() {
    let mut server = new_server();
    let request = match parse("{\"command\":\"launch\"}") {
        Ok(request) => request,
        Err(_) => panic!(),
    };
    match handle_dap_message(&request, &mut server.engine, &mut server.controller) {
        Err(error) => assert_eq!(error.0, "Command not implemented"),
        Ok(_) => panic!(),
    }
}

#[test]
fn answers_to_reads_tell_memory_apart() {
    let first = PendingRead { sequence: 1, address: 0x10, call: Call::Nothing };
    let second = PendingRead { sequence: 1, address: 0x11, call: Call::Nothing };
    let answer = |pending: &PendingRead, bytes: Vec<u8>| finish_message(pending, Reply::Bytes(bytes));
    assert_ne!(answer(&first, vec![0]), answer(&second, vec![0]));
    assert_ne!(answer(&first, vec![0]), answer(&first, vec![0, 0]));
}

#[test]
fn a_later_command_replaces_one_that_waits() {
    let mut server = new_server();
    ask(&mut server, "{\"command\":\"continue\"}");
    ask(&mut server, "{\"command\":\"stepOut\"}");
    assert_eq!(server.controller.try_take_command(), Some(DebugCommand::StepOut));
    assert_eq!(server.controller.try_take_command(), None);
}

#[test]
fn other_commands_leave_the_one_that_waits() {
    let mut server = new_server();
    ask(&mut server, "{\"command\":\"next\"}");
    for name in ["initialize", "setFunctionBreakpoints", "setBreakpoints", "readMemory", "dance"] {
        ask(&mut server, &format!("{{\"command\":\"{}\"}}", name));
    }
    ask_read(&mut server, "{\"command\":\"readMemory\",\"arguments\":{\"offset\":\"1\"}}");
    assert_eq!(server.controller.try_take_command(), Some(DebugCommand::StepOver));
}

#[test]
fn each_text_gets_one_reply_in_order() {
    let texts = [
        "{\"seq\":1,\"command\":\"continue\"}",
        "{\"seq\":2,\"command\":\"dance\"}",
        "{\"seq\":3,\"command\":\"readMemory\",\"arguments\":{\"offset\":\"10\",\"count\":1}}",
        "{\"seq\":4,\"command\":\"next\"}",
    ];
    let mut server = new_server();
    let mut replies: Vec<String> = vec![];
    for text in texts {
        for incoming in [Incoming::Other, Incoming::Text(text.to_string()), Incoming::Other] {
            match handle_incoming(&incoming, &mut server.engine, &mut server.controller) {
                Ok(None) => assert_eq!(incoming, Incoming::Other),
                Ok(Some(Answer::Text(text))) => replies.push(text),
                Ok(Some(Answer::Read(pending))) => {
                    replies.push(finish_message(&pending, Reply::Bytes(vec![0xff])))
                }
                Err(_) => panic!(),
            }
        }
    }
    assert_eq!(
        replies,
        vec![
            "{\"type\":\"response\",\"request_seq\":1,\"success\":true,\"command\":\"continue\"}",
            "{\"type\":\"response\",\"request_seq\":2,\"success\":false,\"command\":\"dance\",\
             \"message\":\"Command not implemented\"}",
            "{\"type\":\"response\",\"request_seq\":3,\"success\":true,\"command\":\"readMemory\",\
             \"body\":{\"address\":\"0x10\",\"unreadableBytes\":0,\"data\":\"/w==\"}}",
            "{\"type\":\"response\",\"request_seq\":4,\"success\":true,\"command\":\"next\"}",
        ]
    );
}

#[test]
fn texts_without_json_are_told_from_other_messages() {
    let mut server = new_server();
    let text = Incoming::Text("{".to_string());
    let result = handle_incoming(&text, &mut server.engine, &mut server.controller);
    assert!(matches!(result, Err(Unanswered::NotJson)));
    let result = handle_incoming(&Incoming::Other, &mut server.engine, &mut server.controller);
    assert!(matches!(result, Ok(None)));
}
