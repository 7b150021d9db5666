use mist::connection::Incoming;
use mist::line_server::{handle_incoming, handle_message, DebuggerState};

fn tell(state: &mut DebuggerState, message: &str) -> String {
    match handle_message(message, state) {
        Ok(text) => text,
        Err(_) => panic!("no answer to {}", message),
    }
}

const PLACED: &str = "{\"verified\":true,\"message\":null,\"source\":null,\"line\":null,\
     \"column\":null,\"end_line\":null,\"end_column\":null,\"instruction_reference\":null,\
     \"offset\":null}";

#[test]
fn line_server_breaks_at_no_functions() {
    let mut state = DebuggerState::default();
    let answer = tell(&mut state, "{\"seq\":1,\"command\":\"initialize\"}");
    assert_eq!(
        answer,
        "{\"type\":\"response\",\"request_seq\":1,\"success\":true,\"command\":\"initialize\",\
         \"body\":{\"supportsConfigurationDoneRequest\":true,\"supportsFunctionBreakpoints\":false,\
         \"supportsModulesRequest\":false,\"supportsReadMemoryRequest\":false,\"breakpointModes\":[\
         {\"mode\":\"software\",\"label\":\"Software Breakpoint\",\
         \"appliesTo\":[\"source\",\"instruction\"]},\
         {\"mode\":\"hardware\",\"label\":\"Hardware Breakpoint\",\
         \"appliesTo\":[\"source\",\"instruction\"]}]}}"
    );
    assert!(state.breakpoints.is_empty());
}

#[test]
fn lines_are_remembered() {
    let mut state = DebuggerState::default();
    let answer = tell(
        &mut state,
        "{\"seq\":2,\"command\":\"setBreakpoints\",\"arguments\":{\"breakpoints\":[\
         {\"line\":12},{\"line\":\"x\"},{\"column\":1},{\"line\":-3}]}}",
    );
    assert_eq!(
        answer,
        format!(
            "{{\"type\":\"response\",\"request_seq\":2,\"success\":true,\
             \"command\":\"setBreakpoints\",\"body\":{{\"breakpoints\":[{0},{0}]}}}}",
            PLACED
        )
    );
    assert_eq!(state.breakpoints, vec!["line: 12", "line: -3"]);
}

#[test]
fn the_last_lines_stay() {
    let mut state = DebuggerState::default();
    tell(&mut state, "{\"command\":\"setBreakpoints\",\"arguments\":{\"breakpoints\":[{\"line\":1}]}}");
    tell(&mut state, "{\"command\":\"setBreakpoints\",\"arguments\":{\"breakpoints\":[{\"line\":2}]}}");
    assert_eq!(state.breakpoints, vec!["line: 2"]);
    tell(&mut state, "{\"command\":\"initialize\"}");
    assert_eq!(state.breakpoints, vec!["line: 2"]);
    tell(&mut state, "{\"command\":\"setBreakpoints\"}");
    assert!(state.breakpoints.is_empty());
}

#[test]
fn line_server_refuses_other_commands() {
    let mut state = DebuggerState::default();
    assert_eq!(
        tell(&mut state, "{\"seq\":9,\"command\":\"next\"}"),
        "{\"type\":\"response\",\"request_seq\":9,\"success\":false,\"command\":\"next\",\
         \"message\":\"Command not implemented\"}"
    );
}

#[test]
fn line_server_does_not_answer_other_text() {
    assert!(handle_message("hello", &mut DebuggerState::default()).is_err());
}

#[test]
fn line_server_answers_texts_only() {
    let mut state = DebuggerState::default();
    let text = Incoming::Text("{\"seq\":3,\"command\":\"setBreakpoints\"}".to_string());
    match handle_incoming(&text, &mut state) {
        Ok(Some(answer)) => assert_eq!(
            answer,
            "{\"type\":\"response\",\"request_seq\":3,\"success\":true,\
             \"command\":\"setBreakpoints\",\"body\":{\"breakpoints\":[]}}"
        ),
        _ => panic!(),
    }
    assert!(matches!(handle_incoming(&Incoming::Other, &mut state), Ok(None)));
    let broken = Incoming::Text("hello".to_string());
    assert!(handle_incoming(&broken, &mut state).is_err());
}
