use mist::dap::{
    dap_error, dap_success, Breakpoint, BreakpointMode, Checksum, ChecksumAlgorithm, DapResponse,
    DebuggerError, InitializeResponseBody, ReadMemoryResponseBody, SetBreakpointsResponseBody,
    SetFunctionBreakpointsResponseBody, Source, Variable,
};
use mist::json::to_text;
use mist::to_json::ToJson;

fn bare_breakpoint(verified: bool) -> Breakpoint {
    Breakpoint {
        verified,
        message: None,
        source: None,
        line: None,
        column: None,
        end_line: None,
        end_column: None,
        instruction_reference: None,
        offset: None,
    }
}

#[test]
fn success_without_a_body() {
    assert_eq!(
        dap_success::<()>(7, "continue", None),
        "{\"type\":\"response\",\"request_seq\":7,\"success\":true,\"command\":\"continue\"}"
    );
}

#[test]
fn success_with_an_empty_body() {
    assert_eq!(
        dap_success(7, "continue", Some(())),
        "{\"type\":\"response\",\"request_seq\":7,\"success\":true,\"command\":\"continue\",\"body\":null}"
    );
}

#[test]
fn success_with_a_body() {
    let body = ReadMemoryResponseBody {
        address: "0x10".to_string(),
        unreadable_bytes: 0,
        data: "Zg==".to_string(),
    };
    assert_eq!(
        dap_success(-1, "readMemory", Some(body)),
        "{\"type\":\"response\",\"request_seq\":-1,\"success\":true,\"command\":\"readMemory\",\
         \"body\":{\"address\":\"0x10\",\"unreadableBytes\":0,\"data\":\"Zg==\"}}"
    );
}

#[test]
fn errors_tell_why() {
    assert_eq!(
        dap_error(3, "dance", "Command not implemented"),
        "{\"type\":\"response\",\"request_seq\":3,\"success\":false,\"command\":\"dance\",\
         \"message\":\"Command not implemented\"}"
    );
    assert_eq!(
        DebuggerError("no \"luck\"".to_string()).to_dap_error(0, ""),
        "{\"type\":\"response\",\"request_seq\":0,\"success\":false,\"command\":\"\",\
         \"message\":\"no \\\"luck\\\"\"}"
    );
}

#[test]
fn responses_can_have_message_and_body() {
    let response = DapResponse {
        msg_type: "response",
        request_seq: 1,
        success: true,
        command: "c".to_string(),
        message: Some("m".to_string()),
        body: Some(true),
    };
    assert_eq!(
        to_text(&response.to_json()),
        "{\"type\":\"response\",\"request_seq\":1,\"success\":true,\"command\":\"c\",\
         \"message\":\"m\",\"body\":true}"
    );
}

#[test]
fn capabilities_have_their_names() {
    let body = InitializeResponseBody {
        supports_configuration_done_request: true,
        supports_function_breakpoints: false,
        supports_modules_request: true,
        supports_read_memory_request: false,
        breakpoint_modes: vec![BreakpointMode {
            mode: "m".to_string(),
            label: "l".to_string(),
            applies_to: vec!["source".to_string()],
        }],
    };
    assert_eq!(
        to_text(&body.to_json()),
        "{\"supportsConfigurationDoneRequest\":true,\"supportsFunctionBreakpoints\":false,\
         \"supportsModulesRequest\":true,\"supportsReadMemoryRequest\":false,\
         \"breakpointModes\":[{\"mode\":\"m\",\"label\":\"l\",\"appliesTo\":[\"source\"]}]}"
    );
}

#[test]
fn breakpoints_write_what_is_missing_as_null() {
    assert_eq!(
        to_text(&bare_breakpoint(true).to_json()),
        "{\"verified\":true,\"message\":null,\"source\":null,\"line\":null,\"column\":null,\
         \"end_line\":null,\"end_column\":null,\"instruction_reference\":null,\"offset\":null}"
    );
}

#[test]
fn breakpoints_write_all_they_have() {
    let breakpoint = Breakpoint {
        verified: false,
        message: Some("m".to_string()),
        source: Some(Source {
            name: Some("n".to_string()),
            path: None,
            origin: None,
            sources: Some(vec![Source {
                name: None,
                path: Some("p".to_string()),
                origin: Some("o".to_string()),
                sources: Some(vec![]),
                checksums: None,
            }]),
            checksums: Some(vec![
                Checksum { algorithm: ChecksumAlgorithm::MD5, checksum: "1".to_string() },
                Checksum { algorithm: ChecksumAlgorithm::SHA1, checksum: "2".to_string() },
                Checksum { algorithm: ChecksumAlgorithm::SHA256, checksum: "3".to_string() },
            ]),
        }),
        line: Some(1),
        column: Some(2),
        end_line: Some(3),
        end_column: Some(u32::MAX),
        instruction_reference: Some("0x10".to_string()),
        offset: Some(u64::MAX),
    };
    assert_eq!(
        to_text(&breakpoint.to_json()),
        "{\"verified\":false,\"message\":\"m\",\"source\":{\"name\":\"n\",\"path\":null,\
         \"origin\":null,\"sources\":[{\"name\":null,\"path\":\"p\",\"origin\":\"o\",\
         \"sources\":[],\"checksums\":null}],\"checksums\":[\
         {\"algorithm\":\"MD5\",\"checksum\":\"1\"},{\"algorithm\":\"SHA1\",\"checksum\":\"2\"},\
         {\"algorithm\":\"SHA256\",\"checksum\":\"3\"}]},\"line\":1,\"column\":2,\"end_line\":3,\
         \"end_column\":4294967295,\"instruction_reference\":\"0x10\",\
         \"offset\":18446744073709551615}"
    );
}

#[test]
fn lists_of_breakpoints_have_one_field() {
    let empty = "{\"breakpoints\":[]}";
    assert_eq!(to_text(&SetBreakpointsResponseBody { breakpoints: vec![] }.to_json()), empty);
    assert_eq!(to_text(&SetFunctionBreakpointsResponseBody { breakpoints: vec![] }.to_json()), empty);
    let one = to_text(&SetBreakpointsResponseBody { breakpoints: vec![bare_breakpoint(false)] }.to_json());
    assert_eq!(one, format!("{{\"breakpoints\":[{}]}}", to_text(&bare_breakpoint(false).to_json())));
}

#[test]
fn variables_name_their_type() {
    let variable = Variable {
        name: "x".to_string(),
        value: "1".to_string(),
        type_text: Some("int".to_string()),
    };
    assert_eq!(to_text(&variable.to_json()), "{\"name\":\"x\",\"value\":\"1\",\"type\":\"int\"}");
}

#[test]
fn algorithms_are_compared_and_copied() {
    assert_eq!(ChecksumAlgorithm::MD5.clone(), ChecksumAlgorithm::MD5);
    assert_ne!(ChecksumAlgorithm::SHA1, ChecksumAlgorithm::SHA256);
}
