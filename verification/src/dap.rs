//! The Debug Adapter Protocol: the bodies of responses, and how they are written.
use vstd::prelude::*;

use crate::json::{to_text, Json, JsonView};
use crate::text::owned;
use crate::to_json::{push_entry, ToJson};

verus! {

/// A mode that a client may give a breakpoint.
pub struct BreakpointMode {
    pub mode: String,
    /// The name that a user sees.
    pub label: String,
    /// The kinds of breakpoint that can have the mode.
    pub applies_to: Vec<String>,
}

impl ToJson for BreakpointMode {
    open spec fn json(&self) -> JsonView {
        JsonView::Object(
            seq![
                ("mode"@, self.mode.json()),
                ("label"@, self.label.json()),
                ("appliesTo"@, self.applies_to.json()),
            ],
        )
    }

    fn to_json(&self) -> (json: Json) {
        let mut entries: Vec<(String, Json)> = Vec::new();
        push_entry(&mut entries, "mode", self.mode.to_json());
        push_entry(&mut entries, "label", self.label.to_json());
        push_entry(&mut entries, "appliesTo", self.applies_to.to_json());
        proof {
            reveal_strlit("mode");
            reveal_strlit("label");
            reveal_strlit("appliesTo");
            crate::to_json::lemma_distinct_keys(crate::json::keys(self.json()->Object_0));
            assert(crate::json::entry_trees(entries@) =~= self.json()->Object_0);
        }
        Json::Object(entries)
    }
}

/// What the debugger can do.
pub struct InitializeResponseBody {
    pub supports_configuration_done_request: bool,
    pub supports_function_breakpoints: bool,
    pub supports_modules_request: bool,
    pub supports_read_memory_request: bool,
    pub breakpoint_modes: Vec<BreakpointMode>,
}

impl ToJson for InitializeResponseBody {
    open spec fn json(&self) -> JsonView {
        JsonView::Object(
            seq![
                ("supportsConfigurationDoneRequest"@, self.supports_configuration_done_request.json()),
                ("supportsFunctionBreakpoints"@, self.supports_function_breakpoints.json()),
                ("supportsModulesRequest"@, self.supports_modules_request.json()),
                ("supportsReadMemoryRequest"@, self.supports_read_memory_request.json()),
                ("breakpointModes"@, self.breakpoint_modes.json()),
            ],
        )
    }

    fn to_json(&self) -> (json: Json) {
        let mut entries: Vec<(String, Json)> = Vec::new();
        push_entry(&mut entries, "supportsConfigurationDoneRequest", self.supports_configuration_done_request.to_json());
        push_entry(&mut entries, "supportsFunctionBreakpoints", self.supports_function_breakpoints.to_json());
        push_entry(&mut entries, "supportsModulesRequest", self.supports_modules_request.to_json());
        push_entry(&mut entries, "supportsReadMemoryRequest", self.supports_read_memory_request.to_json());
        push_entry(&mut entries, "breakpointModes", self.breakpoint_modes.to_json());
        proof {
            reveal_strlit("supportsConfigurationDoneRequest");
            reveal_strlit("supportsFunctionBreakpoints");
            reveal_strlit("supportsModulesRequest");
            reveal_strlit("supportsReadMemoryRequest");
            reveal_strlit("breakpointModes");
            crate::to_json::lemma_distinct_keys(crate::json::keys(self.json()->Object_0));
            assert(crate::json::entry_trees(entries@) =~= self.json()->Object_0);
        }
        Json::Object(entries)
    }
}

/// How a checksum was computed.
#[derive(Debug, Clone, PartialEq, Eq, Hash)]
pub enum ChecksumAlgorithm {
    MD5,
    SHA1,
    SHA256,
}

impl ChecksumAlgorithm {
    /// The name that stands for the algorithm.
    pub open spec fn name_spec(self) -> Seq<char> {
        match self {
            ChecksumAlgorithm::MD5 => "MD5"@,
            ChecksumAlgorithm::SHA1 => "SHA1"@,
            ChecksumAlgorithm::SHA256 => "SHA256"@,
        }
    }
}

impl ToJson for ChecksumAlgorithm {
    open spec fn json(&self) -> JsonView {
        JsonView::Text(self.name_spec())
    }

    fn to_json(&self) -> (json: Json) {
        match self {
            ChecksumAlgorithm::MD5 => Json::Text(owned("MD5")),
            ChecksumAlgorithm::SHA1 => Json::Text(owned("SHA1")),
            ChecksumAlgorithm::SHA256 => Json::Text(owned("SHA256")),
        }
    }
}

/// A checksum of a source.
pub struct Checksum {
    pub algorithm: ChecksumAlgorithm,
    pub checksum: String,
}

impl ToJson for Checksum {
    open spec fn json(&self) -> JsonView {
        JsonView::Object(
            seq![
                ("algorithm"@, self.algorithm.json()),
                ("checksum"@, self.checksum.json()),
            ],
        )
    }

    fn to_json(&self) -> (json: Json) {
        let mut entries: Vec<(String, Json)> = Vec::new();
        push_entry(&mut entries, "algorithm", self.algorithm.to_json());
        push_entry(&mut entries, "checksum", self.checksum.to_json());
        proof {
            reveal_strlit("algorithm");
            reveal_strlit("checksum");
            crate::to_json::lemma_distinct_keys(crate::json::keys(self.json()->Object_0));
            assert(crate::json::entry_trees(entries@) =~= self.json()->Object_0);
        }
        Json::Object(entries)
    }
}

/// A source, which may be made of others.
pub struct Source {
    pub name: Option<String>,
    pub path: Option<String>,
    pub origin: Option<String>,
    pub sources: Option<Vec<Source>>,
    pub checksums: Option<Vec<Checksum>>,
}

/// The JSON value that stands for a source.
pub open spec fn source_tree(source: Source) -> JsonView
    decreases source,
{
    JsonView::Object(
        seq![
            ("name"@, source.name.json()),
            ("path"@, source.path.json()),
            ("origin"@, source.origin.json()),
            (
                "sources"@,
                match source.sources {
                    Some(sources) => JsonView::Array(source_trees(sources@)),
                    None => JsonView::Null,
                },
            ),
            ("checksums"@, source.checksums.json()),
        ],
    )
}

/// The JSON values that stand for several sources.
pub open spec fn source_trees(sources: Seq<Source>) -> Seq<JsonView>
    decreases sources,
{
    if sources.len() == 0 {
        Seq::empty()
    } else {
        source_trees(sources.drop_last()).push(source_tree(sources.last()))
    }
}

/// Builds the JSON value that stands for a source.
fn source_to_json(source: &Source) -> (json: Json)
    ensures
        json@ == source_tree(*source),
        json@.writable(),
    decreases source,
{
    let sources = match &source.sources {
        Some(sources) => {
            let mut items: Vec<Json> = Vec::new();
            let mut i: usize = 0;
            assert(sources@.take(0) =~= Seq::<Source>::empty());
            while i < sources.len()
                invariant
                    i <= sources@.len(),
                    source.sources == Some(*sources),
                    crate::json::trees(items@) == source_trees(sources@.take(i as int)),
                    JsonView::Array(crate::json::trees(items@)).writable(),
                decreases sources@.len() - i,
            {
                proof {
                    assert(decreases_to!(source => source.sources));
                    assert(decreases_to!(source.sources => source.sources->0));
                    assert(decreases_to!(source.sources->0 => source.sources->0@));
                    assert(decreases_to!(source.sources->0@ => source.sources->0@[i as int]));
                }
                let item = source_to_json(&sources[i]);
                let ghost before = items@;
                items.push(item);
                proof {
                    assert(items@.drop_last() =~= before);
                    assert(sources@.take(i + 1).drop_last() =~= sources@.take(i as int));
                    let all = JsonView::Array(crate::json::trees(before));
                    assert forall|j: int| 0 <= j < crate::json::trees(items@).len() implies (
                    #[trigger] crate::json::trees(items@)[j]).writable() by {
                        if j < crate::json::trees(before).len() {
                            assert(all->Array_0[j].writable());
                        }
                    }
                }
                i += 1;
            }
            assert(sources@.take(i as int) =~= sources@);
            Json::Array(items)
        },
        None => Json::Null,
    };
    let mut entries: Vec<(String, Json)> = Vec::new();
    push_entry(&mut entries, "name", source.name.to_json());
    push_entry(&mut entries, "path", source.path.to_json());
    push_entry(&mut entries, "origin", source.origin.to_json());
    push_entry(&mut entries, "sources", sources);
    push_entry(&mut entries, "checksums", source.checksums.to_json());
    proof {
        reveal_strlit("name");
        reveal_strlit("path");
        reveal_strlit("origin");
        reveal_strlit("sources");
        reveal_strlit("checksums");
        crate::to_json::lemma_distinct_keys(crate::json::keys(source_tree(*source)->Object_0));
        assert(crate::json::entry_trees(entries@) =~= source_tree(*source)->Object_0);
    }
    Json::Object(entries)
}

impl ToJson for Source {
    open spec fn json(&self) -> JsonView {
        source_tree(*self)
    }

    fn to_json(&self) -> (json: Json) {
        source_to_json(self)
    }
}

/// What became of a breakpoint that a client asked for.
pub struct Breakpoint {
    /// Whether the breakpoint could be placed.
    pub verified: bool,
    pub message: Option<String>,
    pub source: Option<Source>,
    pub line: Option<u32>,
    pub column: Option<u32>,
    pub end_line: Option<u32>,
    pub end_column: Option<u32>,
    /// The memory address of the breakpoint.
    pub instruction_reference: Option<String>,
    pub offset: Option<u64>,
}

impl ToJson for Breakpoint {
    open spec fn json(&self) -> JsonView {
        JsonView::Object(
            seq![
                ("verified"@, self.verified.json()),
                ("message"@, self.message.json()),
                ("source"@, self.source.json()),
                ("line"@, self.line.json()),
                ("column"@, self.column.json()),
                ("end_line"@, self.end_line.json()),
                ("end_column"@, self.end_column.json()),
                ("instruction_reference"@, self.instruction_reference.json()),
                ("offset"@, self.offset.json()),
            ],
        )
    }

    fn to_json(&self) -> (json: Json) {
        let mut entries: Vec<(String, Json)> = Vec::new();
        push_entry(&mut entries, "verified", self.verified.to_json());
        push_entry(&mut entries, "message", self.message.to_json());
        push_entry(&mut entries, "source", self.source.to_json());
        push_entry(&mut entries, "line", self.line.to_json());
        push_entry(&mut entries, "column", self.column.to_json());
        push_entry(&mut entries, "end_line", self.end_line.to_json());
        push_entry(&mut entries, "end_column", self.end_column.to_json());
        push_entry(&mut entries, "instruction_reference", self.instruction_reference.to_json());
        push_entry(&mut entries, "offset", self.offset.to_json());
        proof {
            reveal_strlit("verified");
            reveal_strlit("message");
            reveal_strlit("source");
            reveal_strlit("line");
            reveal_strlit("column");
            reveal_strlit("end_line");
            reveal_strlit("end_column");
            reveal_strlit("instruction_reference");
            reveal_strlit("offset");
            crate::to_json::lemma_distinct_keys(crate::json::keys(self.json()->Object_0));
            assert(crate::json::entry_trees(entries@) =~= self.json()->Object_0);
        }
        Json::Object(entries)
    }
}

/// A variable of the debugged program.
pub struct Variable {
    pub name: String,
    pub value: String,
    pub type_text: Option<String>,
}

impl ToJson for Variable {
    open spec fn json(&self) -> JsonView {
        JsonView::Object(
            seq![
                ("name"@, self.name.json()),
                ("value"@, self.value.json()),
                ("type"@, self.type_text.json()),
            ],
        )
    }

    fn to_json(&self) -> (json: Json) {
        let mut entries: Vec<(String, Json)> = Vec::new();
        push_entry(&mut entries, "name", self.name.to_json());
        push_entry(&mut entries, "value", self.value.to_json());
        push_entry(&mut entries, "type", self.type_text.to_json());
        proof {
            reveal_strlit("name");
            reveal_strlit("value");
            reveal_strlit("type");
            crate::to_json::lemma_distinct_keys(crate::json::keys(self.json()->Object_0));
            assert(crate::json::entry_trees(entries@) =~= self.json()->Object_0);
        }
        Json::Object(entries)
    }
}

/// What became of the breakpoints in a source.
pub struct SetBreakpointsResponseBody {
    pub breakpoints: Vec<Breakpoint>,
}

impl ToJson for SetBreakpointsResponseBody {
    open spec fn json(&self) -> JsonView {
        JsonView::Object(
            seq![
                ("breakpoints"@, self.breakpoints.json()),
            ],
        )
    }

    fn to_json(&self) -> (json: Json) {
        let mut entries: Vec<(String, Json)> = Vec::new();
        push_entry(&mut entries, "breakpoints", self.breakpoints.to_json());
        proof {
            reveal_strlit("breakpoints");
            crate::to_json::lemma_distinct_keys(crate::json::keys(self.json()->Object_0));
            assert(crate::json::entry_trees(entries@) =~= self.json()->Object_0);
        }
        Json::Object(entries)
    }
}

/// Memory that was read.
pub struct ReadMemoryResponseBody {
    /// Where the memory starts.
    pub address: String,
    pub unreadable_bytes: i64,
    /// The bytes, in Base64.
    pub data: String,
}

impl ToJson for ReadMemoryResponseBody {
    open spec fn json(&self) -> JsonView {
        JsonView::Object(
            seq![
                ("address"@, self.address.json()),
                ("unreadableBytes"@, self.unreadable_bytes.json()),
                ("data"@, self.data.json()),
            ],
        )
    }

    fn to_json(&self) -> (json: Json) {
        let mut entries: Vec<(String, Json)> = Vec::new();
        push_entry(&mut entries, "address", self.address.to_json());
        push_entry(&mut entries, "unreadableBytes", self.unreadable_bytes.to_json());
        push_entry(&mut entries, "data", self.data.to_json());
        proof {
            reveal_strlit("address");
            reveal_strlit("unreadableBytes");
            reveal_strlit("data");
            crate::to_json::lemma_distinct_keys(crate::json::keys(self.json()->Object_0));
            assert(crate::json::entry_trees(entries@) =~= self.json()->Object_0);
        }
        Json::Object(entries)
    }
}

/// What became of the breakpoints on functions.
pub struct SetFunctionBreakpointsResponseBody {
    pub breakpoints: Vec<Breakpoint>,
}

impl ToJson for SetFunctionBreakpointsResponseBody {
    open spec fn json(&self) -> JsonView {
        JsonView::Object(
            seq![
                ("breakpoints"@, self.breakpoints.json()),
            ],
        )
    }

    fn to_json(&self) -> (json: Json) {
        let mut entries: Vec<(String, Json)> = Vec::new();
        push_entry(&mut entries, "breakpoints", self.breakpoints.to_json());
        proof {
            reveal_strlit("breakpoints");
            crate::to_json::lemma_distinct_keys(crate::json::keys(self.json()->Object_0));
            assert(crate::json::entry_trees(entries@) =~= self.json()->Object_0);
        }
        Json::Object(entries)
    }
}

/// A response to a request. Neither a missing message nor a missing body is written.
pub struct DapResponse<T> {
    pub msg_type: &'static str,
    pub request_seq: i64,
    pub success: bool,
    pub command: String,
    pub message: Option<String>,
    pub body: Option<T>,
}

/// The entry of an optional value: none where it is missing.
pub open spec fn optional_entry(key: Seq<char>, value: Option<JsonView>) -> Seq<
    (Seq<char>, JsonView),
> {
    match value {
        Some(value) => seq![(key, value)],
        None => Seq::empty(),
    }
}

/// The JSON value of a response to the request with number `seq`.
pub open spec fn response(
    seq: i64,
    success: bool,
    command: Seq<char>,
    message: Option<Seq<char>>,
    body: Option<JsonView>,
) -> JsonView {
    JsonView::Object(
        seq![
            ("type"@, JsonView::Text("response"@)),
            ("request_seq"@, seq.json()),
            ("success"@, JsonView::Bool(success)),
            ("command"@, JsonView::Text(command)),
        ] + optional_entry(
            "message"@,
            match message {
                Some(message) => Some(JsonView::Text(message)),
                None => None,
            },
        ) + optional_entry("body"@, body),
    )
}

/// The JSON value of an optional body.
pub open spec fn body_tree<T: ToJson>(body: Option<T>) -> Option<JsonView> {
    match body {
        Some(body) => Some(body.json()),
        None => None,
    }
}

/// A response is nested one deeper than its body.
pub proof fn lemma_response_within(
    seq: i64,
    success: bool,
    command: Seq<char>,
    message: Option<Seq<char>>,
    body: Option<JsonView>,
)
    requires
        body is Some ==> body->0.within(126),
    ensures
        response(seq, success, command, message, body).within(127),
{
    let entries = response(seq, success, command, message, body)->Object_0;
    assert forall|i: int| 0 <= i < entries.len() implies (#[trigger] entries[i]).1.within(126) by {
        reveal_with_fuel(JsonView::within, 2);
        if entries[i].1 is Object || entries[i].1 is Array {
            assert(entries[i] == optional_entry("body"@, body)[0]);
        }
    }
}

impl<T: ToJson> ToJson for DapResponse<T> {
    open spec fn json(&self) -> JsonView {
        JsonView::Object(
            seq![
                ("type"@, JsonView::Text(self.msg_type@)),
                ("request_seq"@, self.request_seq.json()),
                ("success"@, self.success.json()),
                ("command"@, self.command.json()),
            ] + optional_entry("message"@, body_tree(self.message)) + optional_entry(
                "body"@,
                body_tree(self.body),
            ),
        )
    }

    fn to_json(&self) -> (json: Json) {
        let mut entries: Vec<(String, Json)> = Vec::new();
        push_entry(&mut entries, "type", Json::Text(owned(self.msg_type)));
        push_entry(&mut entries, "request_seq", self.request_seq.to_json());
        push_entry(&mut entries, "success", self.success.to_json());
        push_entry(&mut entries, "command", self.command.to_json());
        if let Some(message) = &self.message {
            push_entry(&mut entries, "message", message.to_json());
        }
        if let Some(body) = &self.body {
            push_entry(&mut entries, "body", body.to_json());
        }
        proof {
            reveal_strlit("type");
            reveal_strlit("request_seq");
            reveal_strlit("success");
            reveal_strlit("command");
            reveal_strlit("message");
            reveal_strlit("body");
            crate::to_json::lemma_distinct_keys(crate::json::keys(self.json()->Object_0));
            assert(crate::json::entry_trees(entries@) =~= self.json()->Object_0);
        }
        Json::Object(entries)
    }
}

/// A response that a request succeeded; its body is not nested too deeply to be read back.
pub fn dap_success<T: ToJson>(seq: i64, command: &str, body: Option<T>) -> (text: String)
    requires
        match body {
            Some(body) => body.json().within(126),
            None => true,
        },
    ensures
        text@ == crate::json::written(response(seq, true, command@, None, body_tree(body))),
        crate::json::parsed(text@) == Some(response(seq, true, command@, None, body_tree(body))),
{
    let response = DapResponse {
        msg_type: "response",
        request_seq: seq,
        success: true,
        command: owned(command),
        message: None,
        body,
    };
    let json = response.to_json();
    proof {
        lemma_response_within(seq, true, command@, None, body_tree(body));
    }
    assert(json@ == self::response(seq, true, command@, None, body_tree(body)));
    to_text(&json)
}

/// A response that a request failed, and why.
pub fn dap_error(seq: i64, command: &str, message: &str) -> (text: String)
    ensures
        text@ == crate::json::written(response(seq, false, command@, Some(message@), None)),
        crate::json::parsed(text@) == Some(response(seq, false, command@, Some(message@), None)),
{
    let response: DapResponse<()> = DapResponse {
        msg_type: "response",
        request_seq: seq,
        success: false,
        command: owned(command),
        message: Some(owned(message)),
        body: None,
    };
    let json = response.to_json();
    proof {
        lemma_response_within(seq, false, command@, Some(message@), None);
    }
    assert(json@ == self::response(seq, false, command@, Some(message@), None));
    to_text(&json)
}

/// Why a request or a step of the debugger failed.
#[derive(Debug)]
pub struct DebuggerError(pub String);

impl DebuggerError {
    /// The response that a request failed for this reason.
    pub fn to_dap_error(&self, seq: i64, command: &str) -> (text: String)
        ensures
            text@ == crate::json::written(response(seq, false, command@, Some(self.0@), None)),
            crate::json::parsed(text@) == Some(response(seq, false, command@, Some(self.0@), None)),
    {
        dap_error(seq, command, self.0.as_str())
    }
}

/// What a fallible operation of the debugger gives.
pub type DebuggerResult<T> = Result<T, DebuggerError>;

/// A breakpoint is written with these fields and no others, each with the value that it has; what is
/// missing is null.
pub proof fn law_fields_of_a_breakpoint(breakpoint: Breakpoint)
    ensures
        breakpoint.json().field("verified"@) == Some(JsonView::Bool(breakpoint.verified)),
        breakpoint.json().field("message"@) == Some(breakpoint.message.json()),
        breakpoint.json().field("source"@) == Some(breakpoint.source.json()),
        breakpoint.json().field("line"@) == Some(breakpoint.line.json()),
        breakpoint.json().field("column"@) == Some(breakpoint.column.json()),
        breakpoint.json().field("end_line"@) == Some(breakpoint.end_line.json()),
        breakpoint.json().field("end_column"@) == Some(breakpoint.end_column.json()),
        breakpoint.json().field("instruction_reference"@) == Some(breakpoint.instruction_reference.json()),
        breakpoint.json().field("offset"@) == Some(breakpoint.offset.json()),
        breakpoint.json()->Object_0.len() == 9,
{
    let value = breakpoint.json();
    reveal_strlit("verified");
    reveal_strlit("message");
    reveal_strlit("source");
    reveal_strlit("line");
    reveal_strlit("column");
    reveal_strlit("end_line");
    reveal_strlit("end_column");
    reveal_strlit("instruction_reference");
    reveal_strlit("offset");
    crate::to_json::lemma_distinct_keys(crate::json::keys(value->Object_0));
    crate::json::law_fields(value, "verified"@, 0);
    crate::json::law_fields(value, "message"@, 1);
    crate::json::law_fields(value, "source"@, 2);
    crate::json::law_fields(value, "line"@, 3);
    crate::json::law_fields(value, "column"@, 4);
    crate::json::law_fields(value, "end_line"@, 5);
    crate::json::law_fields(value, "end_column"@, 6);
    crate::json::law_fields(value, "instruction_reference"@, 7);
    crate::json::law_fields(value, "offset"@, 8);
}

/// A variable is written with its name, its value and its type, and nothing else.
pub proof fn law_fields_of_a_variable(variable: Variable)
    ensures
        variable.json().field("name"@) == Some(JsonView::Text(variable.name@)),
        variable.json().field("value"@) == Some(JsonView::Text(variable.value@)),
        variable.json().field("type"@) == Some(variable.type_text.json()),
        variable.json()->Object_0.len() == 3,
{
    let value = variable.json();
    reveal_strlit("name");
    reveal_strlit("value");
    reveal_strlit("type");
    crate::to_json::lemma_distinct_keys(crate::json::keys(value->Object_0));
    crate::json::law_fields(value, "name"@, 0);
    crate::json::law_fields(value, "value"@, 1);
    crate::json::law_fields(value, "type"@, 2);
}

/// A source is written with these fields and no others; what it is made of is a list, or null.
pub proof fn law_fields_of_a_source(source: Source)
    ensures
        source.json().field("name"@) == Some(source.name.json()),
        source.json().field("path"@) == Some(source.path.json()),
        source.json().field("origin"@) == Some(source.origin.json()),
        source.json().field("sources"@) == Some(match source.sources {
            Some(sources) => JsonView::Array(source_trees(sources@)),
            None => JsonView::Null,
        }),
        source.json().field("checksums"@) == Some(source.checksums.json()),
        source.json()->Object_0.len() == 5,
{
    let value = source.json();
    reveal_strlit("name");
    reveal_strlit("path");
    reveal_strlit("origin");
    reveal_strlit("sources");
    reveal_strlit("checksums");
    crate::to_json::lemma_distinct_keys(crate::json::keys(value->Object_0));
    crate::json::law_fields(value, "name"@, 0);
    crate::json::law_fields(value, "path"@, 1);
    crate::json::law_fields(value, "origin"@, 2);
    crate::json::law_fields(value, "sources"@, 3);
    crate::json::law_fields(value, "checksums"@, 4);
}

/// A checksum is written with its algorithm and itself.
pub proof fn law_fields_of_a_checksum(checksum: Checksum)
    ensures
        checksum.json().field("algorithm"@) == Some(JsonView::Text(match checksum.algorithm {
            ChecksumAlgorithm::MD5 => "MD5"@,
            ChecksumAlgorithm::SHA1 => "SHA1"@,
            ChecksumAlgorithm::SHA256 => "SHA256"@,
        })),
        checksum.json().field("checksum"@) == Some(JsonView::Text(checksum.checksum@)),
        checksum.json()->Object_0.len() == 2,
{
    let value = checksum.json();
    reveal_strlit("algorithm");
    reveal_strlit("checksum");
    crate::to_json::lemma_distinct_keys(crate::json::keys(value->Object_0));
    crate::json::law_fields(value, "algorithm"@, 0);
    crate::json::law_fields(value, "checksum"@, 1);
}

/// A breakpoint mode is written with itself, its label and what it applies to.
pub proof fn law_fields_of_a_mode(mode: BreakpointMode)
    ensures
        mode.json().field("mode"@) == Some(JsonView::Text(mode.mode@)),
        mode.json().field("label"@) == Some(JsonView::Text(mode.label@)),
        mode.json().field("appliesTo"@) == Some(mode.applies_to.json()),
        mode.json()->Object_0.len() == 3,
{
    let value = mode.json();
    reveal_strlit("mode");
    reveal_strlit("label");
    reveal_strlit("appliesTo");
    crate::to_json::lemma_distinct_keys(crate::json::keys(value->Object_0));
    crate::json::law_fields(value, "mode"@, 0);
    crate::json::law_fields(value, "label"@, 1);
    crate::json::law_fields(value, "appliesTo"@, 2);
}

/// What the debugger can do is written with these fields and no others, each with the value that it
/// has.
pub proof fn law_fields_of_capabilities(body: InitializeResponseBody)
    ensures
        body.json().field("supportsConfigurationDoneRequest"@) == Some(JsonView::Bool(body.supports_configuration_done_request)),
        body.json().field("supportsFunctionBreakpoints"@) == Some(JsonView::Bool(body.supports_function_breakpoints)),
        body.json().field("supportsModulesRequest"@) == Some(JsonView::Bool(body.supports_modules_request)),
        body.json().field("supportsReadMemoryRequest"@) == Some(JsonView::Bool(body.supports_read_memory_request)),
        body.json().field("breakpointModes"@) == Some(body.breakpoint_modes.json()),
        body.json()->Object_0.len() == 5,
{
    let value = body.json();
    reveal_strlit("supportsConfigurationDoneRequest");
    reveal_strlit("supportsFunctionBreakpoints");
    reveal_strlit("supportsModulesRequest");
    reveal_strlit("supportsReadMemoryRequest");
    reveal_strlit("breakpointModes");
    crate::to_json::lemma_distinct_keys(crate::json::keys(value->Object_0));
    crate::json::law_fields(value, "supportsConfigurationDoneRequest"@, 0);
    crate::json::law_fields(value, "supportsFunctionBreakpoints"@, 1);
    crate::json::law_fields(value, "supportsModulesRequest"@, 2);
    crate::json::law_fields(value, "supportsReadMemoryRequest"@, 3);
    crate::json::law_fields(value, "breakpointModes"@, 4);
}

/// Memory is written with its address, how much of it could not be read, and its bytes.
pub proof fn law_fields_of_memory(body: ReadMemoryResponseBody)
    ensures
        body.json().field("address"@) == Some(JsonView::Text(body.address@)),
        body.json().field("unreadableBytes"@) == Some(JsonView::Number(Some(body.unreadable_bytes as i128))),
        body.json().field("data"@) == Some(JsonView::Text(body.data@)),
        body.json()->Object_0.len() == 3,
{
    let value = body.json();
    reveal_strlit("address");
    reveal_strlit("unreadableBytes");
    reveal_strlit("data");
    crate::to_json::lemma_distinct_keys(crate::json::keys(value->Object_0));
    crate::json::law_fields(value, "address"@, 0);
    crate::json::law_fields(value, "unreadableBytes"@, 1);
    crate::json::law_fields(value, "data"@, 2);
}

/// Sources in a list are written one by one, in their order.
pub proof fn law_sources_of_a_source(sources: Seq<Source>)
    ensures
        source_trees(sources).len() == sources.len(),
        forall|i: int|
            0 <= i < sources.len() ==> #[trigger] source_trees(sources)[i] == sources[i].json(),
    decreases sources.len(),
{
    if sources.len() > 0 {
        law_sources_of_a_source(sources.drop_last());
        assert forall|i: int| 0 <= i < sources.len() implies #[trigger] source_trees(sources)[i]
            == sources[i].json() by {
            if i < sources.len() - 1 {
                assert(source_trees(sources.drop_last())[i] == sources.drop_last()[i].json());
            }
        }
    }
}

} // verus!
