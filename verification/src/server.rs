//! The protocol server: what each request does, and how it is answered.
use vstd::prelude::*;

use crate::connection::Incoming;
use crate::dap::{
    dap_success, Breakpoint, BreakpointMode, DebuggerError, DebuggerResult, InitializeResponseBody,
    ReadMemoryResponseBody, SetBreakpointsResponseBody, SetFunctionBreakpointsResponseBody,
};
use crate::debug_controller::{DebugCommand, DebugController};
use crate::debug_engine::{
    is_readable, memory_read, parse_address_literal, read_memory, set_requested_function_breakpoints, DebugEngine,
    EngineView,
};
use crate::encoding::to_base64;
use crate::json::{self, integer_of, items_of, parse, text_of, Json, JsonView};
use crate::symbols::BareDigits;
use crate::system::{Address, Call, Reply};
use crate::task::refusal;
use crate::text::{self, debug_text, hex_text, joined, owned, same_text};

verus! {

/// How many bytes are read where the request does not say.
pub const DEFAULT_READ_SIZE: i64 = 0x1000;

/// What a request asks for.
pub enum Plan {
    /// To hear what the debugger can do.
    Initialize,
    /// To break at the functions with these names, and nowhere else.
    BreakAtFunctions(Seq<Seq<char>>),
    /// To break at so many places in a source.
    BreakInSource(nat),
    /// To read memory.
    Read(Address, i64),
    /// To let the debuggee run.
    Resume(DebugCommand),
    /// What is refused, and why.
    Refuse(Seq<char>),
}

/// The command of a request; none is the empty text.
pub open spec fn command_of(request: JsonView) -> Seq<char> {
    match json::as_text(request.field("command"@)) {
        Some(command) => command,
        None => Seq::empty(),
    }
}

/// The number of a request; none is zero.
pub open spec fn sequence_of(request: JsonView) -> i64 {
    match json::as_integer(request.field("seq"@)) {
        Some(number) => number,
        None => 0,
    }
}

/// The breakpoints that a request lists.
pub open spec fn listed_breakpoints(request: JsonView) -> Seq<JsonView> {
    json::as_items(request.inner_field("arguments"@, "breakpoints"@))
}

/// The names of those breakpoints that have one, in order.
pub open spec fn names_of(breakpoints: Seq<JsonView>) -> Seq<Seq<char>>
    decreases breakpoints.len(),
{
    if breakpoints.len() == 0 {
        Seq::empty()
    } else {
        let earlier = names_of(breakpoints.drop_last());
        match json::as_text(breakpoints.last().field("name"@)) {
            Some(name) => earlier.push(name),
            None => earlier,
        }
    }
}

/// The text of the address that a request to read memory names; it is read as the engine reads
/// addresses, digits alone in hexadecimal.
pub open spec fn address_text(request: JsonView) -> Seq<char> {
    match json::as_text(request.inner_field("arguments"@, "offset"@)) {
        Some(address) => address,
        None => Seq::empty(),
    }
}

/// How many bytes a request to read memory asks for.
pub open spec fn count_of(request: JsonView) -> i64 {
    match json::as_integer(request.inner_field("arguments"@, "count"@)) {
        Some(count) => count,
        None => DEFAULT_READ_SIZE,
    }
}

/// What a request asks for.
pub open spec fn plan(request: JsonView) -> Plan {
    let command = command_of(request);
    if command == "initialize"@ {
        Plan::Initialize
    } else if command == "setFunctionBreakpoints"@ {
        Plan::BreakAtFunctions(names_of(listed_breakpoints(request)))
    } else if command == "setBreakpoints"@ {
        Plan::BreakInSource(listed_breakpoints(request).len())
    } else if command == "readMemory"@ {
        match crate::symbols::address_literal(address_text(request), BareDigits::Hexadecimal) {
            Some(address) => Plan::Read(address, count_of(request)),
            None => Plan::Refuse("Invalid memory address: "@ + address_text(request)),
        }
    } else if command == "continue"@ {
        Plan::Resume(DebugCommand::Continue)
    } else if command == "stepIn"@ {
        Plan::Resume(DebugCommand::StepIn)
    } else if command == "stepOut"@ {
        Plan::Resume(DebugCommand::StepOut)
    } else if command == "next"@ {
        Plan::Resume(DebugCommand::StepOver)
    } else {
        Plan::Refuse("Command not implemented"@)
    }
}

/// A breakpoint mode for sources and instructions, in JSON.
pub open spec fn mode_tree(mode: Seq<char>, label: Seq<char>) -> JsonView {
    JsonView::Object(
        seq![
            ("mode"@, JsonView::Text(mode)),
            ("label"@, JsonView::Text(label)),
            (
                "appliesTo"@,
                JsonView::Array(seq![JsonView::Text("source"@), JsonView::Text("instruction"@)]),
            ),
        ],
    )
}

/// What a debugger can do, in JSON: whether it breaks at functions and reads memory, beside what
/// every one does.
pub open spec fn capabilities(functions: bool, memory: bool) -> JsonView {
    JsonView::Object(
        seq![
            ("supportsConfigurationDoneRequest"@, JsonView::Bool(true)),
            ("supportsFunctionBreakpoints"@, JsonView::Bool(functions)),
            ("supportsModulesRequest"@, JsonView::Bool(false)),
            ("supportsReadMemoryRequest"@, JsonView::Bool(memory)),
            (
                "breakpointModes"@,
                JsonView::Array(
                    seq![
                        mode_tree("software"@, "Software Breakpoint"@),
                        mode_tree("hardware"@, "Hardware Breakpoint"@),
                    ],
                ),
            ),
        ],
    )
}

/// A breakpoint of which only this is told: whether it could be placed.
pub open spec fn breakpoint_tree(verified: bool) -> JsonView {
    JsonView::Object(
        seq![
            ("verified"@, JsonView::Bool(verified)),
            ("message"@, JsonView::Null),
            ("source"@, JsonView::Null),
            ("line"@, JsonView::Null),
            ("column"@, JsonView::Null),
            ("end_line"@, JsonView::Null),
            ("end_column"@, JsonView::Null),
            ("instruction_reference"@, JsonView::Null),
            ("offset"@, JsonView::Null),
        ],
    )
}

/// A list of such breakpoints.
pub open spec fn breakpoints_tree(verified: Seq<bool>) -> JsonView {
    JsonView::Object(
        seq![
            (
                "breakpoints"@,
                JsonView::Array(verified.map_values(|verified: bool| breakpoint_tree(verified))),
            ),
        ],
    )
}

/// Memory that was read, in JSON.
pub open spec fn memory_tree(address: Address, bytes: Seq<u8>) -> JsonView {
    JsonView::Object(
        seq![
            ("address"@, JsonView::Text(seq!['0', 'x'] + text::numeral(address as nat, 16))),
            ("unreadableBytes"@, JsonView::Number(Some(0))),
            ("data"@, JsonView::Text(crate::encoding::base64(bytes))),
        ],
    )
}

/// Whether a text is how a JSON value is written, and reads back as that value.
pub open spec fn says(text: Seq<char>, value: JsonView) -> bool {
    text == json::written(value) && json::parsed(text) == Some(value)
}

/// The answer to a request that succeeded.
pub open spec fn success(request: JsonView, body: Option<JsonView>) -> JsonView {
    crate::dap::response(sequence_of(request), true, command_of(request), None, body)
}

/// The answer to a request that failed.
pub open spec fn failed(request: JsonView, message: Seq<char>) -> JsonView {
    crate::dap::response(sequence_of(request), false, command_of(request), Some(message), None)
}

/// The message of a failed attempt to read memory, from the system's account of it.
pub open spec fn read_failure(error: Seq<char>) -> Seq<char> {
    "Failed to read memory: DebuggerError("@ + text::debug_form(
        "ReadProcessMemory failed: "@ + error,
    ) + ")"@
}

/// Whether the buffer can be had that a request to read memory needs.
pub open spec fn answerable(request: JsonView) -> bool {
    match plan(request) {
        Plan::Read(_, count) => count as usize <= isize::MAX,
        _ => true,
    }
}

/// The answer to a request, given the engine before it; memory has to be read first.
pub open spec fn answer_tree(request: JsonView, engine: EngineView) -> Option<JsonView> {
    match plan(request) {
        Plan::Initialize => Some(success(request, Some(capabilities(true, true)))),
        Plan::BreakAtFunctions(names) => Some(
            success(
                request,
                Some(
                    breakpoints_tree(
                        names.map_values(|name: Seq<char>| engine.symbols.known(name, BareDigits::Hexadecimal)),
                    ),
                ),
            ),
        ),
        Plan::BreakInSource(count) => Some(
            success(request, Some(breakpoints_tree(Seq::new(count, |i: int| false)))),
        ),
        Plan::Read(_, _) => None,
        Plan::Resume(_) => Some(success(request, None)),
        Plan::Refuse(message) => Some(failed(request, message)),
    }
}

/// The engine after a request.
pub open spec fn engine_after(request: JsonView, engine: EngineView) -> EngineView {
    match plan(request) {
        Plan::BreakAtFunctions(names) => EngineView { requested: names, dirty: true, ..engine },
        _ => engine,
    }
}

/// The controller after a request.
pub open spec fn controller_after(
    request: JsonView,
    state: crate::debug_controller::ControllerState,
) -> crate::debug_controller::ControllerState {
    match plan(request) {
        Plan::Resume(command) => state.with_command(command),
        _ => state,
    }
}

/// A request to read memory that waits for the memory.
#[derive(Debug, Clone, Copy)]
pub struct PendingRead {
    pub sequence: i64,
    pub address: Address,
    pub call: Call,
}

/// What a request leads to.
pub enum Answer {
    /// This is sent back.
    Text(String),
    /// The memory is read, and the answer made from that.
    Read(PendingRead),
}

/// The read that a request to read memory asks for.
pub open spec fn pending_read(request: JsonView, engine: EngineView) -> PendingRead
    recommends
        plan(request) is Read,
{
    let address = plan(request)->Read_0;
    let count = plan(request)->Read_1 as usize;
    PendingRead {
        sequence: sequence_of(request),
        address,
        call: Call::ReadMemory { process: engine.process, address, count },
    }
}

/// Whether the memory is read that the request asks for.
pub open spec fn reads(request: JsonView, engine: EngineView, pending: PendingRead) -> bool {
    plan(request) is Read && pending == pending_read(request, engine)
}

/// The answer to a request to read memory, made from what became of the read.
pub open spec fn read_answer(pending: PendingRead, read: Reply) -> JsonView
    recommends
        read is Bytes || read is Failed,
{
    match read {
        Reply::Bytes(bytes) => crate::dap::response(
            pending.sequence,
            true,
            "readMemory"@,
            None,
            Some(memory_tree(pending.address, bytes@)),
        ),
        Reply::Failed(error) => crate::dap::response(
            pending.sequence,
            false,
            "readMemory"@,
            Some(read_failure(error@)),
            None,
        ),
        _ => JsonView::Null,
    }
}

/// The reply to a request, given the engine before it and, where it asks for memory, what became
/// of the read.
pub open spec fn reply_to(request: JsonView, engine: EngineView, read: Reply) -> JsonView {
    match answer_tree(request, engine) {
        Some(answer) => answer,
        None => read_answer(pending_read(request, engine), read),
    }
}

/// A breakpoint of which only this is told: whether it could be placed.
fn plain_breakpoint(verified: bool) -> (breakpoint: Breakpoint)
    ensures
        crate::to_json::ToJson::json(&breakpoint) == breakpoint_tree(verified),
{
    Breakpoint {
        verified,
        message: None,
        source: None,
        line: None,
        column: None,
        end_line: None,
        end_column: None,
        instruction_reference: None,
        offset: None,
    }
}

/// What a debugger can do.
pub fn initialize_body(functions: bool, memory: bool) -> (body: InitializeResponseBody)
    ensures
        crate::to_json::ToJson::json(&body) == capabilities(functions, memory),
{
    let software = BreakpointMode {
        mode: owned("software"),
        label: owned("Software Breakpoint"),
        applies_to: vec![owned("source"), owned("instruction")],
    };
    let hardware = BreakpointMode {
        mode: owned("hardware"),
        label: owned("Hardware Breakpoint"),
        applies_to: vec![owned("source"), owned("instruction")],
    };
    let body = InitializeResponseBody {
        supports_configuration_done_request: true,
        supports_function_breakpoints: functions,
        supports_modules_request: false,
        supports_read_memory_request: memory,
        breakpoint_modes: vec![software, hardware],
    };
    proof {
        assert(crate::to_json::ToJson::json(&software.applies_to)->Array_0 =~= seq![
            JsonView::Text("source"@),
            JsonView::Text("instruction"@),
        ]);
        assert(crate::to_json::ToJson::json(&hardware.applies_to)->Array_0 =~= seq![
            JsonView::Text("source"@),
            JsonView::Text("instruction"@),
        ]);
        assert(crate::to_json::ToJson::json(&body.breakpoint_modes)->Array_0 =~= seq![
            mode_tree("software"@, "Software Breakpoint"@),
            mode_tree("hardware"@, "Hardware Breakpoint"@),
        ]);
    }
    body
}

/// One breakpoint for each flag.
pub fn plain_breakpoints(verified: &Vec<bool>) -> (breakpoints: Vec<Breakpoint>)
    ensures
        crate::to_json::ToJson::json(&breakpoints) == JsonView::Array(
            verified@.map_values(|verified: bool| breakpoint_tree(verified)),
        ),
{
    let mut breakpoints: Vec<Breakpoint> = Vec::new();
    let mut i: usize = 0;
    while i < verified.len()
        invariant
            i <= verified@.len(),
            breakpoints@.len() == i,
            forall|j: int|
                0 <= j < i ==> crate::to_json::ToJson::json(&#[trigger] breakpoints@[j])
                    == breakpoint_tree(verified@[j]),
        decreases verified@.len() - i,
    {
        breakpoints.push(plain_breakpoint(verified[i]));
        i += 1;
    }
    assert(crate::to_json::ToJson::json(&breakpoints)->Array_0 =~= verified@.map_values(
        |verified: bool| breakpoint_tree(verified),
    ));
    breakpoints
}

/// The command of a request.
pub fn request_command(request: &Json) -> (command: &str)
    ensures
        command@ == command_of(request@),
{
    proof {
        reveal_strlit("");
    }
    match text_of(request.get("command")) {
        Some(command) => command,
        None => "",
    }
}

/// The number of a request.
pub fn request_sequence(request: &Json) -> (sequence: i64)
    ensures
        sequence == sequence_of(request@),
{
    match integer_of(request.get("seq")) {
        Some(sequence) => sequence,
        None => 0,
    }
}

/// The names of the functions at which a request asks to break.
fn requested_names(request: &Json) -> (names: Vec<String>)
    ensures
        crate::symbols::names_view(names@) == names_of(listed_breakpoints(request@)),
{
    let mut names: Vec<String> = Vec::new();
    if let Some(breakpoints) = items_of(request.get_inner("arguments", "breakpoints")) {
        proof {
            json::lemma_trees(breakpoints@);
        }
        let ghost listed = json::trees(breakpoints@);
        let mut i: usize = 0;
        assert(crate::symbols::names_view(names@) =~= names_of(listed.take(0)));
        while i < breakpoints.len()
            invariant
                i <= breakpoints@.len(),
                listed.len() == breakpoints@.len(),
                forall|j: int|
                    0 <= j < listed.len() ==> #[trigger] listed[j] == json::tree(breakpoints@[j]),
                crate::symbols::names_view(names@) == names_of(listed.take(i as int)),
            decreases breakpoints@.len() - i,
        {
            assert(listed.take(i + 1).drop_last() =~= listed.take(i as int));
            assert(listed.take(i + 1).last() == json::tree(breakpoints@[i as int]));
            if let Some(name) = text_of(breakpoints[i].get("name")) {
                let ghost before = names@;
                names.push(owned(name));
                assert(crate::symbols::names_view(names@) =~= crate::symbols::names_view(
                    before,
                ).push(name@));
            }
            i += 1;
        }
        assert(listed.take(i as int) =~= listed);
    }
    assert(names@.len() == 0 ==> crate::symbols::names_view(names@) =~= Seq::empty());
    names
}

/// A flag for each breakpoint that a request lists: none of them can be placed in a source.
fn unplaced_breakpoints(request: &Json) -> (verified: Vec<bool>)
    ensures
        verified@ == Seq::new(listed_breakpoints(request@).len(), |i: int| false),
{
    let mut verified: Vec<bool> = Vec::new();
    if let Some(breakpoints) = items_of(request.get_inner("arguments", "breakpoints")) {
        proof {
            json::lemma_trees(breakpoints@);
        }
        let mut i: usize = 0;
        while i < breakpoints.len()
            invariant
                i <= breakpoints@.len(),
                verified@ == Seq::new(i as nat, |j: int| false),
            decreases breakpoints@.len() - i,
        {
            verified.push(false);
            i += 1;
        }
    }
    verified
}

/// No body of an answer is nested deeply.
pub proof fn lemma_bodies_are_shallow(verified: Seq<bool>, address: Address, bytes: Seq<u8>)
    ensures
        capabilities(true, true).within(126),
        capabilities(false, false).within(126),
        breakpoints_tree(verified).within(126),
        memory_tree(address, bytes).within(126),
{
    reveal_with_fuel(JsonView::within, 5);
}

/// Carries out a request, as far as that takes no memory of the debuggee.
pub fn handle_dap_message(
    request: &Json,
    engine: &mut DebugEngine,
    controller: &mut DebugController,
) -> (result: DebuggerResult<Answer>)
    requires
        answerable(request@),
    ensures
        match result {
            Ok(Answer::Text(text)) => !(plan(request@) is Refuse) && answer_tree(
                request@,
                old(engine)@,
            ) is Some && says(text@, answer_tree(request@, old(engine)@)->0),
            Ok(Answer::Read(pending)) => reads(request@, old(engine)@, pending),
            Err(error) => plan(request@) == Plan::Refuse(error.0@),
        },
        final(engine)@ == engine_after(request@, old(engine)@),
        final(controller).state == controller_after(request@, old(controller).state),
{
    let command = request_command(request);
    let sequence = request_sequence(request);
    proof {
        lemma_bodies_are_shallow(Seq::empty(), 0, Seq::empty());
    }
    if same_text(command, "initialize") {
        Ok(Answer::Text(dap_success(sequence, "initialize", Some(initialize_body(true, true)))))
    } else if same_text(command, "setFunctionBreakpoints") {
        let names = requested_names(request);
        let known = set_requested_function_breakpoints(engine, names);
        proof {
            lemma_bodies_are_shallow(known@, 0, Seq::empty());
        }
        let body = SetFunctionBreakpointsResponseBody { breakpoints: plain_breakpoints(&known) };
        Ok(Answer::Text(dap_success(sequence, "setFunctionBreakpoints", Some(body))))
    } else if same_text(command, "setBreakpoints") {
        let verified = unplaced_breakpoints(request);
        proof {
            lemma_bodies_are_shallow(verified@, 0, Seq::empty());
        }
        let body = SetBreakpointsResponseBody { breakpoints: plain_breakpoints(&verified) };
        Ok(Answer::Text(dap_success(sequence, "setBreakpoints", Some(body))))
    } else if same_text(command, "readMemory") {
        plan_read(request, engine)
    } else if same_text(command, "continue") {
        controller.submit(DebugCommand::Continue);
        Ok(Answer::Text(dap_success::<()>(sequence, "continue", None)))
    } else if same_text(command, "stepIn") {
        controller.submit(DebugCommand::StepIn);
        Ok(Answer::Text(dap_success::<()>(sequence, "stepIn", None)))
    } else if same_text(command, "stepOut") {
        controller.submit(DebugCommand::StepOut);
        Ok(Answer::Text(dap_success::<()>(sequence, "stepOut", None)))
    } else if same_text(command, "next") {
        controller.submit(DebugCommand::StepOver);
        Ok(Answer::Text(dap_success::<()>(sequence, "next", None)))
    } else {
        refusal("Command not implemented")
    }
}

/// The address and the size that a request to read memory gives.
fn requested_read(request: &Json) -> (read: DebuggerResult<(Address, i64)>)
    requires
        command_of(request@) == "readMemory"@,
    ensures
        match read {
            Ok((address, count)) => plan(request@) == Plan::Read(address, count),
            Err(error) => plan(request@) == Plan::Refuse(error.0@),
        },
{
    proof {
        reveal_strlit("");
        lemma_commands_differ();
    }
    let address_text = match text_of(request.get_inner("arguments", "offset")) {
        Some(address) => address,
        None => "",
    };
    let count = match integer_of(request.get_inner("arguments", "count")) {
        Some(count) => count,
        None => DEFAULT_READ_SIZE,
    };
    match parse_address_literal(address_text) {
        Some(address) => Ok((address, count)),
        None => Err(DebuggerError(joined("Invalid memory address: ", address_text))),
    }
}

/// The commands are told apart by their first characters and their lengths.
proof fn lemma_commands_differ()
    ensures
        "readMemory"@ != "initialize"@,
        "readMemory"@ != "setFunctionBreakpoints"@,
        "readMemory"@ != "setBreakpoints"@,
{
    reveal_strlit("readMemory");
    reveal_strlit("initialize");
    reveal_strlit("setFunctionBreakpoints");
    reveal_strlit("setBreakpoints");
    assert("readMemory"@[0] == 'r');
    assert("initialize"@[0] == 'i');
}

/// The read that a request to read memory asks for.
fn plan_read(request: &Json, engine: &DebugEngine) -> (result: DebuggerResult<Answer>)
    requires
        command_of(request@) == "readMemory"@,
        answerable(request@),
    ensures
        match result {
            Ok(Answer::Text(text)) => false,
            Ok(Answer::Read(pending)) => reads(request@, engine@, pending),
            Err(error) => plan(request@) == Plan::Refuse(error.0@),
        },
{
    match requested_read(request) {
        Ok((address, count)) => Ok(
            Answer::Read(
                PendingRead {
                    sequence: request_sequence(request),
                    address,
                    call: read_memory(engine, address, count),
                },
            ),
        ),
        Err(error) => Err(error),
    }
}

/// The answer to a request to read memory, made from what became of the read.
pub fn finish_read_memory(pending: &PendingRead, reply: Reply) -> (result: DebuggerResult<String>)
    requires
        match reply {
            Reply::Bytes(bytes) => crate::encoding::base64_len(bytes@.len()) <= isize::MAX,
            _ => reply is Failed,
        },
    ensures
        match reply {
            Reply::Bytes(bytes) => result is Ok && says(
                result->Ok_0@,
                crate::dap::response(
                    pending.sequence,
                    true,
                    "readMemory"@,
                    None,
                    Some(memory_tree(pending.address, bytes@)),
                ),
            ),
            Reply::Failed(error) => result is Err && result->Err_0.0@ == read_failure(error@),
            _ => true,
        },
{
    match memory_read(reply) {
        Ok(bytes) => {
            proof {
                lemma_bodies_are_shallow(Seq::empty(), pending.address, bytes@);
            }
            let body = ReadMemoryResponseBody {
                address: hex_text(pending.address),
                unreadable_bytes: 0,
                data: to_base64(&bytes),
            };
            assert(crate::to_json::ToJson::json(&body)->Object_0 =~= memory_tree(
                pending.address,
                bytes@,
            )->Object_0);
            Ok(dap_success(pending.sequence, "readMemory", Some(body)))
        },
        Err(error) => {
            let message = joined(
                joined(
                    "Failed to read memory: DebuggerError(",
                    debug_text(error.0.as_str()).as_str(),
                ).as_str(),
                ")",
            );
            Err(DebuggerError(message))
        },
    }
}

/// Why a message gets no answer at all.
#[derive(Debug, Clone, Copy, PartialEq, Eq, Structural)]
pub enum Unanswered {
    /// The message is no JSON.
    NotJson,
    /// No buffer can be had for the memory that the request asks for.
    NoBuffer,
}

/// Whether the buffer can be had that a request to read memory needs.
fn is_answerable(request: &Json) -> (possible: bool)
    ensures
        possible == answerable(request@),
{
    if same_text(request_command(request), "readMemory") {
        match requested_read(request) {
            Ok((_, count)) => is_readable(count),
            Err(_) => true,
        }
    } else {
        true
    }
}

/// Whether this is what a text leads to, given the engine before it.
pub open spec fn handled(
    message: Seq<char>,
    engine: EngineView,
    result: Result<Answer, Unanswered>,
) -> bool {
    match (json::parsed(message), result) {
        (None, _) => result == Err::<Answer, Unanswered>(Unanswered::NotJson),
        (Some(request), Err(reason)) => !answerable(request) && reason == Unanswered::NoBuffer,
        (Some(request), Ok(Answer::Text(text))) => answer_tree(request, engine) is Some && says(
            text@,
            answer_tree(request, engine)->0,
        ),
        (Some(request), Ok(Answer::Read(pending))) => answerable(request) && reads(
            request,
            engine,
            pending,
        ),
    }
}

/// Carries out the request that a message holds, as far as that takes no memory of the debuggee.
pub fn handle_message(
    message: &str,
    engine: &mut DebugEngine,
    controller: &mut DebugController,
) -> (result: Result<Answer, Unanswered>)
    ensures
        handled(message@, old(engine)@, result),
        match json::parsed(message@) {
            Some(request) => final(engine)@ == engine_after(request, old(engine)@)
                && final(controller).state == controller_after(request, old(controller).state),
            None => final(engine)@ == old(engine)@ && final(controller).state == old(
                controller,
            ).state,
        },
{
    let request = match parse(message) {
        Ok(request) => request,
        Err(_) => {
            return Err(Unanswered::NotJson);
        },
    };
    if !is_answerable(&request) {
        return Err(Unanswered::NoBuffer);
    }
    match handle_dap_message(&request, engine, controller) {
        Ok(answer) => Ok(answer),
        Err(error) => Ok(
            Answer::Text(
                error.to_dap_error(request_sequence(&request), request_command(&request)),
            ),
        ),
    }
}

/// Carries out the request of a text, and passes over any other message.
pub fn handle_incoming(
    incoming: &Incoming,
    engine: &mut DebugEngine,
    controller: &mut DebugController,
) -> (result: Result<Option<Answer>, Unanswered>)
    ensures
        match (incoming@, result) {
            (Some(text), Ok(Some(answer))) => handled(text, old(engine)@, Ok(answer)),
            (Some(text), Err(reason)) => handled(text, old(engine)@, Err(reason)),
            (Some(_), Ok(None)) => false,
            (None, _) => result == Ok::<Option<Answer>, Unanswered>(None),
        },
        match incoming@ {
            Some(text) if json::parsed(text) is Some => {
                let request = json::parsed(text)->0;
                &&& final(engine)@ == engine_after(request, old(engine)@)
                &&& final(controller).state == controller_after(request, old(controller).state)
            },
            _ => final(engine)@ == old(engine)@ && final(controller).state == old(
                controller,
            ).state,
        },
{
    match incoming {
        Incoming::Text(text) => match handle_message(text.as_str(), engine, controller) {
            Ok(answer) => Ok(Some(answer)),
            Err(reason) => Err(reason),
        },
        Incoming::Other => Ok(None),
    }
}

/// The text that answers a request to read memory, made from what became of the read.
pub fn finish_message(pending: &PendingRead, reply: Reply) -> (text: String)
    requires
        match reply {
            Reply::Bytes(bytes) => crate::encoding::base64_len(bytes@.len()) <= isize::MAX,
            _ => reply is Failed,
        },
    ensures
        says(text@, read_answer(*pending, reply)),
{
    match finish_read_memory(pending, reply) {
        Ok(text) => text,
        Err(error) => error.to_dap_error(pending.sequence, "readMemory"),
    }
}

/// Whether a request succeeds, given what became of the read where it asks for memory.
pub open spec fn succeeds(request: JsonView, read: Reply) -> bool {
    !(plan(request) is Refuse) && !(plan(request) is Read && read is Failed)
}

/// Every reply carries the number and the command of the request. It says whether the request
/// succeeded. Where it did, there is no message, and a body for these commands and no others:
/// `initialize`, `setFunctionBreakpoints`, `setBreakpoints`, `readMemory`. Where it did not, there
/// is the reason as a message, and no body.
pub proof fn law_replies_carry_the_request(request: JsonView, engine: EngineView, read: Reply)
    requires
        plan(request) is Read ==> read is Bytes || read is Failed,
    ensures
        ({
            let reply = reply_to(request, engine, read);
            let command = command_of(request);
            &&& reply.field("type"@) == Some(JsonView::Text("response"@))
            &&& reply.field("request_seq"@) == Some(
                JsonView::Number(Some(sequence_of(request) as i128)),
            )
            &&& reply.field("command"@) == Some(JsonView::Text(command))
            &&& reply.field("success"@) == Some(JsonView::Bool(succeeds(request, read)))
            &&& reply.field("message"@) == match plan(request) {
                Plan::Refuse(message) => Some(JsonView::Text(message)),
                Plan::Read(_, _) if read is Failed => Some(
                    JsonView::Text(read_failure(read->Failed_0@)),
                ),
                _ => None,
            }
            &&& reply.field("body"@) is Some <==> succeeds(request, read) && (command
                == "initialize"@ || command == "setFunctionBreakpoints"@ || command
                == "setBreakpoints"@ || command == "readMemory"@)
        }),
{
    match plan(request) {
        Plan::Initialize => {
            lemma_response_fields(request, true, None, Some(capabilities(true, true)));
        },
        Plan::BreakAtFunctions(names) => {
            lemma_response_fields(
                request,
                true,
                None,
                Some(
                    breakpoints_tree(
                        names.map_values(|name: Seq<char>| engine.symbols.known(name, BareDigits::Hexadecimal)),
                    ),
                ),
            );
        },
        Plan::BreakInSource(count) => {
            lemma_response_fields(
                request,
                true,
                None,
                Some(breakpoints_tree(Seq::new(count, |i: int| false))),
            );
        },
        Plan::Read(address, _) => {
            match read {
                Reply::Bytes(bytes) => {
                    lemma_response_fields(request, true, None, Some(memory_tree(address, bytes@)));
                },
                Reply::Failed(error) => {
                    lemma_response_fields(request, false, Some(read_failure(error@)), None);
                },
                _ => {},
            }
        },
        Plan::Resume(_) => {
            lemma_response_fields(request, true, None, None);
        },
        Plan::Refuse(message) => {
            lemma_response_fields(request, false, Some(message), None);
        },
    }
}

/// What a command asks of the debug loop, if anything.
pub open spec fn resumption(command: Seq<char>) -> Option<DebugCommand> {
    if command == "continue"@ {
        Some(DebugCommand::Continue)
    } else if command == "stepIn"@ {
        Some(DebugCommand::StepIn)
    } else if command == "stepOut"@ {
        Some(DebugCommand::StepOut)
    } else if command == "next"@ {
        Some(DebugCommand::StepOver)
    } else {
        None
    }
}

/// The commands `continue`, `stepIn`, `stepOut` and `next` succeed without a body, and each is
/// what the debug loop takes next, whatever was waiting there; every other command leaves what is
/// waiting as it is.
pub proof fn law_commands_that_resume(
    request: JsonView,
    engine: EngineView,
    state: crate::debug_controller::ControllerState,
)
    ensures
        match resumption(command_of(request)) {
            Some(command) => {
                &&& plan(request) == Plan::Resume(command)
                &&& answer_tree(request, engine) == Some(success(request, None))
                &&& controller_after(request, state).pending_command == Some(command)
                &&& controller_after(request, state).without_command() == state.without_command()
            },
            None => !(plan(request) is Resume) && controller_after(request, state) == state,
        },
{
    reveal_strlit("initialize");
    reveal_strlit("setFunctionBreakpoints");
    reveal_strlit("setBreakpoints");
    reveal_strlit("readMemory");
    reveal_strlit("continue");
    reveal_strlit("stepIn");
    reveal_strlit("stepOut");
    reveal_strlit("next");
    assert("initialize"@[0] == 'i' && "readMemory"@[0] == 'r' && "continue"@[0] == 'c'
        && "next"@[0] == 'n' && "stepIn"@[1] == 't' && "stepOut"@[1] == 't'
        && "setFunctionBreakpoints"@[1] == 'e' && "setBreakpoints"@[1] == 'e');
}

/// A refused request is answered with its reason, and changes nothing.
pub proof fn law_refused_requests_change_nothing(
    request: JsonView,
    engine: EngineView,
    state: crate::debug_controller::ControllerState,
)
    requires
        plan(request) is Refuse,
    ensures
        answer_tree(request, engine) == Some(failed(request, plan(request)->Refuse_0)),
        engine_after(request, engine) == engine,
        controller_after(request, state) == state,
{
}

/// A command that the server does not know is refused as not implemented.
pub proof fn law_unknown_commands_are_refused(request: JsonView)
    requires
        !seq![
            "initialize"@,
            "setFunctionBreakpoints"@,
            "setBreakpoints"@,
            "readMemory"@,
            "continue"@,
            "stepIn"@,
            "stepOut"@,
            "next"@,
        ].contains(command_of(request)),
    ensures
        plan(request) == Plan::Refuse("Command not implemented"@),
{
    let known = seq![
        "initialize"@,
        "setFunctionBreakpoints"@,
        "setBreakpoints"@,
        "readMemory"@,
        "continue"@,
        "stepIn"@,
        "stepOut"@,
        "next"@,
    ];
    assert(known[0] == "initialize"@ && known[1] == "setFunctionBreakpoints"@ && known[2]
        == "setBreakpoints"@ && known[3] == "readMemory"@ && known[4] == "continue"@ && known[5]
        == "stepIn"@ && known[6] == "stepOut"@ && known[7] == "next"@);
}

/// The answer to a read tells the memory and where it starts: the address in it reads back as the
/// one that was read, and no other memory is told in the same way.
pub proof fn law_memory_answers_are_faithful(
    address: Address,
    bytes: Seq<u8>,
    other_address: Address,
    other_bytes: Seq<u8>,
)
    ensures
        crate::symbols::address_literal(
            seq!['0', 'x'] + text::numeral(address as nat, 16),
            BareDigits::Hexadecimal,
        ) == Some(address),
        memory_tree(address, bytes) == memory_tree(other_address, other_bytes) ==> address
            == other_address && bytes == other_bytes,
{
    crate::symbols::law_hexadecimal_addresses_read_back(address, BareDigits::Hexadecimal);
    crate::symbols::law_hexadecimal_addresses_read_back(other_address, BareDigits::Hexadecimal);
    if memory_tree(address, bytes) == memory_tree(other_address, other_bytes) {
        let entries = memory_tree(address, bytes)->Object_0;
        let other_entries = memory_tree(other_address, other_bytes)->Object_0;
        assert(entries[0].1 == other_entries[0].1);
        assert(entries[2].1 == other_entries[2].1);
        crate::encoding::law_base64_is_faithful(bytes, other_bytes);
    }
}

/// What the fields of a response hold.
pub proof fn lemma_response_fields(
    request: JsonView,
    success: bool,
    message: Option<Seq<char>>,
    body: Option<JsonView>,
)
    ensures
        ({
            let answer = crate::dap::response(
                sequence_of(request),
                success,
                command_of(request),
                message,
                body,
            );
            &&& answer.field("type"@) == Some(JsonView::Text("response"@))
            &&& answer.field("request_seq"@) == Some(
                JsonView::Number(Some(sequence_of(request) as i128)),
            )
            &&& answer.field("command"@) == Some(JsonView::Text(command_of(request)))
            &&& answer.field("success"@) == Some(JsonView::Bool(success))
            &&& answer.field("message"@) == match message {
                Some(message) => Some(JsonView::Text(message)),
                None => None,
            }
            &&& answer.field("body"@) == body
        }),
{
    reveal_with_fuel(json::entry, 7);
    reveal_strlit("type");
    reveal_strlit("request_seq");
    reveal_strlit("command");
    reveal_strlit("success");
    reveal_strlit("message");
    reveal_strlit("body");
    assert("type"@[0] == 't' && "body"@[0] == 'b');
    assert("command"@[0] == 'c' && "success"@[0] == 's' && "message"@[0] == 'm');
}

} // verus!
