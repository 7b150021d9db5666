//! What holds of the server, from the fields of a request to the fields of its reply.
use vstd::prelude::*;

use crate::debug_controller::{ControllerState, DebugCommand};
use crate::debug_engine::EngineView;
use crate::json::{self, JsonView};
use crate::server::{self, Answer, PendingRead, Unanswered};
use crate::symbols::BareDigits;
use crate::system::{Address, Reply};
use crate::text;

verus! {

/// Whether a request has this text as its command.
pub open spec fn commands(request: JsonView, command: Seq<char>) -> bool {
    request.field("command"@) == Some(JsonView::Text(command))
}

/// Whether this stands under a key among the arguments of a request.
pub open spec fn argues(request: JsonView, key: Seq<char>, value: JsonView) -> bool {
    request.field("arguments"@) matches Some(arguments) && arguments.field(key) == Some(value)
}

/// The names of the commands differ.
proof fn lemma_commands_differ(command: Seq<char>)
    ensures
        command == "setFunctionBreakpoints"@ ==> command != "initialize"@,
        command == "setBreakpoints"@ ==> command != "initialize"@ && command
            != "setFunctionBreakpoints"@,
        command == "readMemory"@ ==> command != "initialize"@ && command
            != "setFunctionBreakpoints"@ && command != "setBreakpoints"@,
{
    reveal_strlit("initialize");
    reveal_strlit("setFunctionBreakpoints");
    reveal_strlit("setBreakpoints");
    reveal_strlit("readMemory");
    assert("initialize"@[0] == 'i' && "readMemory"@[0] == 'r');
    assert("setFunctionBreakpoints"@.len() == 22 && "setBreakpoints"@.len() == 14);
    assert("setFunctionBreakpoints"@[0] == 's' && "setBreakpoints"@[0] == 's');
}

/// A request to read memory reads just what it asks for: so many bytes as it says, at the address
/// that it names, from the process that is debugged, however many they are. Only where it gives
/// no number is the default size read.
pub proof fn law_reads_have_the_size_that_is_asked_for(
    request: JsonView,
    engine: EngineView,
    place: Seq<char>,
    address: Address,
    number: i128,
    pending: PendingRead,
)
    requires
        commands(request, "readMemory"@),
        argues(request, "offset"@, JsonView::Text(place)),
        crate::symbols::address_literal(place, BareDigits::Hexadecimal) == Some(address),
        server::reads(request, engine, pending),
    ensures
        pending.address == address,
        pending.call is ReadMemory,
        pending.call->ReadMemory_process == engine.process,
        pending.call->ReadMemory_address == address,
        argues(request, "count"@, JsonView::Number(Some(number))) && 0 <= number <= i64::MAX
            && number <= usize::MAX ==> pending.call->ReadMemory_count == number,
        request.inner_field("arguments"@, "count"@) is None ==> pending.call->ReadMemory_count
            == 4096,
        (request.inner_field("arguments"@, "count"@) matches Some(value) && !(value is Number))
            ==> pending.call->ReadMemory_count == 4096,
{
    lemma_commands_differ("readMemory"@);
}

/// A request to read memory at an address is carried out, wherever the buffer can be had, and one
/// that names no address is refused with the text that it gave.
pub proof fn law_reads_need_an_address(
    request: JsonView,
    engine: EngineView,
    place: Seq<char>,
    number: i128,
)
    requires
        commands(request, "readMemory"@),
        argues(request, "offset"@, JsonView::Text(place)),
    ensures
        crate::symbols::address_literal(place, BareDigits::Hexadecimal) is Some <==> server::plan(
            request,
        ) is Read,
        crate::symbols::address_literal(place, BareDigits::Hexadecimal) is None
            ==> server::answer_tree(request, engine) == Some(
            crate::dap::response(
                server::sequence_of(request),
                false,
                "readMemory"@,
                Some("Invalid memory address: "@ + place),
                None,
            ),
        ),
        argues(request, "count"@, JsonView::Number(Some(number))) && 0 <= number <= isize::MAX
            && number <= i64::MAX ==> server::answerable(request),
{
    lemma_commands_differ("readMemory"@);
}

/// The reply to a read tells where the memory starts, all its bytes, and that none is missing from
/// what it tells.
pub proof fn law_replies_to_reads_tell_the_memory(
    request: JsonView,
    engine: EngineView,
    bytes: Vec<u8>,
)
    requires
        server::plan(request) is Read,
    ensures
        ({
            let body = server::reply_to(request, engine, Reply::Bytes(bytes)).field("body"@);
            let address = server::plan(request)->Read_0;
            &&& body is Some
            &&& body->0.field("data"@) == Some(JsonView::Text(crate::encoding::base64(bytes@)))
            &&& body->0.field("unreadableBytes"@) == Some(JsonView::Number(Some(0)))
            &&& body->0.field("address"@) is Some
            &&& body->0.field("address"@)->0 is Text
            &&& crate::symbols::address_literal(
                body->0.field("address"@)->0->Text_0,
                BareDigits::Hexadecimal,
            ) == Some(address)
        }),
{
    let address = server::plan(request)->Read_0;
    let body = server::memory_tree(address, bytes@);
    server::lemma_response_fields(request, true, None, Some(body));
    reveal_strlit("address");
    reveal_strlit("unreadableBytes");
    reveal_strlit("data");
    reveal_with_fuel(json::entry, 4);
    assert("address"@.len() == 7 && "unreadableBytes"@.len() == 15 && "data"@.len() == 4);
    assert(server::reply_to(request, engine, Reply::Bytes(bytes)).field("body"@) == Some(body));
    let entries = body->Object_0;
    assert(entries.drop_first()[0] == entries[1]);
    assert(entries.drop_first().drop_first()[0] == entries[2]);
    crate::symbols::law_hexadecimal_addresses_read_back(address, BareDigits::Hexadecimal);
}

/// The names that a list of breakpoints gives: what two lists give together is what the first
/// gives and then what the second gives, however long they are; one breakpoint gives its name
/// where that is a text, and nothing where it is not.
pub proof fn law_names_of_lists(first: Seq<JsonView>, second: Seq<JsonView>, one: JsonView)
    ensures
        server::names_of(first + second) == server::names_of(first) + server::names_of(second),
        one.field("name"@) matches Some(JsonView::Text(name)) ==> server::names_of(seq![one])
            == seq![name],
        !(one.field("name"@) is Some && one.field("name"@)->0 is Text) ==> server::names_of(
            seq![one],
        ).len() == 0,
        server::names_of(Seq::empty()).len() == 0,
    decreases second.len(),
{
    let single = seq![one];
    assert(single.drop_last() =~= Seq::empty());
    assert(server::names_of(single.drop_last()) =~= Seq::empty());
    if second.len() == 0 {
        assert(first + second =~= first);
        assert(server::names_of(first) + server::names_of(second) =~= server::names_of(first));
    } else {
        law_names_of_lists(first, second.drop_last(), one);
        assert((first + second).drop_last() =~= first + second.drop_last());
        assert((first + second).last() == second.last());
        assert(server::names_of(first + second) =~= server::names_of(first) + server::names_of(
            second,
        ));
    }
}

/// Where every breakpoint of a list has a name, there are as many names as breakpoints, in their
/// order.
pub proof fn law_every_name_counts(breakpoints: Seq<JsonView>, names: Seq<Seq<char>>)
    requires
        breakpoints.len() == names.len(),
        forall|i: int|
            0 <= i < names.len() ==> (#[trigger] breakpoints[i]).field("name"@) == Some(
                JsonView::Text(names[i]),
            ),
    ensures
        server::names_of(breakpoints) == names,
    decreases breakpoints.len(),
{
    if breakpoints.len() == 0 {
        assert(server::names_of(breakpoints) =~= names);
    } else {
        let last = breakpoints.len() - 1;
        assert forall|i: int| 0 <= i < names.drop_last().len() implies (
        #[trigger] breakpoints.drop_last()[i]).field("name"@) == Some(
            JsonView::Text(names.drop_last()[i]),
        ) by {
            assert(breakpoints.drop_last()[i] == breakpoints[i]);
        }
        law_every_name_counts(breakpoints.drop_last(), names.drop_last());
        assert(breakpoints[last].field("name"@) == Some(JsonView::Text(names[last])));
        assert(server::names_of(breakpoints) =~= names);
    }
}

/// A request for function breakpoints replaces those that were requested by all that it names, has
/// the engine take them up, and is answered with one breakpoint for each, in order: placed where
/// the name is a function or an address, not placed where it is neither.
pub proof fn law_function_breakpoints_are_requested(
    request: JsonView,
    engine: EngineView,
    breakpoints: Seq<JsonView>,
    names: Seq<Seq<char>>,
    read: Reply,
)
    requires
        commands(request, "setFunctionBreakpoints"@),
        argues(request, "breakpoints"@, JsonView::Array(breakpoints)),
        breakpoints.len() == names.len(),
        forall|i: int|
            0 <= i < names.len() ==> (#[trigger] breakpoints[i]).field("name"@) == Some(
                JsonView::Text(names[i]),
            ),
    ensures
        ({
            let after = server::engine_after(request, engine);
            let body = server::reply_to(request, engine, read).field("body"@);
            &&& after.requested == names
            &&& after.dirty
            &&& after.symbols == engine.symbols && after.threads == engine.threads
            &&& after.software_breakpoints == engine.software_breakpoints
            &&& after.hardware_breakpoints == engine.hardware_breakpoints
            &&& after.process == engine.process && after.pending_reinsert
                == engine.pending_reinsert
            &&& tells_breakpoints(
                body,
                Seq::new(
                    names.len(),
                    |i: int|
                        engine.symbols.va.contains_key(names[i])
                            || engine.symbols.rva.contains_key(names[i])
                            || crate::symbols::address_literal(
                            names[i],
                            BareDigits::Hexadecimal,
                        ) is Some,
                ),
            )
        }),
{
    lemma_commands_differ("setFunctionBreakpoints"@);
    law_every_name_counts(breakpoints, names);
    let known = names.map_values(
        |name: Seq<char>| engine.symbols.known(name, BareDigits::Hexadecimal),
    );
    server::lemma_response_fields(request, true, None, Some(server::breakpoints_tree(known)));
    lemma_breakpoints_tree(known);
    assert(known =~= Seq::new(
        names.len(),
        |i: int|
            engine.symbols.va.contains_key(names[i]) || engine.symbols.rva.contains_key(names[i])
                || crate::symbols::address_literal(names[i], BareDigits::Hexadecimal) is Some,
    ));
}

/// Whether a body lists one breakpoint for each flag, placed or not as the flag says.
pub open spec fn tells_breakpoints(body: Option<JsonView>, verified: Seq<bool>) -> bool {
    &&& body is Some
    &&& body->0.field("breakpoints"@) is Some
    &&& body->0.field("breakpoints"@)->0 is Array
    &&& body->0.field("breakpoints"@)->0->Array_0.len() == verified.len()
    &&& forall|i: int|
        0 <= i < verified.len() ==> (
        #[trigger] body->0.field("breakpoints"@)->0->Array_0[i]).field("verified"@) == Some(
            JsonView::Bool(verified[i]),
        )
}

/// A list of breakpoints tells one for each flag.
pub proof fn lemma_breakpoints_tree(verified: Seq<bool>)
    ensures
        tells_breakpoints(Some(server::breakpoints_tree(verified)), verified),
{
    reveal_with_fuel(json::entry, 2);
    let body = server::breakpoints_tree(verified);
    assert(body.field("breakpoints"@) == Some(body->Object_0[0].1));
    let list = body->Object_0[0].1->Array_0;
    assert forall|i: int| 0 <= i < verified.len() implies (#[trigger] list[i]).field("verified"@)
        == Some(JsonView::Bool(verified[i])) by {
        assert(list[i] == server::breakpoint_tree(verified[i]));
        assert(list[i]->Object_0[0] == ("verified"@, JsonView::Bool(verified[i])));
    }
}

/// A request for breakpoints in a source is answered with one breakpoint for each that it lists,
/// none of them placed, and changes nothing.
pub proof fn law_source_breakpoints_are_not_placed(
    request: JsonView,
    engine: EngineView,
    state: ControllerState,
    breakpoints: Seq<JsonView>,
    read: Reply,
)
    requires
        commands(request, "setBreakpoints"@),
        argues(request, "breakpoints"@, JsonView::Array(breakpoints)),
    ensures
        tells_breakpoints(
            server::reply_to(request, engine, read).field("body"@),
            Seq::new(breakpoints.len(), |i: int| false),
        ),
        server::engine_after(request, engine) == engine,
        server::controller_after(request, state) == state,
{
    lemma_commands_differ("setBreakpoints"@);
    let verified = Seq::new(breakpoints.len(), |i: int| false);
    server::lemma_response_fields(request, true, None, Some(server::breakpoints_tree(verified)));
    lemma_breakpoints_tree(verified);
}

/// A client that introduces itself hears what the debugger can do: that it breaks at functions and
/// reads memory, that it takes the end of the configuration, that it lists no modules, and that
/// breakpoints are software or hardware ones. Nothing changes by that.
pub proof fn law_initialize_tells_the_capabilities(
    request: JsonView,
    engine: EngineView,
    state: ControllerState,
    read: Reply,
)
    requires
        commands(request, "initialize"@),
    ensures
        ({
            let body = server::reply_to(request, engine, read).field("body"@);
            &&& body is Some
            &&& body->0.field("supportsConfigurationDoneRequest"@) == Some(JsonView::Bool(true))
            &&& body->0.field("supportsFunctionBreakpoints"@) == Some(JsonView::Bool(true))
            &&& body->0.field("supportsModulesRequest"@) == Some(JsonView::Bool(false))
            &&& body->0.field("supportsReadMemoryRequest"@) == Some(JsonView::Bool(true))
            &&& json::as_items(body->0.field("breakpointModes"@)).len() == 2
            &&& json::as_items(body->0.field("breakpointModes"@))[0].field("mode"@) == Some(
                JsonView::Text("software"@),
            )
            &&& json::as_items(body->0.field("breakpointModes"@))[1].field("mode"@) == Some(
                JsonView::Text("hardware"@),
            )
            &&& server::engine_after(request, engine) == engine
            &&& server::controller_after(request, state) == state
        }),
{
    let body = server::capabilities(true, true);
    server::lemma_response_fields(request, true, None, Some(body));
    reveal_strlit("supportsConfigurationDoneRequest");
    reveal_strlit("supportsFunctionBreakpoints");
    reveal_strlit("supportsModulesRequest");
    reveal_strlit("supportsReadMemoryRequest");
    reveal_strlit("breakpointModes");
    reveal_with_fuel(json::entry, 6);
    assert("supportsConfigurationDoneRequest"@.len() == 32 && "supportsFunctionBreakpoints"@.len()
        == 27 && "supportsModulesRequest"@.len() == 22 && "supportsReadMemoryRequest"@.len() == 25
        && "breakpointModes"@.len() == 15);
    let entries = body->Object_0;
    assert(entries.drop_first()[0] == entries[1]);
    assert(entries.drop_first().drop_first()[0] == entries[2]);
    assert(entries.drop_first().drop_first().drop_first()[0] == entries[3]);
    assert(entries.drop_first().drop_first().drop_first().drop_first()[0] == entries[4]);
    assert(json::as_items(body.field("breakpointModes"@)) == seq![
        server::mode_tree("software"@, "Software Breakpoint"@),
        server::mode_tree("hardware"@, "Hardware Breakpoint"@),
    ]);
}

/// A reply has the number and the command of the request in it, whatever they are; a request
/// without them is answered with zero and with the empty text.
pub proof fn law_replies_name_the_request(
    request: JsonView,
    engine: EngineView,
    read: Reply,
    number: i128,
    command: Seq<char>,
)
    requires
        server::plan(request) is Read ==> read is Bytes || read is Failed,
    ensures
        ({
            let reply = server::reply_to(request, engine, read);
            &&& request.field("seq"@) == Some(JsonView::Number(Some(number))) && i64::MIN <= number
                <= i64::MAX ==> reply.field("request_seq"@) == Some(JsonView::Number(Some(number)))
            &&& request.field("seq"@) is None ==> reply.field("request_seq"@) == Some(
                JsonView::Number(Some(0)),
            )
            &&& commands(request, command) ==> reply.field("command"@) == Some(
                JsonView::Text(command),
            )
            &&& request.field("command"@) is None ==> reply.field("command"@) == Some(
                JsonView::Text(Seq::empty()),
            )
        }),
{
    server::law_replies_carry_the_request(request, engine, read);
}

/// Each of the four commands that let the debuggee run leaves that command for the debug loop and
/// no other; a request without one of them, whatever else it holds, leaves the mailbox alone.
pub proof fn law_the_mailbox_gets_the_command(
    request: JsonView,
    state: ControllerState,
    command: Seq<char>,
)
    ensures
        ({
            let waiting = server::controller_after(request, state).pending_command;
            &&& commands(request, "continue"@) ==> waiting == Some(DebugCommand::Continue)
            &&& commands(request, "stepIn"@) ==> waiting == Some(DebugCommand::StepIn)
            &&& commands(request, "stepOut"@) ==> waiting == Some(DebugCommand::StepOut)
            &&& commands(request, "next"@) ==> waiting == Some(DebugCommand::StepOver)
            &&& request.field("command"@) is None ==> waiting == state.pending_command
            &&& commands(request, command) && command != "continue"@ && command != "stepIn"@
                && command != "stepOut"@ && command != "next"@ ==> waiting
                == state.pending_command
            &&& server::controller_after(request, state).last_stop_reason
                == state.last_stop_reason
            &&& server::controller_after(request, state).last_stop_thread_id
                == state.last_stop_thread_id
            &&& server::controller_after(request, state).is_active == state.is_active
        }),
{
    reveal_strlit("initialize");
    reveal_strlit("setFunctionBreakpoints");
    reveal_strlit("setBreakpoints");
    reveal_strlit("readMemory");
    reveal_strlit("continue");
    reveal_strlit("stepIn");
    reveal_strlit("stepOut");
    reveal_strlit("next");
    reveal_strlit("");
    assert("initialize"@[0] == 'i' && "readMemory"@[0] == 'r' && "continue"@[0] == 'c'
        && "next"@[0] == 'n' && "stepIn"@[1] == 't' && "stepOut"@[1] == 't'
        && "setFunctionBreakpoints"@[1] == 'e' && "setBreakpoints"@[1] == 'e');
    assert("stepIn"@.len() == 6 && "stepOut"@.len() == 7 && "continue"@.len() == 8 && "next"@.len()
        == 4);
    assert("stepIn"@[0] == 's' && "stepOut"@[0] == 's');
}

/// Only a request for function breakpoints changes the engine.
pub proof fn law_other_requests_leave_the_engine(request: JsonView, engine: EngineView)
    requires
        !commands(request, "setFunctionBreakpoints"@),
    ensures
        server::engine_after(request, engine) == engine,
{
    reveal_strlit("setFunctionBreakpoints");
    reveal_strlit("initialize");
}

/// A request that the server has no answer for is told so, and one that it has is never told so.
pub proof fn law_refusals(request: JsonView, command: Seq<char>)
    requires
        commands(request, command),
        command == "initialize"@ || command == "setFunctionBreakpoints"@ || command
            == "setBreakpoints"@ || command == "continue"@ || command == "stepIn"@ || command
            == "stepOut"@ || command == "next"@,
    ensures
        !(server::plan(request) is Refuse),
        !(server::plan(request) is Read),
        server::answerable(request),
{
    reveal_strlit("readMemory");
    reveal_strlit("initialize");
    reveal_strlit("setFunctionBreakpoints");
    reveal_strlit("setBreakpoints");
    reveal_strlit("continue");
    reveal_strlit("stepIn");
    reveal_strlit("stepOut");
    reveal_strlit("next");
    assert("initialize"@[0] == 'i' && "readMemory"@[0] == 'r' && "continue"@[0] == 'c'
        && "next"@[0] == 'n' && "stepIn"@[0] == 's' && "stepOut"@[0] == 's');
}

/// What becomes of a text: one that is no JSON is not answered, one whose memory has no buffer is
/// not answered, and every other one is answered, by a text that reads back as the reply, or by a
/// read of the memory that it asks for.
pub proof fn law_texts_are_answered(
    message: Seq<char>,
    engine: EngineView,
    result: Result<Answer, Unanswered>,
    read: Reply,
)
    requires
        server::handled(message, engine, result),
    ensures
        json::parsed(message) is None <==> (result is Err && result->Err_0 is NotJson),
        json::parsed(message) matches Some(request) ==> (result is Ok <==> server::answerable(
            request,
        )),
        result matches Ok(Answer::Text(text)) ==> {
            &&& !(server::plan(json::parsed(message)->0) is Read)
            &&& json::parsed(text@) == Some(
                server::reply_to(json::parsed(message)->0, engine, read),
            )
        },
        result matches Ok(Answer::Read(pending)) ==> {
            &&& server::plan(json::parsed(message)->0) is Read
            &&& pending.call is ReadMemory
            &&& server::reply_to(json::parsed(message)->0, engine, read) == server::read_answer(
                pending,
                read,
            )
        },
{
}

/// What a read comes to where the request is not all there: without a text for the address it is
/// refused, and the message ends where the address would stand; a count that is no integer of 64
/// bits is none.
pub proof fn law_incomplete_reads(
    request: JsonView,
    engine: EngineView,
    place: Seq<char>,
    address: Address,
    number: i128,
)
    requires
        commands(request, "readMemory"@),
    ensures
        !(request.inner_field("arguments"@, "offset"@) matches Some(JsonView::Text(_)))
            ==> server::answer_tree(request, engine) == Some(
            crate::dap::response(
                server::sequence_of(request),
                false,
                "readMemory"@,
                Some("Invalid memory address: "@),
                None,
            ),
        ),
        argues(request, "offset"@, JsonView::Text(place)) && crate::symbols::address_literal(
            place,
            BareDigits::Hexadecimal,
        ) == Some(address) ==> ({
            let count = server::pending_read(request, engine).call->ReadMemory_count;
            &&& argues(request, "count"@, JsonView::Number(None)) ==> count == 4096
            &&& argues(request, "count"@, JsonView::Number(Some(number))) && (number < i64::MIN
                || number > i64::MAX) ==> count == 4096
        }),
{
    lemma_commands_differ("readMemory"@);
    text::law_trimming_leaves_the_middle(Seq::empty());
    assert("Invalid memory address: "@ + Seq::<char>::empty() =~= "Invalid memory address: "@);
    assert(text::trimmed(Seq::empty()).len() == 0);
}

/// A read that the system refuses is answered with a failure, which says so in the system's words;
/// one that it carries out with a success, and the address in upper-case hexadecimal.
pub proof fn law_replies_to_reads(
    request: JsonView,
    engine: EngineView,
    address: Address,
    error: String,
    bytes: Vec<u8>,
)
    requires
        server::plan(request) is Read,
        server::plan(request)->Read_0 == address,
    ensures
        ({
            let reply = server::reply_to(request, engine, Reply::Failed(error));
            &&& reply.field("success"@) == Some(JsonView::Bool(false))
            &&& reply.field("message"@) == Some(
                JsonView::Text(
                    "Failed to read memory: DebuggerError("@ + text::debug_form(
                        "ReadProcessMemory failed: "@ + error@,
                    ) + ")"@,
                ),
            )
            &&& reply.field("body"@) is None
        }),
        ({
            let reply = server::reply_to(request, engine, Reply::Bytes(bytes));
            &&& reply.field("success"@) == Some(JsonView::Bool(true))
            &&& reply.field("message"@) is None
            &&& reply.field("body"@) is Some
            &&& reply.field("body"@)->0.field("address"@) == Some(
                JsonView::Text(seq!['0', 'x'] + text::numeral(address as nat, 16)),
            )
        }),
{
    let body = server::memory_tree(address, bytes@);
    server::lemma_response_fields(request, true, None, Some(body));
    server::lemma_response_fields(request, false, Some(server::read_failure(error@)), None);
    lemma_commands_differ("readMemory"@);
    reveal_with_fuel(json::entry, 2);
}

/// The two modes of breakpoints have these labels, and apply to sources and to instructions.
pub proof fn law_modes_of_breakpoints(functions: bool, memory: bool)
    ensures
        ({
            let modes = json::as_items(
                server::capabilities(functions, memory).field("breakpointModes"@),
            );
            &&& modes.len() == 2
            &&& modes[0].field("label"@) == Some(JsonView::Text("Software Breakpoint"@))
            &&& modes[1].field("label"@) == Some(JsonView::Text("Hardware Breakpoint"@))
            &&& forall|i: int|
                0 <= i < 2 ==> (#[trigger] modes[i]).field("appliesTo"@) == Some(
                    JsonView::Array(
                        seq![JsonView::Text("source"@), JsonView::Text("instruction"@)],
                    ),
                )
        }),
{
    let body = server::capabilities(functions, memory);
    reveal_strlit("supportsConfigurationDoneRequest");
    reveal_strlit("supportsFunctionBreakpoints");
    reveal_strlit("supportsModulesRequest");
    reveal_strlit("supportsReadMemoryRequest");
    reveal_strlit("breakpointModes");
    crate::to_json::lemma_distinct_keys(json::keys(body->Object_0));
    json::law_fields(body, "breakpointModes"@, 4);
    reveal_strlit("mode");
    reveal_strlit("label");
    reveal_strlit("appliesTo");
    let software = server::mode_tree("software"@, "Software Breakpoint"@);
    let hardware = server::mode_tree("hardware"@, "Hardware Breakpoint"@);
    crate::to_json::lemma_distinct_keys(json::keys(software->Object_0));
    crate::to_json::lemma_distinct_keys(json::keys(hardware->Object_0));
    json::law_fields(software, "label"@, 1);
    json::law_fields(software, "appliesTo"@, 2);
    json::law_fields(hardware, "label"@, 1);
    json::law_fields(hardware, "appliesTo"@, 2);
}

} // verus!
