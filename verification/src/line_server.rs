//! A server without an engine, which only remembers the lines at which a client breaks.
use vstd::prelude::*;

use crate::connection::Incoming;
use crate::dap::{dap_error, dap_success, SetBreakpointsResponseBody};
use crate::json::{self, integer_of, items_of, parse, Json, JsonError, JsonView};
use crate::server::{initialize_body, plain_breakpoints, request_command, request_sequence};
use crate::text::{self, decimal, joined, same_text};

verus! {

/// The breakpoints that the client asked for last.
pub struct DebuggerState {
    pub breakpoints: Vec<String>,
}

impl Default for DebuggerState {
    /// No breakpoints.
    fn default() -> (state: Self)
        ensures
            state.breakpoints@.len() == 0,
    {
        DebuggerState { breakpoints: Vec::new() }
    }
}

impl View for DebuggerState {
    type V = Seq<Seq<char>>;

    open spec fn view(&self) -> Seq<Seq<char>> {
        crate::symbols::names_view(self.breakpoints@)
    }
}

/// The lines of those breakpoints that have one, in order.
pub open spec fn lines_of(breakpoints: Seq<JsonView>) -> Seq<i64>
    decreases breakpoints.len(),
{
    if breakpoints.len() == 0 {
        Seq::empty()
    } else {
        let earlier = lines_of(breakpoints.drop_last());
        match json::as_integer(breakpoints.last().field("line"@)) {
            Some(line) => earlier.push(line),
            None => earlier,
        }
    }
}

/// How a line is remembered.
pub open spec fn line_text(line: i64) -> Seq<char> {
    "line: "@ + text::integer_text(line as int)
}

/// The lines that a request lists.
pub open spec fn requested_lines(request: JsonView) -> Seq<i64> {
    lines_of(crate::server::listed_breakpoints(request))
}

/// The answer to a request.
pub open spec fn answer_tree(request: JsonView) -> JsonView {
    let command = crate::server::command_of(request);
    if command == "initialize"@ {
        crate::server::success(request, Some(crate::server::capabilities(false, false)))
    } else if command == "setBreakpoints"@ {
        crate::server::success(
            request,
            Some(
                crate::server::breakpoints_tree(
                    requested_lines(request).map_values(|line: i64| true),
                ),
            ),
        )
    } else {
        crate::server::failed(request, "Command not implemented"@)
    }
}

/// The breakpoints after a request.
pub open spec fn state_after(request: JsonView, state: Seq<Seq<char>>) -> Seq<Seq<char>> {
    if crate::server::command_of(request) == "setBreakpoints"@ {
        requested_lines(request).map_values(|line: i64| line_text(line))
    } else {
        state
    }
}

/// Replaces the breakpoints by those that a request lists, and gives a flag for each.
fn set_breakpoints(request: &Json, state: &mut DebuggerState) -> (verified: Vec<bool>)
    ensures
        verified@ == requested_lines(request@).map_values(|line: i64| true),
        final(state)@ == requested_lines(request@).map_values(|line: i64| line_text(line)),
{
    let mut lines: Vec<String> = Vec::new();
    let mut verified: Vec<bool> = Vec::new();
    if let Some(breakpoints) = items_of(request.get_inner("arguments", "breakpoints")) {
        proof {
            json::lemma_trees(breakpoints@);
        }
        let ghost listed = json::trees(breakpoints@);
        let mut i: usize = 0;
        assert(listed.take(0) =~= Seq::empty());
        assert(crate::symbols::names_view(lines@) =~= lines_of(listed.take(0)).map_values(
            |line: i64| line_text(line),
        ));
        while i < breakpoints.len()
            invariant
                i <= breakpoints@.len(),
                listed.len() == breakpoints@.len(),
                forall|j: int|
                    0 <= j < listed.len() ==> #[trigger] listed[j] == json::tree(breakpoints@[j]),
                verified@ == lines_of(listed.take(i as int)).map_values(|line: i64| true),
                crate::symbols::names_view(lines@) == lines_of(listed.take(i as int)).map_values(
                    |line: i64| line_text(line),
                ),
            decreases breakpoints@.len() - i,
        {
            assert(listed.take(i + 1).drop_last() =~= listed.take(i as int));
            assert(listed.take(i + 1).last() == json::tree(breakpoints@[i as int]));
            if let Some(line) = integer_of(breakpoints[i].get("line")) {
                let ghost before = lines_of(listed.take(i as int));
                let ghost texts = lines@;
                lines.push(joined("line: ", decimal(line).as_str()));
                verified.push(true);
                assert(lines_of(listed.take(i + 1)) == before.push(line));
                assert(crate::symbols::names_view(lines@) =~= crate::symbols::names_view(
                    texts,
                ).push(line_text(line)));
                assert(before.push(line).map_values(|line: i64| line_text(line))
                    =~= before.map_values(|line: i64| line_text(line)).push(line_text(line)));
            }
            i += 1;
        }
        assert(listed.take(i as int) =~= listed);
    }
    assert(lines@.len() == 0 ==> crate::symbols::names_view(lines@) =~= Seq::empty());
    assert(requested_lines(request@).len() == 0 ==> requested_lines(request@).map_values(
        |line: i64| line_text(line),
    ) =~= Seq::empty());
    state.breakpoints = lines;
    verified
}

/// Carries out a request, and answers it.
pub fn handle_dap_message(request: &Json, state: &mut DebuggerState) -> (text: String)
    ensures
        crate::server::says(text@, answer_tree(request@)),
        final(state)@ == state_after(request@, old(state)@),
{
    let command = request_command(request);
    let sequence = request_sequence(request);
    if same_text(command, "initialize") {
        proof {
            crate::server::lemma_bodies_are_shallow(Seq::empty(), 0, Seq::empty());
            reveal_strlit("initialize");
            reveal_strlit("setBreakpoints");
            assert("initialize"@[0] == 'i' && "setBreakpoints"@[0] == 's');
        }
        dap_success(sequence, "initialize", Some(initialize_body(false, false)))
    } else if same_text(command, "setBreakpoints") {
        let verified = set_breakpoints(request, state);
        proof {
            crate::server::lemma_bodies_are_shallow(verified@, 0, Seq::empty());
        }
        let body = SetBreakpointsResponseBody { breakpoints: plain_breakpoints(&verified) };
        dap_success(sequence, "setBreakpoints", Some(body))
    } else {
        dap_error(sequence, command, "Command not implemented")
    }
}

/// Carries out the request that a message holds, and answers it; what is no JSON is not answered.
pub fn handle_message(message: &str, state: &mut DebuggerState) -> (result: Result<
    String,
    JsonError,
>)
    ensures
        match json::parsed(message@) {
            Some(request) => result is Ok && crate::server::says(
                result->Ok_0@,
                answer_tree(request),
            ) && final(state)@ == state_after(request, old(state)@),
            None => result is Err && final(state)@ == old(state)@,
        },
{
    match parse(message) {
        Ok(request) => Ok(handle_dap_message(&request, state)),
        Err(error) => Err(error),
    }
}

/// Carries out and answers the request of a text, and passes over any other message.
pub fn handle_incoming(incoming: &Incoming, state: &mut DebuggerState) -> (result: Result<
    Option<String>,
    JsonError,
>)
    ensures
        match incoming@ {
            Some(text) => match json::parsed(text) {
                Some(request) => result is Ok && result->Ok_0 is Some && crate::server::says(
                    result->Ok_0->0@,
                    answer_tree(request),
                ) && final(state)@ == state_after(request, old(state)@),
                None => result is Err && final(state)@ == old(state)@,
            },
            None => result is Ok && result->Ok_0 is None && final(state)@ == old(state)@,
        },
{
    match incoming {
        Incoming::Text(text) => match handle_message(text.as_str(), state) {
            Ok(answer) => Ok(Some(answer)),
            Err(error) => Err(error),
        },
        Incoming::Other => Ok(None),
    }
}

/// The breakpoints are those of the last request that set them: earlier ones leave no trace.
pub proof fn law_last_breakpoints_stay(first: JsonView, last: JsonView, state: Seq<Seq<char>>)
    requires
        crate::server::command_of(last) == "setBreakpoints"@,
    ensures
        state_after(last, state_after(first, state)) == state_after(last, state),
        state_after(last, state).len() == requested_lines(last).len(),
{
}

/// The lines of a list are those of its parts, one behind the other: a breakpoint with an integer
/// as its line has that line, any other has none.
pub proof fn law_lines_of_lists(first: Seq<JsonView>, second: Seq<JsonView>, one: JsonView)
    ensures
        lines_of(first + second) == lines_of(first) + lines_of(second),
        match one.field("line"@) {
            Some(JsonView::Number(Some(line))) if -0x8000_0000_0000_0000 <= line
                <= 0x7fff_ffff_ffff_ffff => lines_of(seq![one]) == seq![line as i64],
            _ => lines_of(seq![one]).len() == 0,
        },
        lines_of(Seq::empty()).len() == 0,
    decreases second.len(),
{
    let single = seq![one];
    assert(single.drop_last() =~= Seq::empty());
    assert(lines_of(single.drop_last()) =~= Seq::empty());
    if second.len() == 0 {
        assert(first + second =~= first);
        assert(lines_of(first) + lines_of(second) =~= lines_of(first));
    } else {
        law_lines_of_lists(first, second.drop_last(), one);
        assert((first + second).drop_last() =~= first + second.drop_last());
        assert((first + second).last() == second.last());
        assert(lines_of(first + second) =~= lines_of(first) + lines_of(second));
    }
}

/// A request that lists breakpoints by their lines has each remembered by its line, in the order of
/// the list, however many they are, and is answered with as many breakpoints, all of them placed.
pub proof fn law_every_line_is_remembered(
    request: JsonView,
    breakpoints: Seq<JsonView>,
    lines: Seq<i64>,
    state: Seq<Seq<char>>,
)
    requires
        crate::server_laws::commands(request, "setBreakpoints"@),
        crate::server_laws::argues(request, "breakpoints"@, JsonView::Array(breakpoints)),
        breakpoints.len() == lines.len(),
        forall|i: int|
            0 <= i < lines.len() ==> (#[trigger] breakpoints[i]).field("line"@) == Some(
                JsonView::Number(Some(lines[i] as i128)),
            ),
    ensures
        state_after(request, state).len() == lines.len(),
        forall|i: int|
            0 <= i < lines.len() ==> #[trigger] state_after(request, state)[i] == "line: "@
                + text::integer_text(lines[i] as int),
        answer_tree(request).field("success"@) == Some(JsonView::Bool(true)),
        crate::server_laws::tells_breakpoints(
            answer_tree(request).field("body"@),
            Seq::new(lines.len(), |i: int| true),
        ),
{
    reveal_strlit("initialize");
    reveal_strlit("setBreakpoints");
    assert("initialize"@[0] == 'i' && "setBreakpoints"@[0] == 's');
    lemma_every_line_counts(breakpoints, lines);
    let verified = requested_lines(request).map_values(|line: i64| true);
    assert(verified =~= Seq::new(lines.len(), |i: int| true));
    crate::server::lemma_response_fields(
        request,
        true,
        None,
        Some(crate::server::breakpoints_tree(verified)),
    );
    crate::server_laws::lemma_breakpoints_tree(verified);
}

/// Where every breakpoint of a list has a line, the lines are those, in order.
proof fn lemma_every_line_counts(breakpoints: Seq<JsonView>, lines: Seq<i64>)
    requires
        breakpoints.len() == lines.len(),
        forall|i: int|
            0 <= i < lines.len() ==> (#[trigger] breakpoints[i]).field("line"@) == Some(
                JsonView::Number(Some(lines[i] as i128)),
            ),
    ensures
        lines_of(breakpoints) == lines,
    decreases breakpoints.len(),
{
    if breakpoints.len() > 0 {
        let last = breakpoints.len() - 1;
        assert forall|i: int| 0 <= i < lines.drop_last().len() implies (
        #[trigger] breakpoints.drop_last()[i]).field("line"@) == Some(
            JsonView::Number(Some(lines.drop_last()[i] as i128)),
        ) by {
            assert(breakpoints.drop_last()[i] == breakpoints[i]);
        }
        lemma_every_line_counts(breakpoints.drop_last(), lines.drop_last());
        assert(breakpoints[last].field("line"@) == Some(
            JsonView::Number(Some(lines[last] as i128)),
        ));
    }
    assert(lines_of(breakpoints) =~= lines);
}

/// A client that introduces itself hears that there are no function breakpoints and that no memory
/// is read; a command that is neither this nor a request for breakpoints fails. Neither changes
/// what is remembered, and every reply has the number and the command of its request in it.
pub proof fn law_other_requests_change_nothing(
    request: JsonView,
    command: Seq<char>,
    number: i128,
    state: Seq<Seq<char>>,
)
    requires
        crate::server_laws::commands(request, command),
        request.field("seq"@) == Some(JsonView::Number(Some(number))),
        i64::MIN <= number <= i64::MAX,
    ensures
        answer_tree(request).field("request_seq"@) == Some(JsonView::Number(Some(number))),
        answer_tree(request).field("command"@) == Some(JsonView::Text(command)),
        command != "setBreakpoints"@ ==> state_after(request, state) == state,
        command == "initialize"@ ==> ({
            let body = answer_tree(request).field("body"@);
            &&& answer_tree(request).field("success"@) == Some(JsonView::Bool(true))
            &&& body is Some
            &&& body->0.field("supportsConfigurationDoneRequest"@) == Some(JsonView::Bool(true))
            &&& body->0.field("supportsFunctionBreakpoints"@) == Some(JsonView::Bool(false))
            &&& body->0.field("supportsReadMemoryRequest"@) == Some(JsonView::Bool(false))
        }),
        command != "initialize"@ && command != "setBreakpoints"@ ==> answer_tree(request).field(
            "success"@,
        ) == Some(JsonView::Bool(false)) && answer_tree(request).field("message"@) == Some(
            JsonView::Text("Command not implemented"@),
        ),
{
    let body = crate::server::capabilities(false, false);
    crate::server::lemma_response_fields(request, true, None, Some(body));
    crate::server::lemma_response_fields(request, false, Some("Command not implemented"@), None);
    crate::server::lemma_response_fields(
        request,
        true,
        None,
        Some(
            crate::server::breakpoints_tree(requested_lines(request).map_values(|line: i64| true)),
        ),
    );
    reveal_strlit("supportsConfigurationDoneRequest");
    reveal_strlit("supportsFunctionBreakpoints");
    reveal_strlit("supportsModulesRequest");
    reveal_strlit("supportsReadMemoryRequest");
    reveal_with_fuel(json::entry, 6);
    assert("supportsConfigurationDoneRequest"@.len() == 32 && "supportsFunctionBreakpoints"@.len()
        == 27 && "supportsModulesRequest"@.len() == 22 && "supportsReadMemoryRequest"@.len() == 25);
    let entries = body->Object_0;
    assert(entries.drop_first()[0] == entries[1]);
    assert(entries.drop_first().drop_first()[0] == entries[2]);
    assert(entries.drop_first().drop_first().drop_first()[0] == entries[3]);
    reveal_strlit("initialize");
    reveal_strlit("setBreakpoints");
    assert("initialize"@[0] == 'i' && "setBreakpoints"@[0] == 's');
}

} // verus!
