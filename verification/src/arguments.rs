//! The command line: settings of the form `--name=value`.
use vstd::hash_map::StringHashMap;
use vstd::prelude::*;
use vstd::string::*;

use crate::text::{chars_of, owned, same_text};

verus! {

/// Where a character first comes up; the length where it does not.
pub open spec fn first_place(text: Seq<char>, c: char) -> int
    decreases text.len(),
{
    if text.len() == 0 || text[0] == c {
        0
    } else {
        1 + first_place(text.drop_first(), c)
    }
}

/// The name and the value of a setting: two dashes, the name, the first equals sign, and the
/// value.
pub open spec fn setting(argument: Seq<char>) -> Option<(Seq<char>, Seq<char>)> {
    if argument.len() >= 2 && argument[0] == '-' && argument[1] == '-' {
        let body = argument.skip(2);
        let place = first_place(body, '=');
        if place < body.len() {
            Some((body.take(place), body.skip(place + 1)))
        } else {
            None
        }
    } else {
        None
    }
}

/// A first place is in the text or at its end, and the character does not come up before it.
proof fn lemma_first_place(text: Seq<char>, c: char)
    ensures
        0 <= first_place(text, c) <= text.len(),
        first_place(text, c) < text.len() ==> text[first_place(text, c)] == c,
        forall|i: int| 0 <= i < first_place(text, c) ==> #[trigger] text[i] != c,
    decreases text.len(),
{
    if text.len() > 0 && text[0] != c {
        let rest = text.drop_first();
        lemma_first_place(rest, c);
        assert forall|i: int| 0 <= i < first_place(text, c) implies #[trigger] text[i] != c by {
            if i > 0 {
                assert(rest[i - 1] != c);
            }
        }
    }
}

/// The place where a character is and before which it is not is the first one.
proof fn lemma_is_first_place(text: Seq<char>, c: char, place: int)
    requires
        0 <= place <= text.len(),
        place < text.len() ==> text[place] == c,
        forall|i: int| 0 <= i < place ==> #[trigger] text[i] != c,
    ensures
        first_place(text, c) == place,
{
    lemma_first_place(text, c);
    let first = first_place(text, c);
    if first < place {
        assert(text[first] != c);
    }
    if place < first {
        assert(text[place] != c);
    }
}

/// The name and the value of a setting.
pub fn read_setting(argument: &str) -> (result: Option<(String, String)>)
    ensures
        match result {
            Some((name, value)) => setting(argument@) == Some((name@, value@)),
            None => setting(argument@) is None,
        },
{
    let chars = chars_of(argument);
    if chars.len() < 2 || chars[0] != '-' || chars[1] != '-' {
        return None;
    }
    let ghost body = argument@.skip(2);
    let mut place: usize = 2;
    while place < chars.len() && chars[place] != '='
        invariant
            2 <= place <= chars@.len(),
            chars@ == argument@,
            body == argument@.skip(2),
            forall|i: int| 0 <= i < place - 2 ==> #[trigger] body[i] != '=',
        decreases chars@.len() - place,
    {
        place += 1;
    }
    proof {
        lemma_is_first_place(body, '=', place - 2);
    }
    if place == chars.len() {
        return None;
    }
    let name = argument.substring_char(2, place);
    let value = argument.substring_char(place + 1, chars.len());
    assert(name@ =~= body.take(place - 2));
    assert(value@ =~= body.skip(place - 1));
    Some((owned(name), owned(value)))
}

/// Reads settings off a command line and tells which handler each is for.
pub struct ArgumentParser {
    /// The handlers by the names of the settings, each a number that the caller chose.
    pub handlers: StringHashMap<usize>,
}

/// The handlers and the values of those arguments that are settings with a handler, in order.
pub open spec fn handled(handlers: Map<Seq<char>, usize>, arguments: Seq<Seq<char>>) -> Seq<
    (usize, Seq<char>),
>
    decreases arguments.len(),
{
    if arguments.len() == 0 {
        Seq::empty()
    } else {
        let earlier = handled(handlers, arguments.drop_last());
        match setting(arguments.last()) {
            Some((name, value)) => if handlers.contains_key(name) {
                earlier.push((handlers[name], value))
            } else {
                earlier
            },
            None => earlier,
        }
    }
}

/// Which handlers are called, and with what.
pub open spec fn calls_view(calls: Seq<(usize, String)>) -> Seq<(usize, Seq<char>)> {
    calls.map_values(|call: (usize, String)| (call.0, call.1@))
}

impl ArgumentParser {
    /// A parser without handlers.
    pub fn new() -> (parser: ArgumentParser)
        ensures
            parser.handlers@ == Map::<Seq<char>, usize>::empty(),
    {
        ArgumentParser { handlers: StringHashMap::new() }
    }

    /// Gives a setting a handler, in place of an earlier one.
    pub fn on(&mut self, name: &str, handler: usize)
        ensures
            final(self).handlers@ == old(self).handlers@.insert(name@, handler),
    {
        self.handlers.insert(owned(name), handler);
    }

    /// The handlers that an argument list calls, with the values, in order; arguments that are no
    /// setting, or one without a handler, are passed over.
    pub fn parse(&self, arguments: &Vec<String>) -> (calls: Vec<(usize, String)>)
        ensures
            calls_view(calls@) == handled(
                self.handlers@,
                crate::symbols::names_view(arguments@),
            ),
    {
        let ghost views = crate::symbols::names_view(arguments@);
        let mut calls: Vec<(usize, String)> = Vec::new();
        let mut i: usize = 0;
        assert(views.take(0) =~= Seq::empty());
        assert(calls_view(calls@) =~= Seq::empty());
        while i < arguments.len()
            invariant
                i <= arguments@.len(),
                views == crate::symbols::names_view(arguments@),
                calls_view(calls@) == handled(self.handlers@, views.take(i as int)),
            decreases arguments@.len() - i,
        {
            assert(views.take(i + 1).drop_last() =~= views.take(i as int));
            assert(views.take(i + 1).last() == arguments@[i as int]@);
            if let Some((name, value)) = read_setting(arguments[i].as_str()) {
                if let Some(handler) = self.handlers.get(name.as_str()) {
                    let ghost before = calls@;
                    let ghost shown = value@;
                    calls.push((*handler, value));
                    assert(calls_view(calls@) =~= calls_view(before).push((*handler, shown)));
                }
            }
            i += 1;
        }
        assert(views.take(i as int) =~= views);
        calls
    }
}

/// The value of the first setting of the target among the arguments.
pub open spec fn target(arguments: Seq<Seq<char>>) -> Option<Seq<char>>
    decreases arguments.len(),
{
    if arguments.len() == 0 {
        None
    } else {
        match setting(arguments[0]) {
            Some((name, value)) => if name == "target"@ {
                Some(value)
            } else {
                target(arguments.drop_first())
            },
            None => target(arguments.drop_first()),
        }
    }
}

/// The value of the first `--target=` among the arguments.
pub fn find_target(arguments: &Vec<String>) -> (value: Option<String>)
    ensures
        match value {
            Some(value) => target(crate::symbols::names_view(arguments@)) == Some(value@),
            None => target(crate::symbols::names_view(arguments@)) is None,
        },
{
    let ghost views = crate::symbols::names_view(arguments@);
    let mut i: usize = 0;
    assert(views.skip(0) =~= views);
    while i < arguments.len()
        invariant
            i <= arguments@.len(),
            views == crate::symbols::names_view(arguments@),
            target(views.skip(i as int)) == target(views),
        decreases arguments@.len() - i,
    {
        assert(views.skip(i as int)[0] == arguments@[i as int]@);
        assert(views.skip(i as int).drop_first() =~= views.skip(i + 1));
        if let Some((name, value)) = read_setting(arguments[i].as_str()) {
            if same_text(name.as_str(), "target") {
                return Some(value);
            }
        }
        i += 1;
    }
    None
}

/// Whether an argument sets the target.
pub open spec fn is_target(argument: Seq<char>) -> bool {
    setting(argument) matches Some((name, _)) && name == "target"@
}

/// A setting is a target exactly if it starts with `--target=`, and the value is what follows.
pub proof fn law_target_prefix(argument: Seq<char>)
    ensures
        is_target(argument) <==> "--target="@.is_prefix_of(argument),
        "--target="@.is_prefix_of(argument) ==> setting(argument) == Some(
            ("target"@, argument.skip("--target="@.len() as int)),
        ),
{
    reveal_strlit("target");
    reveal_strlit("--target=");
    let body = argument.skip(2);
    lemma_first_place(body, '=');
    if "--target="@.is_prefix_of(argument) {
        assert forall|i: int| 0 <= i < 9 implies argument[i] == #[trigger] "--target="@[i] by {
            assert(argument.take(9)[i] == argument[i]);
        }
        assert(argument[0] == "--target="@[0] && argument[1] == "--target="@[1]);
        assert forall|i: int| 0 <= i < 7 implies #[trigger] body[i] == "--target="@[i + 2] by {
            assert(argument[i + 2] == "--target="@[i + 2]);
        }
        lemma_is_first_place(body, '=', 6);
        assert(body.take(6) =~= "target"@);
        assert(body.skip(7) =~= argument.skip(9));
    }
    if is_target(argument) {
        let place = first_place(body, '=');
        assert(body.take(place) == "target"@);
        assert forall|i: int| 0 <= i < 9 implies #[trigger] argument[i] == "--target="@[i] by {
            if 2 <= i < 8 {
                assert(body.take(place)[i - 2] == argument[i]);
                assert("target"@[i - 2] == "--target="@[i]);
            }
        }
        assert(argument.take(9) =~= "--target="@);
    }
}

/// A target is found exactly if the setting of the target has something to call: where it has the
/// only handler, the value found is the first one that the handler is called with.
pub proof fn law_target_is_first_handled(arguments: Seq<Seq<char>>, handler: usize)
    ensures
        ({
            let calls = handled(Map::empty().insert("target"@, handler), arguments);
            match target(arguments) {
                Some(value) => calls.len() > 0 && calls[0] == (handler, value),
                None => calls.len() == 0,
            }
        }),
    decreases arguments.len(),
{
    let handlers = Map::<Seq<char>, usize>::empty().insert("target"@, handler);
    if arguments.len() > 0 {
        let shorter = arguments.drop_last();
        law_target_is_first_handled(shorter, handler);
        lemma_target_extends(shorter, arguments.last());
        assert(arguments =~= shorter.push(arguments.last()));
        assert(handlers.contains_key("target"@));
    }
}

/// One more argument matters for the target only where no earlier one sets it.
proof fn lemma_target_extends(arguments: Seq<Seq<char>>, last: Seq<char>)
    ensures
        target(arguments.push(last)) == if target(arguments) is Some {
            target(arguments)
        } else {
            match setting(last) {
                Some((name, value)) => if name == "target"@ {
                    Some(value)
                } else {
                    None
                },
                None => None,
            }
        },
    decreases arguments.len(),
{
    let all = arguments.push(last);
    if arguments.len() == 0 {
        assert(all.drop_first() =~= Seq::empty());
        assert(target(all.drop_first()) is None);
    } else {
        assert(all.drop_first() =~= arguments.drop_first().push(last));
        lemma_target_extends(arguments.drop_first(), last);
    }
}

/// Two dashes, a name without an equals sign, an equals sign and a value, which may hold more
/// equals signs or nothing, are a setting of that name to that value; every setting is written so.
pub proof fn law_settings_are_written_so(
    name: Seq<char>,
    value: Seq<char>,
    argument: Seq<char>,
)
    ensures
        !name.contains('=') ==> setting(seq!['-', '-'] + name + seq!['='] + value) == Some(
            (name, value),
        ),
        setting(argument) matches Some((name, value)) ==> !name.contains('=') && argument == seq![
            '-',
            '-',
        ] + name + seq!['='] + value,
        setting(argument) is None ==> argument != seq!['-', '-'] + name + seq!['='] + value,
{
    let whole = seq!['-', '-'] + name + seq!['='] + value;
    let body = whole.skip(2);
    assert(body =~= name + seq!['='] + value);
    lemma_first_place(body, '=');
    assert(body[name.len() as int] == '=');
    if !name.contains('=') {
        assert forall|i: int| 0 <= i < name.len() implies #[trigger] body[i] != '=' by {
            assert(name.contains(name[i]));
        }
        lemma_is_first_place(body, '=', name.len() as int);
        assert(body.take(name.len() as int) =~= name);
        assert(body.skip(name.len() as int + 1) =~= value);
    }
    if setting(argument) is Some {
        let rest = argument.skip(2);
        let place = first_place(rest, '=');
        lemma_first_place(rest, '=');
        assert forall|i: int| 0 <= i < place implies rest.take(place)[i] != '=' by {
            assert(rest[i] != '=');
        }
        assert(argument =~= seq!['-', '-'] + rest.take(place) + seq!['='] + rest.skip(place + 1));
    }
}

/// The handlers that a list of arguments calls are those that its parts call, one behind the other:
/// a setting with a handler calls it once, with the value, and any other argument calls nothing.
pub proof fn law_handlers_of_lists(
    handlers: Map<Seq<char>, usize>,
    first: Seq<Seq<char>>,
    second: Seq<Seq<char>>,
    argument: Seq<char>,
    name: Seq<char>,
    value: Seq<char>,
)
    ensures
        handled(handlers, first + second) == handled(handlers, first) + handled(handlers, second),
        handled(handlers, Seq::empty()).len() == 0,
        setting(argument) == Some((name, value)) && handlers.contains_key(name) ==> handled(
            handlers,
            seq![argument],
        ) == seq![(handlers[name], value)],
        setting(argument) == Some((name, value)) && !handlers.contains_key(name) ==> handled(
            handlers,
            seq![argument],
        ).len() == 0,
        setting(argument) is None ==> handled(handlers, seq![argument]).len() == 0,
    decreases second.len(),
{
    let single = seq![argument];
    assert(single.drop_last() =~= Seq::empty());
    assert(handled(handlers, single.drop_last()) =~= Seq::empty());
    if second.len() == 0 {
        assert(first + second =~= first);
        assert(handled(handlers, first) + handled(handlers, second) =~= handled(handlers, first));
    } else {
        law_handlers_of_lists(handlers, first, second.drop_last(), argument, name, value);
        assert((first + second).drop_last() =~= first + second.drop_last());
        assert((first + second).last() == second.last());
        assert(handled(handlers, first + second) =~= handled(handlers, first) + handled(
            handlers,
            second,
        ));
    }
}

/// The target is what follows `--target=` in the first argument that starts so.
pub proof fn law_first_target_counts(
    before: Seq<Seq<char>>,
    value: Seq<char>,
    behind: Seq<Seq<char>>,
)
    requires
        forall|i: int|
            0 <= i < before.len() ==> !"--target="@.is_prefix_of(#[trigger] before[i]),
    ensures
        target(before) is None,
        target(before + seq!["--target="@ + value] + behind) == Some(value),
    decreases before.len(),
{
    let argument = "--target="@ + value;
    let all = before + seq![argument] + behind;
    if before.len() == 0 {
        law_target_prefix(argument);
        assert(argument.take("--target="@.len() as int) =~= "--target="@);
        assert(argument.skip("--target="@.len() as int) =~= value);
        assert(all[0] == argument);
    } else {
        law_target_prefix(before[0]);
        assert forall|i: int| 0 <= i < before.drop_first().len() implies !"--target="@.is_prefix_of(
            #[trigger] before.drop_first()[i],
        ) by {
            assert(before.drop_first()[i] == before[i + 1]);
        }
        law_first_target_counts(before.drop_first(), value, behind);
        assert(all.drop_first() =~= before.drop_first() + seq![argument] + behind);
        assert(all[0] == before[0]);
    }
}

} // verus!
