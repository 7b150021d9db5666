//! JSON values, read from text and written to text by `serde_json`.
use vstd::prelude::*;

use crate::text::{owned, same_text};

verus! {

/// A JSON value. Of a number only this is kept: the integer that it is, if it is one that 64 bits
/// can hold, with or without a sign.
pub enum Json {
    Null,
    Bool(bool),
    Number(Option<i128>),
    Text(String),
    Array(Vec<Json>),
    Object(Vec<(String, Json)>),
}

/// What a JSON value holds; an object is the sequence of its entries.
pub enum JsonView {
    Null,
    Bool(bool),
    Number(Option<i128>),
    Text(Seq<char>),
    Array(Seq<JsonView>),
    Object(Seq<(Seq<char>, JsonView)>),
}

/// What a JSON value holds.
pub open spec fn tree(json: Json) -> JsonView
    decreases json,
{
    match json {
        Json::Null => JsonView::Null,
        Json::Bool(value) => JsonView::Bool(value),
        Json::Number(number) => JsonView::Number(number),
        Json::Text(text) => JsonView::Text(text@),
        Json::Array(items) => JsonView::Array(trees(items@)),
        Json::Object(entries) => JsonView::Object(entry_trees(entries@)),
    }
}

/// What each of several JSON values holds.
pub open spec fn trees(items: Seq<Json>) -> Seq<JsonView>
    decreases items,
{
    if items.len() == 0 {
        Seq::empty()
    } else {
        trees(items.drop_last()).push(tree(items.last()))
    }
}

/// What each of several entries of an object holds.
pub open spec fn entry_trees(entries: Seq<(String, Json)>) -> Seq<(Seq<char>, JsonView)>
    decreases entries,
{
    if entries.len() == 0 {
        Seq::empty()
    } else {
        entry_trees(entries.drop_last()).push((entries.last().0@, tree(entries.last().1)))
    }
}

/// Each value is viewed by itself.
pub proof fn lemma_trees(items: Seq<Json>)
    ensures
        trees(items).len() == items.len(),
        forall|i: int| 0 <= i < items.len() ==> #[trigger] trees(items)[i] == tree(items[i]),
    decreases items.len(),
{
    if items.len() > 0 {
        lemma_trees(items.drop_last());
    }
}

/// Each entry is viewed by itself.
pub proof fn lemma_entry_trees(entries: Seq<(String, Json)>)
    ensures
        entry_trees(entries).len() == entries.len(),
        forall|i: int|
            0 <= i < entries.len() ==> #[trigger] entry_trees(entries)[i] == (
                entries[i].0@,
                tree(entries[i].1),
            ),
    decreases entries.len(),
{
    if entries.len() > 0 {
        lemma_entry_trees(entries.drop_last());
    }
}

impl View for Json {
    type V = JsonView;

    open spec fn view(&self) -> JsonView {
        tree(*self)
    }
}

/// The keys of an object's entries.
pub open spec fn keys(entries: Seq<(Seq<char>, JsonView)>) -> Seq<Seq<char>> {
    entries.map_values(|entry: (Seq<char>, JsonView)| entry.0)
}

/// The first entry with a key.
pub open spec fn entry(entries: Seq<(Seq<char>, JsonView)>, key: Seq<char>) -> Option<JsonView>
    decreases entries.len(),
{
    if entries.len() == 0 {
        None
    } else if entries[0].0 == key {
        Some(entries[0].1)
    } else {
        entry(entries.drop_first(), key)
    }
}

impl JsonView {
    /// The value under a key; what is no object has none.
    pub open spec fn field(self, key: Seq<char>) -> Option<JsonView> {
        match self {
            JsonView::Object(entries) => entry(entries, key),
            _ => None,
        }
    }

    /// The value under a key of the value under another.
    pub open spec fn inner_field(self, outer: Seq<char>, key: Seq<char>) -> Option<JsonView> {
        match self.field(outer) {
            Some(value) => value.field(key),
            None => None,
        }
    }

    /// Whether text can say all of the value: every number is an integer of 64 bits, with or
    /// without a sign, and no object has a key twice.
    pub open spec fn writable(self) -> bool
        decreases self,
    {
        match self {
            JsonView::Number(Some(number)) => i64::MIN <= number <= u64::MAX,
            JsonView::Number(None) => false,
            JsonView::Array(items) => forall|i: int|
                0 <= i < items.len() ==> (#[trigger] items[i]).writable(),
            JsonView::Object(entries) => keys(entries).no_duplicates() && forall|i: int|
                0 <= i < entries.len() ==> (#[trigger] entries[i]).1.writable(),
            _ => true,
        }
    }

    /// Whether arrays and objects stand in one another at most `depth` deep.
    pub open spec fn within(self, depth: nat) -> bool
        decreases self,
    {
        match self {
            JsonView::Array(items) => depth > 0 && forall|i: int|
                0 <= i < items.len() ==> (#[trigger] items[i]).within((depth - 1) as nat),
            JsonView::Object(entries) => depth > 0 && forall|i: int|
                0 <= i < entries.len() ==> (#[trigger] entries[i]).1.within((depth - 1) as nat),
            _ => true,
        }
    }
}

/// The text of an optional value, where it is text.
pub open spec fn as_text(value: Option<JsonView>) -> Option<Seq<char>> {
    match value {
        Some(JsonView::Text(text)) => Some(text),
        _ => None,
    }
}

/// The signed 64-bit integer of an optional value, where it is one.
pub open spec fn as_integer(value: Option<JsonView>) -> Option<i64> {
    match value {
        Some(JsonView::Number(Some(number))) => if i64::MIN <= number <= i64::MAX {
            Some(number as i64)
        } else {
            None
        },
        _ => None,
    }
}

/// The items of an optional value; what is no array has none.
pub open spec fn as_items(value: Option<JsonView>) -> Seq<JsonView> {
    match value {
        Some(JsonView::Array(items)) => items,
        _ => Seq::empty(),
    }
}

impl Json {
    /// The value under a key.
    pub fn get(&self, key: &str) -> (value: Option<&Json>)
        ensures
            match value {
                Some(value) => self@.field(key@) == Some(value@),
                None => self@.field(key@) is None,
            },
    {
        match self {
            Json::Object(entries) => {
                let ghost all = entry_trees(entries@);
                proof {
                    lemma_entry_trees(entries@);
                }
                let mut i: usize = 0;
                assert(all.skip(0) =~= all);
                while i < entries.len()
                    invariant
                        i <= entries@.len(),
                        self@ == JsonView::Object(all),
                        all == entry_trees(entries@),
                        all.len() == entries@.len(),
                        forall|j: int|
                            0 <= j < entries@.len() ==> #[trigger] all[j] == (
                                entries@[j].0@,
                                tree(entries@[j].1),
                            ),
                        entry(all.skip(i as int), key@) == entry(all, key@),
                    decreases entries@.len() - i,
                {
                    assert(all.skip(i as int)[0] == all[i as int]);
                    assert(all.skip(i as int).drop_first() =~= all.skip(i + 1));
                    if same_text(entries[i].0.as_str(), key) {
                        return Some(&entries[i].1);
                    }
                    i += 1;
                }
                None
            },
            _ => None,
        }
    }

    /// The value under a key of the value under another.
    pub fn get_inner(&self, outer: &str, key: &str) -> (value: Option<&Json>)
        ensures
            match value {
                Some(value) => self@.inner_field(outer@, key@) == Some(value@),
                None => self@.inner_field(outer@, key@) is None,
            },
    {
        match self.get(outer) {
            Some(value) => value.get(key),
            None => None,
        }
    }
}

/// The text of an optional value, where it is text.
pub fn text_of(value: Option<&Json>) -> (text: Option<&str>)
    ensures
        match text {
            Some(text) => value is Some && as_text(Some(value->0@)) == Some(text@),
            None => value is None || as_text(Some(value->0@)) is None,
        },
{
    match value {
        Some(Json::Text(text)) => Some(text.as_str()),
        _ => None,
    }
}

/// The signed 64-bit integer of an optional value, where it is one.
pub fn integer_of(value: Option<&Json>) -> (number: Option<i64>)
    ensures
        number == (match value {
            Some(value) => as_integer(Some(value@)),
            None => None,
        }),
{
    match value {
        Some(Json::Number(Some(number))) => if i64::MIN as i128 <= *number && *number
            <= i64::MAX as i128 {
            Some(*number as i64)
        } else {
            None
        },
        _ => None,
    }
}

/// The items of an optional value, where it is an array.
pub fn items_of(value: Option<&Json>) -> (items: Option<&Vec<Json>>)
    ensures
        match items {
            Some(items) => value is Some && value->0@ == JsonView::Array(trees(items@)),
            None => value is None || !(value->0@ is Array),
        },
{
    match value {
        Some(Json::Array(items)) => Some(items),
        _ => None,
    }
}

/// The value type of `serde_json`; nothing is known of what is inside it.
#[verifier::external_type_specification]
#[verifier::external_body]
pub struct ExValue(serde_json::Value);

/// The error type of `serde_json`; nothing is known of what is inside it.
#[verifier::external_type_specification]
#[verifier::external_body]
pub struct ExError(serde_json::Error);

/// What a `serde_json::Value` holds: its items in order, its entries in the order of insertion,
/// and of a number what `Number::as_i128` gives.
pub uninterp spec fn contents(value: serde_json::Value) -> JsonView;

/// What `serde_json::from_str` reads from a text, as what the value holds; `None` where it fails.
pub uninterp spec fn parsed(text: Seq<char>) -> Option<JsonView>;

/// What `serde_json::to_string` writes for a value, given what the value holds.
pub uninterp spec fn written(value: JsonView) -> Seq<char>;

/// The outermost layer of a `serde_json::Value`.
pub enum Node {
    Null,
    Bool(bool),
    Number(Option<i128>),
    Text(String),
    Array(Vec<serde_json::Value>),
    Object(Vec<(String, serde_json::Value)>),
}

/// What a value with this outermost layer holds.
pub open spec fn node_contents(node: Node) -> JsonView {
    match node {
        Node::Null => JsonView::Null,
        Node::Bool(value) => JsonView::Bool(value),
        Node::Number(number) => JsonView::Number(number),
        Node::Text(text) => JsonView::Text(text@),
        Node::Array(items) => JsonView::Array(
            items@.map_values(|item: serde_json::Value| contents(item)),
        ),
        Node::Object(entries) => JsonView::Object(
            entries@.map_values(|entry: (String, serde_json::Value)| (entry.0@, contents(entry.1))),
        ),
    }
}

/// Matches on `serde_json::Value`, and claims that its fields make up what the value holds; of a
/// number it hands out what `Number::as_i128` gives, of an object the entries that `Map` hands
/// out, in its order.
#[verifier::external_body]
fn take_apart(value: serde_json::Value) -> (node: Node)
    ensures
        node_contents(node) == contents(value),
{
    match value {
        serde_json::Value::Null => Node::Null,
        serde_json::Value::Bool(value) => Node::Bool(value),
        serde_json::Value::Number(number) => Node::Number(number.as_i128()),
        serde_json::Value::String(text) => Node::Text(text),
        serde_json::Value::Array(items) => Node::Array(items),
        serde_json::Value::Object(entries) => Node::Object(entries.into_iter().collect()),
    }
}

/// Builds a `serde_json::Value` from its outermost layer, and claims that it holds just that. A
/// `Map` with every key once keeps its entries in the order in which they came, since the crate is
/// built with `preserve_order`. A number comes from `Number::from_i128`, which has one for each
/// integer of 64 bits, with or without a sign.
#[verifier::external_body]
fn assemble(node: Node) -> (value: serde_json::Value)
    requires
        match node {
            Node::Number(Some(number)) => i64::MIN <= number <= u64::MAX,
            Node::Number(None) => false,
            Node::Object(entries) => entries@.map_values(
                |entry: (String, serde_json::Value)| entry.0@,
            ).no_duplicates(),
            _ => true,
        },
    ensures
        contents(value) == node_contents(node),
{
    match node {
        Node::Null => serde_json::Value::Null,
        Node::Bool(value) => serde_json::Value::Bool(value),
        Node::Number(number) => serde_json::Value::from(
            number.and_then(serde_json::Number::from_i128),
        ),
        Node::Text(text) => serde_json::Value::String(text),
        Node::Array(items) => serde_json::Value::Array(items),
        Node::Object(entries) => serde_json::Value::Object(entries.into_iter().collect()),
    }
}

/// Calls `serde_json::from_str`, and claims that what it reads depends on the text alone; which
/// texts are JSON is left to the crate, but for those that `text_from_value` writes.
#[verifier::external_body]
fn value_from_text(text: &str) -> (result: Result<serde_json::Value, serde_json::Error>)
    ensures
        match result {
            Ok(value) => parsed(text@) == Some(contents(value)),
            Err(_) => parsed(text@) is None,
        },
{
    serde_json::from_str(text)
}

/// Calls `serde_json::to_string`, which does not fail on a value. Claims that the text depends
/// only on what the value holds, if its numbers are integers, and that reading the text gives
/// that back. A value that is nested more deeply than the reader allows is left out: writing goes
/// one call deeper for each level.
#[verifier::external_body]
fn text_from_value(value: &serde_json::Value) -> (text: String)
    requires
        contents(*value).writable(),
        contents(*value).within(127),
    ensures
        text@ == written(contents(*value)),
        parsed(text@) == Some(contents(*value)),
{
    serde_json::to_string(value).unwrap()
}

/// What stands in an array or an object is smaller than the whole.
proof fn lemma_items_are_smaller(whole: JsonView, i: int)
    ensures
        whole is Array && 0 <= i < whole->Array_0.len() ==> decreases_to!(
            whole => whole->Array_0[i]
        ),
        whole is Object && 0 <= i < whole->Object_0.len() ==> decreases_to!(
            whole => whole->Object_0[i].1
        ),
{
    if whole is Array && 0 <= i < whole->Array_0.len() {
        assert(decreases_to!(whole => whole->Array_0));
        assert(decreases_to!(whole->Array_0 => whole->Array_0[i]));
    }
    if whole is Object && 0 <= i < whole->Object_0.len() {
        assert(decreases_to!(whole => whole->Object_0));
        assert(decreases_to!(whole->Object_0 => whole->Object_0[i]));
        assert(decreases_to!(whole->Object_0[i] => whole->Object_0[i].1));
    }
}

/// The value of the library that holds what a value of `serde_json` holds.
fn json_from_value(value: serde_json::Value) -> (json: Json)
    ensures
        json@ == contents(value),
    decreases contents(value),
{
    match take_apart(value) {
        Node::Null => Json::Null,
        Node::Bool(value) => Json::Bool(value),
        Node::Number(number) => Json::Number(number),
        Node::Text(text) => Json::Text(text),
        Node::Array(items) => {
            let ghost all = items@;
            let ghost views = all.map_values(|item: serde_json::Value| contents(item));
            let mut out: Vec<Json> = Vec::new();
            for item in iter: items
                invariant
                    iter.seq() == all,
                    out@.len() == iter.index(),
                    views == all.map_values(|item: serde_json::Value| contents(item)),
                    contents(value) == JsonView::Array(views),
                    forall|j: int| 0 <= j < out@.len() ==> tree(#[trigger] out@[j]) == views[j],
            {
                proof {
                    lemma_items_are_smaller(contents(value), out@.len() as int);
                }
                let json = json_from_value(item);
                out.push(json);
            }
            proof {
                lemma_trees(out@);
                assert(trees(out@) =~= views);
            }
            Json::Array(out)
        },
        Node::Object(entries) => {
            let ghost all = entries@;
            let ghost views = all.map_values(
                |entry: (String, serde_json::Value)| (entry.0@, contents(entry.1)),
            );
            let mut out: Vec<(String, Json)> = Vec::new();
            for entry in iter: entries
                invariant
                    iter.seq() == all,
                    out@.len() == iter.index(),
                    views == all.map_values(
                        |entry: (String, serde_json::Value)| (entry.0@, contents(entry.1)),
                    ),
                    contents(value) == JsonView::Object(views),
                    forall|j: int|
                        0 <= j < out@.len() ==> (
                            (#[trigger] out@[j]).0@,
                            tree(out@[j].1),
                        ) == views[j],
            {
                proof {
                    lemma_items_are_smaller(contents(value), out@.len() as int);
                }
                let (key, item) = entry;
                let json = json_from_value(item);
                out.push((key, json));
            }
            proof {
                lemma_entry_trees(out@);
                assert(entry_trees(out@) =~= views);
            }
            Json::Object(out)
        },
    }
}

/// The value of `serde_json` that holds what a value of the library holds.
fn value_from_json(json: &Json) -> (value: serde_json::Value)
    requires
        json@.writable(),
    ensures
        contents(value) == json@,
    decreases json,
{
    match json {
        Json::Null => assemble(Node::Null),
        Json::Bool(value) => assemble(Node::Bool(*value)),
        Json::Number(number) => assemble(Node::Number(*number)),
        Json::Text(text) => assemble(Node::Text(owned(text.as_str()))),
        Json::Array(items) => {
            proof {
                lemma_trees(items@);
            }
            let ghost views = trees(items@);
            let mut out: Vec<serde_json::Value> = Vec::new();
            let mut i: usize = 0;
            while i < items.len()
                invariant
                    i <= items@.len(),
                    out@.len() == i,
                    *json == Json::Array(*items),
                    views == trees(items@),
                    views.len() == items@.len(),
                    json@ == JsonView::Array(views),
                    json@.writable(),
                    forall|j: int|
                        0 <= j < items@.len() ==> #[trigger] views[j] == tree(items@[j]),
                    forall|j: int| 0 <= j < i ==> contents(#[trigger] out@[j]) == views[j],
                decreases items@.len() - i,
            {
                assert(json@->Array_0[i as int].writable());
                let value = value_from_json(&items[i]);
                out.push(value);
                i += 1;
            }
            assert(out@.map_values(|item: serde_json::Value| contents(item)) =~= views);
            assemble(Node::Array(out))
        },
        Json::Object(entries) => {
            proof {
                lemma_entry_trees(entries@);
            }
            let ghost views = entry_trees(entries@);
            let mut out: Vec<(String, serde_json::Value)> = Vec::new();
            let mut i: usize = 0;
            while i < entries.len()
                invariant
                    i <= entries@.len(),
                    out@.len() == i,
                    *json == Json::Object(*entries),
                    views == entry_trees(entries@),
                    views.len() == entries@.len(),
                    json@ == JsonView::Object(views),
                    json@.writable(),
                    forall|j: int|
                        0 <= j < entries@.len() ==> #[trigger] views[j] == (
                            entries@[j].0@,
                            tree(entries@[j].1),
                        ),
                    forall|j: int|
                        0 <= j < i ==> ((#[trigger] out@[j]).0@, contents(out@[j].1)) == views[j],
                decreases entries@.len() - i,
            {
                assert(views[i as int] == (entries@[i as int].0@, tree(entries@[i as int].1)));
                let value = value_from_json(&entries[i].1);
                out.push((owned(entries[i].0.as_str()), value));
                i += 1;
            }
            assert(out@.map_values(
                |entry: (String, serde_json::Value)| (entry.0@, contents(entry.1)),
            ) =~= views);
            assert(out@.map_values(|entry: (String, serde_json::Value)| entry.0@) =~= keys(views));
            assemble(Node::Object(out))
        },
    }
}

/// A text that is no JSON.
#[derive(Debug)]
pub struct JsonError;

/// Reads a JSON value from text.
pub fn parse(text: &str) -> (result: Result<Json, JsonError>)
    ensures
        match result {
            Ok(json) => parsed(text@) == Some(json@),
            Err(_) => parsed(text@) is None,
        },
{
    match value_from_text(text) {
        Ok(value) => Ok(json_from_value(value)),
        Err(_) => Err(JsonError),
    }
}

/// Writes a JSON value as text, without white space, if it is not nested too deeply to be read
/// back.
pub fn to_text(json: &Json) -> (text: String)
    requires
        json@.writable(),
        json@.within(127),
    ensures
        text@ == written(json@),
        parsed(text@) == Some(json@),
{
    text_from_value(&value_from_json(json))
}

/// Looking a key up finds what stands under it: in an object whose keys differ, each entry is found
/// by its key, a key that no entry has gives nothing, and so does any key of what is no object.
pub proof fn law_fields(value: JsonView, key: Seq<char>, i: int)
    ensures
        value is Object && 0 <= i < value->Object_0.len() && keys(value->Object_0).no_duplicates()
            ==> value.field(value->Object_0[i].0) == Some(value->Object_0[i].1),
        value is Object && !keys(value->Object_0).contains(key) ==> value.field(key) is None,
        !(value is Object) ==> value.field(key) is None,
{
    if value is Object {
        let entries = value->Object_0;
        if 0 <= i < entries.len() && keys(entries).no_duplicates() {
            lemma_entry_found(entries, i);
        }
        if !keys(entries).contains(key) {
            lemma_entry_missing(entries, key);
        }
    }
}

/// An entry with a key that no other has is found by it.
proof fn lemma_entry_found(entries: Seq<(Seq<char>, JsonView)>, i: int)
    requires
        0 <= i < entries.len(),
        keys(entries).no_duplicates(),
    ensures
        entry(entries, entries[i].0) == Some(entries[i].1),
    decreases entries.len(),
{
    if i > 0 {
        let rest = entries.drop_first();
        assert(keys(entries)[0] == entries[0].0 && keys(entries)[i] == entries[i].0);
        assert forall|a: int, b: int|
            0 <= a < keys(rest).len() && 0 <= b < keys(rest).len() && a != b implies keys(rest)[a]
            != keys(rest)[b] by {
            assert(keys(rest)[a] == keys(entries)[a + 1] && keys(rest)[b] == keys(entries)[b + 1]);
        }
        lemma_entry_found(rest, i - 1);
    }
}

/// A key that no entry has is not found.
proof fn lemma_entry_missing(entries: Seq<(Seq<char>, JsonView)>, key: Seq<char>)
    requires
        !keys(entries).contains(key),
    ensures
        entry(entries, key) is None,
    decreases entries.len(),
{
    if entries.len() > 0 {
        let rest = entries.drop_first();
        assert(keys(entries)[0] == entries[0].0);
        assert(!keys(rest).contains(key)) by {
            if keys(rest).contains(key) {
                let k = choose|k: int| 0 <= k < keys(rest).len() && keys(rest)[k] == key;
                assert(keys(entries)[k + 1] == key);
            }
        }
        lemma_entry_missing(rest, key);
    }
}

/// What counts as a text, as an integer and as a list: a text is the text that it is, an integer
/// counts where 64 bits with a sign hold it, a list is its items, and nothing is anything else.
pub proof fn law_kinds_of_values(text: Seq<char>, number: i128, items: Seq<JsonView>, value: JsonView)
    ensures
        as_text(Some(JsonView::Text(text))) == Some(text),
        as_text(Some(value)) is Some <==> value is Text,
        as_text(None) is None,
        -0x8000_0000_0000_0000 <= number <= 0x7fff_ffff_ffff_ffff ==> as_integer(
            Some(JsonView::Number(Some(number))),
        ) == Some(number as i64),
        number < -0x8000_0000_0000_0000 || number > 0x7fff_ffff_ffff_ffff ==> as_integer(
            Some(JsonView::Number(Some(number))),
        ) is None,
        as_integer(Some(value)) is Some ==> value is Number,
        as_integer(None) is None,
        as_items(Some(JsonView::Array(items))) == items,
        !(value is Array) ==> as_items(Some(value)).len() == 0,
        as_items(None).len() == 0,
{
}

/// A value under two keys is found step by step, and is missing where the first step fails.
pub proof fn law_inner_fields(value: JsonView, outer: Seq<char>, key: Seq<char>)
    ensures
        value.field(outer) is Some ==> value.inner_field(outer, key) == value.field(outer)->0.field(
            key,
        ),
        value.field(outer) is None ==> value.inner_field(outer, key) is None,
{
}

} // verus!
