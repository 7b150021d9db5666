//! Which JSON value a value is written as.
use vstd::prelude::*;

use crate::json::{Json, JsonView};
use crate::text::owned;

verus! {

/// A value that is written as JSON.
pub trait ToJson {
    /// The JSON value that stands for this one.
    spec fn json(&self) -> JsonView;

    /// Builds the JSON value that stands for this one.
    fn to_json(&self) -> (json: Json)
        ensures
            json@ == self.json(),
            json@.writable(),
    ;
}

impl ToJson for () {
    open spec fn json(&self) -> JsonView {
        JsonView::Null
    }

    fn to_json(&self) -> (json: Json) {
        Json::Null
    }
}

impl ToJson for bool {
    open spec fn json(&self) -> JsonView {
        JsonView::Bool(*self)
    }

    fn to_json(&self) -> (json: Json) {
        Json::Bool(*self)
    }
}

impl ToJson for i64 {
    open spec fn json(&self) -> JsonView {
        JsonView::Number(Some(*self as i128))
    }

    fn to_json(&self) -> (json: Json) {
        Json::Number(Some(*self as i128))
    }
}

impl ToJson for u32 {
    open spec fn json(&self) -> JsonView {
        JsonView::Number(Some(*self as i128))
    }

    fn to_json(&self) -> (json: Json) {
        Json::Number(Some(*self as i128))
    }
}

impl ToJson for u64 {
    open spec fn json(&self) -> JsonView {
        JsonView::Number(Some(*self as i128))
    }

    fn to_json(&self) -> (json: Json) {
        Json::Number(Some(*self as i128))
    }
}

impl ToJson for String {
    open spec fn json(&self) -> JsonView {
        JsonView::Text(self@)
    }

    fn to_json(&self) -> (json: Json) {
        Json::Text(owned(self.as_str()))
    }
}

/// What is missing is written as null.
impl<T: ToJson> ToJson for Option<T> {
    open spec fn json(&self) -> JsonView {
        match self {
            Some(value) => value.json(),
            None => JsonView::Null,
        }
    }

    fn to_json(&self) -> (json: Json) {
        match self {
            Some(value) => value.to_json(),
            None => Json::Null,
        }
    }
}

impl<T: ToJson> ToJson for Vec<T> {
    open spec fn json(&self) -> JsonView {
        JsonView::Array(self@.map_values(|item: T| item.json()))
    }

    fn to_json(&self) -> (json: Json) {
        let ghost views = self@.map_values(|item: T| item.json());
        let mut items: Vec<Json> = Vec::new();
        let mut i: usize = 0;
        while i < self.len()
            invariant
                i <= self@.len(),
                items@.len() == i,
                views == self@.map_values(|item: T| item.json()),
                forall|j: int|
                    0 <= j < i ==> crate::json::tree(#[trigger] items@[j]) == views[j]
                        && views[j].writable(),
            decreases self@.len() - i,
        {
            let item = self[i].to_json();
            items.push(item);
            i += 1;
        }
        proof {
            crate::json::lemma_trees(items@);
            assert(crate::json::trees(items@) =~= views);
        }
        Json::Array(items)
    }
}

/// Whether the entries can stand in a value that text can say all of.
pub open spec fn writable_entries(entries: Seq<(Seq<char>, JsonView)>) -> bool {
    forall|i: int| 0 <= i < entries.len() ==> (#[trigger] entries[i]).1.writable()
}

/// Adds an entry to those of an object.
pub fn push_entry(entries: &mut Vec<(String, Json)>, key: &str, value: Json)
    requires
        writable_entries(crate::json::entry_trees(old(entries)@)),
        value@.writable(),
    ensures
        crate::json::entry_trees(final(entries)@) == crate::json::entry_trees(old(entries)@).push(
            (key@, value@),
        ),
        writable_entries(crate::json::entry_trees(final(entries)@)),
{
    let ghost before = entries@;
    entries.push((owned(key), value));
    assert(entries@.drop_last() =~= before);
}

/// Keys that differ in length or in the first character are distinct.
pub proof fn lemma_distinct_keys(keys: Seq<Seq<char>>)
    requires
        forall|i: int, j: int|
            #![trigger keys[i], keys[j]]
            0 <= i < j < keys.len() ==> keys[i].len() != keys[j].len() || keys[i][0] != keys[j][0],
    ensures
        keys.no_duplicates(),
{
}

/// Numbers are written as they are, truth values and texts too; what is missing is null, what is
/// there is itself, and a list has each of its items, in their order.
pub proof fn law_plain_values<T: ToJson>(
    truth: bool,
    signed: i64,
    small: u32,
    large: u64,
    text: String,
    value: T,
    list: Vec<T>,
)
    ensures
        truth.json() == JsonView::Bool(truth),
        signed.json() is Number && signed.json()->Number_0 is Some && signed.json()->Number_0->0
            as int == signed as int,
        small.json() is Number && small.json()->Number_0 is Some && small.json()->Number_0->0 as int
            == small as int,
        large.json() is Number && large.json()->Number_0 is Some && large.json()->Number_0->0 as int
            == large as int,
        text.json() == JsonView::Text(text@),
        ().json() is Null,
        None::<T>.json() is Null,
        Some(value).json() == value.json(),
        list.json() is Array,
        list.json()->Array_0.len() == list@.len(),
        forall|i: int|
            0 <= i < list@.len() ==> #[trigger] list.json()->Array_0[i] == list@[i].json(),
{
}

} // verus!
