//! JSON text: reading bytes as a value and writing a value as bytes, by way of
//! the values of `serde_json`.
use crate::json::{
    distinct_keys, items_view, lemma_members_of, lemma_placed, members_of, number_value,
    object_view, put_entry, viewed, Json, JsonView,
};
use vstd::prelude::*;

verus! {

/// `serde_json::Value`, whose value has the name [`serde_view`].
#[verifier::external_type_specification]
#[verifier::external_body]
pub struct ExSerdeValue(serde_json::Value);

/// Which JSON value a `serde_json::Value` is.
pub uninterp spec fn serde_view(value: serde_json::Value) -> JsonView;

/// What reading bytes as JSON gives: the value, or the text of the error.
pub uninterp spec fn json_parsed(bytes: Seq<u8>) -> Result<JsonView, Seq<char>>;

/// The JSON text of a value, as UTF-8 bytes.
pub uninterp spec fn json_rendered(value: JsonView) -> Seq<u8>;

/// A `serde_json::Value`, opened one level deep.
pub enum ValueParts {
    Null,
    Bool(bool),
    Number(serde_json::Number),
    String(String),
    Array(Vec<serde_json::Value>),
    Object(Vec<(String, serde_json::Value)>),
}

/// Which JSON values the values of a list are.
pub open spec fn serde_items(items: Seq<serde_json::Value>) -> Seq<JsonView> {
    items.map_values(|item: serde_json::Value| serde_view(item))
}

/// The entries of a list, each with the JSON value that it holds.
pub open spec fn serde_entries(entries: Seq<(String, serde_json::Value)>) -> Seq<
    (Seq<char>, JsonView),
> {
    viewed(entries, |value: serde_json::Value| serde_view(value))
}

impl View for ValueParts {
    type V = JsonView;

    open spec fn view(&self) -> JsonView {
        match *self {
            ValueParts::Null => JsonView::Null,
            ValueParts::Bool(b) => JsonView::Bool(b),
            ValueParts::Number(n) => JsonView::Number(number_value(n)),
            ValueParts::String(s) => JsonView::String(s@),
            ValueParts::Array(items) => JsonView::Array(serde_items(items@)),
            ValueParts::Object(entries) => JsonView::Object(members_of(serde_entries(entries@))),
        }
    }
}

/// Opens a `serde_json::Value`: its variant and what that holds. A
/// `serde_json::Map` has each key once.
#[verifier::external_body]
fn open_value(value: serde_json::Value) -> (parts: ValueParts)
    ensures
        parts@ == serde_view(value),
        match parts {
            ValueParts::Object(entries) => distinct_keys(serde_entries(entries@)),
            _ => true,
        },
{
    match value {
        serde_json::Value::Null => ValueParts::Null,
        serde_json::Value::Bool(b) => ValueParts::Bool(b),
        serde_json::Value::Number(n) => ValueParts::Number(n),
        serde_json::Value::String(s) => ValueParts::String(s),
        serde_json::Value::Array(items) => ValueParts::Array(items),
        serde_json::Value::Object(map) => ValueParts::Object(map.into_iter().collect()),
    }
}

/// Makes a `serde_json::Value` of the given variant. The keys of an object are
/// distinct, so that each of its entries becomes a member of the map.
#[verifier::external_body]
fn close_value(parts: ValueParts) -> (value: serde_json::Value)
    requires
        parts matches ValueParts::Object(entries) ==> distinct_keys(serde_entries(entries@)),
    ensures
        serde_view(value) == parts@,
{
    match parts {
        ValueParts::Null => serde_json::Value::Null,
        ValueParts::Bool(b) => serde_json::Value::Bool(b),
        ValueParts::Number(n) => serde_json::Value::Number(n),
        ValueParts::String(s) => serde_json::Value::String(s),
        ValueParts::Array(items) => serde_json::Value::Array(items),
        ValueParts::Object(entries) => serde_json::Value::Object(entries.into_iter().collect()),
    }
}

/// `serde_json::from_slice` into a `serde_json::Value`. The outcome depends on
/// the bytes alone and has the name [`json_parsed`]: the value, or the text
/// that the error prints.
#[verifier::external_body]
fn parse_value(bytes: &[u8]) -> (res: Result<serde_json::Value, String>)
    ensures
        match res {
            Ok(value) => json_parsed(bytes@) == Ok::<JsonView, Seq<char>>(serde_view(value)),
            Err(text) => json_parsed(bytes@) == Err::<JsonView, Seq<char>>(text@),
        },
{
    match serde_json::from_slice(bytes) {
        Ok(value) => Ok(value),
        Err(error) => Err(error.to_string()),
    }
}

/// `serde_json::to_vec` of a `serde_json::Value`. The bytes depend on the value
/// alone and have the name [`json_rendered`]: a `serde_json::Map` writes its
/// members in the order of their keys. Writing a `Value` into a `Vec` does not
/// fail: its keys are text and its floats are finite.
#[verifier::external_body]
fn render_value(value: &serde_json::Value) -> (res: Result<Vec<u8>, String>)
    ensures
        res is Ok,
        res->Ok_0@ == json_rendered(serde_view(*value)),
{
    match serde_json::to_vec(value) {
        Ok(bytes) => Ok(bytes),
        Err(error) => Err(error.to_string()),
    }
}

/// The map of some entries has finitely many keys.
proof fn lemma_members_finite(entries: Seq<(Seq<char>, JsonView)>)
    ensures
        members_of(entries).dom().finite(),
    decreases entries.len(),
{
    if entries.len() > 0 {
        lemma_members_finite(entries.drop_last());
    }
}

/// The JSON value that a `serde_json::Value` is.
pub fn json_from_serde(value: serde_json::Value) -> (res: Json)
    ensures
        res@ == serde_view(value),
    decreases serde_view(value),
{
    match open_value(value) {
        ValueParts::Null => Json::Null,
        ValueParts::Bool(b) => Json::Bool(b),
        ValueParts::Number(n) => Json::Number(n),
        ValueParts::String(s) => Json::String(s),
        ValueParts::Array(items) => {
            let ghost all = items@;
            let ghost whole = serde_view(value);
            let mut res: Vec<Json> = Vec::new();
            for item in it: items
                invariant
                    it.seq() == all,
                    whole == serde_view(value),
                    whole == JsonView::Array(serde_items(all)),
                    items_view(res@) == serde_items(all.take(it.index())),
            {
                proof {
                    assert(serde_items(all)[it.index()] == serde_view(item));
                    let inner = whole->Array_0;
                    assert(decreases_to!(whole => inner));
                    assert(decreases_to!(inner => inner[it.index()]));
                }
                let converted = json_from_serde(item);
                proof {
                    assert(res@.push(converted).drop_last() =~= res@);
                    assert(serde_items(all.take(it.index() + 1)) =~= serde_items(
                        all.take(it.index()),
                    ).push(serde_view(item)));
                }
                res.push(converted);
            }
            proof {
                assert(all.take(all.len() as int) =~= all);
            }
            Json::Array(res)
        },
        ValueParts::Object(entries) => {
            let ghost all = entries@;
            let ghost whole = serde_view(value);
            proof {
                lemma_members_finite(serde_entries(all));
            }
            let mut res: Vec<(String, Json)> = Vec::new();
            for entry in it: entries
                invariant
                    it.seq() == all,
                    whole == serde_view(value),
                    whole == JsonView::Object(members_of(serde_entries(all))),
                    members_of(serde_entries(all)).dom().finite(),
                    distinct_keys(serde_entries(all)),
                    object_view(res@) == members_of(serde_entries(all.take(it.index()))),
            {
                let (key, item) = entry;
                proof {
                    let inner = whole->Object_0;
                    assert(serde_entries(all)[it.index()].0 == key@);
                    lemma_members_of(serde_entries(all), key@, it.index());
                    assert(decreases_to!(whole => inner));
                    assert(decreases_to!(inner => inner[key@]));
                }
                let converted = json_from_serde(item);
                proof {
                    let next = all.take(it.index() + 1);
                    assert(res@.push((key, converted)).drop_last() =~= res@);
                    assert(serde_entries(next).drop_last() =~= serde_entries(
                        all.take(it.index()),
                    ));
                }
                res.push((key, converted));
            }
            proof {
                assert(all.take(all.len() as int) =~= all);
            }
            Json::Object(res)
        },
    }
}

/// The `serde_json::Value` of a JSON value.
pub fn json_to_serde(value: &Json) -> (res: serde_json::Value)
    ensures
        serde_view(res) == value@,
    decreases *value,
{
    let parts = match value {
        Json::Null => ValueParts::Null,
        Json::Bool(b) => ValueParts::Bool(*b),
        Json::Number(n) => ValueParts::Number(n.clone()),
        Json::String(s) => ValueParts::String(s.clone()),
        Json::Array(items) => ValueParts::Array(items_to_serde(items)),
        Json::Object(entries) => ValueParts::Object(entries_to_serde(entries)),
    };
    close_value(parts)
}

fn items_to_serde(items: &Vec<Json>) -> (res: Vec<serde_json::Value>)
    ensures
        serde_items(res@) == items_view(items@),
    decreases items@,
{
    let mut res: Vec<serde_json::Value> = Vec::new();
    let mut i: usize = 0;
    while i < items.len()
        invariant
            i <= items@.len(),
            serde_items(res@) == items_view(items@.take(i as int)),
        decreases items@.len() - i,
    {
        let item = json_to_serde(&items[i]);
        proof {
            assert(items@.take(i + 1).drop_last() =~= items@.take(i as int));
            assert(serde_items(res@.push(item)) =~= serde_items(res@).push(serde_view(item)));
        }
        res.push(item);
        i = i + 1;
    }
    proof {
        assert(items@.take(items@.len() as int) =~= items@);
    }
    res
}

fn entries_to_serde(entries: &Vec<(String, Json)>) -> (res: Vec<(String, serde_json::Value)>)
    ensures
        members_of(serde_entries(res@)) == object_view(entries@),
        distinct_keys(serde_entries(res@)),
    decreases entries@,
{
    let mut res: Vec<(String, serde_json::Value)> = Vec::new();
    let mut i: usize = 0;
    while i < entries.len()
        invariant
            i <= entries@.len(),
            members_of(serde_entries(res@)) == object_view(entries@.take(i as int)),
            distinct_keys(serde_entries(res@)),
        decreases entries@.len() - i,
    {
        let key = entries[i].0.clone();
        let value = json_to_serde(&entries[i].1);
        proof {
            assert(entries@.take(i + 1).drop_last() =~= entries@.take(i as int));
            lemma_placed(res@, key, value, |value: serde_json::Value| serde_view(value));
        }
        put_entry(&mut res, key, value);
        i = i + 1;
    }
    proof {
        assert(entries@.take(entries@.len() as int) =~= entries@);
    }
    res
}

/// Reads bytes as JSON. The error is the text that describes it.
pub fn parse_json(bytes: &[u8]) -> (res: Result<Json, String>)
    ensures
        match res {
            Ok(value) => json_parsed(bytes@) == Ok::<JsonView, Seq<char>>(value@),
            Err(text) => json_parsed(bytes@) == Err::<JsonView, Seq<char>>(text@),
        },
{
    match parse_value(bytes) {
        Ok(value) => Ok(json_from_serde(value)),
        Err(text) => Err(text),
    }
}

/// Writes a value as JSON text.
pub fn render_json(value: &Json) -> (res: Result<Vec<u8>, String>)
    ensures
        res is Ok,
        res->Ok_0@ == json_rendered(value@),
{
    render_value(&json_to_serde(value))
}

/// A `serde_json::Value` is opened and made as what it holds.
pub proof fn law_value_parts_are_what_they_hold(
    b: bool,
    n: serde_json::Number,
    text: String,
    items: Vec<serde_json::Value>,
    i: int,
)
    ensures
        ValueParts::Null@ == JsonView::Null,
        ValueParts::Bool(b)@ == JsonView::Bool(b),
        ValueParts::Number(n)@ == JsonView::Number(number_value(n)),
        ValueParts::String(text)@ == JsonView::String(text@),
        ValueParts::Array(items)@ matches JsonView::Array(views) && views.len() == items@.len() && (
        0 <= i < items@.len() ==> views[i] == serde_view(items@[i])),
{
}

/// The object of some entries has a key where one of them has it, and there the
/// value of the last such entry.
pub proof fn law_value_entries_are_members(
    entries: Vec<(String, serde_json::Value)>,
    key: Seq<char>,
    at: int,
)
    requires
        -1 <= at < entries@.len(),
        at >= 0 ==> entries@[at].0@ == key,
        forall|i: int| at < i < entries@.len() ==> (#[trigger] entries@[i]).0@ != key,
    ensures
        ValueParts::Object(entries)@ matches JsonView::Object(members) && {
            &&& members.contains_key(key) <==> at >= 0
            &&& at >= 0 ==> members[key] == serde_view(entries@[at].1)
        },
{
    let views = serde_entries(entries@);
    assert forall|i: int| at < i < views.len() implies (#[trigger] views[i]).0 != key by {
        assert(entries@[i].0@ != key);
    }
    lemma_members_of(views, key, at);
}

} // verus!
