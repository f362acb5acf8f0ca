//! JSON values as plain data, with the operations on objects that the backend
//! needs.
use crate::text::same_text;
use vstd::prelude::*;

verus! {

/// `serde_json::Number`, whose value has the name [`number_value`].
#[verifier::external_type_specification]
#[verifier::external_body]
pub struct ExSerdeNumber(serde_json::Number);

/// A JSON value. A number is held as `serde_json` holds it. Where an object has
/// a key more than once, its last member counts.
#[derive(Debug, PartialEq)]
pub enum Json {
    Null,
    Bool(bool),
    Number(serde_json::Number),
    String(String),
    Array(Vec<Json>),
    Object(Vec<(String, Json)>),
}

/// A JSON number, opened: an unsigned integer, a negative integer or a float.
/// A float is finite and stays as `serde_json` holds it.
#[derive(Debug, PartialEq)]
pub enum JsonNumber {
    PosInt(u64),
    NegInt(i64),
    Float(serde_json::Number),
}

/// What a [`Json`] value is: text as sequences of characters, objects as maps.
pub enum JsonView {
    Null,
    Bool(bool),
    Number(JsonNumber),
    String(Seq<char>),
    Array(Seq<JsonView>),
    Object(Map<Seq<char>, JsonView>),
}

/// Which number a `serde_json::Number` is.
pub uninterp spec fn number_value(number: serde_json::Number) -> JsonNumber;

/// The number that stands for a signed integer.
pub open spec fn int_number(i: i64) -> JsonNumber {
    if i >= 0 {
        JsonNumber::PosInt(i as u64)
    } else {
        JsonNumber::NegInt(i)
    }
}

/// `serde_json::Number::as_u64` and `as_i64`, which tell an unsigned integer, a
/// negative integer and a float apart.
#[verifier::external_body]
pub(crate) fn open_number(number: &serde_json::Number) -> (res: JsonNumber)
    ensures
        res == number_value(*number),
        match res {
            JsonNumber::PosInt(_) => true,
            JsonNumber::NegInt(n) => n < 0,
            JsonNumber::Float(n) => n == *number,
        },
{
    match (number.as_u64(), number.as_i64()) {
        (Some(n), _) => JsonNumber::PosInt(n),
        (None, Some(n)) => JsonNumber::NegInt(n),
        (None, None) => JsonNumber::Float(number.clone()),
    }
}

/// The float nearest to a number, as `serde_json` holds it.
pub uninterp spec fn nearest_float(number: JsonNumber) -> serde_json::Number;

/// `serde_json::Number::as_f64`, which gives a float for every number, and
/// `from_f64`, which holds that float. A number that is a float stays as it is.
#[verifier::external_body]
pub(crate) fn float_number(number: &serde_json::Number) -> (res: serde_json::Number)
    ensures
        res == nearest_float(number_value(*number)),
        number_value(res) == JsonNumber::Float(res),
        number_value(*number) is Float ==> res == *number,
{
    number.as_f64().and_then(serde_json::Number::from_f64).unwrap()
}

/// `serde_json::Number::from` of a `u64`.
#[verifier::external_body]
pub(crate) fn unsigned_number(n: u64) -> (res: serde_json::Number)
    ensures
        number_value(res) == JsonNumber::PosInt(n),
{
    serde_json::Number::from(n)
}

/// `serde_json::Number::from` of an `i64`, which holds one that is not negative
/// as an unsigned integer.
#[verifier::external_body]
pub(crate) fn signed_number(i: i64) -> (res: serde_json::Number)
    ensures
        number_value(res) == int_number(i),
{
    serde_json::Number::from(i)
}

/// `Number::clone` gives an equal number.
pub assume_specification[ <serde_json::Number as Clone>::clone ](
    number: &serde_json::Number,
) -> (res: serde_json::Number)
    ensures
        res == *number,
;

impl View for Json {
    type V = JsonView;

    open spec fn view(&self) -> JsonView {
        json_view(*self)
    }
}

pub open spec fn json_view(value: Json) -> JsonView
    decreases value,
{
    match value {
        Json::Null => JsonView::Null,
        Json::Bool(b) => JsonView::Bool(b),
        Json::Number(n) => JsonView::Number(number_value(n)),
        Json::String(s) => JsonView::String(s@),
        Json::Array(items) => JsonView::Array(items_view(items@)),
        Json::Object(entries) => JsonView::Object(object_view(entries@)),
    }
}

/// The views of the items of an array.
pub open spec fn items_view(items: Seq<Json>) -> Seq<JsonView>
    decreases items,
{
    if items.len() == 0 {
        Seq::empty()
    } else {
        items_view(items.drop_last()).push(json_view(items.last()))
    }
}

/// The members of an object.
pub open spec fn object_view(entries: Seq<(String, Json)>) -> Map<Seq<char>, JsonView>
    decreases entries,
{
    if entries.len() == 0 {
        Map::empty()
    } else {
        object_view(entries.drop_last()).insert(entries.last().0@, json_view(entries.last().1))
    }
}

pub proof fn lemma_items_view(items: Seq<Json>)
    ensures
        items_view(items).len() == items.len(),
        forall|i: int|
            0 <= i < items.len() ==> #[trigger] items_view(items)[i] == json_view(items[i]),
    decreases items.len(),
{
    if items.len() > 0 {
        lemma_items_view(items.drop_last());
    }
}

/// The map that a list of entries makes, the last entry with a key counting.
pub open spec fn members_of<V>(entries: Seq<(Seq<char>, V)>) -> Map<Seq<char>, V>
    decreases entries.len(),
{
    if entries.len() == 0 {
        Map::empty()
    } else {
        members_of(entries.drop_last()).insert(entries.last().0, entries.last().1)
    }
}

/// No key stands twice among the entries.
pub open spec fn distinct_keys<V>(entries: Seq<(Seq<char>, V)>) -> bool {
    forall|i: int, j: int|
        0 <= i < j < entries.len() ==> (#[trigger] entries[i]).0 != (#[trigger] entries[j]).0
}

/// The entry at `at` counts where no later one has its key; a key that no entry
/// has is no key of the map.
pub proof fn lemma_members_of<V>(entries: Seq<(Seq<char>, V)>, key: Seq<char>, at: int)
    requires
        -1 <= at < entries.len(),
        at >= 0 ==> entries[at].0 == key,
        forall|i: int| at < i < entries.len() ==> (#[trigger] entries[i]).0 != key,
    ensures
        at < 0 ==> !members_of(entries).contains_key(key),
        at >= 0 ==> members_of(entries).contains_key(key) && members_of(entries)[key]
            == entries[at].1,
    decreases entries.len(),
{
    if entries.len() > 0 && at < entries.len() - 1 {
        let front = entries.drop_last();
        assert forall|i: int| at < i < front.len() implies (#[trigger] front[i]).0 != key by {
            assert(entries[i].0 != key);
        }
        assert(entries[entries.len() - 1].0 != key);
        lemma_members_of(front, key, at);
    }
}

/// To replace the entry that counts for a key is to put the new value under it.
pub proof fn lemma_members_update<V>(
    entries: Seq<(Seq<char>, V)>,
    key: Seq<char>,
    at: int,
    value: V,
)
    requires
        0 <= at < entries.len(),
        entries[at].0 == key,
        forall|i: int| at < i < entries.len() ==> (#[trigger] entries[i]).0 != key,
    ensures
        members_of(entries.update(at, (key, value))) == members_of(entries).insert(key, value),
    decreases entries.len(),
{
    let after = entries.update(at, (key, value));
    let front = entries.drop_last();
    if at == entries.len() - 1 {
        assert(after.drop_last() =~= front);
        assert(members_of(after) =~= members_of(entries).insert(key, value));
    } else {
        assert forall|i: int| at < i < front.len() implies (#[trigger] front[i]).0 != key by {
            assert(entries[i].0 != key);
        }
        assert(entries[entries.len() - 1].0 != key);
        lemma_members_update(front, key, at, value);
        assert(after.drop_last() =~= front.update(at, (key, value)));
        assert(members_of(after) =~= members_of(entries).insert(key, value));
    }
}

/// Entries with their keys as sequences of characters and their values seen
/// through `view`.
pub open spec fn viewed<V, W>(entries: Seq<(String, V)>, view: spec_fn(V) -> W) -> Seq<
    (Seq<char>, W),
> {
    entries.map_values(|entry: (String, V)| (entry.0@, view(entry.1)))
}

/// The last position of a key, or -1.
pub open spec fn last_position<V>(entries: Seq<(String, V)>, key: Seq<char>) -> int
    decreases entries.len(),
{
    if entries.len() == 0 {
        -1
    } else if entries.last().0@ == key {
        entries.len() - 1
    } else {
        last_position(entries.drop_last(), key)
    }
}

/// The entries after `value` was put under `key`: in place of the last entry
/// with that key, or as a new last entry.
pub open spec fn placed<V>(entries: Seq<(String, V)>, key: String, value: V) -> Seq<(String, V)> {
    let at = last_position(entries, key@);
    if at < 0 {
        entries.push((key, value))
    } else {
        entries.update(at, (key, value))
    }
}

/// The last position of a key is one of the entries', or -1.
pub proof fn lemma_last_position_range<V>(entries: Seq<(String, V)>, key: Seq<char>)
    ensures
        -1 <= last_position(entries, key) < entries.len(),
    decreases entries.len(),
{
    if entries.len() > 0 {
        lemma_last_position_range(entries.drop_last(), key);
    }
}

proof fn lemma_last_position<V>(entries: Seq<(String, V)>, key: Seq<char>, at: int)
    requires
        -1 <= at < entries.len(),
        at >= 0 ==> entries[at].0@ == key,
        forall|i: int| at < i < entries.len() ==> (#[trigger] entries[i]).0@ != key,
    ensures
        last_position(entries, key) == at,
    decreases entries.len(),
{
    if entries.len() > 0 && at < entries.len() - 1 {
        let front = entries.drop_last();
        assert forall|i: int| at < i < front.len() implies (#[trigger] front[i]).0@ != key by {
            assert(entries[i].0@ != key);
        }
        assert(entries[entries.len() - 1].0@ != key);
        lemma_last_position(front, key, at);
    }
}

proof fn lemma_at_last_position<V>(entries: Seq<(String, V)>, key: Seq<char>)
    ensures
        -1 <= last_position(entries, key) < entries.len(),
        last_position(entries, key) >= 0 ==> entries[last_position(entries, key)].0@ == key,
        forall|i: int|
            last_position(entries, key) < i < entries.len() ==> (#[trigger] entries[i]).0@ != key,
    decreases entries.len(),
{
    if entries.len() > 0 && entries.last().0@ != key {
        lemma_at_last_position(entries.drop_last(), key);
        assert forall|i: int|
            last_position(entries, key) < i < entries.len() implies (#[trigger] entries[i]).0@
            != key by {
            if i < entries.len() - 1 {
                assert(entries.drop_last()[i] == entries[i]);
            }
        }
    }
}

/// To place an entry is to put its value under its key, and keys that were
/// distinct stay distinct.
pub proof fn lemma_placed<V, W>(
    entries: Seq<(String, V)>,
    key: String,
    value: V,
    view: spec_fn(V) -> W,
)
    ensures
        members_of(viewed(placed(entries, key, value), view)) == members_of(
            viewed(entries, view),
        ).insert(key@, view(value)),
        distinct_keys(viewed(entries, view)) ==> distinct_keys(
            viewed(placed(entries, key, value), view),
        ),
{
    let at = last_position(entries, key@);
    let before = viewed(entries, view);
    let after = viewed(placed(entries, key, value), view);
    lemma_at_last_position(entries, key@);
    assert forall|i: int| at < i < before.len() implies (#[trigger] before[i]).0 != key@ by {
        assert(entries[i].0@ != key@);
    }
    if at < 0 {
        assert(after.drop_last() =~= before);
    } else {
        assert(after =~= before.update(at, (key@, view(value))));
        lemma_members_update(before, key@, at, view(value));
    }
    if distinct_keys(before) {
        assert forall|i: int, j: int| 0 <= i < j < after.len() implies (#[trigger] after[i]).0 != (
        #[trigger] after[j]).0 by {
            if at < 0 && j == before.len() {
                assert(before[i].0 != key@);
            } else {
                assert(before[i].0 != before[j].0);
            }
        }
    }
}

/// Puts `value` under `key`, in place of the last value that stood there.
pub fn put_entry<V>(entries: &mut Vec<(String, V)>, key: String, value: V)
    ensures
        final(entries)@ == placed(old(entries)@, key, value),
{
    let ghost before = entries@;
    let mut i: usize = entries.len();
    while i > 0
        invariant
            i <= entries@.len(),
            entries@ == before,
            before == old(entries)@,
            forall|k: int| i <= k < before.len() ==> (#[trigger] before[k]).0@ != key@,
        decreases i,
    {
        i = i - 1;
        if same_text(entries[i].0.as_str(), key.as_str()) {
            proof {
                lemma_last_position(before, key@, i as int);
            }
            entries.set(i, (key, value));
            return;
        }
    }
    proof {
        lemma_last_position(before, key@, -1);
    }
    entries.push((key, value));
}

/// The entries of an object, each with the view of its value.
pub open spec fn entry_views(entries: Seq<(String, Json)>) -> Seq<(Seq<char>, JsonView)> {
    viewed(entries, |value: Json| json_view(value))
}

/// The members of an object are those of its entries.
pub proof fn lemma_object_view(entries: Seq<(String, Json)>)
    ensures
        object_view(entries) == members_of(entry_views(entries)),
    decreases entries.len(),
{
    if entries.len() > 0 {
        lemma_object_view(entries.drop_last());
        assert(entry_views(entries).drop_last() =~= entry_views(entries.drop_last()));
    } else {
        assert(object_view(entries) =~= members_of(entry_views(entries)));
    }
}

impl Json {
    /// The text value `text`.
    pub fn text(text: &str) -> (res: Json)
        ensures
            res@ == JsonView::String(text@),
    {
        Json::String(text.to_owned())
    }

    /// The number `n`.
    pub fn unsigned(n: u64) -> (res: Json)
        ensures
            res@ == JsonView::Number(JsonNumber::PosInt(n)),
    {
        Json::Number(unsigned_number(n))
    }

    /// The number `i`.
    pub fn signed(i: i64) -> (res: Json)
        ensures
            res@ == JsonView::Number(int_number(i)),
    {
        Json::Number(signed_number(i))
    }

    /// The value under `key`, where the value is an object that has that key.
    pub fn get(&self, key: &str) -> (res: Option<&Json>)
        ensures
            match self@ {
                JsonView::Object(members) => match res {
                    Some(value) => members.contains_key(key@) && members[key@] == value@,
                    None => !members.contains_key(key@),
                },
                _ => res is None,
            },
    {
        match self {
            Json::Object(entries) => {
                let ghost views = entry_views(entries@);
                proof {
                    lemma_object_view(entries@);
                }
                let mut i: usize = entries.len();
                while i > 0
                    invariant
                        i <= entries@.len(),
                        self@ == JsonView::Object(members_of(views)),
                        views == entry_views(entries@),
                        forall|k: int| i <= k < views.len() ==> (#[trigger] views[k]).0 != key@,
                    decreases i,
                {
                    i = i - 1;
                    if same_text(entries[i].0.as_str(), key) {
                        proof {
                            assert(views[i as int].0 == key@);
                            lemma_members_of(views, key@, i as int);
                        }
                        return Some(&entries[i].1);
                    }
                    proof {
                        assert(views[i as int].0 != key@);
                    }
                }
                proof {
                    lemma_members_of(views, key@, -1);
                }
                None
            },
            _ => None,
        }
    }

    /// A copy of the value.
    pub fn copy(&self) -> (res: Json)
        ensures
            res@ == self@,
        decreases *self,
    {
        match self {
            Json::Null => Json::Null,
            Json::Bool(b) => Json::Bool(*b),
            Json::Number(n) => Json::Number(n.clone()),
            Json::String(s) => Json::String(s.clone()),
            Json::Array(items) => Json::Array(copy_items(items)),
            Json::Object(entries) => Json::Object(copy_entries(entries)),
        }
    }
}

/// Copies of the items of an array.
pub fn copy_items(items: &Vec<Json>) -> (res: Vec<Json>)
    ensures
        items_view(res@) == items_view(items@),
    decreases items@,
{
    let mut res: Vec<Json> = Vec::new();
    let mut i: usize = 0;
    while i < items.len()
        invariant
            i <= items@.len(),
            items_view(res@) == items_view(items@.take(i as int)),
        decreases items@.len() - i,
    {
        let item = items[i].copy();
        proof {
            assert(items@.take(i + 1).drop_last() =~= items@.take(i as int));
            assert(res@.push(item).drop_last() =~= res@);
        }
        res.push(item);
        i = i + 1;
    }
    proof {
        assert(items@.take(items@.len() as int) =~= items@);
    }
    res
}

fn copy_entries(entries: &Vec<(String, Json)>) -> (res: Vec<(String, Json)>)
    ensures
        object_view(res@) == object_view(entries@),
    decreases entries@,
{
    let mut res: Vec<(String, Json)> = Vec::new();
    let mut i: usize = 0;
    while i < entries.len()
        invariant
            i <= entries@.len(),
            object_view(res@) == object_view(entries@.take(i as int)),
        decreases entries@.len() - i,
    {
        let entry = (entries[i].0.clone(), entries[i].1.copy());
        proof {
            assert(entries@.take(i + 1).drop_last() =~= entries@.take(i as int));
            assert(res@.push(entry).drop_last() =~= res@);
        }
        res.push(entry);
        i = i + 1;
    }
    proof {
        assert(entries@.take(entries@.len() as int) =~= entries@);
    }
    res
}

/// Puts `value` under `key`, in place of a value that stood there.
pub fn put(entries: &mut Vec<(String, Json)>, key: String, value: Json)
    ensures
        object_view(final(entries)@) == object_view(old(entries)@).insert(key@, value@),
{
    proof {
        lemma_object_view(entries@);
        lemma_object_view(placed(entries@, key, value));
        lemma_placed(entries@, key, value, |value: Json| json_view(value));
    }
    put_entry(entries, key, value);
}

/// Adds a member under a key that is known at the call.
pub fn add_member(entries: &mut Vec<(String, Json)>, key: &str, value: Json)
    ensures
        object_view(final(entries)@) == object_view(old(entries)@).insert(key@, value@),
{
    let entry = (key.to_owned(), value);
    proof {
        assert(entries@.push(entry).drop_last() =~= entries@);
    }
    entries.push(entry);
}

/// The number for a signed integer has its value: an unsigned one where it is
/// not below zero, a negative one where it is.
pub proof fn law_integers_keep_their_value(i: i64)
    ensures
        match int_number(i) {
            JsonNumber::PosInt(n) => i >= 0 && n as int == i as int,
            JsonNumber::NegInt(n) => i < 0 && n == i,
            JsonNumber::Float(_) => false,
        },
{
}

/// A JSON value is what it holds.
pub proof fn law_json_is_what_it_holds(
    b: bool,
    n: serde_json::Number,
    text: String,
    items: Vec<Json>,
    i: int,
)
    ensures
        Json::Null@ == JsonView::Null,
        Json::Bool(b)@ == JsonView::Bool(b),
        Json::Number(n)@ == JsonView::Number(number_value(n)),
        Json::String(text)@ == JsonView::String(text@),
        Json::Array(items)@ matches JsonView::Array(views) && views.len() == items@.len() && (0 <= i
            < items@.len() ==> views[i] == items@[i]@),
{
    lemma_items_view(items@);
}

/// An object has a key where one of its entries has it, and there the value of
/// the last such entry.
pub proof fn law_last_member_counts(entries: Vec<(String, Json)>, key: Seq<char>, at: int)
    requires
        -1 <= at < entries@.len(),
        at >= 0 ==> entries@[at].0@ == key,
        forall|i: int| at < i < entries@.len() ==> (#[trigger] entries@[i]).0@ != key,
    ensures
        Json::Object(entries)@ matches JsonView::Object(members) && {
            &&& members.contains_key(key) <==> at >= 0
            &&& at >= 0 ==> members[key] == entries@[at].1@
        },
{
    let views = entry_views(entries@);
    lemma_object_view(entries@);
    assert forall|i: int| at < i < views.len() implies (#[trigger] views[i]).0 != key by {
        assert(entries@[i].0@ != key);
    }
    lemma_members_of(views, key, at);
}

/// To put a value under a key gives that key that value, and every other key
/// stays as it was.
pub proof fn law_put_changes_one_key<V>(
    entries: Seq<(String, V)>,
    key: String,
    value: V,
    other: Seq<char>,
)
    ensures
        ({
            let view = |v: V| v;
            let before = members_of(viewed(entries, view));
            let after = members_of(viewed(placed(entries, key, value), view));
            &&& after.contains_key(key@) && after[key@] == value
            &&& other != key@ ==> {
                &&& after.contains_key(other) == before.contains_key(other)
                &&& before.contains_key(other) ==> after[other] == before[other]
            }
        }),
{
    lemma_placed(entries, key, value, |v: V| v);
}

} // verus!
