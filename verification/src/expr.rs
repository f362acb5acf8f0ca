//! CEL values and the calls into the `cel` interpreter.
//!
//! A call's JSON arguments become a `cel::Value` by [`json_to_cel`], the
//! interpreter gives back another, and [`cel_to_json`] turns that into the JSON
//! value that is bound to the statement.
use crate::encoding::{base64_text, encode_base64};
use crate::json::{
    distinct_keys, int_number, items_view, lemma_items_view, lemma_members_of, lemma_placed,
    members_of, number_value, object_view, open_number, put, put_entry, viewed, Json, JsonNumber,
    JsonView,
};
use crate::text::{
    decimal, decimal_text, law_decimal_reads_back, law_signed_decimal_reads_back, numeral_value,
    signed_decimal, signed_decimal_text, signed_value,
};
use cel::Value;
use std::collections::HashMap;
use vstd::prelude::*;

verus! {

/// `cel::Program`, a compiled expression, carried as it is.
#[verifier::external_type_specification]
#[verifier::external_body]
pub struct ExCelProgram(cel::Program);

/// `cel::Context`, whose variables have the name [`cel_variables`].
#[verifier::external_type_specification]
#[verifier::external_body]
pub struct ExCelContext<'a>(cel::Context<'a>);

/// `cel::Value`, whose value has the name [`cel_view`].
#[verifier::external_type_specification]
#[verifier::external_body]
pub struct ExCelValue(cel::Value);

/// `cel::objects::Key`, whose value has the name [`cel_key_view`].
#[verifier::external_type_specification]
#[verifier::external_body]
pub struct ExCelKey(cel::objects::Key);

/// `cel::ExecutionError`, which the operators of `cel::Value` mention.
#[verifier::external_type_specification]
#[verifier::external_body]
pub struct ExCelExecutionError(cel::ExecutionError);

/// `cel::ParseErrors`, whose columns and text have the names [`error_columns`] and
/// [`errors_text`].
#[verifier::external_type_specification]
#[verifier::external_body]
pub struct ExCelParseErrors(cel::ParseErrors);

/// What a `cel::objects::Key` is.
pub enum CelKeyView {
    Int(i64),
    Uint(u64),
    Bool(bool),
    String(Seq<char>),
}

/// What a `cel::Value` is. A float is absent where it is not finite. Durations
/// and timestamps are the text that they print; a value of any other type is
/// left as it is.
pub enum CelView {
    Null,
    Bool(bool),
    Int(i64),
    UInt(u64),
    Float(Option<serde_json::Number>),
    String(Seq<char>),
    Bytes(Seq<u8>),
    List(Seq<CelView>),
    Dict(Map<CelKeyView, CelView>),
    Duration(Seq<char>),
    Timestamp(Seq<char>),
    Other(cel::Value),
}

/// What a `cel::Value` is.
pub uninterp spec fn cel_view(value: cel::Value) -> CelView;

/// What a `cel::objects::Key` is.
pub uninterp spec fn cel_key_view(key: cel::objects::Key) -> CelKeyView;

/// Whether a value may print as the given text by its `Debug`. More than one
/// text is possible, since a value can hold a map, whose order is not fixed.
pub uninterp spec fn cel_may_print(value: cel::Value, text: Seq<char>) -> bool;

/// A `cel::Value` of a type that JSON has too, one level deep.
pub enum CelArg {
    Null,
    Bool(bool),
    Int(i64),
    UInt(u64),
    Float(serde_json::Number),
    String(String),
    List(Vec<cel::Value>),
    Dict(Vec<(String, cel::Value)>),
}

/// What the values of a list are.
pub open spec fn cel_items(items: Seq<cel::Value>) -> Seq<CelView> {
    items.map_values(|item: cel::Value| cel_view(item))
}

/// The entries of a list, each with what its value is.
pub open spec fn cel_entries(entries: Seq<(String, cel::Value)>) -> Seq<(Seq<char>, CelView)> {
    viewed(entries, |value: cel::Value| cel_view(value))
}

/// A map with text as its keys.
pub open spec fn text_keyed(members: Map<Seq<char>, CelView>) -> Map<CelKeyView, CelView> {
    Map::new(
        |key: CelKeyView| key is String && members.contains_key(key->String_0),
        |key: CelKeyView| members[key->String_0],
    )
}

impl View for CelArg {
    type V = CelView;

    open spec fn view(&self) -> CelView {
        match *self {
            CelArg::Null => CelView::Null,
            CelArg::Bool(b) => CelView::Bool(b),
            CelArg::Int(i) => CelView::Int(i),
            CelArg::UInt(u) => CelView::UInt(u),
            CelArg::Float(f) => CelView::Float(Some(f)),
            CelArg::String(s) => CelView::String(s@),
            CelArg::List(items) => CelView::List(cel_items(items@)),
            CelArg::Dict(entries) => CelView::Dict(text_keyed(members_of(cel_entries(entries@)))),
        }
    }
}

/// Makes a `cel::Value` of the given type. A float is the one that
/// `serde_json::Number::as_f64` gives for a number that holds a float. The keys of
/// a map are distinct, so that each of its entries becomes one of the map's.
#[verifier::external_body]
fn close_cel(arg: CelArg) -> (value: cel::Value)
    requires
        arg matches CelArg::Float(f) ==> number_value(f) is Float,
        arg matches CelArg::Dict(entries) ==> distinct_keys(cel_entries(entries@)),
    ensures
        cel_view(value) == arg@,
{
    match arg {
        CelArg::Null => cel::Value::Null,
        CelArg::Bool(b) => cel::Value::Bool(b),
        CelArg::Int(i) => cel::Value::Int(i),
        CelArg::UInt(u) => cel::Value::UInt(u),
        CelArg::Float(f) => cel::Value::from(f.as_f64()),
        CelArg::String(s) => cel::Value::from(s),
        CelArg::List(l) => cel::Value::from(l),
        CelArg::Dict(m) => cel::Value::from(m.into_iter().collect::<HashMap<_, _>>()),
    }
}

/// A `cel::Value`, opened one level deep.
pub enum CelParts {
    Null,
    Bool(bool),
    Int(i64),
    UInt(u64),
    Float(Option<serde_json::Number>),
    String(String),
    Bytes(Vec<u8>),
    List(Vec<cel::Value>),
    Dict(Vec<(cel::objects::Key, cel::Value)>),
    Duration,
    Timestamp,
    /// A value of any other type.
    Other,
}

/// Whether the entries are those of the map, in some order.
pub open spec fn lists(
    entries: Seq<(cel::objects::Key, cel::Value)>,
    members: Map<CelKeyView, CelView>,
) -> bool {
    &&& members.dom().finite()
    &&& forall|i: int|
        0 <= i < entries.len() ==> members.contains_key(cel_key_view((#[trigger] entries[i]).0))
            && members[cel_key_view(entries[i].0)] == cel_view(entries[i].1)
    &&& forall|key: CelKeyView| #[trigger]
        members.contains_key(key) ==> exists|i: int|
            0 <= i < entries.len() && cel_key_view((#[trigger] entries[i]).0) == key
}

/// Whether the parts are those of a value.
pub open spec fn parts_of(parts: CelParts, view: CelView) -> bool {
    match parts {
        CelParts::Null => view == CelView::Null,
        CelParts::Bool(b) => view == CelView::Bool(b),
        CelParts::Int(i) => view == CelView::Int(i),
        CelParts::UInt(u) => view == CelView::UInt(u),
        CelParts::Float(f) => view == CelView::Float(f),
        CelParts::String(s) => view == CelView::String(s@),
        CelParts::Bytes(b) => view == CelView::Bytes(b@),
        CelParts::List(items) => view == CelView::List(cel_items(items@)),
        CelParts::Dict(entries) => view is Dict && lists(entries@, view->Dict_0),
        CelParts::Duration => view is Duration,
        CelParts::Timestamp => view is Timestamp,
        CelParts::Other => view is Other,
    }
}

/// Opens a `cel::Value`: its type and what it holds. A float becomes a number by
/// `serde_json::Number::from_f64`, which knows no infinity and no NaN. The
/// entries of a map come in no fixed order.
#[verifier::external_body]
fn open_cel(value: &cel::Value) -> (parts: CelParts)
    ensures
        parts_of(parts, cel_view(*value)),
{
    match value {
        Value::Null => CelParts::Null,
        Value::Bool(b) => CelParts::Bool(*b),
        Value::Int(i) => CelParts::Int(*i),
        Value::UInt(u) => CelParts::UInt(*u),
        Value::Float(f) => CelParts::Float(serde_json::Number::from_f64(*f)),
        Value::String(s) => CelParts::String(s.to_string()),
        Value::Bytes(b) => CelParts::Bytes(b.to_vec()),
        Value::List(l) => CelParts::List(l.to_vec()),
        Value::Map(m) => CelParts::Dict((*m.map).clone().into_iter().collect()),
        Value::Duration(_) => CelParts::Duration,
        Value::Timestamp(_) => CelParts::Timestamp,
        _ => CelParts::Other,
    }
}

/// `Display` of the `chrono` duration in a `cel::Value::Duration`.
#[verifier::external_body]
fn show_duration(value: &cel::Value) -> (text: String)
    requires
        cel_view(*value) is Duration,
    ensures
        text@ == cel_view(*value)->Duration_0,
{
    match value {
        Value::Duration(duration) => duration.to_string(),
        _ => String::new(),
    }
}

/// `to_rfc3339` of the `chrono` date and time in a `cel::Value::Timestamp`.
#[verifier::external_body]
fn show_timestamp(value: &cel::Value) -> (text: String)
    requires
        cel_view(*value) is Timestamp,
    ensures
        text@ == cel_view(*value)->Timestamp_0,
{
    match value {
        Value::Timestamp(timestamp) => timestamp.to_rfc3339(),
        _ => String::new(),
    }
}

/// `Debug` of a `cel::Value`.
#[verifier::external_body]
fn show_other(value: &cel::Value) -> (text: String)
    requires
        cel_view(*value) is Other,
    ensures
        cel_may_print(cel_view(*value)->Other_0, text@),
{
    format!("{value:?}")
}

/// A key of a map.
pub enum CelKey {
    Int(i64),
    Uint(u64),
    Bool(bool),
    String(String),
}

impl View for CelKey {
    type V = CelKeyView;

    open spec fn view(&self) -> CelKeyView {
        match *self {
            CelKey::Int(i) => CelKeyView::Int(i),
            CelKey::Uint(u) => CelKeyView::Uint(u),
            CelKey::Bool(b) => CelKeyView::Bool(b),
            CelKey::String(s) => CelKeyView::String(s@),
        }
    }
}

/// Opens a `cel::objects::Key`: its type and what it holds.
#[verifier::external_body]
fn open_key(key: &cel::objects::Key) -> (res: CelKey)
    ensures
        res@ == cel_key_view(*key),
{
    match key {
        cel::objects::Key::Int(i) => CelKey::Int(*i),
        cel::objects::Key::Uint(u) => CelKey::Uint(*u),
        cel::objects::Key::Bool(b) => CelKey::Bool(*b),
        cel::objects::Key::String(s) => CelKey::String(s.to_string()),
    }
}

/// What compiling an expression gives: the program, or the errors.
pub uninterp spec fn cel_compiled(source: Seq<char>) -> Result<cel::Program, cel::ParseErrors>;

/// The columns at which some errors stand, one for each error.
pub uninterp spec fn error_columns(errors: cel::ParseErrors) -> Seq<usize>;

/// The text that some errors print.
pub uninterp spec fn errors_text(errors: cel::ParseErrors) -> Seq<char>;

/// Whether some errors can be printed: their text pads a line up to the column of
/// each, and no padding is wider than 16 bits can say.
pub open spec fn printable(errors: cel::ParseErrors) -> bool {
    forall|i: int|
        0 <= i < error_columns(errors).len() ==> (#[trigger] error_columns(errors)[i]) <= 65_535
}

/// The variables that a context holds.
pub uninterp spec fn cel_variables(context: cel::Context<'static>) -> Map<Seq<char>, CelView>;

/// No variables at all.
pub open spec fn no_variables() -> Map<Seq<char>, CelView> {
    Map::empty()
}

/// Whether running `program` with the given variables may end so: with a value,
/// with the text of an error, or, where there is no outcome, by not returning.
/// More than one end is possible, since an expression can walk a map, whose
/// order is not fixed.
pub uninterp spec fn cel_may_end(
    program: cel::Program,
    variables: Map<Seq<char>, CelView>,
    outcome: Option<Result<CelView, Seq<char>>>,
) -> bool;

/// Whether running `program` with the given variables may give `outcome`.
pub open spec fn cel_may_give(
    program: cel::Program,
    variables: Map<Seq<char>, CelView>,
    outcome: Result<CelView, Seq<char>>,
) -> bool {
    cel_may_end(program, variables, Some(outcome))
}

/// Whether every run of `program` with the given variables returns. The
/// interpreter panics where it leaves the years that it can count, and, in a
/// build with overflow checks, where it negates the smallest integer.
pub open spec fn cel_returns(program: cel::Program, variables: Map<Seq<char>, CelView>) -> bool {
    !cel_may_end(program, variables, None)
}

/// What the outcome of a run is.
pub open spec fn outcome_view(outcome: Result<cel::Value, String>) -> Result<CelView, Seq<char>> {
    match outcome {
        Ok(value) => Ok(cel_view(value)),
        Err(text) => Err(text@),
    }
}

/// `cel::Program::compile`. The outcome depends on the source alone and has the
/// name [`cel_compiled`].
#[verifier::external_body]
pub(crate) fn compile_program(source: &str) -> (res: Result<cel::Program, cel::ParseErrors>)
    ensures
        res == cel_compiled(source@),
{
    cel::Program::compile(source)
}

/// The columns in `cel::ParseErrors`, as the widths to which its text pads.
#[verifier::external_body]
fn columns_of(errors: &cel::ParseErrors) -> (columns: Vec<usize>)
    ensures
        columns@ == error_columns(*errors),
{
    errors.errors.iter().map(|error| error.pos.1 as usize).collect()
}

/// `Display` of `cel::ParseErrors`, where no column is beyond what it can pad to.
#[verifier::external_body]
pub(crate) fn show_errors(errors: &cel::ParseErrors) -> (text: String)
    requires
        printable(*errors),
    ensures
        text@ == errors_text(*errors),
{
    errors.to_string()
}

/// Whether some errors can be printed.
pub(crate) fn can_print(errors: &cel::ParseErrors) -> (res: bool)
    ensures
        res == printable(*errors),
{
    let columns = columns_of(errors);
    let mut i: usize = 0;
    while i < columns.len()
        invariant
            i <= columns@.len(),
            columns@ == error_columns(*errors),
            forall|k: int| 0 <= k < i ==> (#[trigger] error_columns(*errors)[k]) <= 65_535,
        decreases columns@.len() - i,
    {
        if columns[i] > 65_535 {
            proof {
                assert(error_columns(*errors)[i as int] > 65_535);
            }
            return false;
        }
        i = i + 1;
    }
    true
}

/// `cel::Context::default`: the standard functions and no variables.
#[verifier::external_body]
pub(crate) fn new_context() -> (context: cel::Context<'static>)
    ensures
        cel_variables(context) == no_variables(),
{
    cel::Context::default()
}

/// Whether a value can be a variable: no value of an unknown type is in it.
pub open spec fn storable(view: CelView) -> bool
    decreases view,
{
    match view {
        CelView::Other(_) => false,
        CelView::List(items) => forall|i: int|
            0 <= i < items.len() ==> storable(#[trigger] items[i]),
        CelView::Dict(members) => forall|key: CelKeyView| #[trigger]
            members.contains_key(key) ==> storable(members[key]),
        _ => true,
    }
}

/// `cel::Context::add_variable` with a `cel::Value`, which the context takes as
/// it is: the error type of that call has no values.
#[verifier::external_body]
pub(crate) fn add_variable(context: &mut cel::Context<'static>, name: &str, value: &cel::Value)
    requires
        storable(cel_view(*value)),
    ensures
        cel_variables(*final(context)) == cel_variables(*old(context)).insert(
            name@,
            cel_view(*value),
        ),
{
    let _ = context.add_variable(name, value.clone());
}

/// `cel::Program::execute`, for a program that returns with the variables of the
/// context. The outcome is one that it may have with them; an error is the text
/// that it prints.
#[verifier::external_body]
pub(crate) fn execute_program(
    program: &cel::Program,
    context: &cel::Context<'static>,
) -> (res: Result<cel::Value, String>)
    requires
        cel_returns(*program, cel_variables(*context)),
    ensures
        cel_may_end(*program, cel_variables(*context), Some(outcome_view(res))),
{
    match program.execute(context) {
        Ok(value) => Ok(value),
        Err(error) => Err(error.to_string()),
    }
}

/// The CEL value of a JSON value: an integer is an `int` where it fits in
/// `i64` and a `uint` where it does not, any other number is a float.
pub open spec fn json_cel(value: JsonView) -> CelView
    decreases value,
{
    match value {
        JsonView::Null => CelView::Null,
        JsonView::Bool(b) => CelView::Bool(b),
        JsonView::Number(n) => number_cel(n),
        JsonView::String(s) => CelView::String(s),
        JsonView::Array(items) => CelView::List(
            Seq::new(
                items.len(),
                |i: int|
                    if 0 <= i < items.len() {
                        json_cel(items[i])
                    } else {
                        CelView::Null
                    },
            ),
        ),
        JsonView::Object(members) => CelView::Dict(
            text_keyed(
                Map::new(
                    |key: Seq<char>| members.contains_key(key),
                    |key: Seq<char>|
                        if members.contains_key(key) {
                            json_cel(members[key])
                        } else {
                            CelView::Null
                        },
                ),
            ),
        ),
    }
}

pub open spec fn number_cel(number: JsonNumber) -> CelView {
    match number {
        JsonNumber::PosInt(n) => if n <= i64::MAX {
            CelView::Int(n as i64)
        } else {
            CelView::UInt(n)
        },
        JsonNumber::NegInt(n) => CelView::Int(n),
        JsonNumber::Float(f) => CelView::Float(Some(f)),
    }
}

/// The CEL values of the members of an object.
pub open spec fn cel_members(members: Map<Seq<char>, JsonView>) -> Map<Seq<char>, CelView> {
    Map::new(
        |key: Seq<char>| members.contains_key(key),
        |key: Seq<char>| json_cel(members[key]),
    )
}

/// The numbers of a JSON value are as `serde_json` holds them: a negative integer
/// is below zero, and a float is a float.
pub open spec fn proper_json(value: JsonView) -> bool
    decreases value,
{
    match value {
        JsonView::Number(n) => match n {
            JsonNumber::PosInt(_) => true,
            JsonNumber::NegInt(i) => i < 0,
            JsonNumber::Float(f) => number_value(f) == n,
        },
        JsonView::Array(items) => forall|i: int|
            0 <= i < items.len() ==> proper_json(#[trigger] items[i]),
        JsonView::Object(members) => forall|key: Seq<char>| #[trigger]
            members.contains_key(key) ==> proper_json(members[key]),
        _ => true,
    }
}

/// The CEL value of a JSON value.
pub fn json_to_cel(value: &Json) -> (res: cel::Value)
    ensures
        cel_view(res) == json_cel(value@),
        proper_json(value@),
    decreases *value,
{
    let arg = match value {
        Json::Null => CelArg::Null,
        Json::Bool(b) => CelArg::Bool(*b),
        Json::Number(n) => match open_number(n) {
            JsonNumber::PosInt(u) => if u <= i64::MAX as u64 {
                CelArg::Int(u as i64)
            } else {
                CelArg::UInt(u)
            },
            JsonNumber::NegInt(i) => CelArg::Int(i),
            JsonNumber::Float(f) => CelArg::Float(f),
        },
        Json::String(s) => CelArg::String(s.clone()),
        Json::Array(items) => {
            let list = items_to_cel(items);
            proof {
                lemma_items_view(items@);
                assert(cel_items(list@) =~= json_cel(value@)->List_0);
            }
            CelArg::List(list)
        },
        Json::Object(entries) => {
            let members = entries_to_cel(entries);
            proof {
                assert(text_keyed(members_of(cel_entries(members@))) =~= json_cel(
                    value@,
                )->Dict_0);
            }
            CelArg::Dict(members)
        },
    };
    close_cel(arg)
}

fn items_to_cel(items: &Vec<Json>) -> (res: Vec<cel::Value>)
    ensures
        res@.len() == items@.len(),
        forall|i: int|
            0 <= i < items@.len() ==> cel_view(#[trigger] res@[i]) == json_cel(items@[i]@),
        forall|i: int| 0 <= i < items@.len() ==> proper_json((#[trigger] items@[i])@),
    decreases items@,
{
    let mut res: Vec<cel::Value> = Vec::new();
    let mut i: usize = 0;
    while i < items.len()
        invariant
            i <= items@.len(),
            res@.len() == i,
            forall|k: int| 0 <= k < i ==> cel_view(#[trigger] res@[k]) == json_cel(items@[k]@),
            forall|k: int| 0 <= k < i ==> proper_json((#[trigger] items@[k])@),
        decreases items@.len() - i,
    {
        res.push(json_to_cel(&items[i]));
        i = i + 1;
    }
    res
}

/// The members of an object with proper numbers have proper numbers.
proof fn lemma_proper_member(members: Map<Seq<char>, JsonView>, key: Seq<char>)
    requires
        proper_json(JsonView::Object(members)),
        members.contains_key(key),
    ensures
        proper_json(members[key]),
{
    let value = JsonView::Object(members);
    assert(proper_json(value));
    assert(value->Object_0.contains_key(key));
    assert(proper_json(value->Object_0[key]));
}

fn entries_to_cel(entries: &Vec<(String, Json)>) -> (res: Vec<(String, cel::Value)>)
    ensures
        members_of(cel_entries(res@)) == cel_members(object_view(entries@)),
        distinct_keys(cel_entries(res@)),
        proper_json(JsonView::Object(object_view(entries@))),
    decreases entries@,
{
    let mut res: Vec<(String, cel::Value)> = Vec::new();
    let mut i: usize = 0;
    proof {
        assert(members_of(cel_entries(res@)) =~= cel_members(object_view(entries@.take(0))));
    }
    while i < entries.len()
        invariant
            i <= entries@.len(),
            members_of(cel_entries(res@)) == cel_members(object_view(entries@.take(i as int))),
            distinct_keys(cel_entries(res@)),
            proper_json(JsonView::Object(object_view(entries@.take(i as int)))),
        decreases entries@.len() - i,
    {
        let key = entries[i].0.clone();
        let value = json_to_cel(&entries[i].1);
        proof {
            let done = object_view(entries@.take(i as int));
            assert(entries@.take(i + 1).drop_last() =~= entries@.take(i as int));
            lemma_placed(res@, key, value, |value: cel::Value| cel_view(value));
            assert(cel_members(done.insert(key@, entries@[i as int].1@)) =~= cel_members(
                done,
            ).insert(key@, cel_view(value)));
            let next = done.insert(key@, entries@[i as int].1@);
            assert forall|k: Seq<char>| #[trigger] next.contains_key(k) implies proper_json(
                next[k],
            ) by {
                if k != key@ {
                    lemma_proper_member(done, k);
                } else {
                    assert(next[k] == entries@[i as int].1@);
                }
            }
            assert(proper_json(JsonView::Object(next)));
        }
        put_entry(&mut res, key, value);
        i = i + 1;
    }
    proof {
        assert(entries@.take(entries@.len() as int) =~= entries@);
    }
    res
}

/// The text of a map key.
pub open spec fn cel_key_text(key: CelKeyView) -> Seq<char> {
    match key {
        CelKeyView::Int(i) => signed_decimal(i as int),
        CelKeyView::Uint(u) => decimal(u as nat),
        CelKeyView::Bool(b) => if b {
            "true"@
        } else {
            "false"@
        },
        CelKeyView::String(s) => s,
    }
}

fn key_text(key: &CelKey) -> (text: String)
    ensures
        text@ == cel_key_text(key@),
{
    match key {
        CelKey::Int(i) => signed_decimal_text(*i),
        CelKey::Uint(u) => decimal_text(*u as u128),
        CelKey::Bool(b) => if *b {
            "true".to_owned()
        } else {
            "false".to_owned()
        },
        CelKey::String(s) => s.clone(),
    }
}

/// Whether a CEL value may become the JSON value. A float that is not finite
/// becomes null, bytes become base64, and what has no JSON counterpart becomes
/// text. A map becomes an object with a member for the text of each of its keys;
/// where several keys have one text, the member is any one of theirs.
pub open spec fn may_become(value: CelView, json: JsonView) -> bool
    decreases value,
{
    match value {
        CelView::Null => json == JsonView::Null,
        CelView::Bool(b) => json == JsonView::Bool(b),
        CelView::Int(i) => json == JsonView::Number(int_number(i)),
        CelView::UInt(u) => json == JsonView::Number(JsonNumber::PosInt(u)),
        CelView::Float(f) => match f {
            Some(n) => json == JsonView::Number(number_value(n)),
            None => json == JsonView::Null,
        },
        CelView::String(s) => json == JsonView::String(s),
        CelView::Bytes(b) => json == JsonView::String(base64_text(b)),
        CelView::List(items) => json matches JsonView::Array(values) && values.len() == items.len()
            && forall|i: int| 0 <= i < items.len() ==> may_become(#[trigger] items[i], values[i]),
        CelView::Dict(entries) => json matches JsonView::Object(members) && {
            &&& forall|key: CelKeyView| #[trigger]
                entries.contains_key(key) ==> members.contains_key(cel_key_text(key))
            &&& forall|text: Seq<char>| #[trigger]
                members.contains_key(text) ==> exists|key: CelKeyView| #[trigger]
                    entries.contains_key(key) && cel_key_text(key) == text && may_become(
                        entries[key],
                        members[text],
                    )
        },
        CelView::Duration(s) => json == JsonView::String(s),
        CelView::Timestamp(s) => json == JsonView::String(s),
        CelView::Other(other) => json matches JsonView::String(text) && cel_may_print(other, text),
    }
}

/// The JSON value of a CEL value.
pub fn cel_to_json(value: &cel::Value) -> (res: Json)
    ensures
        may_become(cel_view(*value), res@),
    decreases cel_view(*value),
{
    match open_cel(value) {
        CelParts::Null => Json::Null,
        CelParts::Bool(b) => Json::Bool(b),
        CelParts::Int(i) => Json::signed(i),
        CelParts::UInt(u) => Json::unsigned(u),
        CelParts::Float(f) => match f {
            Some(n) => Json::Number(n),
            None => Json::Null,
        },
        CelParts::String(s) => Json::String(s),
        CelParts::Bytes(b) => Json::String(encode_base64(b.as_slice())),
        CelParts::List(items) => {
            let ghost whole = cel_view(*value);
            let ghost inner = whole->List_0;
            let mut res: Vec<Json> = Vec::new();
            let mut i: usize = 0;
            while i < items.len()
                invariant
                    i <= items@.len(),
                    whole == cel_view(*value),
                    whole == CelView::List(inner),
                    inner == cel_items(items@),
                    res@.len() == i,
                    forall|k: int| 0 <= k < i ==> may_become(inner[k], (#[trigger] res@[k])@),
                decreases items@.len() - i,
            {
                proof {
                    assert(decreases_to!(whole => whole->List_0));
                    assert(decreases_to!(inner => inner[i as int]));
                    assert(inner[i as int] == cel_view(items@[i as int]));
                }
                res.push(cel_to_json(&items[i]));
                i = i + 1;
            }
            proof {
                lemma_items_view(res@);
                assert forall|k: int| 0 <= k < inner.len() implies may_become(
                    #[trigger] inner[k],
                    items_view(res@)[k],
                ) by {
                    assert(may_become(inner[k], res@[k]@));
                }
                assert(may_become(whole, JsonView::Array(items_view(res@))));
            }
            Json::Array(res)
        },
        CelParts::Dict(entries) => {
            let ghost whole = cel_view(*value);
            let ghost inner = whole->Dict_0;
            let mut res: Vec<(String, Json)> = Vec::new();
            let mut i: usize = 0;
            while i < entries.len()
                invariant
                    i <= entries@.len(),
                    whole == cel_view(*value),
                    whole == CelView::Dict(inner),
                    lists(entries@, inner),
                    forall|k: int|
                        0 <= k < i ==> object_view(res@).contains_key(
                            cel_key_text(cel_key_view((#[trigger] entries@[k]).0)),
                        ),
                    forall|text: Seq<char>| #[trigger]
                        object_view(res@).contains_key(text) ==> exists|key: CelKeyView| #[trigger]
                            inner.contains_key(key) && cel_key_text(key) == text && may_become(
                                inner[key],
                                object_view(res@)[text],
                            ),
                decreases entries@.len() - i,
            {
                let ghost key_view = cel_key_view(entries@[i as int].0);
                proof {
                    assert(inner.contains_key(key_view));
                    assert(decreases_to!(whole => whole->Dict_0));
                    assert(decreases_to!(inner => inner[key_view]));
                }
                let key = key_text(&open_key(&entries[i].0));
                let item = cel_to_json(&entries[i].1);
                let ghost before = object_view(res@);
                put(&mut res, key, item);
                proof {
                    let after = object_view(res@);
                    assert forall|text: Seq<char>| #[trigger]
                        after.contains_key(text) implies exists|k: CelKeyView| #[trigger]
                        inner.contains_key(k) && cel_key_text(k) == text && may_become(
                            inner[k],
                            after[text],
                        ) by {
                        if text == key@ {
                            assert(inner.contains_key(key_view) && cel_key_text(key_view) == text
                                && may_become(inner[key_view], after[text]));
                        } else {
                            assert(before.contains_key(text));
                        }
                    }
                }
                i = i + 1;
            }
            proof {
                assert forall|key: CelKeyView| #[trigger]
                    inner.contains_key(key) implies object_view(res@).contains_key(
                    cel_key_text(key),
                ) by {
                    let k = choose|k: int|
                        0 <= k < entries@.len() && cel_key_view((#[trigger] entries@[k]).0) == key;
                    assert(object_view(res@).contains_key(
                        cel_key_text(cel_key_view(entries@[k].0)),
                    ));
                }
                assert(may_become(whole, JsonView::Object(object_view(res@))));
            }
            Json::Object(res)
        },
        CelParts::Duration => Json::String(show_duration(value)),
        CelParts::Timestamp => Json::String(show_timestamp(value)),
        CelParts::Other => Json::String(show_other(value)),
    }
}

/// The CEL value of a JSON value can be a variable.
pub proof fn lemma_arguments_are_storable(value: JsonView)
    ensures
        storable(json_cel(value)),
    decreases value,
{
    match value {
        JsonView::Array(items) => {
            let list = json_cel(value)->List_0;
            assert forall|i: int| 0 <= i < list.len() implies storable(#[trigger] list[i]) by {
                lemma_arguments_are_storable(items[i]);
            }
        },
        JsonView::Object(members) => {
            let entries = json_cel(value)->Dict_0;
            assert forall|key: CelKeyView| #[trigger] entries.contains_key(key) implies storable(
                entries[key],
            ) by {
                lemma_arguments_are_storable(members[key->String_0]);
            }
        },
        _ => {},
    }
}

/// An argument that an expression gives back as it is comes out as the JSON
/// value that the caller sent, and as no other.
pub proof fn law_arguments_come_back_unchanged(value: JsonView, json: JsonView)
    requires
        proper_json(value),
    ensures
        may_become(json_cel(value), json) <==> json == value,
    decreases value, 1int,
{
    match value {
        JsonView::Array(items) => lemma_array_comes_back(value, items, json),
        JsonView::Object(members) => {
            lemma_object_comes_back(value, members);
            if may_become(json_cel(value), json) {
                lemma_object_comes_back_alone(value, members, json);
            }
        },
        _ => {},
    }
}

proof fn lemma_array_comes_back(value: JsonView, items: Seq<JsonView>, json: JsonView)
    requires
        value == JsonView::Array(items),
        proper_json(value),
    ensures
        may_become(json_cel(value), json) <==> json == value,
    decreases value, 0int,
{
    let list = json_cel(value)->List_0;
    assert(list.len() == items.len());
    assert forall|i: int| 0 <= i < items.len() implies may_become(#[trigger] list[i], items[i]) by {
        law_arguments_come_back_unchanged(items[i], items[i]);
    }
    if may_become(json_cel(value), json) {
        let values = json->Array_0;
        assert forall|i: int| 0 <= i < items.len() implies values[i] == items[i] by {
            assert(may_become(list[i], values[i]));
            law_arguments_come_back_unchanged(items[i], values[i]);
        }
        assert(values =~= items);
    }
}

/// The entry for a key of an object stands under that key as text.
proof fn lemma_object_entry(members: Map<Seq<char>, JsonView>, text: Seq<char>)
    ensures
        json_cel(JsonView::Object(members))->Dict_0.contains_key(CelKeyView::String(text))
            == members.contains_key(text),
        members.contains_key(text) ==> json_cel(
            JsonView::Object(members),
        )->Dict_0[CelKeyView::String(text)] == json_cel(members[text]),
{
}

proof fn lemma_object_comes_back(value: JsonView, members: Map<Seq<char>, JsonView>)
    requires
        value == JsonView::Object(members),
        proper_json(value),
    ensures
        may_become(json_cel(value), value),
    decreases value, 0int,
{
    let entries = json_cel(value)->Dict_0;
    assert forall|key: CelKeyView| #[trigger] entries.contains_key(key) implies members.contains_key(
        cel_key_text(key),
    ) by {
        assert(key == CelKeyView::String(key->String_0));
        lemma_object_entry(members, key->String_0);
    }
    assert forall|text: Seq<char>| #[trigger]
        members.contains_key(text) implies exists|key: CelKeyView| #[trigger]
        entries.contains_key(key) && cel_key_text(key) == text && may_become(
            entries[key],
            members[text],
        ) by {
        lemma_object_entry(members, text);
        law_arguments_come_back_unchanged(members[text], members[text]);
        assert(entries.contains_key(CelKeyView::String(text)));
    }
}

proof fn lemma_object_comes_back_alone(
    value: JsonView,
    members: Map<Seq<char>, JsonView>,
    json: JsonView,
)
    requires
        value == JsonView::Object(members),
        proper_json(value),
        may_become(json_cel(value), json),
    ensures
        json == value,
    decreases value, 0int,
{
    let entries = json_cel(value)->Dict_0;
    let found = json->Object_0;
    assert forall|text: Seq<char>| #[trigger] found.contains_key(text) implies members.contains_key(
        text,
    ) && found[text] == members[text] by {
        let key = choose|key: CelKeyView| #[trigger]
            entries.contains_key(key) && cel_key_text(key) == text && may_become(
                entries[key],
                found[text],
            );
        assert(key == CelKeyView::String(text));
        lemma_object_entry(members, text);
        law_arguments_come_back_unchanged(members[text], found[text]);
    }
    assert forall|text: Seq<char>| #[trigger] members.contains_key(text) implies found.contains_key(
        text,
    ) by {
        lemma_object_entry(members, text);
        assert(entries.contains_key(CelKeyView::String(text)));
    }
    assert(found =~= members);
}

/// Each JSON value is, as an argument, the CEL value of the same kind that holds
/// the same: null, a boolean, a text.
pub proof fn law_scalar_arguments_keep_their_value(b: bool, text: Seq<char>)
    ensures
        json_cel(JsonView::Null) == CelView::Null,
        json_cel(JsonView::Bool(b)) == CelView::Bool(b),
        json_cel(JsonView::String(text)) == CelView::String(text),
{
}

/// A number is, as an argument, the CEL number of the same value: an `int` where
/// that fits in 64 bits with a sign, a `uint` where it does not, and a float
/// where it is no integer.
pub proof fn law_number_arguments_keep_their_value(n: JsonNumber)
    ensures
        match (n, json_cel(JsonView::Number(n))) {
            (JsonNumber::PosInt(u), CelView::Int(i)) => i as int == u as int,
            (JsonNumber::PosInt(u), CelView::UInt(v)) => v == u && u > 0x7fff_ffff_ffff_ffff,
            (JsonNumber::NegInt(i), CelView::Int(j)) => j == i,
            (JsonNumber::Float(f), CelView::Float(g)) => g == Some(f),
            _ => false,
        },
{
}

/// An array is, as an argument, the list of its items' CEL values, in order.
pub proof fn law_array_arguments_keep_their_items(items: Seq<JsonView>)
    ensures
        json_cel(JsonView::Array(items)) matches CelView::List(values) && {
            &&& values.len() == items.len()
            &&& forall|i: int| 0 <= i < items.len() ==> #[trigger] values[i] == json_cel(items[i])
        },
{
    let value = JsonView::Array(items);
    assert(json_cel(value)->List_0.len() == items.len());
    assert forall|i: int| 0 <= i < items.len() implies #[trigger] json_cel(value)->List_0[i]
        == json_cel(items[i]) by {
        assert(value->Array_0[i] == items[i]);
    }
}

/// An object is, as an argument, the map of its members' CEL values, each under
/// its own key as text, with no other key.
pub proof fn law_object_arguments_keep_their_members(
    members: Map<Seq<char>, JsonView>,
    key: CelKeyView,
)
    ensures
        json_cel(JsonView::Object(members)) matches CelView::Dict(entries) && match key {
            CelKeyView::String(text) => {
                &&& entries.contains_key(key) <==> members.contains_key(text)
                &&& members.contains_key(text) ==> entries[key] == json_cel(members[text])
            },
            _ => !entries.contains_key(key),
        },
{
    if let CelKeyView::String(text) = key {
        lemma_object_entry(members, text);
    }
}

/// What an expression gives becomes the JSON value of the same kind that holds
/// the same, and no other: null, a boolean, a number, a text. A float that is not
/// finite becomes null.
pub proof fn law_scalar_results_keep_their_value(
    b: bool,
    i: i64,
    u: u64,
    n: serde_json::Number,
    text: Seq<char>,
    json: JsonView,
)
    ensures
        may_become(CelView::Null, json) <==> json == JsonView::Null,
        may_become(CelView::Bool(b), json) <==> json == JsonView::Bool(b),
        may_become(CelView::Int(i), json) <==> json == JsonView::Number(
            if i < 0 {
                JsonNumber::NegInt(i)
            } else {
                JsonNumber::PosInt(i as u64)
            },
        ),
        may_become(CelView::UInt(u), json) <==> json == JsonView::Number(JsonNumber::PosInt(u)),
        may_become(CelView::Float(Some(n)), json) <==> json == JsonView::Number(number_value(n)),
        may_become(CelView::Float(None), json) <==> json == JsonView::Null,
        may_become(CelView::String(text), json) <==> json == JsonView::String(text),
        may_become(CelView::Duration(text), json) <==> json == JsonView::String(text),
        may_become(CelView::Timestamp(text), json) <==> json == JsonView::String(text),
{
}

/// Bytes that an expression gives become their base64 text, and a value of any
/// other kind becomes a text that it prints.
pub proof fn law_other_results_become_text(bytes: Seq<u8>, other: cel::Value, json: JsonView)
    ensures
        may_become(CelView::Bytes(bytes), json) <==> json == JsonView::String(base64_text(bytes)),
        may_become(CelView::Other(other), json) <==> json is String && cel_may_print(
            other,
            json->String_0,
        ),
{
}

/// A list that an expression gives becomes the array of what its items become, in
/// order.
pub proof fn law_list_results_keep_their_items(items: Seq<CelView>, json: JsonView)
    ensures
        may_become(CelView::List(items), json) <==> json is Array && json->Array_0.len()
            == items.len() && forall|i: int|
            0 <= i < items.len() ==> may_become(#[trigger] items[i], json->Array_0[i]),
{
    let value = CelView::List(items);
    assert(value->List_0 == items);
}

/// A map that an expression gives becomes an object with a member for each key,
/// under the key's text, and no other member; each member is what an entry with
/// that text becomes.
pub proof fn law_map_results_keep_their_entries(
    entries: Map<CelKeyView, CelView>,
    json: JsonView,
    key: CelKeyView,
    text: Seq<char>,
)
    requires
        may_become(CelView::Dict(entries), json),
    ensures
        json is Object,
        entries.contains_key(key) ==> json->Object_0.contains_key(cel_key_text(key)),
        json->Object_0.contains_key(text) ==> exists|k: CelKeyView| #[trigger]
            entries.contains_key(k) && cel_key_text(k) == text && may_become(
                entries[k],
                json->Object_0[text],
            ),
{
    let value = CelView::Dict(entries);
    assert(may_become(value, json));
    assert(value->Dict_0 == entries);
}

/// The text of a key: a text is itself, a number is its numeral, a boolean its
/// name.
pub proof fn law_key_text(i: i64, u: u64, text: Seq<char>)
    ensures
        cel_key_text(CelKeyView::String(text)) == text,
        cel_key_text(CelKeyView::Bool(true)) == "true"@,
        cel_key_text(CelKeyView::Bool(false)) == "false"@,
        signed_value(cel_key_text(CelKeyView::Int(i))) == i,
        cel_key_text(CelKeyView::Int(i)) == signed_decimal(i as int),
        numeral_value(cel_key_text(CelKeyView::Uint(u))) == u,
        cel_key_text(CelKeyView::Uint(u)) == decimal(u as nat),
{
    law_signed_decimal_reads_back(i as int);
    law_decimal_reads_back(u as nat);
}

/// A `cel::Value` is made as what is asked for.
pub proof fn law_cel_arguments_are_what_they_hold(
    b: bool,
    i: i64,
    u: u64,
    n: serde_json::Number,
    text: String,
    items: Vec<cel::Value>,
)
    ensures
        CelArg::Null@ == CelView::Null,
        CelArg::Bool(b)@ == CelView::Bool(b),
        CelArg::Int(i)@ == CelView::Int(i),
        CelArg::UInt(u)@ == CelView::UInt(u),
        CelArg::Float(n)@ == CelView::Float(Some(n)),
        CelArg::String(text)@ == CelView::String(text@),
        CelArg::List(items)@ matches CelView::List(values) && values.len() == items@.len()
            && forall|k: int| 0 <= k < items@.len() ==> #[trigger] values[k] == cel_view(items@[k]),
{
}

/// A map is made with an entry for each key, as text, that one of the entries
/// has: the value of the last such entry.
pub proof fn law_cel_entries_are_members(
    entries: Vec<(String, cel::Value)>,
    key: CelKeyView,
    at: int,
)
    requires
        -1 <= at < entries@.len(),
        at >= 0 ==> key == CelKeyView::String(entries@[at].0@),
        forall|i: int|
            at < i < entries@.len() ==> key != CelKeyView::String((#[trigger] entries@[i]).0@),
    ensures
        CelArg::Dict(entries)@ matches CelView::Dict(members) && {
            &&& members.contains_key(key) <==> at >= 0
            &&& at >= 0 ==> members[key] == cel_view(entries@[at].1)
        },
{
    if let CelKeyView::String(text) = key {
        let views = cel_entries(entries@);
        assert forall|i: int| at < i < views.len() implies (#[trigger] views[i]).0 != text by {
            assert(key != CelKeyView::String(entries@[i].0@));
        }
        lemma_members_of(views, text, at);
    }
}

/// A `cel::Value` is opened as what it holds.
pub proof fn law_cel_parts_are_what_they_hold(
    b: bool,
    i: i64,
    u: u64,
    n: Option<serde_json::Number>,
    text: String,
    bytes: Vec<u8>,
    view: CelView,
)
    ensures
        parts_of(CelParts::Null, view) <==> view == CelView::Null,
        parts_of(CelParts::Bool(b), view) <==> view == CelView::Bool(b),
        parts_of(CelParts::Int(i), view) <==> view == CelView::Int(i),
        parts_of(CelParts::UInt(u), view) <==> view == CelView::UInt(u),
        parts_of(CelParts::Float(n), view) <==> view == CelView::Float(n),
        parts_of(CelParts::String(text), view) <==> view == CelView::String(text@),
        parts_of(CelParts::Bytes(bytes), view) <==> view == CelView::Bytes(bytes@),
        parts_of(CelParts::Duration, view) <==> view is Duration,
        parts_of(CelParts::Timestamp, view) <==> view is Timestamp,
        parts_of(CelParts::Other, view) <==> view is Other,
{
}

/// A list and a map are opened as what they hold: every item in order, and every
/// entry once or more.
pub proof fn law_cel_parts_hold_everything(
    items: Vec<cel::Value>,
    entries: Vec<(cel::objects::Key, cel::Value)>,
    view: CelView,
)
    ensures
        parts_of(CelParts::List(items), view) ==> view is List && view->List_0.len()
            == items@.len() && forall|i: int|
            0 <= i < items@.len() ==> #[trigger] view->List_0[i] == cel_view(items@[i]),
        parts_of(CelParts::Dict(entries), view) ==> view is Dict && {
            &&& forall|i: int|
                0 <= i < entries@.len() ==> view->Dict_0.contains_key(
                    cel_key_view((#[trigger] entries@[i]).0),
                ) && view->Dict_0[cel_key_view(entries@[i].0)] == cel_view(entries@[i].1)
            &&& forall|key: CelKeyView| #[trigger]
                view->Dict_0.contains_key(key) ==> exists|i: int|
                    0 <= i < entries@.len() && cel_key_view((#[trigger] entries@[i]).0) == key
        },
{
}

/// A key is opened as what it holds.
pub proof fn law_cel_keys_are_what_they_hold(i: i64, u: u64, b: bool, text: String)
    ensures
        CelKey::Int(i)@ == CelKeyView::Int(i),
        CelKey::Uint(u)@ == CelKeyView::Uint(u),
        CelKey::Bool(b)@ == CelKeyView::Bool(b),
        CelKey::String(text)@ == CelKeyView::String(text@),
{
}

/// Errors cannot be printed where one of them stands beyond column 65,535, and
/// only there.
pub proof fn law_errors_are_printable_up_to_16_bits(errors: cel::ParseErrors)
    ensures
        !printable(errors) <==> exists|i: int|
            0 <= i < error_columns(errors).len() && #[trigger] error_columns(errors)[i] > 0xffff,
{
}

/// The outcome of a run is its value, or the text of its error.
pub proof fn law_outcomes_are_what_they_hold(
    program: cel::Program,
    variables: Map<Seq<char>, CelView>,
    value: cel::Value,
    text: String,
    outcome: Result<CelView, Seq<char>>,
)
    ensures
        outcome_view(Ok(value)) == Ok::<CelView, Seq<char>>(cel_view(value)),
        outcome_view(Err(text)) == Err::<CelView, Seq<char>>(text@),
        cel_may_give(program, variables, outcome) == cel_may_end(
            program,
            variables,
            Some(outcome),
        ),
        cel_returns(program, variables) == !cel_may_end(program, variables, None),
{
}

/// Every value but one of an unknown kind can be a variable, alone or in a list or
/// a map of such values.
pub proof fn law_storable(view: CelView)
    ensures
        view is Other ==> !storable(view),
        view is List ==> (storable(view) <==> forall|i: int|
            0 <= i < view->List_0.len() ==> storable(#[trigger] view->List_0[i])),
        view is Dict ==> (storable(view) <==> forall|key: CelKeyView| #[trigger]
            view->Dict_0.contains_key(key) ==> storable(view->Dict_0[key])),
        !(view is Other) && !(view is List) && !(view is Dict) ==> storable(view),
{
}

} // verus!
