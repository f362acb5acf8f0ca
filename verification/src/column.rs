//! Column values of a result row and their JSON form.
use crate::encoding::{base64_text, encode_base64};
use crate::json::{
    int_number, items_view, lemma_items_view, number_value, object_view, put, Json, JsonNumber,
    JsonView,
};
use crate::text::{
    all_digits, decimal, law_decimal_reads_back, numeral_value, signed_decimal, signed_value,
};
use tiberius::FromSql;
use vstd::prelude::*;

verus! {

/// A decimal: `value` divided by ten to the power of `scale`.
#[derive(Debug, Clone, Copy, PartialEq)]
pub struct NumericValue {
    pub value: i128,
    pub scale: u8,
}

/// `datetime`: days since 1900-01-01, and three hundredths of a second since midnight.
#[derive(Debug, Clone, Copy, PartialEq)]
pub struct DateTimeValue {
    pub days: i32,
    pub seconds_fragments: u32,
}

/// `smalldatetime`: days since 1900-01-01, and minutes since midnight.
#[derive(Debug, Clone, Copy, PartialEq)]
pub struct SmallDateTimeValue {
    pub days: u16,
    pub minutes: u16,
}

/// `time`: increments of ten to the power of minus `scale` seconds since midnight.
#[derive(Debug, Clone, Copy, PartialEq)]
pub struct TimeValue {
    pub increments: u64,
    pub scale: u8,
}

/// `datetime2`: days since 0001-01-01, and the time of day.
#[derive(Debug, Clone, Copy, PartialEq)]
pub struct DateTime2Value {
    pub days: u32,
    pub time: TimeValue,
}

/// `datetimeoffset`: date and time in UTC, and the offset from UTC in minutes.
#[derive(Debug, Clone, Copy, PartialEq)]
pub struct DateTimeOffsetValue {
    pub datetime2: DateTime2Value,
    pub offset: i16,
}

/// One column value of a row. A float is absent where it is NULL or not finite.
#[derive(Debug, PartialEq)]
pub enum ColumnValue {
    U8(Option<u8>),
    I16(Option<i16>),
    I32(Option<i32>),
    I64(Option<i64>),
    Float(Option<serde_json::Number>),
    Bit(Option<bool>),
    String(Option<String>),
    Guid(Option<u128>),
    Binary(Option<Vec<u8>>),
    Numeric(Option<NumericValue>),
    Xml(Option<String>),
    DateTime(Option<DateTimeValue>),
    SmallDateTime(Option<SmallDateTimeValue>),
    Time(Option<TimeValue>),
    Date(Option<u32>),
    DateTime2(Option<DateTime2Value>),
    DateTimeOffset(Option<DateTimeOffsetValue>),
}

/// The nanoseconds in one increment of a time with the given scale.
pub open spec fn increment_nanos(scale: u8) -> u64 {
    if scale == 0 {
        1_000_000_000
    } else if scale == 1 {
        100_000_000
    } else if scale == 2 {
        10_000_000
    } else if scale == 3 {
        1_000_000
    } else if scale == 4 {
        100_000
    } else if scale == 5 {
        10_000
    } else if scale == 6 {
        1_000
    } else if scale == 7 {
        100
    } else if scale == 8 {
        10
    } else {
        1
    }
}

fn nanos_per_increment(scale: u8) -> (nanos: u64)
    ensures
        nanos == increment_nanos(scale),
{
    match scale {
        0 => 1_000_000_000,
        1 => 100_000_000,
        2 => 10_000_000,
        3 => 1_000_000,
        4 => 100_000,
        5 => 10_000,
        6 => 1_000,
        7 => 100,
        8 => 10,
        _ => 1,
    }
}

impl TimeValue {
    /// The time counts nanoseconds that fit in `i64`.
    pub open spec fn valid(self) -> bool {
        self.scale <= 9 && self.increments * increment_nanos(self.scale) <= i64::MAX
    }

    pub fn is_valid(&self) -> (res: bool)
        ensures
            res == self.valid(),
    {
        let increments: u128 = self.increments as u128;
        let unit: u128 = nanos_per_increment(self.scale) as u128;
        proof {
            assert(increments * unit <= 0xffff_ffff_ffff_ffff * 1_000_000_000) by (nonlinear_arith)
                requires
                    0 <= increments <= 0xffff_ffff_ffff_ffff,
                    0 <= unit <= 1_000_000_000,
            ;
        }
        self.scale <= 9 && increments * unit <= i64::MAX as u128
    }
}

impl ColumnValue {
    /// The value is one that has a decimal, calendar or clock reading: a scale
    /// below 38, a date within the years -262143 to 262142, a minute within the
    /// day, an offset within a day.
    pub open spec fn valid(self) -> bool {
        match self {
            ColumnValue::Numeric(Some(n)) => n.scale < 38,
            ColumnValue::DateTime(Some(d)) => -96_439_725 <= d.days <= 95_051_803,
            ColumnValue::SmallDateTime(Some(d)) => d.minutes < 1440,
            ColumnValue::Time(Some(t)) => t.valid(),
            ColumnValue::Date(Some(days)) => days < 0x100_0000,
            ColumnValue::DateTime2(Some(d)) => d.days < 0x100_0000 && d.time.valid(),
            ColumnValue::DateTimeOffset(Some(d)) => {
                &&& d.datetime2.days < 0x100_0000
                &&& d.datetime2.time.valid()
                &&& -1440 < d.offset < 1440
            },
            _ => true,
        }
    }

    pub fn is_valid(&self) -> (res: bool)
        ensures
            res == self.valid(),
    {
        match self {
            ColumnValue::Numeric(Some(n)) => n.scale < 38,
            ColumnValue::DateTime(Some(d)) => -96_439_725 <= d.days && d.days <= 95_051_803,
            ColumnValue::SmallDateTime(Some(d)) => d.minutes < 1440,
            ColumnValue::Time(Some(t)) => t.is_valid(),
            ColumnValue::Date(Some(days)) => *days < 0x100_0000,
            ColumnValue::DateTime2(Some(d)) => d.days < 0x100_0000 && d.time.is_valid(),
            ColumnValue::DateTimeOffset(Some(d)) => d.datetime2.days < 0x100_0000
                && d.datetime2.time.is_valid() && -1440 < d.offset && d.offset < 1440,
            _ => true,
        }
    }
}

/// Ten to the power of `n`.
pub open spec fn pow10(n: nat) -> nat
    decreases n,
{
    if n == 0 {
        1
    } else {
        10 * pow10((n - 1) as nat)
    }
}

/// `text` with zeros before it, at least `width` characters in all.
pub open spec fn zero_padded(text: Seq<char>, width: int) -> Seq<char> {
    if width <= text.len() {
        text
    } else {
        Seq::new((width - text.len()) as nat, |i: int| '0') + text
    }
}

/// A decimal numeral with a minus sign before it where the number is below zero
/// and not nothing, zero-padded between the sign and the digits.
pub open spec fn signed_part(negative: bool, magnitude: nat, width: int) -> Seq<char> {
    if negative && magnitude > 0 {
        seq!['-'] + zero_padded(decimal(magnitude), width - 1)
    } else {
        zero_padded(decimal(magnitude), width)
    }
}

/// The text of a decimal: the integer part, a point, and the fraction with as
/// many digits as the scale says, one where the scale is 0. Below zero each of
/// the two parts that is not zero has its own sign, which counts as one of the
/// fraction's digits.
pub open spec fn numeric_text(numeric: NumericValue) -> Seq<char> {
    let magnitude = if numeric.value < 0 {
        -numeric.value
    } else {
        numeric.value as int
    };
    let unit = pow10(numeric.scale as nat) as int;
    signed_part(numeric.value < 0, (magnitude / unit) as nat, 0) + seq!['.'] + signed_part(
        numeric.value < 0,
        (magnitude % unit) as nat,
        numeric.scale as int,
    )
}

/// The hexadecimal digit `d`, with small letters.
pub open spec fn hex_char(d: nat) -> char {
    if d < 10 {
        ((48 + d) as u8) as char
    } else {
        ((87 + d) as u8) as char
    }
}

/// Sixteen to the power of `n`.
pub open spec fn pow16(n: nat) -> nat
    decreases n,
{
    if n == 0 {
        1
    } else {
        16 * pow16((n - 1) as nat)
    }
}

/// The text of a GUID: its 32 hexadecimal digits from the highest to the lowest,
/// in groups of 8, 4, 4, 4 and 12 with hyphens between them.
pub open spec fn guid_text(guid: u128) -> Seq<char> {
    Seq::new(
        36,
        |i: int|
            if i == 8 || i == 13 || i == 18 || i == 23 {
                '-'
            } else {
                let hyphens: int = if i < 8 {
                    0
                } else if i < 13 {
                    1
                } else if i < 18 {
                    2
                } else if i < 23 {
                    3
                } else {
                    4
                };
                hex_char((guid as nat / pow16((31 - (i - hyphens)) as nat)) % 16)
            },
    )
}

/// How `chrono` prints a `datetime`.
pub uninterp spec fn datetime_shown(days: i32, seconds_fragments: u32) -> Option<Seq<char>>;

/// How `chrono` prints a `smalldatetime`.
pub uninterp spec fn small_datetime_shown(days: u16, minutes: u16) -> Option<Seq<char>>;

/// How `chrono` prints a `datetime2`.
pub uninterp spec fn datetime2_shown(days: u32, increments: u64, scale: u8) -> Option<Seq<char>>;

/// How `chrono` prints a `date`.
pub uninterp spec fn date_shown(days: u32) -> Option<Seq<char>>;

/// How `chrono` prints a `time`.
pub uninterp spec fn time_shown(increments: u64, scale: u8) -> Option<Seq<char>>;

/// How `chrono` prints a `datetimeoffset` in RFC 3339 form.
pub uninterp spec fn datetime_offset_shown(
    days: u32,
    increments: u64,
    scale: u8,
    offset: i16,
) -> Option<Seq<char>>;

/// The text of an optional string.
pub open spec fn optional_text(text: Option<String>) -> Option<Seq<char>> {
    match text {
        Some(text) => Some(text@),
        None => None,
    }
}

/// `Display` of `tiberius::numeric::Numeric`, which is made of a value and a
/// scale below 38.
#[verifier::external_body]
fn show_numeric(numeric: NumericValue) -> (text: String)
    requires
        numeric.scale < 38,
    ensures
        text@ == numeric_text(numeric),
{
    tiberius::numeric::Numeric::new_with_scale(numeric.value, numeric.scale).to_string()
}

/// `Display` of `tiberius::Uuid`, the hyphenated form with small letters.
#[verifier::external_body]
fn show_guid(guid: u128) -> (text: String)
    ensures
        text@ == guid_text(guid),
{
    tiberius::Uuid::from_u128(guid).to_string()
}

/// `FromSql` of `chrono::NaiveDateTime` for a `datetime`, printed by `Display`.
/// The days are those that a `chrono` date can be away from 1900-01-01.
#[verifier::external_body]
fn show_datetime(datetime: DateTimeValue) -> (text: Option<String>)
    requires
        -96_439_725 <= datetime.days <= 95_051_803,
    ensures
        optional_text(text) == datetime_shown(datetime.days, datetime.seconds_fragments),
{
    let value = tiberius::time::DateTime::new(datetime.days, datetime.seconds_fragments);
    let column = tiberius::ColumnData::DateTime(Some(value));
    chrono::NaiveDateTime::from_sql(&column).ok().flatten().map(|shown| shown.to_string())
}

/// `FromSql` of `chrono::NaiveDateTime` for a `smalldatetime`, printed by `Display`.
#[verifier::external_body]
fn show_small_datetime(datetime: SmallDateTimeValue) -> (text: Option<String>)
    requires
        datetime.minutes < 1440,
    ensures
        optional_text(text) == small_datetime_shown(datetime.days, datetime.minutes),
{
    let value = tiberius::time::SmallDateTime::new(datetime.days, datetime.minutes);
    let column = tiberius::ColumnData::SmallDateTime(Some(value));
    chrono::NaiveDateTime::from_sql(&column).ok().flatten().map(|shown| shown.to_string())
}

/// `FromSql` of `chrono::NaiveDateTime` for a `datetime2`, printed by `Display`.
#[verifier::external_body]
fn show_datetime2(datetime: DateTime2Value) -> (text: Option<String>)
    requires
        datetime.days < 0x100_0000,
        datetime.time.valid(),
    ensures
        optional_text(text) == datetime2_shown(
            datetime.days,
            datetime.time.increments,
            datetime.time.scale,
        ),
{
    let date = tiberius::time::Date::new(datetime.days);
    let time = tiberius::time::Time::new(datetime.time.increments, datetime.time.scale);
    let value = tiberius::time::DateTime2::new(date, time);
    let column = tiberius::ColumnData::DateTime2(Some(value));
    chrono::NaiveDateTime::from_sql(&column).ok().flatten().map(|shown| shown.to_string())
}

/// `FromSql` of `chrono::NaiveDate` for a `date`, printed by `Display`.
#[verifier::external_body]
fn show_date(days: u32) -> (text: Option<String>)
    requires
        days < 0x100_0000,
    ensures
        optional_text(text) == date_shown(days),
{
    let column = tiberius::ColumnData::Date(Some(tiberius::time::Date::new(days)));
    chrono::NaiveDate::from_sql(&column).ok().flatten().map(|shown| shown.to_string())
}

/// `FromSql` of `chrono::NaiveTime` for a `time`, printed by `Display`.
#[verifier::external_body]
fn show_time(time: TimeValue) -> (text: Option<String>)
    requires
        time.valid(),
    ensures
        optional_text(text) == time_shown(time.increments, time.scale),
{
    let value = tiberius::time::Time::new(time.increments, time.scale);
    let column = tiberius::ColumnData::Time(Some(value));
    chrono::NaiveTime::from_sql(&column).ok().flatten().map(|shown| shown.to_string())
}

/// `FromSql` of `chrono::DateTime<FixedOffset>` for a `datetimeoffset`, printed
/// by `to_rfc3339`.
#[verifier::external_body]
fn show_datetime_offset(datetime: DateTimeOffsetValue) -> (text: Option<String>)
    requires
        datetime.datetime2.days < 0x100_0000,
        datetime.datetime2.time.valid(),
        -1440 < datetime.offset < 1440,
    ensures
        optional_text(text) == datetime_offset_shown(
            datetime.datetime2.days,
            datetime.datetime2.time.increments,
            datetime.datetime2.time.scale,
            datetime.offset,
        ),
{
    let time = datetime.datetime2.time;
    let date = tiberius::time::Date::new(datetime.datetime2.days);
    let time = tiberius::time::Time::new(time.increments, time.scale);
    let value = tiberius::time::DateTime2::new(date, time);
    let value = tiberius::time::DateTimeOffset::new(value, datetime.offset);
    let column = tiberius::ColumnData::DateTimeOffset(Some(value));
    let shown = chrono::DateTime::<chrono::FixedOffset>::from_sql(&column);
    shown.ok().flatten().map(|shown| shown.to_rfc3339())
}

/// Text as JSON, and null where there is none.
pub open spec fn text_json(text: Option<Seq<char>>) -> JsonView {
    match text {
        Some(text) => JsonView::String(text),
        None => JsonView::Null,
    }
}

/// An integer as JSON, and null where there is none.
pub open spec fn integer_json(value: Option<i64>) -> JsonView {
    match value {
        Some(i) => JsonView::Number(int_number(i)),
        None => JsonView::Null,
    }
}

/// The JSON form of a column value; NULL of every type is null.
pub open spec fn column_json(value: ColumnValue) -> JsonView {
    match value {
        ColumnValue::U8(o) => integer_json(
            match o {
                Some(v) => Some(v as i64),
                None => None,
            },
        ),
        ColumnValue::I16(o) => integer_json(
            match o {
                Some(v) => Some(v as i64),
                None => None,
            },
        ),
        ColumnValue::I32(o) => integer_json(
            match o {
                Some(v) => Some(v as i64),
                None => None,
            },
        ),
        ColumnValue::I64(o) => integer_json(o),
        ColumnValue::Float(o) => match o {
            Some(n) => JsonView::Number(number_value(n)),
            None => JsonView::Null,
        },
        ColumnValue::Bit(o) => match o {
            Some(b) => JsonView::Bool(b),
            None => JsonView::Null,
        },
        ColumnValue::String(o) => text_json(optional_text(o)),
        ColumnValue::Guid(o) => match o {
            Some(guid) => JsonView::String(guid_text(guid)),
            None => JsonView::Null,
        },
        ColumnValue::Binary(o) => match o {
            Some(bytes) => JsonView::String(base64_text(bytes@)),
            None => JsonView::Null,
        },
        ColumnValue::Numeric(o) => match o {
            Some(n) => JsonView::String(numeric_text(n)),
            None => JsonView::Null,
        },
        ColumnValue::Xml(o) => text_json(optional_text(o)),
        other => temporal_json(other),
    }
}

/// The JSON form of a date or time value, as text.
pub open spec fn temporal_json(value: ColumnValue) -> JsonView {
    match value {
        ColumnValue::DateTime(Some(d)) => text_json(datetime_shown(d.days, d.seconds_fragments)),
        ColumnValue::SmallDateTime(Some(d)) => text_json(small_datetime_shown(d.days, d.minutes)),
        ColumnValue::DateTime2(Some(d)) => text_json(
            datetime2_shown(d.days, d.time.increments, d.time.scale),
        ),
        ColumnValue::Date(Some(days)) => text_json(date_shown(days)),
        ColumnValue::Time(Some(t)) => text_json(time_shown(t.increments, t.scale)),
        ColumnValue::DateTimeOffset(Some(d)) => text_json(
            datetime_offset_shown(
                d.datetime2.days,
                d.datetime2.time.increments,
                d.datetime2.time.scale,
                d.offset,
            ),
        ),
        _ => JsonView::Null,
    }
}

/// An integer as JSON.
pub fn int_json(value: Option<i64>) -> (res: Json)
    ensures
        res@ == integer_json(value),
{
    match value {
        Some(i) => Json::signed(i),
        None => Json::Null,
    }
}

/// A float as JSON.
pub fn float_json(value: &Option<serde_json::Number>) -> (res: Json)
    ensures
        res@ == (match *value {
            Some(n) => JsonView::Number(number_value(n)),
            None => JsonView::Null,
        }),
{
    match value {
        Some(n) => Json::Number(n.clone()),
        None => Json::Null,
    }
}

/// Text as JSON, and null where there is none.
pub fn shown_json(text: Option<String>) -> (res: Json)
    ensures
        res@ == text_json(optional_text(text)),
{
    match text {
        Some(text) => Json::String(text),
        None => Json::Null,
    }
}

/// The JSON form of a column value.
pub fn column_data_to_json(value: &ColumnValue) -> (res: Json)
    requires
        value.valid(),
    ensures
        res@ == column_json(*value),
{
    match value {
        ColumnValue::U8(o) => int_json(
            match o {
                Some(v) => Some(*v as i64),
                None => None,
            },
        ),
        ColumnValue::I16(o) => int_json(
            match o {
                Some(v) => Some(*v as i64),
                None => None,
            },
        ),
        ColumnValue::I32(o) => int_json(
            match o {
                Some(v) => Some(*v as i64),
                None => None,
            },
        ),
        ColumnValue::I64(o) => int_json(*o),
        ColumnValue::Float(o) => float_json(o),
        ColumnValue::Bit(o) => match o {
            Some(b) => Json::Bool(*b),
            None => Json::Null,
        },
        ColumnValue::String(o) | ColumnValue::Xml(o) => match o {
            Some(s) => Json::String(s.clone()),
            None => Json::Null,
        },
        ColumnValue::Guid(o) => match o {
            Some(guid) => Json::String(show_guid(*guid)),
            None => Json::Null,
        },
        ColumnValue::Binary(o) => match o {
            Some(bytes) => Json::String(encode_base64(bytes.as_slice())),
            None => Json::Null,
        },
        ColumnValue::Numeric(o) => match o {
            Some(n) => Json::String(show_numeric(*n)),
            None => Json::Null,
        },
        other => temporal_to_json(other),
    }
}

/// The JSON form of a date or time value.
pub fn temporal_to_json(value: &ColumnValue) -> (res: Json)
    requires
        value.valid(),
    ensures
        res@ == temporal_json(*value),
{
    match value {
        ColumnValue::DateTime(Some(d)) => shown_json(show_datetime(*d)),
        ColumnValue::SmallDateTime(Some(d)) => shown_json(show_small_datetime(*d)),
        ColumnValue::DateTime2(Some(d)) => shown_json(show_datetime2(*d)),
        ColumnValue::Date(Some(days)) => shown_json(show_date(*days)),
        ColumnValue::Time(Some(t)) => shown_json(show_time(*t)),
        ColumnValue::DateTimeOffset(Some(d)) => shown_json(show_datetime_offset(*d)),
        _ => Json::Null,
    }
}

/// A row: the columns in order, each with its name.
pub type Row = Vec<(String, ColumnValue)>;

/// Every value of a row is valid.
pub open spec fn valid_row(row: Seq<(String, ColumnValue)>) -> bool {
    forall|i: int| 0 <= i < row.len() ==> (#[trigger] row[i]).1.valid()
}

/// The members of the object for a row: each column under its name, put there
/// one after the other.
pub open spec fn row_members(row: Seq<(String, ColumnValue)>) -> Map<Seq<char>, JsonView>
    decreases row.len(),
{
    if row.len() == 0 {
        Map::empty()
    } else {
        row_members(row.drop_last()).insert(row.last().0@, column_json(row.last().1))
    }
}

/// A row as an object with one member per column name. Where a name stands
/// there more than once, the last column counts.
pub fn row_to_json(row: &Row) -> (res: Json)
    requires
        valid_row(row@),
    ensures
        res@ == JsonView::Object(row_members(row@)),
{
    let mut entries: Vec<(String, Json)> = Vec::new();
    let mut i: usize = 0;
    while i < row.len()
        invariant
            i <= row@.len(),
            valid_row(row@),
            object_view(entries@) == row_members(row@.take(i as int)),
        decreases row@.len() - i,
    {
        let name = row[i].0.clone();
        let value = column_data_to_json(&row[i].1);
        put(&mut entries, name, value);
        proof {
            assert(row@.take(i + 1).drop_last() =~= row@.take(i as int));
        }
        i = i + 1;
    }
    proof {
        assert(row@.take(row@.len() as int) =~= row@);
    }
    Json::Object(entries)
}

/// The number of rows that are given back: all of them, up to the limit.
pub open spec fn kept_rows(count: nat, size_limit: usize) -> nat {
    if count <= size_limit {
        count
    } else {
        size_limit as nat
    }
}

/// Every row that is given back is valid.
pub open spec fn valid_rows(rows: Seq<Row>, size_limit: usize) -> bool {
    forall|i: int| 0 <= i < kept_rows(rows.len(), size_limit) ==> valid_row((#[trigger] rows[i])@)
}

/// The rows as JSON, from the first one on, up to the limit.
pub open spec fn rows_json(rows: Seq<Row>, size_limit: usize) -> Seq<JsonView> {
    Seq::new(
        kept_rows(rows.len(), size_limit),
        |i: int| JsonView::Object(row_members(rows[i]@)),
    )
}

/// The rows as JSON, from the first one on, up to the limit.
pub fn project_rows(rows: &Vec<Row>, size_limit: usize) -> (res: Vec<Json>)
    requires
        valid_rows(rows@, size_limit),
    ensures
        items_view(res@) == rows_json(rows@, size_limit),
{
    let mut res: Vec<Json> = Vec::new();
    let mut i: usize = 0;
    while i < rows.len() && i < size_limit
        invariant
            i <= rows@.len(),
            i <= size_limit,
            valid_rows(rows@, size_limit),
            res@.len() == i,
            forall|k: int|
                0 <= k < i ==> (#[trigger] res@[k])@ == JsonView::Object(row_members(rows@[k]@)),
        decreases rows@.len() - i,
    {
        res.push(row_to_json(&rows[i]));
        i = i + 1;
    }
    proof {
        lemma_items_view(res@);
        assert forall|k: int| 0 <= k < res@.len() implies items_view(res@)[k] == rows_json(
            rows@,
            size_limit,
        )[k] by {
            assert(res@[k]@ == JsonView::Object(row_members(rows@[k]@)));
        }
        assert(items_view(res@) =~= rows_json(rows@, size_limit));
    }
    res
}

/// NULL of every type is JSON null.
pub open spec fn is_null(value: ColumnValue) -> bool {
    match value {
        ColumnValue::U8(o) => o is None,
        ColumnValue::I16(o) => o is None,
        ColumnValue::I32(o) => o is None,
        ColumnValue::I64(o) => o is None,
        ColumnValue::Float(o) => o is None,
        ColumnValue::Bit(o) => o is None,
        ColumnValue::String(o) => o is None,
        ColumnValue::Guid(o) => o is None,
        ColumnValue::Binary(o) => o is None,
        ColumnValue::Numeric(o) => o is None,
        ColumnValue::Xml(o) => o is None,
        ColumnValue::DateTime(o) => o is None,
        ColumnValue::SmallDateTime(o) => o is None,
        ColumnValue::Time(o) => o is None,
        ColumnValue::Date(o) => o is None,
        ColumnValue::DateTime2(o) => o is None,
        ColumnValue::DateTimeOffset(o) => o is None,
    }
}

/// NULL of any column type becomes JSON null.
pub proof fn law_null_is_json_null(value: ColumnValue)
    requires
        is_null(value),
    ensures
        column_json(value) == JsonView::Null,
{
}

/// Under a column name the object for a row holds the value of the last column
/// with that name.
pub proof fn law_last_column_wins(row: Seq<(String, ColumnValue)>, at: int)
    requires
        0 <= at < row.len(),
        forall|k: int| at < k < row.len() ==> (#[trigger] row[k]).0@ != row[at].0@,
    ensures
        row_members(row).contains_key(row[at].0@),
        row_members(row)[row[at].0@] == column_json(row[at].1),
    decreases row.len(),
{
    if at < row.len() - 1 {
        assert(row[row.len() - 1].0@ != row[at].0@);
        assert forall|k: int| at < k < row.len() - 1 implies (#[trigger] row.drop_last()[k]).0@
            != row.drop_last()[at].0@ by {
            assert(row[k].0@ != row[at].0@);
        }
        law_last_column_wins(row.drop_last(), at);
    }
}

/// The object for a row has a member for each column name, and no other.
pub proof fn law_row_members_are_columns(row: Seq<(String, ColumnValue)>, name: Seq<char>)
    ensures
        row_members(row).contains_key(name) <==> exists|k: int|
            0 <= k < row.len() && (#[trigger] row[k]).0@ == name,
    decreases row.len(),
{
    if row.len() > 0 {
        let front = row.drop_last();
        law_row_members_are_columns(front, name);
        if row_members(row).contains_key(name) {
            if row.last().0@ == name {
                assert(row[row.len() - 1].0@ == name);
            } else {
                let k = choose|k: int| 0 <= k < front.len() && (#[trigger] front[k]).0@ == name;
                assert(row[k].0@ == name);
            }
        }
        if exists|k: int| 0 <= k < row.len() && (#[trigger] row[k]).0@ == name {
            let k = choose|k: int| 0 <= k < row.len() && (#[trigger] row[k]).0@ == name;
            if k < front.len() {
                assert(front[k].0@ == name);
            }
        }
    }
}

/// No more rows come back than the limit allows, none is left out below it,
/// and those that come back are the first ones.
pub proof fn law_row_cap(rows: Seq<Row>, size_limit: usize)
    ensures
        rows_json(rows, size_limit).len() <= size_limit,
        rows.len() <= size_limit ==> rows_json(rows, size_limit).len() == rows.len(),
        forall|i: int|
            0 <= i < rows_json(rows, size_limit).len() ==> #[trigger] rows_json(
                rows,
                size_limit,
            )[i] == JsonView::Object(row_members(rows[i]@)),
{
}

/// Where a result has as many rows as the limit or more, exactly as many come
/// back as the limit says; where it has fewer, all of them do. Each is the object
/// of the row at its place, and a higher limit only adds rows behind them.
pub proof fn law_as_many_rows_as_the_limit(rows: Seq<Row>, size_limit: usize, higher: usize)
    requires
        size_limit <= higher,
    ensures
        rows.len() >= size_limit ==> rows_json(rows, size_limit).len() == size_limit,
        rows.len() <= size_limit ==> rows_json(rows, size_limit).len() == rows.len(),
        forall|i: int|
            0 <= i < rows.len() && i < size_limit ==> #[trigger] rows_json(rows, size_limit)[i]
                == JsonView::Object(row_members(rows[i]@)),
        rows_json(rows, size_limit) == rows_json(rows, higher).take(
            rows_json(rows, size_limit).len() as int,
        ),
{
    assert(rows_json(rows, size_limit) =~= rows_json(rows, higher).take(
        rows_json(rows, size_limit).len() as int,
    ));
}

/// Rows can be given back where every value of the first ones, up to the limit,
/// is valid; those behind the limit do not matter.
pub proof fn law_rows_behind_the_limit_do_not_matter(rows: Seq<Row>, size_limit: usize)
    ensures
        valid_rows(rows, size_limit) <==> forall|i: int, j: int|
            0 <= i < rows.len() && i < size_limit && 0 <= j < (#[trigger] rows[i])@.len()
                ==> (#[trigger] rows[i]@[j]).1.valid(),
{
    if valid_rows(rows, size_limit) {
        assert forall|i: int, j: int|
            0 <= i < rows.len() && i < size_limit && 0 <= j < (
            #[trigger] rows[i])@.len() implies (#[trigger] rows[i]@[j]).1.valid() by {
            assert(valid_row(rows[i]@));
        }
    }
    if forall|i: int, j: int|
        0 <= i < rows.len() && i < size_limit && 0 <= j < (#[trigger] rows[i])@.len() ==> (
        #[trigger] rows[i]@[j]).1.valid() {
        assert forall|i: int| 0 <= i < kept_rows(rows.len(), size_limit) implies valid_row(
            (#[trigger] rows[i])@,
        ) by {
            assert forall|j: int| 0 <= j < rows[i]@.len() implies (
            #[trigger] rows[i]@[j]).1.valid() by {}
        }
    }
}

/// An integer column becomes the JSON number of the same value.
pub proof fn law_integer_columns_keep_their_value(a: u8, b: i16, c: i32, d: i64)
    ensures
        column_json(ColumnValue::U8(Some(a))) == JsonView::Number(JsonNumber::PosInt(a as u64)),
        column_json(ColumnValue::I16(Some(b))) == JsonView::Number(
            if b < 0 {
                JsonNumber::NegInt(b as i64)
            } else {
                JsonNumber::PosInt(b as u64)
            },
        ),
        column_json(ColumnValue::I32(Some(c))) == JsonView::Number(
            if c < 0 {
                JsonNumber::NegInt(c as i64)
            } else {
                JsonNumber::PosInt(c as u64)
            },
        ),
        column_json(ColumnValue::I64(Some(d))) == JsonView::Number(
            if d < 0 {
                JsonNumber::NegInt(d)
            } else {
                JsonNumber::PosInt(d as u64)
            },
        ),
{
}

/// A float becomes its number, a bit its boolean, a text and an XML value their
/// own text.
pub proof fn law_scalar_columns_keep_their_value(n: serde_json::Number, b: bool, text: String)
    ensures
        column_json(ColumnValue::Float(Some(n))) == JsonView::Number(number_value(n)),
        column_json(ColumnValue::Bit(Some(b))) == JsonView::Bool(b),
        column_json(ColumnValue::String(Some(text))) == JsonView::String(text@),
        column_json(ColumnValue::Xml(Some(text))) == JsonView::String(text@),
{
}

/// A GUID, bytes and a decimal become their text.
pub proof fn law_printed_columns(guid: u128, bytes: Vec<u8>, n: NumericValue)
    ensures
        column_json(ColumnValue::Guid(Some(guid))) == JsonView::String(guid_text(guid)),
        column_json(ColumnValue::Binary(Some(bytes))) == JsonView::String(base64_text(bytes@)),
        column_json(ColumnValue::Numeric(Some(n))) == JsonView::String(numeric_text(n)),
{
}

/// A date or a time becomes the text that it prints as, and null where it has no
/// reading; as a column and on its own it becomes the same.
pub proof fn law_temporal_columns_print_their_own_value(
    datetime: DateTimeValue,
    small: SmallDateTimeValue,
    datetime2: DateTime2Value,
    days: u32,
    time: TimeValue,
    offset: DateTimeOffsetValue,
)
    ensures
        column_json(ColumnValue::DateTime(Some(datetime))) == match datetime_shown(
            datetime.days,
            datetime.seconds_fragments,
        ) {
            Some(text) => JsonView::String(text),
            None => JsonView::Null,
        },
        column_json(ColumnValue::SmallDateTime(Some(small))) == match small_datetime_shown(
            small.days,
            small.minutes,
        ) {
            Some(text) => JsonView::String(text),
            None => JsonView::Null,
        },
        column_json(ColumnValue::DateTime2(Some(datetime2))) == match datetime2_shown(
            datetime2.days,
            datetime2.time.increments,
            datetime2.time.scale,
        ) {
            Some(text) => JsonView::String(text),
            None => JsonView::Null,
        },
        column_json(ColumnValue::Date(Some(days))) == match date_shown(days) {
            Some(text) => JsonView::String(text),
            None => JsonView::Null,
        },
        column_json(ColumnValue::Time(Some(time))) == match time_shown(
            time.increments,
            time.scale,
        ) {
            Some(text) => JsonView::String(text),
            None => JsonView::Null,
        },
        column_json(ColumnValue::DateTimeOffset(Some(offset))) == match datetime_offset_shown(
            offset.datetime2.days,
            offset.datetime2.time.increments,
            offset.datetime2.time.scale,
            offset.offset,
        ) {
            Some(text) => JsonView::String(text),
            None => JsonView::Null,
        },
        temporal_json(ColumnValue::DateTime(Some(datetime))) == column_json(
            ColumnValue::DateTime(Some(datetime)),
        ),
        temporal_json(ColumnValue::SmallDateTime(Some(small))) == column_json(
            ColumnValue::SmallDateTime(Some(small)),
        ),
        temporal_json(ColumnValue::DateTime2(Some(datetime2))) == column_json(
            ColumnValue::DateTime2(Some(datetime2)),
        ),
        temporal_json(ColumnValue::Date(Some(days))) == column_json(ColumnValue::Date(Some(days))),
        temporal_json(ColumnValue::Time(Some(time))) == column_json(ColumnValue::Time(Some(time))),
        temporal_json(ColumnValue::DateTimeOffset(Some(offset))) == column_json(
            ColumnValue::DateTimeOffset(Some(offset)),
        ),
{
}

/// A value that is no date or time has no reading as one.
pub proof fn law_other_columns_are_not_temporal(value: ColumnValue)
    requires
        !(value is DateTime) && !(value is SmallDateTime) && !(value is DateTime2) && !(
        value is Date) && !(value is Time) && !(value is DateTimeOffset),
    ensures
        temporal_json(value) == JsonView::Null,
{
}

/// A text that is there is that text, one that is not there is null; an integer
/// likewise.
pub proof fn law_optional_values(text: String, i: i64)
    ensures
        optional_text(Some(text)) == Some(text@),
        optional_text(None) is None,
        text_json(Some(text@)) == JsonView::String(text@),
        text_json(None) == JsonView::Null,
        integer_json(Some(i)) == JsonView::Number(
            if i < 0 {
                JsonNumber::NegInt(i)
            } else {
                JsonNumber::PosInt(i as u64)
            },
        ),
        integer_json(None) == JsonView::Null,
{
}

/// Integers, floats, bits, texts, GUIDs and bytes are valid whatever they hold,
/// and so is NULL of any type.
pub proof fn law_plain_values_are_valid(value: ColumnValue)
    ensures
        is_null(value) ==> value.valid(),
        value is U8 || value is I16 || value is I32 || value is I64 || value is Float
            || value is Bit || value is String || value is Guid || value is Binary
            || value is Xml ==> value.valid(),
{
}

/// A decimal is valid with up to 37 digits behind the point; a time of day within
/// the nanoseconds of 63 bits; a minute within the 24 hours of a day; a date
/// within 24 bits of days; an offset within 24 hours either way.
pub proof fn law_valid_decimals_dates_and_times(
    n: NumericValue,
    datetime: DateTimeValue,
    small: SmallDateTimeValue,
    datetime2: DateTime2Value,
    days: u32,
    time: TimeValue,
    offset: DateTimeOffsetValue,
)
    ensures
        ColumnValue::Numeric(Some(n)).valid() <==> n.scale <= 37,
        ColumnValue::DateTime(Some(datetime)).valid() <==> -96_439_725 <= datetime.days
            && datetime.days <= 95_051_803,
        ColumnValue::SmallDateTime(Some(small)).valid() <==> small.minutes < 24 * 60,
        ColumnValue::Date(Some(days)).valid() <==> days < 256 * 256 * 256,
        ColumnValue::Time(Some(time)).valid() <==> time.valid(),
        ColumnValue::DateTime2(Some(datetime2)).valid() <==> datetime2.days < 256 * 256 * 256
            && datetime2.time.valid(),
        ColumnValue::DateTimeOffset(Some(offset)).valid() <==> {
            &&& ColumnValue::DateTime2(Some(offset.datetime2)).valid()
            &&& -24 * 60 < offset.offset && offset.offset < 24 * 60
        },
        time.valid() <==> time.scale <= 9 && time.increments * increment_nanos(time.scale)
            < 0x8000_0000_0000_0000,
{
}

/// The increments of a second are as many as the scale says, and make up one
/// second.
pub proof fn law_increments_make_a_second(scale: u8)
    requires
        scale <= 9,
    ensures
        increment_nanos(scale) * pow10(scale as nat) == 1_000_000_000,
{
    reveal_with_fuel(pow10, 10);
    let unit = increment_nanos(scale) as int;
    let count = pow10(scale as nat) as int;
    assert(unit * count == 1_000_000_000) by (nonlinear_arith)
        requires
            ({
                ||| unit == 1_000_000_000 && count == 1
                ||| unit == 100_000_000 && count == 10
                ||| unit == 10_000_000 && count == 100
                ||| unit == 1_000_000 && count == 1_000
                ||| unit == 100_000 && count == 10_000
                ||| unit == 10_000 && count == 100_000
                ||| unit == 1_000 && count == 1_000_000
                ||| unit == 100 && count == 10_000_000
                ||| unit == 10 && count == 100_000_000
                ||| unit == 1 && count == 1_000_000_000
            }),
    ;
}

/// Powers: one, and then ten or sixteen times the one before.
pub proof fn law_powers(n: nat)
    ensures
        pow10(0) == 1,
        pow10(n + 1) == 10 * pow10(n),
        pow16(0) == 1,
        pow16(n + 1) == 16 * pow16(n),
{
}

proof fn lemma_pow10_positive(n: nat)
    ensures
        pow10(n) > 0,
    decreases n,
{
    if n > 0 {
        lemma_pow10_positive((n - 1) as nat);
    }
}

proof fn lemma_zeros(count: nat)
    ensures
        numeral_value(Seq::new(count, |i: int| '0')) == 0,
    decreases count,
{
    if count > 0 {
        let text = Seq::new(count, |i: int| '0');
        lemma_zeros((count - 1) as nat);
        assert(text.drop_last() =~= Seq::new((count - 1) as nat, |i: int| '0'));
    }
}

proof fn lemma_leading_zeros(count: nat, text: Seq<char>)
    ensures
        numeral_value(Seq::new(count, |i: int| '0') + text) == numeral_value(text),
    decreases text.len(),
{
    let zeros = Seq::new(count, |i: int| '0');
    if text.len() == 0 {
        assert(zeros + text =~= zeros);
        lemma_zeros(count);
    } else {
        lemma_leading_zeros(count, text.drop_last());
        assert((zeros + text).drop_last() =~= zeros + text.drop_last());
    }
}

/// Zeros before a numeral change neither its value nor that it is one.
proof fn lemma_zero_padded(n: nat, width: int)
    ensures
        numeral_value(zero_padded(decimal(n), width)) == n,
        all_digits(zero_padded(decimal(n), width)),
        zero_padded(decimal(n), width).len() >= width,
        zero_padded(decimal(n), width).len() >= 1,
{
    let text = decimal(n);
    law_decimal_reads_back(n);
    if width > text.len() {
        lemma_leading_zeros((width - text.len()) as nat, text);
    }
}

/// Whether a text is a numeral, with or without a sign.
pub open spec fn is_signed_numeral(text: Seq<char>) -> bool {
    ||| all_digits(text)
    ||| text.len() > 0 && text[0] == '-' && all_digits(text.drop_first())
}

proof fn lemma_signed_part(negative: bool, magnitude: nat, width: int)
    ensures
        signed_value(signed_part(negative, magnitude, width)) == if negative {
            -magnitude
        } else {
            magnitude as int
        },
        is_signed_numeral(signed_part(negative, magnitude, width)),
        signed_part(negative, magnitude, width).len() >= width,
        signed_part(negative, magnitude, width).len() >= 1,
{
    let text = signed_part(negative, magnitude, width);
    if negative && magnitude > 0 {
        lemma_zero_padded(magnitude, width - 1);
        assert(text.drop_first() =~= zero_padded(decimal(magnitude), width - 1));
    } else {
        lemma_zero_padded(magnitude, width);
        assert(text[0] != '-');
    }
}

/// A number below ten to the power of `width` has at most that many digits.
proof fn lemma_decimal_len(n: nat, width: nat)
    requires
        width >= 1,
        n < pow10(width),
    ensures
        decimal(n).len() <= width,
    decreases width,
{
    if n >= 10 {
        if width == 1 {
            assert(pow10(1) == 10 * pow10(0));
        } else {
            assert(pow10(width) == 10 * pow10((width - 1) as nat));
            lemma_decimal_len(n / 10, (width - 1) as nat);
        }
    }
}

/// The text of a decimal reads back as its value: a whole part without leading
/// zeros, a point, and behind it as many places as the scale says, one where it
/// says none, whose numeral is below one whole. Only the sign of a negative
/// fraction may take one place more.
pub proof fn law_decimal_text_reads_back(n: NumericValue) -> (parts: (Seq<char>, Seq<char>))
    ensures
        numeric_text(n) == parts.0 + seq!['.'] + parts.1,
        is_signed_numeral(parts.0),
        is_signed_numeral(parts.1),
        parts.0 == signed_decimal(signed_value(parts.0)),
        n.value >= 0 && n.scale > 0 ==> parts.1.len() == n.scale,
        n.value < 0 && n.scale > 0 ==> n.scale <= parts.1.len() <= n.scale + 1,
        n.scale == 0 ==> parts.1 == seq!['0'],
        signed_value(parts.0) * pow10(n.scale as nat) + signed_value(parts.1) == n.value,
        -pow10(n.scale as nat) < signed_value(parts.1) < pow10(n.scale as nat),
{
    let magnitude = if n.value < 0 {
        -n.value
    } else {
        n.value as int
    };
    let unit = pow10(n.scale as nat) as int;
    lemma_pow10_positive(n.scale as nat);
    let whole = magnitude / unit;
    let rest = magnitude % unit;
    vstd::arithmetic::div_mod::lemma_fundamental_div_mod(magnitude, unit);
    vstd::arithmetic::div_mod::lemma_mod_bound(magnitude, unit);
    vstd::arithmetic::div_mod::lemma_div_pos_is_pos(magnitude, unit);
    lemma_signed_part(n.value < 0, whole as nat, 0);
    lemma_signed_part(n.value < 0, rest as nat, n.scale as int);
    let first = signed_part(n.value < 0, whole as nat, 0);
    let second = signed_part(n.value < 0, rest as nat, n.scale as int);
    assert(unit * whole + rest == magnitude);
    assert(whole * unit == unit * whole) by (nonlinear_arith);
    assert((-whole) * unit == -(unit * whole)) by (nonlinear_arith);
    if n.scale > 0 {
        lemma_decimal_len(rest as nat, n.scale as nat);
    } else {
        assert(unit == 1 && rest == 0);
        assert(second =~= seq!['0']);
    }
    assert(first =~= signed_decimal(signed_value(first)));
    (first, second)
}

/// The number that a hexadecimal digit stands for.
pub open spec fn hex_digit_value(c: char) -> int {
    if '0' <= c && c <= '9' {
        c as int - '0' as int
    } else {
        10 + (c as int - 'a' as int)
    }
}

/// The number that a row of hexadecimal digits stands for.
pub open spec fn hex_value(text: Seq<char>) -> int
    decreases text.len(),
{
    if text.len() == 0 {
        0
    } else {
        16 * hex_value(text.drop_last()) + hex_digit_value(text.last())
    }
}

/// Whether a character is a hexadecimal digit with small letters.
pub open spec fn is_hex_digit(c: char) -> bool {
    '0' <= c && c <= '9' || 'a' <= c && c <= 'f'
}

proof fn lemma_pow16_positive(n: nat)
    ensures
        pow16(n) > 0,
    decreases n,
{
    if n > 0 {
        lemma_pow16_positive((n - 1) as nat);
    }
}

/// The first digits of a number of 32 hexadecimal digits are the number without
/// its last ones.
proof fn lemma_hex_digits(n: nat, digits: Seq<char>, k: nat)
    requires
        n < pow16(32),
        digits.len() == 32,
        k <= 32,
        forall|i: int|
            0 <= i < 32 ==> #[trigger] digits[i] == hex_char((n / pow16((31 - i) as nat)) % 16),
    ensures
        hex_value(digits.take(k as int)) == n / pow16((32 - k) as nat),
    decreases k,
{
    let low = pow16((32 - k) as nat) as int;
    lemma_pow16_positive((32 - k) as nat);
    if k == 0 {
        vstd::arithmetic::div_mod::lemma_basic_div(n as int, low);
    } else {
        let j = (k - 1) as nat;
        lemma_hex_digits(n, digits, j);
        assert(digits.take(k as int).drop_last() =~= digits.take(j as int));
        assert(pow16((32 - j) as nat) == 16 * low);
        vstd::arithmetic::div_mod::lemma_div_denominator(n as int, low, 16);
        assert(low * 16 == 16 * low);
        let high = n as int / low;
        assert(high / 16 == n as int / (16 * low));
        assert(digits[j as int] == hex_char((n / pow16((31 - j) as nat)) % 16));
        assert(31 - j == 32 - k);
        vstd::arithmetic::div_mod::lemma_div_pos_is_pos(n as int, low);
        assert(hex_digit_value(hex_char((high % 16) as nat)) == high % 16);
        assert(high == 16 * (high / 16) + high % 16);
    }
}

proof fn lemma_pow16_of_32()
    ensures
        pow16(32) == 0x1_0000_0000_0000_0000_0000_0000_0000_0000,
{
    reveal_with_fuel(pow16, 9);
    assert(pow16(8) == 0x1_0000_0000);
    assert(pow16(16) == 0x1_0000_0000_0000_0000);
    assert(pow16(24) == 0x1_0000_0000_0000_0000_0000_0000);
}

/// The text of a GUID is 32 hexadecimal digits in groups of 8, 4, 4, 4 and 12
/// with hyphens between them, which read back as the GUID.
pub proof fn law_guid_text_reads_back(guid: u128)
    ensures
        ({
            let text = guid_text(guid);
            let digits = text.subrange(0, 8) + text.subrange(9, 13) + text.subrange(14, 18)
                + text.subrange(19, 23) + text.subrange(24, 36);
            &&& text.len() == 36
            &&& text[8] == '-' && text[13] == '-' && text[18] == '-' && text[23] == '-'
            &&& forall|i: int| 0 <= i < digits.len() ==> is_hex_digit(#[trigger] digits[i])
            &&& hex_value(digits) == guid
        }),
{
    let text = guid_text(guid);
    let digits = text.subrange(0, 8) + text.subrange(9, 13) + text.subrange(14, 18)
        + text.subrange(19, 23) + text.subrange(24, 36);
    lemma_pow16_of_32();
    assert forall|i: int| 0 <= i < 32 implies #[trigger] digits[i] == hex_char(
        (guid as nat / pow16((31 - i) as nat)) % 16,
    ) by {}
    lemma_hex_digits(guid as nat, digits, 32);
    assert(digits.take(32) =~= digits);
    assert(guid as nat / 1 == guid as nat);
}

} // verus!
