use mcpg_plugin_backend_mssql::column::{
    column_data_to_json, project_rows, row_to_json, ColumnValue, DateTime2Value, DateTimeOffsetValue,
    DateTimeValue, NumericValue, Row, SmallDateTimeValue, TimeValue,
};
use mcpg_plugin_backend_mssql::json::Json;
use mcpg_plugin_backend_mssql::wire::parse_json;

fn json(text: &str) -> Json {
    parse_json(text.as_bytes()).unwrap()
}

fn float(f: f64) -> Option<serde_json::Number> {
    serde_json::Number::from_f64(f)
}

fn shown(value: ColumnValue) -> String {
    assert!(value.is_valid());
    match column_data_to_json(&value) {
        Json::String(text) => text,
        other => panic!("{other:?}"),
    }
}

fn numeric(value: i128, scale: u8) -> String {
    shown(ColumnValue::Numeric(Some(NumericValue { value, scale })))
}

#[test]
fn scalar_columns_to_json() {
    assert_eq!(column_data_to_json(&ColumnValue::I32(Some(42))), json("42"));
    assert_eq!(
        column_data_to_json(&ColumnValue::I64(Some(9_000_000_000))),
        json("9000000000")
    );
    assert_eq!(column_data_to_json(&ColumnValue::Bit(Some(true))), json("true"));
    assert_eq!(
        column_data_to_json(&ColumnValue::String(Some("hi".into()))),
        json("\"hi\"")
    );
    assert_eq!(column_data_to_json(&ColumnValue::Float(float(1.5))), json("1.5"));
}

#[test]
fn null_columns_to_json_null() {
    assert_eq!(column_data_to_json(&ColumnValue::I32(None)), Json::Null);
    assert_eq!(column_data_to_json(&ColumnValue::String(None)), Json::Null);
    assert_eq!(column_data_to_json(&ColumnValue::Bit(None)), Json::Null);
}

#[test]
fn binary_column_is_base64() {
    let v = column_data_to_json(&ColumnValue::Binary(Some(vec![0u8, 1, 2])));
    // base64 of [0,1,2] == "AAEC"
    assert_eq!(v, json("\"AAEC\""));
}

#[test]
fn base64_pads_and_uses_the_standard_alphabet() {
    assert_eq!(shown(ColumnValue::Binary(Some(vec![]))), "");
    assert_eq!(shown(ColumnValue::Binary(Some(vec![0xff]))), "/w==");
    assert_eq!(shown(ColumnValue::Binary(Some(vec![0xfb, 0xef]))), "++8=");
}

#[test]
fn null_of_every_type_is_null() {
    let nulls = vec![
        ColumnValue::U8(None),
        ColumnValue::I16(None),
        ColumnValue::I64(None),
        ColumnValue::Float(None),
        ColumnValue::Guid(None),
        ColumnValue::Binary(None),
        ColumnValue::Numeric(None),
        ColumnValue::Xml(None),
        ColumnValue::DateTime(None),
        ColumnValue::SmallDateTime(None),
        ColumnValue::Time(None),
        ColumnValue::Date(None),
        ColumnValue::DateTime2(None),
        ColumnValue::DateTimeOffset(None),
    ];
    for null in nulls {
        assert!(null.is_valid());
        assert_eq!(column_data_to_json(&null), Json::Null);
    }
}

#[test]
fn small_and_negative_integers() {
    assert_eq!(column_data_to_json(&ColumnValue::U8(Some(255))), json("255"));
    assert_eq!(column_data_to_json(&ColumnValue::I16(Some(-3))), json("-3"));
    assert_eq!(
        column_data_to_json(&ColumnValue::I64(Some(i64::MIN))),
        json("-9223372036854775808")
    );
}

#[test]
fn floats_that_are_not_finite_are_null() {
    assert_eq!(column_data_to_json(&ColumnValue::Float(float(f64::NAN))), Json::Null);
    assert_eq!(column_data_to_json(&ColumnValue::Float(float(f64::INFINITY))), Json::Null);
}

#[test]
fn guid_is_hyphenated() {
    assert_eq!(
        shown(ColumnValue::Guid(Some(0x0123_4567_89AB_CDEF_0123_4567_89AB_CDEF))),
        "01234567-89ab-cdef-0123-456789abcdef"
    );
}

#[test]
fn numeric_shows_both_parts() {
    assert_eq!(numeric(12345, 2), "123.45");
    assert_eq!(numeric(1205, 3), "1.205");
    assert_eq!(numeric(5, 2), "0.05");
    assert_eq!(numeric(7, 0), "7.0");
    assert_eq!(numeric(-1234, 2), "-12.-34");
    assert_eq!(numeric(-1204, 2), "-12.-4");
    assert_eq!(numeric(-5, 3), "0.-05");
    assert_eq!(numeric(-500, 2), "-5.00");
}

#[test]
fn xml_is_text() {
    assert_eq!(shown(ColumnValue::Xml(Some("<a/>".into()))), "<a/>");
}

#[test]
fn temporal_values() {
    let noon = TimeValue { increments: 432_000_000_000, scale: 7 };
    assert_eq!(
        shown(ColumnValue::DateTime(Some(DateTimeValue { days: 0, seconds_fragments: 300 }))),
        "1900-01-01 00:00:01"
    );
    assert_eq!(
        shown(ColumnValue::SmallDateTime(Some(SmallDateTimeValue { days: 1, minutes: 61 }))),
        "1900-01-02 01:01:00"
    );
    assert_eq!(
        shown(ColumnValue::DateTime2(Some(DateTime2Value { days: 738_000, time: noon }))),
        "2021-07-30 12:00:00"
    );
    assert_eq!(shown(ColumnValue::Date(Some(0))), "0001-01-01");
    assert_eq!(shown(ColumnValue::Time(Some(noon))), "12:00:00");
    assert_eq!(
        shown(ColumnValue::Time(Some(TimeValue { increments: 5, scale: 3 }))),
        "00:00:00.005"
    );
    assert_eq!(
        shown(ColumnValue::DateTimeOffset(Some(DateTimeOffsetValue {
            datetime2: DateTime2Value { days: 738_000, time: noon },
            offset: 90,
        }))),
        "2021-07-30T13:30:00+01:30"
    );
}

#[test]
fn extreme_valid_values_are_shown() {
    let longest = TimeValue { increments: i64::MAX as u64, scale: 9 };
    assert!(longest.is_valid());
    for days in [-96_439_725, 95_051_803] {
        shown(ColumnValue::DateTime(Some(DateTimeValue { days, seconds_fragments: u32::MAX })));
    }
    shown(ColumnValue::SmallDateTime(Some(SmallDateTimeValue { days: u16::MAX, minutes: 1439 })));
    shown(ColumnValue::Date(Some(0xff_ffff)));
    shown(ColumnValue::Time(Some(longest)));
    shown(ColumnValue::DateTime2(Some(DateTime2Value { days: 0xff_ffff, time: longest })));
    for offset in [-1439, 1439] {
        for days in [0, 0xff_ffff] {
            shown(ColumnValue::DateTimeOffset(Some(DateTimeOffsetValue {
                datetime2: DateTime2Value { days, time: longest },
                offset,
            })));
        }
    }
    assert_eq!(numeric(i128::MIN, 37), "-17.-141183460469231731687303715884105728");
    assert_eq!(numeric(i128::MIN, 0), "-170141183460469231731687303715884105728.0");
}

#[test]
fn values_without_a_reading_are_not_valid() {
    let time = |increments, scale| TimeValue { increments, scale };
    assert!(!ColumnValue::Numeric(Some(NumericValue { value: 1, scale: 38 })).is_valid());
    for days in [-96_439_726, 95_051_804] {
        let value = DateTimeValue { days, seconds_fragments: 0 };
        assert!(!ColumnValue::DateTime(Some(value)).is_valid());
    }
    let late = SmallDateTimeValue { days: 0, minutes: 1440 };
    assert!(!ColumnValue::SmallDateTime(Some(late)).is_valid());
    assert!(!ColumnValue::Date(Some(0x100_0000)).is_valid());
    assert!(!ColumnValue::Time(Some(time(0, 10))).is_valid());
    assert!(!ColumnValue::Time(Some(time(u64::MAX, 9))).is_valid());
    assert!(!ColumnValue::Time(Some(time(9_223_372_037, 0))).is_valid());
    assert!(ColumnValue::Time(Some(time(9_223_372_036, 0))).is_valid());
    let far = DateTimeOffsetValue {
        datetime2: DateTime2Value { days: 0, time: time(0, 7) },
        offset: 1440,
    };
    assert!(!ColumnValue::DateTimeOffset(Some(far)).is_valid());
}

#[test]
fn a_row_is_an_object_of_its_columns() {
    let row: Row = vec![
        ("id".to_owned(), ColumnValue::I32(Some(7))),
        ("name".to_owned(), ColumnValue::String(Some("Alice".to_owned()))),
    ];
    let object = row_to_json(&row);
    assert_eq!(object.get("id"), Some(&json("7")));
    assert_eq!(object.get("name"), Some(&json("\"Alice\"")));
    assert_eq!(object.get("email"), None);
}

#[test]
fn the_last_column_with_a_name_counts() {
    let row: Row = vec![
        ("a".to_owned(), ColumnValue::I32(Some(1))),
        ("b".to_owned(), ColumnValue::I32(Some(2))),
        ("a".to_owned(), ColumnValue::I32(Some(3))),
    ];
    let object = row_to_json(&row);
    assert_eq!(object.get("a"), Some(&json("3")));
    assert_eq!(object.get("b"), Some(&json("2")));
}

#[test]
fn rows_are_capped() {
    let rows: Vec<Row> = (0..5)
        .map(|i| vec![("i".to_owned(), ColumnValue::I32(Some(i)))])
        .collect();
    let two = project_rows(&rows, 2);
    assert_eq!(two.len(), 2);
    assert_eq!(two[1].get("i"), Some(&json("1")));
    assert_eq!(project_rows(&rows, 5).len(), 5);
    assert_eq!(project_rows(&rows, 9).len(), 5);
}
