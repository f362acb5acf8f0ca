use mcpg_plugin_backend_mssql::expr::{cel_to_json, json_to_cel};
use mcpg_plugin_backend_mssql::json::Json;
use mcpg_plugin_backend_mssql::params::{
    bind_param, compile_params, evaluate_params, finish_compile, finish_param, prepare_query,
    try_compile_params,
};
use mcpg_plugin_backend_mssql::wire::{json_from_serde, json_to_serde, parse_json, render_json};
use tiberius::Query;

fn json(text: &str) -> Json {
    parse_json(text.as_bytes()).unwrap()
}

fn evaluate(expr: &str, arguments: &str) -> Result<Json, String> {
    let compiled = compile_params(&[expr.to_owned()]).unwrap();
    evaluate_params(&compiled, &json(arguments)).map(|mut values| values.remove(0))
}

#[test]
fn compiling_tells_whether_the_errors_can_be_printed() {
    let wide = |columns: usize| " ".repeat(columns) + "@";
    assert!(try_compile_params(&[wide(70_000)]).is_none());
    let message = try_compile_params(&[wide(60_000)]).unwrap().err().unwrap();
    assert_eq!(message, compile_params(&[wide(60_000)]).err().unwrap());
    assert!(message.starts_with("params[0] does not compile as CEL: ERROR: <input>:1:60001: "));
    assert_eq!(try_compile_params(&["1".to_owned()]).unwrap().unwrap().len(), 1);
}

#[test]
fn compile_rejects_invalid_cel() {
    let err = compile_params(&["this is not cel (((".to_owned()]).err().unwrap();
    assert!(err.contains("params[0]"));
}

#[test]
fn evaluates_positional_params_in_order() {
    let compiled =
        compile_params(&["arguments.id".to_owned(), "arguments.page * 10".to_owned()]).unwrap();
    let out = evaluate_params(&compiled, &json(r#"{ "id": 7, "page": 3 }"#)).unwrap();
    assert_eq!(out, vec![json("7"), json("30")]);
}

#[test]
fn evaluates_string_and_bool() {
    let compiled =
        compile_params(&["arguments.name".to_owned(), "arguments.active".to_owned()]).unwrap();
    let out = evaluate_params(&compiled, &json(r#"{ "name": "alice", "active": true }"#)).unwrap();
    assert_eq!(out, vec![json("\"alice\""), json("true")]);
}

#[test]
fn runtime_failure_reports_source() {
    let compiled = compile_params(&["arguments.missing.deeply".to_owned()]).unwrap();
    let err = evaluate_params(&compiled, &json("{}")).unwrap_err();
    assert!(err.contains("params[0]") && err.contains("arguments.missing"));
}

#[test]
fn bind_rejects_non_scalar() {
    let mut q = Query::new("SELECT @P1".to_owned());
    let err = bind_param(&mut q, json("[1, 2, 3]")).unwrap_err();
    assert!(err.contains("cannot be bound"));
}

#[test]
fn bind_accepts_scalars_and_null() {
    let mut q = Query::new("SELECT @P1, @P2, @P3, @P4".to_owned());
    bind_param(&mut q, json("1")).unwrap();
    bind_param(&mut q, json("\"x\"")).unwrap();
    bind_param(&mut q, json("true")).unwrap();
    bind_param(&mut q, Json::Null).unwrap();
}

#[test]
fn compiled_parameters_keep_position_and_source() {
    let compiled = compile_params(&["1 + 1".to_owned(), "arguments.x".to_owned()]).unwrap();
    assert_eq!(compiled.len(), 2);
    assert_eq!(compiled[1].index, 1);
    assert_eq!(compiled[1].source, "arguments.x");
    assert!(compile_params(&[]).unwrap().is_empty());
}

#[test]
fn the_first_expression_that_does_not_compile_is_named() {
    let exprs = ["1".to_owned(), "(((".to_owned(), ")))".to_owned()];
    let err = compile_params(&exprs).err().unwrap();
    assert!(err.starts_with("params[1] does not compile as CEL: "), "{err}");
    let detail = cel::Program::compile("(((").unwrap_err().to_string();
    assert!(err.ends_with(&detail));
}

#[test]
fn a_compiled_expression_is_a_parameter_or_a_message() {
    let source = "1 + 2".to_owned();
    let param = finish_compile(4, &source, Ok(cel::Program::compile(&source).unwrap()));
    let param = param.ok().unwrap();
    assert_eq!((param.index, param.source.as_str()), (4, "1 + 2"));
    assert_eq!(
        finish_compile(4, &source, Err("bad".to_owned())).err().unwrap(),
        "params[4] does not compile as CEL: bad"
    );
}

#[test]
fn the_first_expression_that_fails_is_named() {
    let exprs = ["1".to_owned(), "arguments.a".to_owned(), "arguments.b".to_owned()];
    let compiled = compile_params(&exprs).unwrap();
    let err = evaluate_params(&compiled, &json("{}")).unwrap_err();
    assert!(err.starts_with("params[1] failed: "), "{err}");
    assert!(err.ends_with(" (source: arguments.a)"), "{err}");
}

#[test]
fn a_finished_run_is_a_value_or_a_message() {
    assert_eq!(finish_param(0, "x", Ok(cel::Value::Int(-4))), Ok(json("-4")));
    assert_eq!(
        finish_param(3, "a.b", Err("no such key".to_owned())),
        Err("params[3] failed: no such key (source: a.b)".to_owned())
    );
}

#[test]
fn no_expressions_give_no_values() {
    assert_eq!(evaluate_params(&[], &json("{}")), Ok(vec![]));
}

#[test]
fn expressions_see_the_arguments_only() {
    assert!(evaluate("other", r#"{ "other": 1 }"#).is_err());
    assert_eq!(evaluate("arguments", "[1, null]"), Ok(json("[1, null]")));
}

#[test]
fn arguments_come_back_unchanged() {
    let samples = [
        "null",
        "false",
        "0",
        "-5",
        "9223372036854775807",
        "18446744073709551615",
        "-9223372036854775808",
        "2.5",
        "-0.0",
        "\"text\"",
        "[1, [], \"a\"]",
        "{}",
        r#"{ "k": { "n": [true] } }"#,
    ];
    for sample in samples {
        assert_eq!(evaluate("arguments", sample), Ok(json(sample)), "{sample}");
        assert_eq!(cel_to_json(&json_to_cel(&json(sample))), json(sample), "{sample}");
    }
    let many = evaluate("arguments", r#"{ "a": 1, "b": [2], "c": "3" }"#).unwrap();
    assert_eq!(many.get("a"), Some(&json("1")));
    assert_eq!(many.get("b"), Some(&json("[2]")));
    assert_eq!(many.get("c"), Some(&json("\"3\"")));
}

#[test]
fn cel_values_without_a_json_type_become_text() {
    assert_eq!(evaluate("b'\\x00\\x01\\x02'", "{}"), Ok(json("\"AAEC\"")));
    assert_eq!(
        evaluate("timestamp('2024-05-06T07:08:09Z')", "{}"),
        Ok(json("\"2024-05-06T07:08:09+00:00\""))
    );
    let ten = chrono::Duration::seconds(10);
    assert_eq!(
        cel_to_json(&cel::Value::Duration(ten)),
        Json::String(ten.to_string())
    );
    let function = cel::Value::Function(std::sync::Arc::new("f".to_owned()), None);
    assert_eq!(cel_to_json(&function), Json::String(format!("{function:?}")));
}

#[test]
fn floats_that_are_not_finite_become_null() {
    assert_eq!(cel_to_json(&cel::Value::Float(f64::NAN)), Json::Null);
    assert_eq!(cel_to_json(&cel::Value::Float(1.25)), json("1.25"));
}

#[test]
fn map_keys_become_text() {
    let mixed = evaluate("{1: 'a', 2u: 'b', true: 'c', 'k': 'd', -3: 'e'}", "{}").unwrap();
    for (key, value) in [("1", "a"), ("2", "b"), ("true", "c"), ("k", "d"), ("-3", "e")] {
        assert_eq!(mixed.get(key), Some(&Json::String(value.to_owned())), "{key}");
    }
}

#[test]
fn keys_with_one_text_give_one_member() {
    let clash = evaluate("{1: 'a', '1': 'b'}", "{}").unwrap();
    let value = clash.get("1").unwrap();
    assert!(*value == json("\"a\"") || *value == json("\"b\""));
}

#[test]
fn bound_values_keep_their_order_and_type() {
    let bound = vec![
        json("1"),
        json("-2"),
        json("\"x'; DROP TABLE t --\""),
        json("true"),
        Json::Null,
        json("2.5"),
        json("18446744073709551615"),
    ];
    let query = prepare_query("SELECT @P1", bound).unwrap();
    let mut expected = Query::new("SELECT @P1".to_owned());
    expected.bind(1i64);
    expected.bind(-2i64);
    expected.bind("x'; DROP TABLE t --".to_owned());
    expected.bind(true);
    expected.bind(Option::<String>::None);
    expected.bind(2.5f64);
    expected.bind(18446744073709551615u64 as f64);
    assert_eq!(format!("{query:?}"), format!("{expected:?}"));
}

#[test]
fn integers_beyond_bigint_are_bound_as_the_nearest_float() {
    let shown = |text: &str| format!("{:?}", prepare_query("q", vec![json(text)]).unwrap());
    assert_eq!(shown("9223372036854775808"), shown("9223372036854775809"));
    assert_ne!(shown("9223372036854775807"), shown("9223372036854775808"));
    assert_eq!(shown("9223372036854775808"), shown("9223372036854775808.0"));
}

#[test]
fn of_several_arguments_with_a_key_the_last_is_seen() {
    let twice = Json::Object(vec![("k".to_owned(), json("1")), ("k".to_owned(), json("2"))]);
    let compiled = compile_params(&["arguments.k".to_owned()]).unwrap();
    assert_eq!(evaluate_params(&compiled, &twice), Ok(vec![json("2")]));
}

#[test]
fn one_array_spoils_a_query() {
    let err = prepare_query("SELECT @P1, @P2", vec![json("1"), json("{}")]).err().unwrap();
    assert_eq!(err, "array/object values cannot be bound as SQL parameters");
}

#[test]
fn json_text_is_read_and_written() {
    let value = json(r#"{ "b": [1, -2, 3.5, null], "a": "é" }"#);
    let bytes = render_json(&value).unwrap();
    assert_eq!(bytes, "{\"a\":\"é\",\"b\":[1,-2,3.5,null]}".as_bytes());
    let detail = serde_json::from_str::<serde_json::Value>("{").unwrap_err().to_string();
    assert_eq!(parse_json(b"{"), Err(detail));
}

#[test]
fn of_several_members_with_a_key_the_last_is_written() {
    let twice = Json::Object(vec![
        ("k".to_owned(), json("1")),
        ("j".to_owned(), json("2")),
        ("k".to_owned(), json("3")),
    ]);
    assert_eq!(twice.get("k"), Some(&json("3")));
    assert_eq!(render_json(&twice).unwrap(), b"{\"j\":2,\"k\":3}");
    assert_eq!(json(r#"{ "k": 1, "k": 2 }"#).get("k"), Some(&json("2")));
}

#[test]
fn serde_values_convert_both_ways() {
    let value: serde_json::Value =
        serde_json::from_str(r#"{ "n": [null, true, "s", { "x": 0.5 }] }"#).unwrap();
    assert_eq!(json_to_serde(&json_from_serde(value.clone())), value);
}
