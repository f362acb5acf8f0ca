use mcpg_plugin_backend_mssql::envelope::{
    build_result_envelope, classify_error, describe_error, is_transport_failure,
    mssql_downstream_error, tells_of_connection, tells_of_timeout,
};
use mcpg_plugin_backend_mssql::json::Json;
use mcpg_plugin_backend_mssql::mssql::{
    connect_failed, drain_failed, login_failed, ping_failed, pool_build_failed,
};
use mcpg_plugin_backend_mssql::wire::{parse_json, render_json};

fn json(text: &str) -> Json {
    parse_json(text.as_bytes()).unwrap()
}

fn rendered(value: &Json) -> String {
    String::from_utf8(render_json(value).unwrap()).unwrap()
}

fn at<'a>(value: &'a Json, path: &[&str]) -> &'a Json {
    path.iter().fold(value, |value, key| value.get(key).unwrap())
}

#[test]
fn connect_failure_is_retryable_transport_error() {
    let e = classify_error("MSSQL connect sql:1433: connection refused");
    assert_eq!(*at(&e, &["kind"]), json("\"transport_error\""));
    assert_eq!(*at(&e, &["retryable"]), json("true"));
}

#[test]
fn sql_rejection_is_not_retryable() {
    let e = classify_error("MSSQL query failed: Invalid column name 'bogus'");
    assert_eq!(*at(&e, &["kind"]), json("\"mssql_error\""));
    assert_eq!(*at(&e, &["retryable"]), json("false"));
}

#[test]
fn query_envelope_has_rows_and_count() {
    let rows = vec![json(r#"{ "id": 1 }"#)];
    let env = build_result_envelope(
        "u.get",
        "u.get",
        "sql",
        "appdb",
        "query",
        Some(&rows),
        None,
        7,
        None,
        None,
    );
    assert_eq!(*at(&env, &["response", "count"]), json("1"));
    match at(&env, &["response", "rows"]) {
        Json::Array(rows) => assert_eq!(*at(&rows[0], &["id"]), json("1")),
        other => panic!("{other:?}"),
    }
    assert_eq!(*at(&env, &["downstreamError"]), Json::Null);
}

#[test]
fn execute_envelope_has_rows_affected() {
    let env = build_result_envelope(
        "u.upd",
        "u.upd",
        "sql",
        "appdb",
        "execute",
        None,
        Some(3),
        4,
        None,
        None,
    );
    assert_eq!(*at(&env, &["response", "rowsAffected"]), json("3"));
}

#[test]
fn error_envelope_nulls_response() {
    let d = classify_error("MSSQL execute failed: PK violation");
    let env = build_result_envelope(
        "u.upd",
        "u.upd",
        "sql",
        "appdb",
        "execute",
        None,
        None,
        2,
        Some(&d),
        Some("PK violation"),
    );
    assert_eq!(*at(&env, &["response"]), Json::Null);
    assert_eq!(*at(&env, &["downstreamError", "kind"]), json("\"mssql_error\""));
}

#[test]
fn error_objects_have_all_their_members() {
    assert_eq!(
        rendered(&mssql_downstream_error("transport_error", "m", true)),
        concat_lines(&[
            r#"{"code":"mcpg.downstream_mssql.transport_error","kind":"transport_error","#,
            r#""message":"m","retryClass":"with_backoff","retryable":true,"#,
            r#""suggestedAction":"check_database_connectivity_and_retry"}"#,
        ])
    );
    assert_eq!(
        rendered(&classify_error("Bad SQL")),
        concat_lines(&[
            r#"{"code":"mcpg.downstream_mssql.mssql_error","kind":"mssql_error","#,
            r#""message":"Bad SQL","retryClass":"do_not_retry","retryable":false,"#,
            r#""suggestedAction":"inspect_sql_error"}"#,
        ])
    );
}

fn concat_lines(lines: &[&str]) -> String {
    lines.concat()
}

#[test]
fn envelopes_have_all_their_members() {
    let rows = vec![json("{}"), json("null")];
    let env = build_result_envelope(
        "tool",
        "binding",
        "h",
        "d",
        "query",
        Some(&rows),
        None,
        18_446_744_073_709_551_615,
        None,
        None,
    );
    assert_eq!(
        rendered(&env),
        concat_lines(&[
            r#"{"downstreamError":null,"downstreamErrors":[],"error":null,"profile":"binding","#,
            r#""request":{"database":"d","host":"h","op":"query"},"#,
            r#""response":{"count":2,"durationMs":18446744073709551615,"rows":[{},null],"#,
            r#""rowsAffected":null},"toolName":"tool"}"#,
        ])
    );
    let env = build_result_envelope(
        "tool",
        "binding",
        "h",
        "d",
        "execute",
        None,
        Some(0),
        1,
        None,
        None,
    );
    assert_eq!(
        rendered(at(&env, &["response"])),
        r#"{"count":null,"durationMs":1,"rows":null,"rowsAffected":0}"#
    );
}

#[test]
fn an_error_object_stands_in_both_slots() {
    let d = json("{\"x\": 1}");
    let env = build_result_envelope(
        "t",
        "p",
        "h",
        "d",
        "query",
        None,
        None,
        u128::MAX,
        Some(&d),
        Some("why"),
    );
    assert_eq!(*at(&env, &["downstreamError"]), d);
    assert_eq!(*at(&env, &["downstreamErrors"]), json("[{\"x\": 1}]"));
    assert_eq!(*at(&env, &["error"]), json("\"why\""));
}

#[test]
fn each_tell_tale_is_found_in_any_case() {
    let tell_tales = [
        "connect",
        "login failed",
        "pool",
        "timed out",
        "timeout",
        "broken pipe",
        "connection reset",
        "eof",
    ];
    for tell_tale in tell_tales {
        assert!(is_transport_failure(tell_tale));
        assert!(is_transport_failure(&format!("x {} y", tell_tale.to_uppercase())));
    }
    assert!(!is_transport_failure(""));
    assert!(!is_transport_failure("Incorrect syntax near 'FORM'."));
}

#[test]
fn a_quoted_name_does_not_make_a_rejection_retryable() {
    let rejections = [
        "MSSQL query failed: Invalid column name 'pool_id'",
        "MSSQL query failed: Invalid column name 'eof'",
        "MSSQL execute failed: Token error: 'Invalid object name 'connection reset'.' on server s",
        "MSSQL result read failed: constraint \"broken pipe\" was violated",
        "MSSQL query failed: Token error: 'Cannot connect the dots: timeout is not an option.'",
        "EVALUATING PARAMS: timeout",
        "evaluating params: params[0] failed: eof (source: arguments.connection_id)",
    ];
    for message in rejections {
        let e = classify_error(message);
        assert_eq!(*at(&e, &["kind"]), json("\"mssql_error\""), "{message}");
        assert_eq!(*at(&e, &["retryable"]), json("false"), "{message}");
        assert_eq!(*at(&e, &["message"]), Json::String(message.to_owned()));
    }
}

#[test]
fn a_dropped_connection_is_retryable() {
    let dropped = [
        "MSSQL query failed: I/O: Connection reset by peer (os error 104)",
        "MSSQL execute failed: Broken pipe",
        "MSSQL result read failed: unexpected EOF",
        "MSSQL pool acquire failed: Token error: 'Login failed for user 'svc'.'",
        "MSSQL query timed out",
    ];
    for message in dropped {
        assert!(is_transport_failure(message), "{message}");
    }
}

#[test]
fn a_statement_error_in_the_drivers_own_words_is_heard() {
    let messages = [
        "MSSQL query failed: timeout",
        "MSSQL query failed: Connection timed out (os error 110)",
        "MSSQL execute failed: connection refused",
        "MSSQL result read failed: the pool is closed, said 'x'",
        "MSSQL query failed: Cannot connect the dots",
    ];
    for message in messages {
        let e = classify_error(message);
        assert_eq!(*at(&e, &["kind"]), json("\"transport_error\""), "{message}");
        assert_eq!(*at(&e, &["retryable"]), json("true"), "{message}");
    }
    assert!(!is_transport_failure("MSSQL query failed: arithmetic overflow"));
}

#[test]
fn case_does_not_matter_to_the_kind() {
    let messages = [
        "MSSQL query failed: timeout",
        "MSSQL query failed: Invalid column name 'pool_id'",
        "MSSQL execute failed: Broken pipe",
        "MSSQL result read failed: \"eof\"",
        "MSSQL login failed: no",
        "evaluating params: params[0] failed: timeout",
        "Incorrect syntax",
        "",
    ];
    for message in messages {
        let upper = message.to_ascii_uppercase();
        let (a, b) = (classify_error(message), classify_error(&upper));
        assert_eq!(at(&a, &["kind"]), at(&b, &["kind"]), "{message}");
        assert_eq!(at(&a, &["retryable"]), at(&b, &["retryable"]), "{message}");
        assert_eq!(*at(&b, &["message"]), Json::String(upper));
    }
}

#[test]
fn an_error_is_described_by_what_is_known_of_it() {
    let e = describe_error("pool", false);
    assert_eq!(*at(&e, &["kind"]), json("\"mssql_error\""));
    let e = describe_error("x", true);
    assert_eq!(*at(&e, &["retryClass"]), json("\"with_backoff\""));
    assert!(tells_of_timeout("Timed Out") && !tells_of_timeout("time out"));
    assert!(tells_of_connection("LOGIN FAILED") && !tells_of_connection("log in failed"));
}

#[test]
fn connection_messages() {
    assert_eq!(connect_failed("sql:1433", "refused"), "MSSQL connect sql:1433: refused");
    assert_eq!(login_failed("bad"), "MSSQL login failed: bad");
    assert_eq!(ping_failed("e"), "recycle ping failed: e");
    assert_eq!(drain_failed("e"), "recycle drain failed: e");
    assert_eq!(pool_build_failed("e"), "MSSQL pool build failed: e");
    assert!(is_transport_failure(&connect_failed("", "")));
    assert!(is_transport_failure(&login_failed("")));
}
