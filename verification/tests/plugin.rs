use mcpg_plugin_backend_mssql::json::Json;
use mcpg_plugin_backend_mssql::mssql::{
    begin_statement, step_statement, Attempt, QueryOutcome, StatementAction, StatementError,
    StatementEvent, StatementState,
};
use mcpg_plugin_backend_mssql::observe::{
    audit_action_for_outcome, observe, synthetic_system_identity, Actor, AuditOutcome,
};
use mcpg_plugin_backend_mssql::plugin::{
    accept_arguments, accept_payload, accept_values, audit_metadata, complete_execute,
    compute_values, finalize_payload, finish_error, prepare_profile, read_arguments,
    span_attributes, tool_name, BackendError, MssqlProfile, Opened,
    PreparedProfile,
};
use mcpg_plugin_backend_mssql::types::{
    default_pool_max, default_port, default_size_limit, default_timeout_ms,
};
use mcpg_plugin_backend_mssql::wire::{parse_json, render_json};
use mcpg_plugin_backend_mssql::{EncryptionMode, MssqlBackendPlugin, MssqlBackendSpec, MssqlOp};
use std::sync::Arc;

fn minimal_spec() -> MssqlBackendSpec {
    MssqlBackendSpec {
        host: "sql.example.com".to_owned(),
        port: default_port(),
        database: "appdb".to_owned(),
        user: "svc".to_owned(),
        password: "${env.MSSQL_PW}".to_owned(),
        encryption: EncryptionMode::default(),
        trust_server_certificate: false,
        query: "SELECT id, name FROM users WHERE id = @P1".to_owned(),
        op: MssqlOp::default(),
        params: vec!["arguments.id".to_owned()],
        size_limit: default_size_limit(),
        pool_max_size: default_pool_max(),
        timeout_ms: default_timeout_ms(),
    }
}

fn register(
    plugin: &mut MssqlBackendPlugin<u8>,
    name: &str,
    spec: MssqlBackendSpec,
    pool: u8,
) -> Result<(), BackendError> {
    let (plan, profile) = prepare_profile(spec).expect("printable")?;
    assert_eq!(plan.max_size, 8);
    plugin.register_profile(name, profile, Ok(pool))
}

fn json(text: &str) -> Json {
    parse_json(text.as_bytes()).unwrap()
}

fn rendered(value: &Json) -> String {
    String::from_utf8(render_json(value).unwrap()).unwrap()
}

fn invalid(error: BackendError) -> String {
    match error {
        BackendError::InvalidSpec { message } => message,
        other => panic!("{other:?}"),
    }
}

fn header(name: &str, value: &str) -> (String, String) {
    (name.to_owned(), value.to_owned())
}

fn prepared(spec: MssqlBackendSpec) -> PreparedProfile {
    prepare_profile(spec).unwrap().ok().unwrap().1
}

#[test]
fn kind_is_mssql() {
    assert_eq!(MssqlBackendPlugin::<u8>::new().kind(), "mssql");
}

#[test]
fn manifest_id() {
    assert_eq!(
        MssqlBackendPlugin::<u8>::new().manifest().id,
        "dev.mcpg.backend.mssql"
    );
}

#[test]
fn register_accepts_minimal_spec() {
    let mut plugin = MssqlBackendPlugin::new();
    register(&mut plugin, "users", minimal_spec(), 1).expect("register");
    let p = plugin.profile("users").unwrap();
    assert_eq!(p.op, MssqlOp::Query);
    assert_eq!(p.database, "appdb");
    assert_eq!(p.compiled_params.len(), 1);
}

#[test]
fn register_rejects_cred_password() {
    let mut plugin = MssqlBackendPlugin::new();
    let mut spec = minimal_spec();
    spec.password = "cred://vault/mssql".to_owned();
    let err = register(&mut plugin, "x", spec, 1).expect_err("cred password");
    assert!(matches!(err, BackendError::InvalidSpec { .. }));
}

#[test]
fn register_rejects_bad_cel_param() {
    let mut plugin = MssqlBackendPlugin::new();
    let mut spec = minimal_spec();
    spec.params = vec!["this is not cel (((".to_owned()];
    let err = register(&mut plugin, "x", spec, 1).expect_err("bad cel");
    assert!(matches!(err, BackendError::InvalidSpec { .. }));
}

#[test]
fn errors_beyond_what_can_be_printed_give_no_answer() {
    let mut wide = " ".repeat(70_000);
    let mut spec = minimal_spec();
    spec.params = vec![wide.clone() + "@"];
    assert!(prepare_profile(spec).is_none());
    let mut spec = minimal_spec();
    spec.params = vec!["(".to_owned(), wide.clone() + "@"];
    let refused = prepare_profile(spec).unwrap().err().unwrap();
    assert!(invalid(refused).starts_with("params[0] does not compile as CEL: "));
    let mut spec = minimal_spec();
    spec.host = String::new();
    spec.params = vec![wide.clone() + "@"];
    let refused = prepare_profile(spec).unwrap().err().unwrap();
    assert_eq!(invalid(refused), "host must not be empty");
    wide.push('7');
    let mut spec = minimal_spec();
    spec.params = vec![wide];
    let long = prepared(spec);
    assert_eq!(compute_values(long.profile(), &json("{}")), Ok(vec![json("7")]));
}

#[test]
fn a_rejected_login_that_speaks_of_time_is_reported_as_a_timeout() {
    for (text, label) in [
        ("Login timeout expired", "timeout"),
        ("the login TIMED OUT", "timeout"),
        ("Login failed for user 'svc'.", "transport_error"),
    ] {
        let (state, _) = begin_statement("SELECT 1", vec![], MssqlOp::Query, 1);
        let event = StatementEvent::Acquired(Attempt::Rejected(text.to_owned()));
        let result = match step_statement(state, event) {
            (StatementState::Finished, StatementAction::Finish(result)) => result,
            _ => panic!("{text}"),
        };
        let done = complete_execute(prepared(minimal_spec()).profile(), "b", "t", result, 1);
        assert_eq!(done.label, label, "{text}");
        let kind = Json::String("transport_error".to_owned());
        assert_eq!(done.envelope.get("downstreamError").unwrap().get("kind"), Some(&kind));
    }
}

#[test]
fn register_rejects_empty_query() {
    let mut plugin = MssqlBackendPlugin::new();
    let mut spec = minimal_spec();
    spec.query = "   ".to_owned();
    let err = register(&mut plugin, "x", spec, 1).expect_err("empty query");
    assert!(matches!(err, BackendError::InvalidSpec { .. }));
}

#[test]
fn execute_unknown_profile_is_profile_not_found() {
    let plugin = MssqlBackendPlugin::<u8>::new();
    match plugin.begin_execute("missing", &[], &[]) {
        Opened::Refused { error, label } => {
            assert!(matches!(error, BackendError::ProfileNotFound { .. }));
            assert_eq!(label, "profile_not_found");
        }
        _ => panic!("missing"),
    }
}

#[test]
fn a_refused_binding_changes_nothing() {
    let mut plugin = MssqlBackendPlugin::default();
    register(&mut plugin, "a", minimal_spec(), 1).unwrap();
    let mut spec = minimal_spec();
    spec.host = String::new();
    assert_eq!(invalid(register(&mut plugin, "a", spec, 2).unwrap_err()), "host must not be empty");
    let profile = prepared(minimal_spec());
    let pool = Err("MSSQL pool build failed: no".to_owned());
    let refused = plugin.register_profile("a", profile, pool).unwrap_err();
    assert_eq!(invalid(refused), "MSSQL pool build failed: no");
    assert_eq!(plugin.profile("a").unwrap().pool, 1);
    assert!(plugin.profile("b").is_none());
}

#[test]
fn the_last_registration_of_a_name_counts() {
    let mut plugin = MssqlBackendPlugin::new();
    register(&mut plugin, "a", minimal_spec(), 1).unwrap();
    register(&mut plugin, "b", minimal_spec(), 2).unwrap();
    let mut spec = minimal_spec();
    spec.op = MssqlOp::Execute;
    spec.timeout_ms = 5;
    register(&mut plugin, "a", spec, 3).unwrap();
    let a = plugin.profile("a").unwrap();
    assert_eq!((a.pool, a.op, a.timeout_ms), (3, MssqlOp::Execute, 5));
    let b = plugin.profile("b").unwrap();
    assert_eq!((b.pool, b.op, b.timeout_ms), (2, MssqlOp::Query, 10_000));
}

fn accepted(opened: Opened<u8>) -> (Arc<MssqlProfile<u8>>, String, Json) {
    match opened {
        Opened::Accepted { profile, tool_name, arguments } => (profile, tool_name, arguments),
        Opened::Refused { error, .. } => panic!("{error:?}"),
    }
}

#[test]
fn a_call_computes_its_parameters() {
    let mut plugin = MssqlBackendPlugin::new();
    register(&mut plugin, "users", minimal_spec(), 9).unwrap();
    let headers = [header("X", "y"), header("MCPG-Tool-Name", "u.get"), header("mcpg-tool-name", "z")];
    let (profile, tool_name, arguments) =
        accepted(plugin.begin_execute("users", b"{\"id\": 7}", &headers));
    assert_eq!(profile.pool, 9);
    assert_eq!(profile.query, "SELECT id, name FROM users WHERE id = @P1");
    assert_eq!(tool_name, "u.get");
    assert_eq!(compute_values(&profile, &arguments), Ok(vec![json("7")]));
}

#[test]
fn a_call_without_a_payload_has_no_arguments() {
    let mut plugin = MssqlBackendPlugin::new();
    register(&mut plugin, "users", minimal_spec(), 9).unwrap();
    let messages: Vec<String> = [&b""[..], &b" {} "[..]]
        .iter()
        .map(|payload| {
            let (profile, tool_name, arguments) =
                accepted(plugin.begin_execute("users", payload, &[]));
            assert_eq!(tool_name, "users");
            assert_eq!(rendered(&arguments), "{}");
            compute_values(&profile, &arguments).unwrap_err()
        })
        .collect();
    assert!(messages[0].starts_with("evaluating params: params[0] failed: "), "{messages:?}");
    assert!(messages[0].ends_with(" (source: arguments.id)"), "{messages:?}");
    assert_eq!(messages[0], messages[1]);
}

#[test]
fn a_payload_that_is_not_json_is_refused() {
    let mut plugin = MssqlBackendPlugin::new();
    register(&mut plugin, "users", minimal_spec(), 9).unwrap();
    match plugin.begin_execute("users", b"{", &[]) {
        Opened::Refused { error, label } => {
            assert_eq!(label, "invalid_spec");
            let message = invalid(error);
            assert!(message.starts_with("MSSQL plugin payload is not valid JSON: "), "{message}");
        }
        _ => panic!("not refused"),
    }
}

#[test]
fn arguments_are_read() {
    assert_eq!(rendered(&read_arguments(&[]).unwrap()), "{}");
    assert_eq!(read_arguments(b" [1] ").unwrap(), json("[1]"));
    assert_eq!(accept_arguments(Ok(json("2"))).unwrap(), json("2"));
    assert_eq!(
        invalid(accept_arguments(Err("e".to_owned())).unwrap_err()),
        "MSSQL plugin payload is not valid JSON: e"
    );
}

#[test]
fn the_tool_name_defaults_to_the_binding() {
    assert_eq!(tool_name(&[header("a", "b")], "users"), "users");
    assert_eq!(tool_name(&[header("Mcpg-TOOL-name", "")], "users"), "");
}

#[test]
fn values_decide_how_a_call_goes_on() {
    assert_eq!(accept_values(Ok(vec![json("1")])), Ok(vec![json("1")]));
    assert_eq!(accept_values(Err("e".to_owned())), Err("evaluating params: e".to_owned()));
}

#[test]
fn parameters_do_not_influence_each_other() {
    let mut spec = minimal_spec();
    spec.params = vec!["arguments.a".to_owned(), "arguments.b".to_owned()];
    let both = prepared(spec);
    let values = compute_values(both.profile(), &json(r#"{ "a": 1, "b": "x" }"#));
    assert_eq!(values, Ok(vec![json("1"), json("\"x\"")]));
    let failed = compute_values(both.profile(), &json(r#"{ "a": 1 }"#)).unwrap_err();
    assert!(failed.contains("params[1] failed"), "{failed}");
}

#[test]
fn a_completed_call_has_its_response() {
    let outcome = QueryOutcome { rows: Some(vec![json("{\"id\": 7}")]), rows_affected: None };
    let done = complete_execute(prepared(minimal_spec()).profile(), "users", "u.get", Ok(outcome), 9);
    assert_eq!(done.label, "ok");
    assert_eq!(done.reason, None);
    let expected = [
        r#"{"downstreamError":null,"downstreamErrors":[],"error":null,"profile":"users","#,
        r#""request":{"database":"appdb","host":"sql.example.com","op":"query"},"#,
        r#""response":{"count":1,"durationMs":9,"rows":[{"id":7}],"rowsAffected":null},"#,
        r#""toolName":"u.get"}"#,
    ];
    assert_eq!(rendered(&done.envelope), expected.concat());
    let response = finalize_payload(done.envelope).unwrap();
    assert_eq!(response.payload, expected.concat().into_bytes());
    assert!(!response.truncated);
}

#[test]
fn failed_calls_have_their_label() {
    let labelled = [
        ("MSSQL query timed out", true, true, "timeout", "transport_error"),
        ("MSSQL pool acquire failed: x", true, false, "transport_error", "transport_error"),
        ("MSSQL execute failed: PK violation", false, false, "mssql_error", "mssql_error"),
        ("MSSQL query failed: no column 'pool_timeout'", false, false, "mssql_error", "mssql_error"),
    ];
    for (message, transport, timeout, label, kind) in labelled {
        let error = StatementError { message: message.to_owned(), transport, timeout };
        let done = complete_execute(prepared(minimal_spec()).profile(), "b", "t", Err(error), u128::MAX);
        assert_eq!(done.label, label);
        assert_eq!(done.reason.as_deref(), Some(message));
        let slot = done.envelope.get("downstreamError").unwrap();
        assert_eq!(slot.get("kind"), Some(&Json::String(kind.to_owned())));
        assert_eq!(slot.get("retryable"), Some(&Json::Bool(transport)));
        assert_eq!(done.envelope.get("response"), Some(&Json::Null));
        assert_eq!(done.envelope.get("error"), Some(&Json::String(message.to_owned())));
    }
}

#[test]
fn failed_parameters_have_an_error_response() {
    let message = "evaluating params: params[0] failed: e (source: arguments.connection_id)";
    let done = finish_error(prepared(minimal_spec()).profile(), "b", "t", message.to_owned(), 1);
    assert_eq!(done.label, "invalid_spec");
    assert_eq!(done.reason.as_deref(), Some(message));
    let error = done.envelope.get("downstreamError").unwrap();
    assert_eq!(error.get("retryable"), Some(&Json::Bool(false)));
}

#[test]
fn payloads_that_cannot_be_written_are_transport_errors() {
    match accept_payload(Err("e".to_owned())) {
        Err(BackendError::Transport { message }) => {
            assert_eq!(message, "MSSQL plugin envelope serialization failed: e");
        }
        other => panic!("{other:?}"),
    }
    assert_eq!(accept_payload(Ok(vec![1])).unwrap().payload, vec![1]);
}

#[test]
fn fixed_records() {
    let plugin = MssqlBackendPlugin::<u8>::new();
    assert_eq!(plugin.manifest().name, "MSSQL Binding");
    assert_eq!(rendered(&audit_metadata()), r#"{"mssql.transport":"plugin"}"#);
    assert_eq!(
        rendered(&span_attributes("users", "rq-1")),
        r#"{"backend":"users","request_id":"rq-1"}"#
    );
}

#[test]
fn audit_actions() {
    let prefix = "dev.mcpg.backend.mssql.";
    for (label, action) in [
        ("timeout", "request_timeout"),
        ("transport_error", "request_failed"),
        ("mssql_error", "query_rejected"),
        ("invalid_spec", "request_failed"),
    ] {
        assert_eq!(audit_action_for_outcome(label), Some(format!("{prefix}{action}").as_str()));
    }
    assert_eq!(audit_action_for_outcome("ok"), None);
    assert_eq!(audit_action_for_outcome("profile_not_found"), None);
}

#[test]
fn system_identity() {
    let identity = synthetic_system_identity();
    assert_eq!(identity.kind, "system");
    assert_eq!(identity.trust_level, "verified");
    assert_eq!(identity.subject_id.as_deref(), Some("dev.mcpg.backend.mssql"));
    assert!(identity.auth_provider.is_none() && identity.issuer.is_none());
    assert!(identity.roles.is_empty() && identity.groups.is_empty() && identity.scopes.is_empty());
}

#[test]
fn a_call_that_went_well_is_not_audited() {
    let seen = observe::<u8>("b", "ok", None, Some(1), "rq", 5, Json::Null, "now".to_owned());
    assert_eq!(seen.latency_metric, "mcpg_mssql_backend_latency_seconds");
    assert_eq!(seen.calls_metric, "mcpg_mssql_backend_calls_total");
    assert_eq!(seen.label, ("outcome", "ok"));
    assert!(seen.audit.is_none());
}

#[test]
fn a_failed_call_is_audited() {
    let seen = observe(
        "b",
        "timeout",
        Some("late"),
        Some(42u8),
        "rq-1",
        1_234_567_890,
        Json::text("a"),
        "now".to_owned(),
    );
    let event = seen.audit.unwrap();
    assert_eq!(event.event_id, "mssql-rq-1-1234567890");
    assert_eq!(event.occurred_at, "now");
    assert!(matches!(event.actor, Actor::Caller(42)));
    assert_eq!(event.action, "dev.mcpg.backend.mssql.request_timeout");
    assert_eq!(event.resource.as_deref(), Some("mssql-binding://b"));
    assert_eq!(event.outcome, AuditOutcome::Failure);
    assert_eq!(event.request_id.as_deref(), Some("rq-1"));
    assert_eq!(
        rendered(&event.details),
        r#"{"alias":"a","backend":"b","duration_ms":1234,"outcome":"timeout","reason":"late"}"#
    );
}

#[test]
fn a_call_without_identity_is_audited_as_the_system() {
    let nanos = (1u128 << 64) * 1_000_000 + 7_000_000;
    let seen = observe::<u8>("b", "mssql_error", None, None, "r", nanos, Json::Null, String::new());
    let event = seen.audit.unwrap();
    match event.actor {
        Actor::System(identity) => assert_eq!(identity.kind, "system"),
        Actor::Caller(_) => panic!("no caller"),
    }
    assert_eq!(
        rendered(&event.details),
        r#"{"alias":null,"backend":"b","duration_ms":7,"outcome":"mssql_error"}"#
    );
}
