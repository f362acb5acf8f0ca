use mcpg_plugin_backend_mssql::mssql::MssqlManager;
use mcpg_plugin_backend_mssql::text::{
    contains_chars, decimal_text, is_blank, lower_chars, same_ignoring_case, signed_decimal_text,
    starts_with,
};
use mcpg_plugin_backend_mssql::types::{
    default_pool_max, default_port, default_size_limit, default_timeout_ms,
};
use mcpg_plugin_backend_mssql::{EncryptionMode, MssqlBackendSpec, MssqlOp};
use serde_json::Value;

fn text(spec: &Value, key: &str) -> String {
    spec[key].as_str().unwrap().to_owned()
}

fn read_spec(json: &str) -> MssqlBackendSpec {
    let spec: Value = serde_json::from_str(json).unwrap();
    let op = match spec["op"].as_str() {
        None => MssqlOp::default(),
        Some(name) => *[MssqlOp::Query, MssqlOp::Execute]
            .iter()
            .find(|op| op.as_str() == name)
            .unwrap(),
    };
    MssqlBackendSpec {
        host: text(&spec, "host"),
        port: spec["port"].as_u64().map_or(default_port(), |n| n as u16),
        database: text(&spec, "database"),
        user: text(&spec, "user"),
        password: text(&spec, "password"),
        encryption: EncryptionMode::default(),
        trust_server_certificate: false,
        query: text(&spec, "query"),
        op,
        params: spec["params"]
            .as_array()
            .unwrap()
            .iter()
            .map(|p| p.as_str().unwrap().to_owned())
            .collect(),
        size_limit: spec["size_limit"].as_u64().map_or(default_size_limit(), |n| n as usize),
        pool_max_size: spec["pool_max_size"].as_u64().map_or(default_pool_max(), |n| n as usize),
        timeout_ms: spec["timeout_ms"].as_u64().unwrap_or(default_timeout_ms()),
    }
}

fn usable() -> MssqlBackendSpec {
    read_spec(
        r#"{
            "host": "sql.example.com",
            "database": "appdb",
            "user": "svc",
            "password": "${env.MSSQL_PW}",
            "query": "SELECT id, name FROM users WHERE id = @P1",
            "params": ["arguments.id"]
        }"#,
    )
}

#[test]
fn op_defaults_to_query() {
    assert_eq!(MssqlOp::default(), MssqlOp::Query);
}

#[test]
fn spec_applies_defaults() {
    let spec = usable();
    assert_eq!(spec.port, 1433);
    assert_eq!(spec.op, MssqlOp::Query);
    assert_eq!(spec.size_limit, 100);
    assert_eq!(spec.pool_max_size, 8);
    assert_eq!(spec.timeout_ms, 10_000);
    assert_eq!(spec.encryption, EncryptionMode::Required);
    assert!(!spec.trust_server_certificate);
    assert_eq!(spec.params, vec!["arguments.id".to_owned()]);
}

#[test]
fn parses_execute_op() {
    let spec = read_spec(
        r#"{
            "host": "h", "database": "d", "user": "u", "password": "p",
            "query": "UPDATE t SET v = @P1 WHERE id = @P2",
            "op": "execute",
            "params": ["arguments.v", "arguments.id"]
        }"#,
    );
    assert_eq!(spec.op, MssqlOp::Execute);
}

#[test]
fn op_names() {
    assert_eq!(MssqlOp::Query.as_str(), "query");
    assert_eq!(MssqlOp::Execute.as_str(), "execute");
}

#[test]
fn usable_settings_have_no_problem() {
    assert_eq!(usable().check(), None);
}

#[test]
fn each_unusable_setting_has_its_message() {
    let blank = " \t\u{3000}".to_owned();
    let mut spec = usable();
    spec.host = blank.clone();
    assert_eq!(spec.check(), Some("host must not be empty"));
    let mut spec = usable();
    spec.database = String::new();
    assert_eq!(spec.check(), Some("database must not be empty"));
    let mut spec = usable();
    spec.user = blank.clone();
    assert_eq!(spec.check(), Some("user must not be empty"));
    let mut spec = usable();
    spec.query = blank;
    assert_eq!(spec.check(), Some("query must not be empty"));
    let mut spec = usable();
    spec.timeout_ms = 0;
    assert_eq!(spec.check(), Some("timeout_ms must be greater than 0"));
    let mut spec = usable();
    spec.size_limit = 0;
    assert_eq!(spec.check(), Some("size_limit must be greater than 0"));
    let mut spec = usable();
    spec.pool_max_size = 0;
    assert_eq!(spec.check(), Some("pool_max_size must be greater than 0"));
    let mut spec = usable();
    spec.password = "cred://vault/mssql".to_owned();
    assert_eq!(
        spec.check(),
        Some(
            "password must not be a cred:// URI — per-caller credentials are \
             unsupported (the pool is one service identity); use ${env.X} / \
             vault:// (resolved at config load) instead"
        )
    );
}

#[test]
fn the_first_complaint_counts() {
    let mut spec = usable();
    spec.password = "cred://x".to_owned();
    spec.size_limit = 0;
    spec.user = String::new();
    assert_eq!(spec.check(), Some("user must not be empty"));
    spec.user = "svc".to_owned();
    assert_eq!(spec.check(), Some("size_limit must be greater than 0"));
}

#[test]
fn tls_warnings_follow_the_settings() {
    let mut spec = usable();
    let none = spec.tls_warnings();
    assert!(!none.unvalidated_certificate && !none.cleartext);
    spec.trust_server_certificate = true;
    spec.encryption = EncryptionMode::Off;
    let both = spec.tls_warnings();
    assert!(both.unvalidated_certificate && both.cleartext);
    spec.password = "cred://x".to_owned();
    assert!(spec.tls_warnings().cleartext);
    spec.host = String::new();
    let refused = spec.tls_warnings();
    assert!(!refused.unvalidated_certificate && !refused.cleartext);
}

fn config_text(encryption: EncryptionMode, trust: bool) -> String {
    let manager = MssqlManager::new(
        "sql.example.com".to_owned(),
        1444,
        "appdb".to_owned(),
        "svc".to_owned(),
        "pw".to_owned(),
        encryption,
        trust,
    );
    let config = manager.build_config();
    assert_eq!(config.get_addr(), "sql.example.com:1444");
    format!("{config:?}")
}

#[test]
fn configuration_holds_the_settings() {
    let strict = config_text(EncryptionMode::Required, false);
    assert!(strict.contains("database: Some(\"appdb\")"));
    assert!(strict.contains("user: \"svc\""));
    assert!(strict.contains("encryption: Required"));
    assert!(strict.contains("trust: Default"));
    let loose = config_text(EncryptionMode::Off, true);
    assert!(loose.contains("encryption: Off"));
    assert!(loose.contains("trust: TrustAll"));
}

#[test]
fn blank_is_what_trimming_leaves_nothing_of() {
    for c in '\0'..=char::MAX {
        let text = c.to_string();
        assert_eq!(is_blank(&text), text.trim().is_empty(), "{c:?}");
    }
    assert!(is_blank(""));
    assert!(!is_blank("  x  "));
}

#[test]
fn text_tests_agree_with_std() {
    let samples = ["", "Pool", "MSSQL POOL acquire", "Ärger", "aaab", "cred://x", "cred:/"];
    let parts = ["", "pool", "aab", "Ä", "cred://"];
    for sample in samples {
        for part in parts {
            assert_eq!(
                contains_chars(&lower_chars(sample), part),
                sample.to_ascii_lowercase().contains(part)
            );
            assert_eq!(starts_with(sample, part), sample.starts_with(part));
            assert_eq!(same_ignoring_case(sample, part), sample.eq_ignore_ascii_case(part));
        }
    }
}

#[test]
fn decimal_numerals() {
    assert_eq!(decimal_text(0), "0");
    assert_eq!(decimal_text(1_002_003), "1002003");
    assert_eq!(decimal_text(u128::MAX), u128::MAX.to_string());
    assert_eq!(signed_decimal_text(-7), "-7");
    assert_eq!(signed_decimal_text(i64::MIN), i64::MIN.to_string());
}
