use mcpg_plugin_backend_mssql::column::{ColumnValue, Row};
use mcpg_plugin_backend_mssql::envelope::is_transport_failure;
use mcpg_plugin_backend_mssql::json::Json;
use mcpg_plugin_backend_mssql::mssql::{
    begin_statement, step_limit, step_statement, Attempt, QueryOutcome, StatementAction,
    StatementError, StatementEvent, StatementState,
};
use mcpg_plugin_backend_mssql::wire::parse_json;
use mcpg_plugin_backend_mssql::MssqlOp;

fn json(text: &str) -> Json {
    parse_json(text.as_bytes()).unwrap()
}

fn begin(op: MssqlOp, bound: Vec<Json>) -> StatementState {
    let (state, action) = begin_statement("SELECT @P1", bound, op, 2);
    assert!(matches!(action, StatementAction::Acquire));
    state
}

fn finish(state: StatementState, event: StatementEvent) -> Result<QueryOutcome, StatementError> {
    match step_statement(state, event) {
        (StatementState::Finished, StatementAction::Finish(result)) => result,
        _ => panic!("not finished"),
    }
}

fn go_on(state: StatementState, event: StatementEvent) -> (StatementState, StatementAction) {
    let (state, action) = step_statement(state, event);
    assert!(!matches!(action, StatementAction::Finish(_)));
    (state, action)
}

fn querying() -> StatementState {
    let state = begin(MssqlOp::Query, vec![json("1")]);
    go_on(state, StatementEvent::Acquired(Attempt::Done(()))).0
}

fn reading() -> StatementState {
    let (state, action) = go_on(querying(), StatementEvent::Queried(Attempt::Done(())));
    assert!(matches!(action, StatementAction::ReadRows));
    state
}

fn executing() -> StatementState {
    let state = begin(MssqlOp::Execute, vec![json("1")]);
    go_on(state, StatementEvent::Acquired(Attempt::Done(()))).0
}

fn rows(count: i32) -> Vec<Row> {
    (0..count)
        .map(|i| vec![("i".to_owned(), ColumnValue::I32(Some(i)))])
        .collect()
}

#[test]
fn a_query_gives_rows() {
    let outcome = finish(reading(), StatementEvent::Read(Attempt::Done(rows(3)))).unwrap();
    let rows = outcome.rows.unwrap();
    assert_eq!(rows.len(), 2);
    assert_eq!(rows[1].get("i"), Some(&json("1")));
    assert_eq!(outcome.rows_affected, None);
}

#[test]
fn an_execution_gives_a_count() {
    let outcome = finish(executing(), StatementEvent::Executed(Attempt::Done(7))).unwrap();
    assert_eq!(outcome.rows, None);
    assert_eq!(outcome.rows_affected, Some(7));
}

#[test]
fn the_statement_is_sent_as_it_stands() {
    let evil = json("\"1; DROP TABLE t\"");
    for (op, value) in [(MssqlOp::Query, evil), (MssqlOp::Execute, json("5"))] {
        let state = begin(op, vec![value]);
        let (_, action) = go_on(state, StatementEvent::Acquired(Attempt::Done(())));
        let query = match action {
            StatementAction::SendQuery(query) => {
                assert_eq!(op, MssqlOp::Query);
                query
            }
            StatementAction::SendExecute(query) => {
                assert_eq!(op, MssqlOp::Execute);
                query
            }
            _ => panic!("nothing is sent"),
        };
        let shown = format!("{query:?}");
        assert!(shown.contains("sql: \"SELECT @P1\""), "{shown}");
    }
}

fn error(message: &str, transport: bool, timeout: bool) -> Result<QueryOutcome, StatementError> {
    Err(StatementError { message: message.to_owned(), transport, timeout })
}

fn all_steps<F, G>(unit: F, count: G) -> Vec<Result<QueryOutcome, StatementError>>
where
    F: Fn() -> Attempt<()>,
    G: Fn() -> (Attempt<Vec<Row>>, Attempt<u64>),
{
    vec![
        finish(begin(MssqlOp::Query, vec![json("[]")]), StatementEvent::Acquired(unit())),
        finish(querying(), StatementEvent::Queried(unit())),
        finish(reading(), StatementEvent::Read(count().0)),
        finish(executing(), StatementEvent::Executed(count().1)),
    ]
}

#[test]
fn a_value_that_cannot_be_bound_ends_the_statement() {
    let state = begin(MssqlOp::Query, vec![json("[]")]);
    assert_eq!(
        finish(state, StatementEvent::Acquired(Attempt::Done(()))),
        error("array/object values cannot be bound as SQL parameters", false, false)
    );
}

#[test]
fn failures_name_their_step() {
    let why = || "why".to_owned();
    assert_eq!(
        all_steps(
            || Attempt::Failed(why()),
            || (Attempt::Failed(why()), Attempt::Failed(why()))
        ),
        vec![
            error("MSSQL pool acquire failed: why", true, false),
            error("MSSQL query failed: why", false, false),
            error("MSSQL result read failed: why", false, false),
            error("MSSQL execute failed: why", false, false),
        ]
    );
}

#[test]
fn the_drivers_words_tell_of_the_connection() {
    let failed = |text: &str| StatementEvent::Queried(Attempt::Failed(text.to_owned()));
    assert_eq!(
        finish(querying(), failed("I/O: Connection timed out (os error 110)")),
        error("MSSQL query failed: I/O: Connection timed out (os error 110)", true, true)
    );
    assert_eq!(
        finish(querying(), failed("Broken pipe")),
        error("MSSQL query failed: Broken pipe", true, false)
    );
}

#[test]
fn rejections_are_not_failures_of_the_connection() {
    let text = || "Invalid column name 'pool_timeout'".to_owned();
    assert_eq!(
        all_steps(
            || Attempt::Rejected(text()),
            || (Attempt::Rejected(text()), Attempt::Rejected(text()))
        ),
        vec![
            error("MSSQL pool acquire failed: Invalid column name 'pool_timeout'", true, true),
            error("MSSQL query failed: Invalid column name 'pool_timeout'", false, false),
            error("MSSQL result read failed: Invalid column name 'pool_timeout'", false, false),
            error("MSSQL execute failed: Invalid column name 'pool_timeout'", false, false),
        ]
    );
}

#[test]
fn delays_name_their_step_and_are_retryable() {
    let late = all_steps(|| Attempt::TimedOut, || (Attempt::TimedOut, Attempt::TimedOut));
    assert_eq!(
        late,
        vec![
            error("MSSQL pool acquire timed out", true, true),
            error("MSSQL query timed out", true, true),
            error("MSSQL result read timed out", true, true),
            error("MSSQL execute timed out", true, true),
        ]
    );
    for result in late {
        assert!(is_transport_failure(&result.unwrap_err().message));
    }
}

#[test]
fn the_steps_of_a_call_share_its_limit() {
    assert_eq!(step_limit(10_000, 0), 10_000);
    assert_eq!(step_limit(10_000, 4_000), 6_000);
    assert_eq!(step_limit(10_000, 10_000), 0);
    assert_eq!(step_limit(10_000, u128::MAX), 0);
    assert_eq!(step_limit(u64::MAX, 1), u64::MAX - 1);
}
