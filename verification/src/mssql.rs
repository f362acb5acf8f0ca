//! The connection settings of a binding, and the course of one statement:
//! acquire a connection, bind, send, read.
use crate::column::{project_rows, row_members, rows_json, valid_rows, Row};
use crate::envelope::{
    lemma_not_prefix, lemma_speaks_of_connection, speaks_of_connection, speaks_of_timeout,
    tells_of_connection, tells_of_timeout, transport_failure,
};
use crate::json::{items_view, lemma_items_view, Json, JsonView};
use crate::params::{
    bindable, prepare_query, query_params, query_statement, sql_param, sql_params,
    unbindable_message, SqlParam,
};
use crate::text::{ascii_lower, joined};
use crate::types::{EncryptionMode, MssqlOp};
use vstd::prelude::*;

verus! {

/// `tiberius::Config`, whose settings have the name [`config_settings`].
#[verifier::external_type_specification]
#[verifier::external_body]
pub struct ExTiberiusConfig(tiberius::Config);

/// What is set in a connection configuration.
pub struct ConfigSettings {
    pub host: Option<Seq<char>>,
    pub port: Option<u16>,
    pub database: Option<Seq<char>>,
    pub instance_name: Option<Seq<char>>,
    pub application_name: Option<Seq<char>>,
    /// User and password of an SQL Server login.
    pub login: Option<(Seq<char>, Seq<char>)>,
    pub encryption: EncryptionMode,
    /// Accept the server certificate without validating it.
    pub trust_all: bool,
    /// Validate the server certificate against a certificate file.
    pub trust_file: bool,
    /// Ask for read-only access.
    pub read_only: bool,
}

/// What is set in a `tiberius::Config`.
pub uninterp spec fn config_settings(config: tiberius::Config) -> ConfigSettings;

/// `tiberius::Config::new`: nothing set, encryption required, certificates
/// validated against the system's store.
#[verifier::external_body]
fn new_config() -> (config: tiberius::Config)
    ensures
        config_settings(config) == (ConfigSettings {
            host: None,
            port: None,
            database: None,
            instance_name: None,
            application_name: None,
            login: None,
            encryption: EncryptionMode::Required,
            trust_all: false,
            trust_file: false,
            read_only: false,
        }),
{
    tiberius::Config::new()
}

/// `tiberius::Config::host`.
#[verifier::external_body]
fn set_host(config: &mut tiberius::Config, host: &str)
    ensures
        config_settings(*final(config)) == (ConfigSettings {
            host: Some(host@),
            ..config_settings(*old(config))
        }),
{
    config.host(host)
}

/// `tiberius::Config::port`.
#[verifier::external_body]
fn set_port(config: &mut tiberius::Config, port: u16)
    ensures
        config_settings(*final(config)) == (ConfigSettings {
            port: Some(port),
            ..config_settings(*old(config))
        }),
{
    config.port(port)
}

/// `tiberius::Config::database`.
#[verifier::external_body]
fn set_database(config: &mut tiberius::Config, database: &str)
    ensures
        config_settings(*final(config)) == (ConfigSettings {
            database: Some(database@),
            ..config_settings(*old(config))
        }),
{
    config.database(database)
}

/// `tiberius::Config::authentication` with `tiberius::AuthMethod::sql_server`.
#[verifier::external_body]
fn set_login(config: &mut tiberius::Config, user: &str, password: &str)
    ensures
        config_settings(*final(config)) == (ConfigSettings {
            login: Some((user@, password@)),
            ..config_settings(*old(config))
        }),
{
    config.authentication(tiberius::AuthMethod::sql_server(user, password))
}

/// `tiberius::Config::encryption` with the level of the same name.
#[verifier::external_body]
fn set_encryption(config: &mut tiberius::Config, mode: EncryptionMode)
    ensures
        config_settings(*final(config)) == (ConfigSettings {
            encryption: mode,
            ..config_settings(*old(config))
        }),
{
    config.encryption(match mode {
        EncryptionMode::Required => tiberius::EncryptionLevel::Required,
        EncryptionMode::Off => tiberius::EncryptionLevel::Off,
    })
}

/// `tiberius::Config::trust_cert`. It refuses a configuration that names a
/// certificate file.
#[verifier::external_body]
fn set_trust(config: &mut tiberius::Config)
    requires
        !config_settings(*old(config)).trust_file,
    ensures
        config_settings(*final(config)) == (ConfigSettings {
            trust_all: true,
            ..config_settings(*old(config))
        }),
{
    config.trust_cert()
}

/// Opens connections for one binding: where to connect, as whom, and how.
pub struct MssqlManager {
    host: String,
    port: u16,
    database: String,
    user: String,
    password: String,
    encryption: EncryptionMode,
    trust_cert: bool,
}

/// What an [`MssqlManager`] holds.
pub struct ManagerView {
    pub host: Seq<char>,
    pub port: u16,
    pub database: Seq<char>,
    pub user: Seq<char>,
    pub password: Seq<char>,
    pub encryption: EncryptionMode,
    pub trust_cert: bool,
}

impl View for MssqlManager {
    type V = ManagerView;

    closed spec fn view(&self) -> ManagerView {
        ManagerView {
            host: self.host@,
            port: self.port,
            database: self.database@,
            user: self.user@,
            password: self.password@,
            encryption: self.encryption,
            trust_cert: self.trust_cert,
        }
    }
}

/// The configuration for a manager: everything that it holds, and nothing else.
pub open spec fn manager_settings(manager: ManagerView) -> ConfigSettings {
    ConfigSettings {
        host: Some(manager.host),
        port: Some(manager.port),
        database: Some(manager.database),
        instance_name: None,
        application_name: None,
        login: Some((manager.user, manager.password)),
        encryption: manager.encryption,
        trust_all: manager.trust_cert,
        trust_file: false,
        read_only: false,
    }
}

impl MssqlManager {
    pub fn new(
        host: String,
        port: u16,
        database: String,
        user: String,
        password: String,
        encryption: EncryptionMode,
        trust_cert: bool,
    ) -> (manager: MssqlManager)
        ensures
            manager@ == (ManagerView {
                host: host@,
                port,
                database: database@,
                user: user@,
                password: password@,
                encryption,
                trust_cert,
            }),
    {
        MssqlManager { host, port, database, user, password, encryption, trust_cert }
    }

    /// The configuration for a new connection.
    pub fn build_config(&self) -> (config: tiberius::Config)
        ensures
            config_settings(config) == manager_settings(self@),
            config_settings(config).host == Some(self@.host),
            config_settings(config).port == Some(self@.port),
            config_settings(config).database == Some(self@.database),
            config_settings(config).login == Some((self@.user, self@.password)),
            config_settings(config).encryption == self@.encryption,
            config_settings(config).trust_all == self@.trust_cert,
    {
        let mut config = new_config();
        set_host(&mut config, self.host.as_str());
        set_port(&mut config, self.port);
        set_database(&mut config, self.database.as_str());
        set_login(&mut config, self.user.as_str(), self.password.as_str());
        set_encryption(&mut config, self.encryption);
        if self.trust_cert {
            set_trust(&mut config);
        }
        config
    }
}

/// The message where the server cannot be reached.
pub fn connect_failed(addr: &str, error: &str) -> (message: String)
    ensures
        message@ == "MSSQL connect "@ + addr@ + ": "@ + error@,
{
    let mut message = joined("MSSQL connect ", addr);
    message.append(": ");
    message.append(error);
    message
}

/// The message where the server refuses the login.
pub fn login_failed(error: &str) -> (message: String)
    ensures
        message@ == "MSSQL login failed: "@ + error@,
{
    joined("MSSQL login failed: ", error)
}

/// The message where a pooled connection no longer answers.
pub fn ping_failed(error: &str) -> (message: String)
    ensures
        message@ == "recycle ping failed: "@ + error@,
{
    joined("recycle ping failed: ", error)
}

/// The message where the answer of a pooled connection cannot be read.
pub fn drain_failed(error: &str) -> (message: String)
    ensures
        message@ == "recycle drain failed: "@ + error@,
{
    joined("recycle drain failed: ", error)
}

/// The message where the pool cannot be made.
pub fn pool_build_failed(error: &str) -> (message: String)
    ensures
        message@ == "MSSQL pool build failed: "@ + error@,
{
    joined("MSSQL pool build failed: ", error)
}

/// What a completed statement gave: rows for a query, a count for anything else.
#[derive(Debug, PartialEq)]
pub struct QueryOutcome {
    pub rows: Option<Vec<Json>>,
    pub rows_affected: Option<u64>,
}

/// What a [`QueryOutcome`] is.
pub struct OutcomeView {
    pub rows: Option<Seq<JsonView>>,
    pub rows_affected: Option<u64>,
}

/// The views of optional rows.
pub open spec fn rows_view(rows: Option<Vec<Json>>) -> Option<Seq<JsonView>> {
    match rows {
        Some(rows) => Some(items_view(rows@)),
        None => None,
    }
}

impl View for QueryOutcome {
    type V = OutcomeView;

    open spec fn view(&self) -> OutcomeView {
        OutcomeView { rows: rows_view(self.rows), rows_affected: self.rows_affected }
    }
}

/// Why a statement failed: the message, and whether it was the connection or the
/// time that failed it.
#[derive(Debug, PartialEq)]
pub struct StatementError {
    pub message: String,
    /// The connection failed, not the statement.
    pub transport: bool,
    /// Time ran out.
    pub timeout: bool,
}

/// What a [`StatementError`] is.
pub struct FailureView {
    pub message: Seq<char>,
    pub transport: bool,
    pub timeout: bool,
}

impl View for StatementError {
    type V = FailureView;

    open spec fn view(&self) -> FailureView {
        FailureView {
            message: self.message@,
            transport: self.transport,
            timeout: self.timeout,
        }
    }
}

/// How a step that has a time limit ended.
#[derive(Debug)]
pub enum Attempt<T> {
    /// In time, with a value.
    Done(T),
    /// In time, with an error of the server's own, which prints as this text.
    Rejected(String),
    /// In time, with another error, which prints as this text.
    Failed(String),
    /// Not in time.
    TimedOut,
}

/// Where a statement stands: what it waits for.
#[derive(Debug)]
pub enum StatementState {
    /// A connection.
    Acquiring { statement: String, bound: Vec<Json>, op: MssqlOp, size_limit: usize },
    /// The server's answer to a query.
    Querying { size_limit: usize },
    /// The rows of a query.
    Reading { size_limit: usize },
    /// The count of an execution.
    Executing,
    /// Nothing any more.
    Finished,
}

/// What happened to a statement.
#[derive(Debug)]
pub enum StatementEvent {
    Acquired(Attempt<()>),
    Queried(Attempt<()>),
    Read(Attempt<Vec<Row>>),
    Executed(Attempt<u64>),
}

/// What has to be done next, within the time limit.
pub enum StatementAction {
    /// Get a connection from the pool.
    Acquire,
    /// Send the query and await the answer.
    SendQuery(tiberius::Query<'static>),
    /// Read all rows of the first result set.
    ReadRows,
    /// Execute the statement and await the total count.
    SendExecute(tiberius::Query<'static>),
    /// Nothing: the statement has ended.
    Finish(Result<QueryOutcome, StatementError>),
}

/// What a [`StatementAction`] is. A query is its text and its bound values.
pub enum ActionView {
    Acquire,
    SendQuery(Seq<char>, Seq<SqlParam>),
    ReadRows,
    SendExecute(Seq<char>, Seq<SqlParam>),
    Finish(Result<OutcomeView, FailureView>),
}

/// What the end of a statement is.
pub open spec fn statement_view(res: Result<QueryOutcome, StatementError>) -> Result<
    OutcomeView,
    FailureView,
> {
    match res {
        Ok(outcome) => Ok(outcome@),
        Err(error) => Err(error@),
    }
}

impl View for StatementAction {
    type V = ActionView;

    open spec fn view(&self) -> ActionView {
        match *self {
            StatementAction::Acquire => ActionView::Acquire,
            StatementAction::SendQuery(query) => ActionView::SendQuery(
                query_statement(query),
                query_params(query),
            ),
            StatementAction::ReadRows => ActionView::ReadRows,
            StatementAction::SendExecute(query) => ActionView::SendExecute(
                query_statement(query),
                query_params(query),
            ),
            StatementAction::Finish(res) => ActionView::Finish(statement_view(res)),
        }
    }
}

/// Whether the event is one that the state waits for.
pub open spec fn awaited(state: StatementState, event: StatementEvent) -> bool {
    match (state, event) {
        (StatementState::Acquiring { .. }, StatementEvent::Acquired(_)) => true,
        (StatementState::Querying { .. }, StatementEvent::Queried(_)) => true,
        (StatementState::Reading { size_limit }, StatementEvent::Read(attempt)) => match attempt {
            Attempt::Done(rows) => valid_rows(rows@, size_limit),
            _ => true,
        },
        (StatementState::Executing, StatementEvent::Executed(_)) => true,
        _ => false,
    }
}

/// The end of a step that the server rejected. It is the connection that failed
/// where there was none yet to run a statement over; the server's words then tell
/// whether time ran out.
pub open spec fn rejection(
    step: Seq<char>,
    connecting: bool,
    error: Seq<char>,
) -> Result<OutcomeView, FailureView> {
    Err(
        FailureView {
            message: step + " failed: "@ + error,
            transport: connecting,
            timeout: connecting && speaks_of_timeout(error),
        },
    )
}

/// The end of a step that failed otherwise: what failed, and why. The driver's
/// own words tell whether it was the connection, and whether time ran out.
pub open spec fn failure(
    step: Seq<char>,
    connecting: bool,
    error: Seq<char>,
) -> Result<OutcomeView, FailureView> {
    Err(
        FailureView {
            message: step + " failed: "@ + error,
            transport: connecting || speaks_of_connection(error),
            timeout: speaks_of_timeout(error),
        },
    )
}

/// The end of a step that took too long.
pub open spec fn late(step: Seq<char>) -> Result<OutcomeView, FailureView> {
    Err(FailureView { message: step + " timed out"@, transport: true, timeout: true })
}

/// The end of a statement with a value that cannot be bound.
pub open spec fn unbindable() -> Result<OutcomeView, FailureView> {
    Err(FailureView { message: unbindable_message(), transport: false, timeout: false })
}

/// The end of a step that did not succeed.
pub open spec fn ended<T>(
    step: Seq<char>,
    connecting: bool,
    attempt: Attempt<T>,
) -> ActionView {
    match attempt {
        Attempt::Rejected(error) => ActionView::Finish(rejection(step, connecting, error@)),
        Attempt::Failed(error) => ActionView::Finish(failure(step, connecting, error@)),
        _ => ActionView::Finish(late(step)),
    }
}

/// What has to be done after an event. The values are bound before anything is
/// sent; one that cannot be bound ends the statement.
pub open spec fn next_action(state: StatementState, event: StatementEvent) -> ActionView {
    match (state, event) {
        (
            StatementState::Acquiring { statement, bound, op, .. },
            StatementEvent::Acquired(attempt),
        ) => if !(attempt is Done) {
            ended("MSSQL pool acquire"@, true, attempt)
        } else if !bindable(items_view(bound@)) {
            ActionView::Finish(unbindable())
        } else if op == MssqlOp::Query {
            ActionView::SendQuery(statement@, sql_params(items_view(bound@)))
        } else {
            ActionView::SendExecute(statement@, sql_params(items_view(bound@)))
        },
        (StatementState::Querying { .. }, StatementEvent::Queried(attempt)) => match attempt {
            Attempt::Done(_) => ActionView::ReadRows,
            _ => ended("MSSQL query"@, false, attempt),
        },
        (StatementState::Reading { size_limit }, StatementEvent::Read(attempt)) => match attempt {
            Attempt::Done(rows) => ActionView::Finish(
                Ok(OutcomeView { rows: Some(rows_json(rows@, size_limit)), rows_affected: None }),
            ),
            _ => ended("MSSQL result read"@, false, attempt),
        },
        (StatementState::Executing, StatementEvent::Executed(attempt)) => match attempt {
            Attempt::Done(count) => ActionView::Finish(
                Ok(OutcomeView { rows: None, rows_affected: Some(count) }),
            ),
            _ => ended("MSSQL execute"@, false, attempt),
        },
        _ => ActionView::Acquire,
    }
}

/// The state in which an action is under way. Only the row limit is still of use.
pub open spec fn state_during(action: ActionView, size_limit: usize) -> StatementState {
    match action {
        ActionView::SendQuery(_, _) => StatementState::Querying { size_limit },
        ActionView::ReadRows => StatementState::Reading { size_limit },
        ActionView::SendExecute(_, _) => StatementState::Executing,
        _ => StatementState::Finished,
    }
}

/// The row limit that a state carries.
pub open spec fn row_limit(state: StatementState) -> usize {
    match state {
        StatementState::Acquiring { size_limit, .. } => size_limit,
        StatementState::Querying { size_limit } => size_limit,
        StatementState::Reading { size_limit } => size_limit,
        _ => 0,
    }
}

/// The state after an event.
pub open spec fn next_state(state: StatementState, event: StatementEvent) -> StatementState {
    state_during(next_action(state, event), row_limit(state))
}

/// Ends a statement with an error.
fn give_up(error: StatementError) -> (res: (StatementState, StatementAction))
    ensures
        res.0 == StatementState::Finished,
        res.1@ == ActionView::Finish(Err(error@)),
{
    (StatementState::Finished, StatementAction::Finish(Err(error)))
}

/// Ends a statement whose step did not succeed.
fn end<T>(step: &str, connecting: bool, attempt: Attempt<T>) -> (res: (
    StatementState,
    StatementAction,
))
    requires
        !(attempt is Done),
    ensures
        res.0 == StatementState::Finished,
        res.1@ == ended(step@, connecting, attempt),
{
    match attempt {
        Attempt::Rejected(error) => {
            let mut message = joined(step, " failed: ");
            message.append(error.as_str());
            let timeout = connecting && tells_of_timeout(error.as_str());
            give_up(StatementError { message, transport: connecting, timeout })
        },
        Attempt::Failed(error) => {
            let mut message = joined(step, " failed: ");
            message.append(error.as_str());
            let transport = connecting || tells_of_connection(error.as_str());
            let timeout = tells_of_timeout(error.as_str());
            give_up(StatementError { message, transport, timeout })
        },
        _ => give_up(
            StatementError { message: joined(step, " timed out"), transport: true, timeout: true },
        ),
    }
}

/// Begins a statement: the first thing is to get a connection.
pub fn begin_statement(
    query_sql: &str,
    bound: Vec<Json>,
    op: MssqlOp,
    size_limit: usize,
) -> (res: (StatementState, StatementAction))
    ensures
        res.0 == (StatementState::Acquiring {
            statement: res.0->statement,
            bound,
            op,
            size_limit,
        }),
        res.0->statement@ == query_sql@,
        res.1@ == ActionView::Acquire,
{
    (
        StatementState::Acquiring { statement: query_sql.to_owned(), bound, op, size_limit },
        StatementAction::Acquire,
    )
}

/// Goes on when the pool has answered: binds the values and sends the statement.
fn acquired(
    statement: String,
    bound: Vec<Json>,
    op: MssqlOp,
    size_limit: usize,
    attempt: Attempt<()>,
) -> (res: (StatementState, StatementAction))
    ensures
        ({
            let state = StatementState::Acquiring { statement, bound, op, size_limit };
            let event = StatementEvent::Acquired(attempt);
            res.0 == next_state(state, event) && res.1@ == next_action(state, event)
        }),
{
    match attempt {
        Attempt::Done(_) => {},
        attempt => {
            return end("MSSQL pool acquire", true, attempt);
        },
    }
    match prepare_query(statement.as_str(), bound) {
        Err(message) => give_up(StatementError { message, transport: false, timeout: false }),
        Ok(query) => match op {
            MssqlOp::Query => (
                StatementState::Querying { size_limit },
                StatementAction::SendQuery(query),
            ),
            MssqlOp::Execute => (StatementState::Executing, StatementAction::SendExecute(query)),
        },
    }
}

/// Takes a statement one step further.
pub fn step_statement(
    state: StatementState,
    event: StatementEvent,
) -> (res: (StatementState, StatementAction))
    requires
        awaited(state, event),
    ensures
        res.0 == next_state(state, event),
        res.1@ == next_action(state, event),
{
    match (state, event) {
        (
            StatementState::Acquiring { statement, bound, op, size_limit },
            StatementEvent::Acquired(attempt),
        ) => acquired(statement, bound, op, size_limit, attempt),
        (
            StatementState::Querying { size_limit },
            StatementEvent::Queried(attempt),
        ) => match attempt {
            Attempt::Done(_) => (
                StatementState::Reading { size_limit },
                StatementAction::ReadRows,
            ),
            attempt => end("MSSQL query", false, attempt),
        },
        (StatementState::Reading { size_limit }, StatementEvent::Read(attempt)) => match attempt {
            Attempt::Done(rows) => (
                StatementState::Finished,
                StatementAction::Finish(
                    Ok(
                        QueryOutcome {
                            rows: Some(project_rows(&rows, size_limit)),
                            rows_affected: None,
                        },
                    ),
                ),
            ),
            attempt => end("MSSQL result read", false, attempt),
        },
        (StatementState::Executing, StatementEvent::Executed(attempt)) => match attempt {
            Attempt::Done(count) => (
                StatementState::Finished,
                StatementAction::Finish(
                    Ok(QueryOutcome { rows: None, rows_affected: Some(count) }),
                ),
            ),
            attempt => end("MSSQL execute", false, attempt),
        },
        (state, _) => (state, StatementAction::Acquire),
    }
}

/// The parameters are the SQL values of the values, position by position.
pub open spec fn positional(params: Seq<SqlParam>, values: Seq<JsonView>) -> bool {
    &&& params.len() == values.len()
    &&& forall|i: int| 0 <= i < values.len() ==> Some(#[trigger] params[i]) == sql_param(values[i])
}

/// How many answers a statement still needs, at most.
pub open spec fn answers_needed(state: StatementState) -> nat {
    match state {
        StatementState::Acquiring { .. } => 3,
        StatementState::Querying { .. } => 2,
        StatementState::Reading { .. } => 1,
        StatementState::Executing => 1,
        StatementState::Finished => 0,
    }
}

/// Each answer brings a statement nearer to its end, and it has ended where
/// the action says so, and only there.
pub proof fn law_statement_ends(state: StatementState, event: StatementEvent)
    requires
        awaited(state, event),
    ensures
        answers_needed(next_state(state, event)) < answers_needed(state),
        next_state(state, event) is Finished <==> next_action(state, event) is Finish,
{
}

/// What is sent to the server is the operator's statement as it stands, whatever
/// the values are, with `values[i]` as its parameter `@P{i+1}`.
pub proof fn law_statement_text_is_fixed(
    statement: String,
    bound: Vec<Json>,
    op: MssqlOp,
    size_limit: usize,
    event: StatementEvent,
)
    ensures
        match next_action(StatementState::Acquiring { statement, bound, op, size_limit }, event) {
            ActionView::SendQuery(text, params) => {
                &&& op == MssqlOp::Query
                &&& text == statement@
                &&& positional(params, items_view(bound@))
            },
            ActionView::SendExecute(text, params) => {
                &&& op == MssqlOp::Execute
                &&& text == statement@
                &&& positional(params, items_view(bound@))
            },
            _ => true,
        },
{
}

/// A statement is sent once: no later step sends anything.
pub proof fn law_nothing_is_sent_twice(state: StatementState, event: StatementEvent)
    requires
        awaited(state, event),
        !(state is Acquiring),
    ensures
        !(next_action(state, event) is SendQuery),
        !(next_action(state, event) is SendExecute),
{
}

/// A query whose steps all succeed gives its rows, up to the limit, and no count.
pub proof fn law_query_gives_rows(
    statement: String,
    bound: Vec<Json>,
    size_limit: usize,
    rows: Vec<Row>,
)
    requires
        bindable(items_view(bound@)),
        valid_rows(rows@, size_limit),
    ensures
        ({
            let start = StatementState::Acquiring {
                statement,
                bound,
                op: MssqlOp::Query,
                size_limit,
            };
            let held = next_state(start, StatementEvent::Acquired(Attempt::Done(())));
            let answered = next_state(held, StatementEvent::Queried(Attempt::Done(())));
            next_action(answered, StatementEvent::Read(Attempt::Done(rows))) == ActionView::Finish(
                Ok(OutcomeView { rows: Some(rows_json(rows@, size_limit)), rows_affected: None }),
            )
        }),
{
}

/// An execution whose steps all succeed gives the count, and no rows.
pub proof fn law_execute_gives_count(
    statement: String,
    bound: Vec<Json>,
    size_limit: usize,
    count: u64,
)
    requires
        bindable(items_view(bound@)),
    ensures
        ({
            let start = StatementState::Acquiring {
                statement,
                bound,
                op: MssqlOp::Execute,
                size_limit,
            };
            let held = next_state(start, StatementEvent::Acquired(Attempt::Done(())));
            next_action(held, StatementEvent::Executed(Attempt::Done(count))) == ActionView::Finish(
                Ok(OutcomeView { rows: None, rows_affected: Some(count) }),
            )
        }),
{
}

/// A statement that ends well gives rows or a count, never both and never neither.
pub proof fn law_rows_or_count(state: StatementState, event: StatementEvent)
    requires
        awaited(state, event),
    ensures
        next_action(state, event) matches ActionView::Finish(Ok(outcome)) ==> {
            &&& outcome.rows is Some <==> outcome.rows_affected is None
            &&& outcome.rows is Some <==> state is Reading
        },
{
}

/// Whether an event tells that no connection was had, or that time ran out.
pub open spec fn connection_trouble(event: StatementEvent) -> bool {
    match event {
        StatementEvent::Acquired(attempt) => !(attempt is Done),
        _ => ran_out_of_time(event),
    }
}

/// Whether an event tells that time ran out.
pub open spec fn ran_out_of_time(event: StatementEvent) -> bool {
    match event {
        StatementEvent::Acquired(attempt) => attempt is TimedOut,
        StatementEvent::Queried(attempt) => attempt is TimedOut,
        StatementEvent::Read(attempt) => attempt is TimedOut,
        StatementEvent::Executed(attempt) => attempt is TimedOut,
    }
}

/// Whether an event tells that the server rejected what was sent to it.
pub open spec fn rejected(event: StatementEvent) -> bool {
    match event {
        StatementEvent::Acquired(_) => false,
        StatementEvent::Queried(attempt) => attempt is Rejected,
        StatementEvent::Read(attempt) => attempt is Rejected,
        StatementEvent::Executed(attempt) => attempt is Rejected,
    }
}

/// Where no connection was had, or time ran out, the statement ends with a
/// failure of the connection.
pub proof fn law_connection_trouble_is_transport(state: StatementState, event: StatementEvent)
    requires
        awaited(state, event),
        connection_trouble(event),
    ensures
        match next_action(state, event) {
            ActionView::Finish(Err(error)) => error.transport,
            _ => false,
        },
{
}

/// A statement that the server rejects ends with an error that is no failure of
/// the connection and no matter of time, whatever the server says of it and
/// whatever names it quotes.
pub proof fn law_rejections_are_not_transport(state: StatementState, event: StatementEvent)
    requires
        awaited(state, event),
        rejected(event),
    ensures
        match next_action(state, event) {
            ActionView::Finish(Err(error)) => !error.transport && !error.timeout,
            _ => false,
        },
{
}

/// A server that cannot be reached and a login that is refused are retryable
/// failures of the connection by their messages alone, whatever the reason given.
pub proof fn law_connect_and_login_are_retryable(addr: Seq<char>, error: Seq<char>)
    ensures
        transport_failure("MSSQL connect "@ + addr + ": "@ + error),
        transport_failure("MSSQL login failed: "@ + error),
{
    reveal_strlit("MSSQL connect ");
    reveal_strlit("connect");
    reveal_strlit("MSSQL login failed: ");
    reveal_strlit("login failed");
    let connect = "MSSQL connect "@ + addr + ": "@ + error;
    assert(connect.subrange(6, 13) =~= "connect"@);
    lemma_speaks_of_connection(connect, "connect"@, 6);
    lemma_own_message(connect);
    let login = "MSSQL login failed: "@ + error;
    assert(login.subrange(6, 18) =~= "login failed"@);
    lemma_speaks_of_connection(login, "login failed"@, 6);
    lemma_own_message(login);
}

/// A message of the backend's own is searched whole: it says neither what a
/// statement failed with nor that parameters failed.
proof fn lemma_own_message(message: Seq<char>)
    requires
        message.len() > 6,
        message[0] == 'M',
        message[6] == 'c' || message[6] == 'l',
        speaks_of_connection(message),
    ensures
        transport_failure(message),
{
    reveal_strlit("evaluating params: ");
    reveal_strlit("mssql query failed: ");
    reveal_strlit("mssql result read failed: ");
    reveal_strlit("mssql execute failed: ");
    let lower = ascii_lower(message);
    assert(lower[0] == 'm');
    assert(lower[6] == message[6]);
    lemma_not_prefix(lower, "evaluating params: "@, 0);
    lemma_not_prefix(lower, "mssql query failed: "@, 6);
    lemma_not_prefix(lower, "mssql result read failed: "@, 6);
    lemma_not_prefix(lower, "mssql execute failed: "@, 6);
}

/// The milliseconds that are left of a call's limit.
pub open spec fn time_left(timeout_ms: u64, spent_ms: nat) -> nat {
    if spent_ms < timeout_ms {
        (timeout_ms - spent_ms) as nat
    } else {
        0
    }
}

/// The limit, in milliseconds, on the next step of a call that has taken
/// `spent_ms` so far. What is spent and what is left are together no more than
/// the call's limit, unless that is spent already.
pub fn step_limit(timeout_ms: u64, spent_ms: u128) -> (limit: u64)
    ensures
        limit == time_left(timeout_ms, spent_ms as nat),
        spent_ms <= timeout_ms ==> spent_ms + limit == timeout_ms,
        spent_ms > timeout_ms ==> limit == 0,
{
    if spent_ms < timeout_ms as u128 {
        timeout_ms - spent_ms as u64
    } else {
        0
    }
}

/// The time that some steps take together.
pub open spec fn total_ms(steps: Seq<nat>) -> nat
    decreases steps.len(),
{
    if steps.len() == 0 {
        0
    } else {
        total_ms(steps.drop_last()) + steps.last()
    }
}

/// Whether each step keeps to the limit that was left when it began.
pub open spec fn steps_keep_limits(timeout_ms: u64, steps: Seq<nat>) -> bool {
    forall|i: int|
        0 <= i < steps.len() ==> (#[trigger] steps[i]) <= time_left(
            timeout_ms,
            total_ms(steps.take(i)),
        )
}

/// Acquiring, sending and reading, each within the limit that was left, take no
/// longer together than the call's limit.
pub proof fn law_one_limit_per_call(timeout_ms: u64, steps: Seq<nat>)
    requires
        steps_keep_limits(timeout_ms, steps),
    ensures
        total_ms(steps) <= timeout_ms,
    decreases steps.len(),
{
    if steps.len() > 0 {
        let front = steps.drop_last();
        assert forall|i: int| 0 <= i < front.len() implies (#[trigger] front[i]) <= time_left(
            timeout_ms,
            total_ms(front.take(i)),
        ) by {
            assert(steps[i] <= time_left(timeout_ms, total_ms(steps.take(i))));
            assert(front.take(i) =~= steps.take(i));
        }
        law_one_limit_per_call(timeout_ms, front);
        let last = steps.len() - 1;
        assert(steps[last] <= time_left(timeout_ms, total_ms(steps.take(last))));
        assert(steps.take(last) =~= front);
    }
}

/// The configuration for a manager names its host, port and database, logs in
/// with its user and its password, and encrypts and trusts as it says. It sets
/// nothing else.
pub proof fn law_configuration_is_the_managers(manager: ManagerView)
    ensures
        manager_settings(manager).host == Some(manager.host),
        manager_settings(manager).port == Some(manager.port),
        manager_settings(manager).database == Some(manager.database),
        manager_settings(manager).login == Some((manager.user, manager.password)),
        manager_settings(manager).encryption == manager.encryption,
        manager_settings(manager).trust_all == manager.trust_cert,
        manager_settings(manager).instance_name is None,
        manager_settings(manager).application_name is None,
        !manager_settings(manager).trust_file,
        !manager_settings(manager).read_only,
{
}

/// Managers that differ in anything have different configurations.
pub proof fn law_different_managers_configure_differently(a: ManagerView, b: ManagerView)
    requires
        manager_settings(a) == manager_settings(b),
    ensures
        a == b,
{
    assert(manager_settings(a).login->Some_0.0 == a.user);
    assert(manager_settings(a).login->Some_0.1 == a.password);
    assert(manager_settings(b).login->Some_0.0 == b.user);
    assert(manager_settings(b).login->Some_0.1 == b.password);
    assert(manager_settings(a).host->Some_0 == manager_settings(b).host->Some_0);
    assert(manager_settings(a).database->Some_0 == manager_settings(b).database->Some_0);
}

/// The outcome of a statement, its error and its end are what they hold.
pub proof fn law_outcomes_and_errors_are_what_they_hold(
    outcome: QueryOutcome,
    error: StatementError,
    i: int,
)
    ensures
        outcome@.rows_affected == outcome.rows_affected,
        match outcome.rows {
            Some(rows) => outcome@.rows matches Some(views) && views.len() == rows@.len() && (0 <= i
                < rows@.len() ==> views[i] == rows@[i]@),
            None => outcome@.rows is None,
        },
        error@.message == error.message@,
        error@.transport == error.transport,
        error@.timeout == error.timeout,
        statement_view(Ok(outcome)) == Ok::<OutcomeView, FailureView>(outcome@),
        statement_view(Err(error)) == Err::<OutcomeView, FailureView>(error@),
{
    if let Some(rows) = outcome.rows {
        lemma_items_view(rows@);
    }
}

/// An action is what it says: a query is sent with its own text and values.
pub proof fn law_actions_are_what_they_hold(
    query: tiberius::Query<'static>,
    result: Result<QueryOutcome, StatementError>,
)
    ensures
        StatementAction::Acquire@ == ActionView::Acquire,
        StatementAction::ReadRows@ == ActionView::ReadRows,
        StatementAction::SendQuery(query)@ == ActionView::SendQuery(
            query_statement(query),
            query_params(query),
        ),
        StatementAction::SendExecute(query)@ == ActionView::SendExecute(
            query_statement(query),
            query_params(query),
        ),
        StatementAction::Finish(result)@ == ActionView::Finish(statement_view(result)),
{
}

/// Every answer to what a statement waits for is awaited, whatever it says; of
/// rows only that those to be given back are valid.
pub proof fn law_every_answer_is_awaited(
    statement: String,
    bound: Vec<Json>,
    op: MssqlOp,
    size_limit: usize,
    plain: Attempt<()>,
    read: Attempt<Vec<Row>>,
    counted: Attempt<u64>,
)
    ensures
        awaited(
            StatementState::Acquiring { statement, bound, op, size_limit },
            StatementEvent::Acquired(plain),
        ),
        awaited(StatementState::Querying { size_limit }, StatementEvent::Queried(plain)),
        awaited(StatementState::Executing, StatementEvent::Executed(counted)),
        awaited(StatementState::Reading { size_limit }, StatementEvent::Read(read)) <==> (
        read matches Attempt::Done(rows) ==> valid_rows(rows@, size_limit)),
{
}

/// Once there is a connection, a statement whose values can all be bound is sent
/// as its operation says, with its own text and the SQL value of each value at
/// its position. One with a value that cannot be bound is not sent: it ends with
/// an error that is no failure of the connection.
pub proof fn law_connected_statement_is_sent(
    statement: String,
    bound: Vec<Json>,
    op: MssqlOp,
    size_limit: usize,
)
    ensures
        ({
            let state = StatementState::Acquiring { statement, bound, op, size_limit };
            let action = next_action(state, StatementEvent::Acquired(Attempt::Done(())));
            let state = next_state(state, StatementEvent::Acquired(Attempt::Done(())));
            if bindable(items_view(bound@)) {
                match op {
                    MssqlOp::Query => {
                        &&& action matches ActionView::SendQuery(text, params) && text == statement@
                            && positional(params, items_view(bound@))
                        &&& state == StatementState::Querying { size_limit }
                    },
                    MssqlOp::Execute => {
                        &&& action matches ActionView::SendExecute(text, params) && text
                            == statement@ && positional(params, items_view(bound@))
                        &&& state == StatementState::Executing
                    },
                }
            } else {
                &&& action matches ActionView::Finish(Err(error)) && error.message
                    == "array/object values cannot be bound as SQL parameters"@
                    && !error.transport && !error.timeout
                &&& state == StatementState::Finished
            }
        }),
{
}

/// A query that was answered is read next, up to the same limit.
pub proof fn law_answered_query_is_read(size_limit: usize)
    ensures
        next_action(
            StatementState::Querying { size_limit },
            StatementEvent::Queried(Attempt::Done(())),
        ) == ActionView::ReadRows,
        next_state(
            StatementState::Querying { size_limit },
            StatementEvent::Queried(Attempt::Done(())),
        ) == (StatementState::Reading { size_limit }),
{
}

/// The rows of a query are given back from the first one on, as many as the limit
/// allows, each as the object of its columns.
pub proof fn law_read_rows_are_given_back(rows: Vec<Row>, size_limit: usize, i: int)
    ensures
        next_action(
            StatementState::Reading { size_limit },
            StatementEvent::Read(Attempt::Done(rows)),
        ) matches ActionView::Finish(Ok(outcome)) && {
            &&& outcome.rows_affected is None
            &&& outcome.rows matches Some(given) && {
                &&& given.len() == if rows@.len() <= size_limit {
                    rows@.len()
                } else {
                    size_limit as nat
                }
                &&& 0 <= i < given.len() ==> given[i] == JsonView::Object(row_members(rows@[i]@))
            }
        },
{
}

/// The count of an execution is given back as the server gave it.
pub proof fn law_count_is_given_back(count: u64)
    ensures
        next_action(
            StatementState::Executing,
            StatementEvent::Executed(Attempt::Done(count)),
        ) matches ActionView::Finish(Ok(outcome)) && outcome.rows is None && outcome.rows_affected
            == Some(count),
{
}

/// The failure that an action ends a statement with, if it does.
pub open spec fn failed_with(action: ActionView) -> Option<FailureView> {
    match action {
        ActionView::Finish(Err(error)) => Some(error),
        _ => None,
    }
}

/// Where no connection was had, the message says so, with the reason or with the
/// time that ran out. It is a failure of the connection, and a timeout where time
/// ran out or the reason speaks of it.
pub proof fn law_no_connection(
    statement: String,
    bound: Vec<Json>,
    op: MssqlOp,
    size_limit: usize,
    text: String,
)
    ensures
        ({
            let state = StatementState::Acquiring { statement, bound, op, size_limit };
            let told = FailureView {
                message: "MSSQL pool acquire failed: "@ + text@,
                transport: true,
                timeout: speaks_of_timeout(text@),
            };
            &&& failed_with(
                next_action(state, StatementEvent::Acquired(Attempt::Failed(text))),
            ) == Some(told)
            &&& failed_with(
                next_action(state, StatementEvent::Acquired(Attempt::Rejected(text))),
            ) == Some(told)
            &&& failed_with(next_action(state, StatementEvent::Acquired(Attempt::TimedOut)))
                == Some(
                FailureView {
                    message: "MSSQL pool acquire timed out"@,
                    transport: true,
                    timeout: true,
                },
            )
        }),
{
    reveal_strlit("MSSQL pool acquire");
    reveal_strlit(" failed: ");
    reveal_strlit(" timed out");
    reveal_strlit("MSSQL pool acquire failed: ");
    reveal_strlit("MSSQL pool acquire timed out");
    assert("MSSQL pool acquire"@ + " failed: "@ + text@ =~= "MSSQL pool acquire failed: "@ + text@);
    assert("MSSQL pool acquire"@ + " timed out"@ =~= "MSSQL pool acquire timed out"@);
}

/// What a query that failed ends with: the message says so, with the reason or
/// with the time that ran out. A rejection is neither a failure of the connection
/// nor a timeout; of another error its own words tell.
pub proof fn law_failed_query(size_limit: usize, text: String)
    ensures
        ({
            let state = StatementState::Querying { size_limit };
            let message = "MSSQL query failed: "@ + text@;
            &&& failed_with(
                next_action(state, StatementEvent::Queried(Attempt::Rejected(text))),
            ) == Some(FailureView { message, transport: false, timeout: false })
            &&& failed_with(next_action(state, StatementEvent::Queried(Attempt::Failed(text))))
                == Some(
                FailureView {
                    message,
                    transport: speaks_of_connection(text@),
                    timeout: speaks_of_timeout(text@),
                },
            )
            &&& failed_with(next_action(state, StatementEvent::Queried(Attempt::TimedOut)))
                == Some(
                FailureView {
                    message: "MSSQL query timed out"@,
                    transport: true,
                    timeout: true,
                },
            )
        }),
{
    reveal_strlit("MSSQL query");
    reveal_strlit(" failed: ");
    reveal_strlit(" timed out");
    reveal_strlit("MSSQL query failed: ");
    reveal_strlit("MSSQL query timed out");
    assert("MSSQL query"@ + " failed: "@ + text@ =~= "MSSQL query failed: "@ + text@);
    assert("MSSQL query"@ + " timed out"@ =~= "MSSQL query timed out"@);
}

/// What a result that could not be read ends with.
pub proof fn law_failed_read(size_limit: usize, text: String)
    ensures
        ({
            let state = StatementState::Reading { size_limit };
            let message = "MSSQL result read failed: "@ + text@;
            &&& failed_with(next_action(state, StatementEvent::Read(Attempt::Rejected(text))))
                == Some(FailureView { message, transport: false, timeout: false })
            &&& failed_with(next_action(state, StatementEvent::Read(Attempt::Failed(text))))
                == Some(
                FailureView {
                    message,
                    transport: speaks_of_connection(text@),
                    timeout: speaks_of_timeout(text@),
                },
            )
            &&& failed_with(next_action(state, StatementEvent::Read(Attempt::TimedOut))) == Some(
                FailureView {
                    message: "MSSQL result read timed out"@,
                    transport: true,
                    timeout: true,
                },
            )
        }),
{
    reveal_strlit("MSSQL result read");
    reveal_strlit(" failed: ");
    reveal_strlit(" timed out");
    reveal_strlit("MSSQL result read failed: ");
    reveal_strlit("MSSQL result read timed out");
    assert("MSSQL result read"@ + " failed: "@ + text@ =~= "MSSQL result read failed: "@ + text@);
    assert("MSSQL result read"@ + " timed out"@ =~= "MSSQL result read timed out"@);
}

/// What an execution that failed ends with.
pub proof fn law_failed_execution(text: String)
    ensures
        ({
            let state = StatementState::Executing;
            let message = "MSSQL execute failed: "@ + text@;
            &&& failed_with(
                next_action(state, StatementEvent::Executed(Attempt::Rejected(text))),
            ) == Some(FailureView { message, transport: false, timeout: false })
            &&& failed_with(next_action(state, StatementEvent::Executed(Attempt::Failed(text))))
                == Some(
                FailureView {
                    message,
                    transport: speaks_of_connection(text@),
                    timeout: speaks_of_timeout(text@),
                },
            )
            &&& failed_with(next_action(state, StatementEvent::Executed(Attempt::TimedOut)))
                == Some(
                FailureView {
                    message: "MSSQL execute timed out"@,
                    transport: true,
                    timeout: true,
                },
            )
        }),
{
    reveal_strlit("MSSQL execute");
    reveal_strlit(" failed: ");
    reveal_strlit(" timed out");
    reveal_strlit("MSSQL execute failed: ");
    reveal_strlit("MSSQL execute timed out");
    assert("MSSQL execute"@ + " failed: "@ + text@ =~= "MSSQL execute failed: "@ + text@);
    assert("MSSQL execute"@ + " timed out"@ =~= "MSSQL execute timed out"@);
}

/// The time that is left and the time that was spent make up the limit, until
/// that is spent; then nothing is left.
pub proof fn law_time_left(timeout_ms: u64, spent_ms: nat)
    ensures
        spent_ms <= timeout_ms ==> time_left(timeout_ms, spent_ms) + spent_ms == timeout_ms,
        spent_ms >= timeout_ms ==> time_left(timeout_ms, spent_ms) == 0,
{
}

} // verus!
