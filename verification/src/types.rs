//! The operator's settings for one binding: the connection, the statement and
//! its limits. One binding is one statement.
use crate::text::{blank, has_prefix, is_blank, starts_with};
use vstd::prelude::*;

verus! {

/// What the statement does.
#[derive(Debug, Clone, Copy, PartialEq, Eq, Structural)]
pub enum MssqlOp {
    /// `SELECT` and the like: gives the matched rows.
    Query,
    /// `INSERT`, `UPDATE`, `DELETE`, DDL: gives the number of rows affected.
    Execute,
}

impl Default for MssqlOp {
    fn default() -> (op: MssqlOp)
        ensures
            op == MssqlOp::Query,
    {
        MssqlOp::Query
    }
}

impl MssqlOp {
    /// The name of the operation in settings and responses.
    pub open spec fn name(self) -> Seq<char> {
        match self {
            MssqlOp::Query => "query"@,
            MssqlOp::Execute => "execute"@,
        }
    }

    pub fn as_str(self) -> (name: &'static str)
        ensures
            name@ == self.name(),
    {
        match self {
            MssqlOp::Query => "query",
            MssqlOp::Execute => "execute",
        }
    }
}

/// How much of the connection is encrypted.
#[derive(Debug, Clone, Copy, PartialEq, Eq, Structural)]
pub enum EncryptionMode {
    /// TLS for the whole connection.
    Required,
    /// Only the login handshake is encrypted; then the connection goes on in
    /// cleartext. For trusted networks only.
    Off,
}

impl Default for EncryptionMode {
    fn default() -> (mode: EncryptionMode)
        ensures
            mode == EncryptionMode::Required,
    {
        EncryptionMode::Required
    }
}

/// The settings of one binding.
#[derive(Debug, Clone)]
pub struct MssqlBackendSpec {
    /// SQL Server host.
    pub host: String,
    /// TDS port.
    pub port: u16,
    /// Initial database.
    pub database: String,
    /// SQL Server login user.
    pub user: String,
    /// Login password. A `cred://` reference is refused: the pool has one
    /// service identity.
    pub password: String,
    /// Connection encryption.
    pub encryption: EncryptionMode,
    /// Accept the server certificate without validating it.
    pub trust_server_certificate: bool,
    /// The statement, with `@P1, @P2, ...` for the parameters. It is fixed by
    /// the operator and never made from a caller's arguments.
    pub query: String,
    /// What the statement does.
    pub op: MssqlOp,
    /// CEL expressions in order; `params[i]` is bound to `@P{i+1}`.
    pub params: Vec<String>,
    /// The most rows that a call gives back.
    pub size_limit: usize,
    /// The most pooled connections.
    pub pool_max_size: usize,
    /// The limit, in milliseconds, on a call: to acquire, to send and to read.
    pub timeout_ms: u64,
}

/// The port where the settings name none.
pub fn default_port() -> (port: u16)
    ensures
        port == 1433,
{
    1433
}

/// The row limit where the settings name none.
pub fn default_size_limit() -> (limit: usize)
    ensures
        limit == 100,
{
    100
}

/// The pool size where the settings name none.
pub fn default_pool_max() -> (size: usize)
    ensures
        size == 8,
{
    8
}

/// The time limit where the settings name none: ten seconds.
pub fn default_timeout_ms() -> (timeout_ms: u64)
    ensures
        timeout_ms == 10_000,
{
    10_000
}

/// What is wrong with the settings other than the password, if anything is.
/// The first complaint counts.
pub open spec fn settings_problem(spec: MssqlBackendSpec) -> Option<Seq<char>> {
    if blank(spec.host@) {
        Some("host must not be empty"@)
    } else if blank(spec.database@) {
        Some("database must not be empty"@)
    } else if blank(spec.user@) {
        Some("user must not be empty"@)
    } else if blank(spec.query@) {
        Some("query must not be empty"@)
    } else if spec.timeout_ms == 0 {
        Some("timeout_ms must be greater than 0"@)
    } else if spec.size_limit == 0 {
        Some("size_limit must be greater than 0"@)
    } else if spec.pool_max_size == 0 {
        Some("pool_max_size must be greater than 0"@)
    } else {
        None
    }
}

/// The complaint about a password that names a per-caller credential.
pub open spec fn credential_message() -> Seq<char> {
    "password must not be a cred:// URI — per-caller credentials are unsupported (the pool is one service identity); use ${env.X} / vault:// (resolved at config load) instead"@
}

/// What is wrong with the settings, if anything is: a complaint about the
/// password comes after all others.
pub open spec fn spec_problem(spec: MssqlBackendSpec) -> Option<Seq<char>> {
    match settings_problem(spec) {
        Some(message) => Some(message),
        None => if has_prefix(spec.password@, "cred://"@) {
            Some(credential_message())
        } else {
            None
        },
    }
}

/// What a complaint is, with text as a sequence of characters.
pub open spec fn problem_view(problem: Option<&'static str>) -> Option<Seq<char>> {
    match problem {
        Some(message) => Some(message@),
        None => None,
    }
}

/// What an operator is warned of when a binding is registered.
#[derive(Debug, Clone, Copy, PartialEq, Eq, Structural)]
pub struct TlsWarnings {
    /// The server certificate is not validated.
    pub unvalidated_certificate: bool,
    /// Statements and parameters travel in cleartext.
    pub cleartext: bool,
}

impl MssqlBackendSpec {
    /// What is wrong with the settings other than the password.
    fn check_settings(&self) -> (problem: Option<&'static str>)
        ensures
            problem_view(problem) == settings_problem(*self),
    {
        if is_blank(self.host.as_str()) {
            Some("host must not be empty")
        } else if is_blank(self.database.as_str()) {
            Some("database must not be empty")
        } else if is_blank(self.user.as_str()) {
            Some("user must not be empty")
        } else if is_blank(self.query.as_str()) {
            Some("query must not be empty")
        } else if self.timeout_ms == 0 {
            Some("timeout_ms must be greater than 0")
        } else if self.size_limit == 0 {
            Some("size_limit must be greater than 0")
        } else if self.pool_max_size == 0 {
            Some("pool_max_size must be greater than 0")
        } else {
            None
        }
    }

    /// What is wrong with the settings, if anything is.
    pub fn check(&self) -> (problem: Option<&'static str>)
        ensures
            problem_view(problem) == spec_problem(*self),
    {
        match self.check_settings() {
            Some(message) => Some(message),
            None => if starts_with(self.password.as_str(), "cred://") {
                Some(
                    "password must not be a cred:// URI — per-caller credentials are unsupported (the pool is one service identity); use ${env.X} / vault:// (resolved at config load) instead",
                )
            } else {
                None
            },
        }
    }

    /// The warnings for these settings. Settings with a problem other than the
    /// password's are refused before any warning.
    pub fn tls_warnings(&self) -> (warnings: TlsWarnings)
        ensures
            warnings.unvalidated_certificate == (settings_problem(*self) is None
                && self.trust_server_certificate),
            warnings.cleartext == (settings_problem(*self) is None && self.encryption
                == EncryptionMode::Off),
    {
        let accepted = self.check_settings().is_none();
        TlsWarnings {
            unvalidated_certificate: accepted && self.trust_server_certificate,
            cleartext: accepted && self.encryption == EncryptionMode::Off,
        }
    }
}

/// Settings whose password is a `cred://` reference are always refused.
pub proof fn law_credential_reference_is_refused(spec: MssqlBackendSpec)
    requires
        has_prefix(spec.password@, "cred://"@),
    ensures
        spec_problem(spec) is Some,
{
}

/// The settings that are accepted are those with text in all four required
/// places, positive limits and a password of the service's own.
pub proof fn law_accepted_settings(spec: MssqlBackendSpec)
    ensures
        spec_problem(spec) is None <==> {
            &&& !blank(spec.host@)
            &&& !blank(spec.database@)
            &&& !blank(spec.user@)
            &&& !blank(spec.query@)
            &&& spec.timeout_ms > 0
            &&& spec.size_limit > 0
            &&& spec.pool_max_size > 0
            &&& !has_prefix(spec.password@, "cred://"@)
        },
{
}

/// The operations are called by their own names.
pub proof fn law_operation_names()
    ensures
        MssqlOp::Query.name() == "query"@,
        MssqlOp::Execute.name() == "execute"@,
{
}

/// The first thing that is wrong with the settings is what the operator is told:
/// first of the texts that are missing, then of the limits that are zero, and
/// last of a password that names a per-caller credential.
pub proof fn law_first_complaint_counts(spec: MssqlBackendSpec)
    ensures
        blank(spec.host@) ==> spec_problem(spec) == Some("host must not be empty"@),
        !blank(spec.host@) && blank(spec.database@) ==> spec_problem(spec) == Some(
            "database must not be empty"@,
        ),
        !blank(spec.host@) && !blank(spec.database@) && blank(spec.user@) ==> spec_problem(spec)
            == Some("user must not be empty"@),
        !blank(spec.host@) && !blank(spec.database@) && !blank(spec.user@) && blank(spec.query@)
            ==> spec_problem(spec) == Some("query must not be empty"@),
        !blank(spec.host@) && !blank(spec.database@) && !blank(spec.user@) && !blank(spec.query@)
            ==> {
            &&& spec.timeout_ms == 0 ==> spec_problem(spec) == Some(
                "timeout_ms must be greater than 0"@,
            )
            &&& spec.timeout_ms > 0 && spec.size_limit == 0 ==> spec_problem(spec) == Some(
                "size_limit must be greater than 0"@,
            )
            &&& spec.timeout_ms > 0 && spec.size_limit > 0 && spec.pool_max_size == 0
                ==> spec_problem(spec) == Some("pool_max_size must be greater than 0"@)
            &&& spec.timeout_ms > 0 && spec.size_limit > 0 && spec.pool_max_size > 0 && has_prefix(
                spec.password@,
                "cred://"@,
            ) ==> spec_problem(spec) == Some(
                "password must not be a cred:// URI — per-caller credentials are unsupported (the pool is one service identity); use ${env.X} / vault:// (resolved at config load) instead"@,
            )
        },
{
}

/// The settings other than the password are in order where what is left to
/// complain of, if anything, is the password.
pub proof fn law_settings_without_the_password(spec: MssqlBackendSpec)
    ensures
        settings_problem(spec) is None <==> {
            &&& !blank(spec.host@)
            &&& !blank(spec.database@)
            &&& !blank(spec.user@)
            &&& !blank(spec.query@)
            &&& spec.timeout_ms > 0
            &&& spec.size_limit > 0
            &&& spec.pool_max_size > 0
        },
        settings_problem(spec) is Some ==> spec_problem(spec) == settings_problem(spec),
{
}

/// A complaint is its text.
pub proof fn law_complaints_are_what_they_say(message: &'static str)
    ensures
        problem_view(Some(message)) == Some(message@),
        problem_view(None) is None,
{
}

} // verus!
