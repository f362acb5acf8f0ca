//! The backend: its registered bindings, and the course of one call from the
//! raw request to the response.
use crate::envelope::{
    build_result_envelope, classified, classify_error, describe_error, downstream_error,
    envelope_value, error_object, field, law_envelope_members, law_request_members,
    law_response_values, request_value, response_value,
};
use crate::expr::{cel_compiled, cel_may_give, may_become, CelView};
use crate::json::{
    add_member, items_view, lemma_last_position_range, lemma_members_of, lemma_placed, members_of,
    object_view, put_entry, viewed, Json, JsonNumber, JsonView,
};
use crate::mssql::{
    awaited, connection_trouble, law_connection_trouble_is_transport,
    law_rejections_are_not_transport, manager_settings, next_action, ran_out_of_time, rejected,
    statement_view, ActionView, Attempt, FailureView, ManagerView, MssqlManager, OutcomeView,
    QueryOutcome, StatementError, StatementEvent, StatementState,
};
use crate::observe::audit_action;
use crate::params::{
    argument_variables, bindable, compile_problem, compiled_from, evaluate_params,
    law_compiled_in_order, param_may_give, param_result, params_may_give, problem_is_printable,
    runs_return, sql_param, try_compile_params, values_view, CompiledParam, SqlParam,
};
use crate::text::{ascii_lower, blank, joined, same_ignoring_case, same_text};
use crate::types::{spec_problem, MssqlBackendSpec, MssqlOp};
use crate::wire::{json_parsed, json_rendered, parse_json, render_json};
use std::sync::Arc;
use vstd::prelude::*;

verus! {

/// Why the backend refused a binding or a call.
#[derive(Debug)]
pub enum BackendError {
    /// The settings of a binding, or the payload of a call, are not usable.
    InvalidSpec { message: String },
    /// No binding has that name.
    ProfileNotFound { backend_name: String },
    /// The response could not be handed on.
    Transport { message: String },
}

/// What a [`BackendError`] is.
pub enum ErrorView {
    InvalidSpec(Seq<char>),
    ProfileNotFound(Seq<char>),
    Transport(Seq<char>),
}

impl View for BackendError {
    type V = ErrorView;

    open spec fn view(&self) -> ErrorView {
        match *self {
            BackendError::InvalidSpec { message } => ErrorView::InvalidSpec(message@),
            BackendError::ProfileNotFound { backend_name } => ErrorView::ProfileNotFound(
                backend_name@,
            ),
            BackendError::Transport { message } => ErrorView::Transport(message@),
        }
    }
}

/// The bytes of a response.
#[derive(Debug)]
pub struct BackendResponse {
    pub payload: Vec<u8>,
    pub truncated: bool,
}

/// What the backend is called.
#[derive(Debug, Clone, Copy)]
pub struct PluginManifest {
    pub id: &'static str,
    pub name: &'static str,
}

/// What the backend is called.
pub fn backend_manifest() -> (manifest: PluginManifest)
    ensures
        manifest.id@ == "dev.mcpg.backend.mssql"@,
        manifest.name@ == "MSSQL Binding"@,
{
    PluginManifest { id: "dev.mcpg.backend.mssql", name: "MSSQL Binding" }
}

/// The kind of binding that the backend serves.
pub fn backend_kind() -> (kind: &'static str)
    ensures
        kind@ == "mssql"@,
{
    "mssql"
}

/// One registered binding: its pool, its statement and its limits.
pub struct MssqlProfile<P> {
    pub pool: P,
    pub query: String,
    pub compiled_params: Vec<CompiledParam>,
    pub op: MssqlOp,
    pub host: String,
    pub database: String,
    pub size_limit: usize,
    pub timeout_ms: u64,
}

impl<P> MssqlProfile<P> {
    /// The profile is the one that the settings describe.
    pub open spec fn made_from(self, spec: MssqlBackendSpec) -> bool {
        &&& self.query == spec.query
        &&& compiled_from(self.compiled_params@, spec.params@)
        &&& self.op == spec.op
        &&& self.host@ == spec.host@
        &&& self.database@ == spec.database@
        &&& self.size_limit == spec.size_limit
        &&& self.timeout_ms == spec.timeout_ms
    }

    /// The profile is of the kind that can be registered: its parameters are
    /// compiled, each at its place, it says where and what to run, and its limits
    /// leave room for a row and for some time.
    pub open spec fn well_formed(self) -> bool {
        &&& forall|i: int|
            0 <= i < self.compiled_params@.len() ==> (#[trigger] self.compiled_params@[i]).index
                == i && self.compiled_params@[i].well_compiled()
        &&& !blank(self.host@)
        &&& !blank(self.database@)
        &&& !blank(self.query@)
        &&& self.size_limit > 0
        &&& self.timeout_ms > 0
    }

    /// The same profile with another pool.
    pub open spec fn with_pool<Q>(self, pool: Q) -> MssqlProfile<Q> {
        MssqlProfile {
            pool,
            query: self.query,
            compiled_params: self.compiled_params,
            op: self.op,
            host: self.host,
            database: self.database,
            size_limit: self.size_limit,
            timeout_ms: self.timeout_ms,
        }
    }
}

/// What is needed to make the pool of a binding.
pub struct PoolPlan {
    pub manager: MssqlManager,
    pub max_size: usize,
}

/// The connection that the settings describe.
pub open spec fn described_manager(spec: MssqlBackendSpec) -> ManagerView {
    ManagerView {
        host: spec.host@,
        port: spec.port,
        database: spec.database@,
        user: spec.user@,
        password: spec.password@,
        encryption: spec.encryption,
        trust_cert: spec.trust_server_certificate,
    }
}

/// What is wrong with a binding, if anything is: its settings, or else one of
/// its parameter expressions.
pub open spec fn binding_problem(spec: MssqlBackendSpec) -> Option<Seq<char>> {
    match spec_problem(spec) {
        Some(message) => Some(message),
        None => compile_problem(spec.params@),
    }
}

/// A profile that was checked and still lacks its pool.
pub struct PreparedProfile {
    profile: MssqlProfile<()>,
}

impl View for PreparedProfile {
    type V = MssqlProfile<()>;

    closed spec fn view(&self) -> MssqlProfile<()> {
        self.profile
    }
}

impl PreparedProfile {
    #[verifier::type_invariant]
    spec fn checked(self) -> bool {
        self.profile.well_formed()
    }

    /// The profile, for reading.
    pub fn profile(&self) -> (profile: &MssqlProfile<()>)
        ensures
            *profile == self@,
            profile.well_formed(),
    {
        proof {
            use_type_invariant(self);
        }
        &self.profile
    }
}

/// Checks the settings of a binding and compiles its parameters. The profile
/// still lacks its pool, which the plan describes. The result is `None` where the
/// settings are in order and an expression does not compile, with errors that
/// cannot be printed.
pub fn prepare_profile(parsed: MssqlBackendSpec) -> (res: Option<
    Result<(PoolPlan, PreparedProfile), BackendError>,
>)
    ensures
        match res {
            Some(Ok((plan, profile))) => {
                &&& binding_problem(parsed) is None
                &&& plan.manager@ == described_manager(parsed)
                &&& plan.max_size == parsed.pool_max_size
                &&& profile@.made_from(parsed)
                &&& profile@.well_formed()
            },
            Some(Err(error)) => {
                &&& binding_problem(parsed) is Some
                &&& error@ == ErrorView::InvalidSpec(binding_problem(parsed)->Some_0)
                &&& spec_problem(parsed) is Some || problem_is_printable(parsed.params@)
            },
            None => spec_problem(parsed) is None && !problem_is_printable(parsed.params@),
        },
{
    match parsed.check() {
        Some(message) => {
            return Some(Err(BackendError::InvalidSpec { message: message.to_owned() }));
        },
        None => {},
    }
    match try_compile_params(parsed.params.as_slice()) {
        None => None,
        Some(Err(message)) => Some(Err(BackendError::InvalidSpec { message })),
        Some(Ok(compiled_params)) => {
            let manager = MssqlManager::new(
                parsed.host.clone(),
                parsed.port,
                parsed.database.clone(),
                parsed.user,
                parsed.password,
                parsed.encryption,
                parsed.trust_server_certificate,
            );
            let profile = MssqlProfile {
                pool: (),
                query: parsed.query,
                compiled_params,
                op: parsed.op,
                host: parsed.host,
                database: parsed.database,
                size_limit: parsed.size_limit,
                timeout_ms: parsed.timeout_ms,
            };
            let plan = PoolPlan { manager, max_size: parsed.pool_max_size };
            Some(Ok((plan, PreparedProfile { profile })))
        },
    }
}

/// `Arc::clone`: a second pointer to the same value.
#[verifier::external_body]
fn share<T>(value: &Arc<T>) -> (res: Arc<T>)
    ensures
        res == *value,
{
    Arc::clone(value)
}

/// The backend with its registered bindings, each of them well-formed. Where a
/// name was registered more than once, the last registration counts.
pub struct MssqlBackendPlugin<P> {
    profiles: Vec<(String, Arc<MssqlProfile<P>>)>,
}

/// The names and profiles of a registry.
spec fn profile_entries<P>(profiles: Seq<(String, Arc<MssqlProfile<P>>)>) -> Seq<
    (Seq<char>, MssqlProfile<P>),
> {
    viewed(profiles, |profile: Arc<MssqlProfile<P>>| *profile)
}

impl<P> View for MssqlBackendPlugin<P> {
    type V = Map<Seq<char>, MssqlProfile<P>>;

    closed spec fn view(&self) -> Map<Seq<char>, MssqlProfile<P>> {
        members_of(profile_entries(self.profiles@))
    }
}

impl<P> Default for MssqlBackendPlugin<P> {
    fn default() -> (plugin: MssqlBackendPlugin<P>)
        ensures
            plugin@ == Map::<Seq<char>, MssqlProfile<P>>::empty(),
    {
        MssqlBackendPlugin::new()
    }
}

impl<P> MssqlBackendPlugin<P> {
    #[verifier::type_invariant]
    spec fn all_well_formed(self) -> bool {
        forall|i: int|
            0 <= i < self.profiles@.len() ==> (#[trigger] self.profiles@[i]).1.well_formed()
    }

    /// The backend without any binding.
    pub fn new() -> (plugin: MssqlBackendPlugin<P>)
        ensures
            plugin@ == Map::<Seq<char>, MssqlProfile<P>>::empty(),
    {
        let plugin = MssqlBackendPlugin { profiles: Vec::new() };
        proof {
            assert(plugin@ =~= Map::<Seq<char>, MssqlProfile<P>>::empty());
        }
        plugin
    }

    /// What the backend is called.
    pub fn manifest(&self) -> (manifest: PluginManifest)
        ensures
            manifest.id@ == "dev.mcpg.backend.mssql"@,
            manifest.name@ == "MSSQL Binding"@,
    {
        backend_manifest()
    }

    /// The kind of binding that the backend serves.
    pub fn kind(&self) -> (kind: &'static str)
        ensures
            kind@ == "mssql"@,
    {
        backend_kind()
    }

    /// The position of the binding with the given name.
    fn position(&self, backend_name: &str) -> (res: Option<usize>)
        ensures
            ({
                let entries = profile_entries(self.profiles@);
                match res {
                    Some(at) => {
                        &&& at < entries.len()
                        &&& entries[at as int].0 == backend_name@
                        &&& forall|k: int|
                            at < k < entries.len() ==> (#[trigger] entries[k]).0 != backend_name@
                    },
                    None => forall|k: int|
                        0 <= k < entries.len() ==> (#[trigger] entries[k]).0 != backend_name@,
                }
            }),
    {
        let ghost entries = profile_entries(self.profiles@);
        let mut i: usize = self.profiles.len();
        while i > 0
            invariant
                i <= self.profiles@.len(),
                entries == profile_entries(self.profiles@),
                forall|k: int| i <= k < entries.len() ==> (#[trigger] entries[k]).0 != backend_name@,
            decreases i,
        {
            i = i - 1;
            if same_text(self.profiles[i].0.as_str(), backend_name) {
                return Some(i);
            }
            proof {
                assert(entries[i as int].0 != backend_name@);
            }
        }
        None
    }

    /// The binding with the given name.
    pub fn profile(&self, backend_name: &str) -> (res: Option<Arc<MssqlProfile<P>>>)
        ensures
            match res {
                Some(profile) => self@.contains_key(backend_name@) && *profile
                    == self@[backend_name@] && profile.well_formed(),
                None => !self@.contains_key(backend_name@),
            },
    {
        proof {
            use_type_invariant(self);
        }
        let ghost entries = profile_entries(self.profiles@);
        match self.position(backend_name) {
            Some(at) => {
                proof {
                    lemma_members_of(entries, backend_name@, at as int);
                }
                Some(share(&self.profiles[at].1))
            },
            None => {
                proof {
                    lemma_members_of(entries, backend_name@, -1);
                }
                None
            },
        }
    }

    /// Puts a profile under a name.
    fn insert(&mut self, backend_name: &str, profile: MssqlProfile<P>)
        requires
            profile.well_formed(),
        ensures
            final(self)@ == old(self)@.insert(backend_name@, profile),
    {
        proof {
            use_type_invariant(&*self);
        }
        let name = backend_name.to_owned();
        let shared = Arc::new(profile);
        let mut profiles: Vec<(String, Arc<MssqlProfile<P>>)> = Vec::new();
        std::mem::swap(&mut profiles, &mut self.profiles);
        proof {
            lemma_placed(
                profiles@,
                name,
                shared,
                |profile: Arc<MssqlProfile<P>>| *profile,
            );
            lemma_last_position_range(profiles@, name@);
        }
        put_entry(&mut profiles, name, shared);
        self.profiles = profiles;
    }

    /// Registers a binding once its pool was made, or refuses it where that
    /// failed. A refused binding leaves the registry as it was; an accepted one
    /// replaces the binding that had its name, and no other.
    pub fn register_profile(
        &mut self,
        backend_name: &str,
        profile: PreparedProfile,
        pool: Result<P, String>,
    ) -> (res: Result<(), BackendError>)
        ensures
            match (pool, res) {
                (Ok(made), Ok(_)) => {
                    &&& final(self)@ == old(self)@.insert(backend_name@, profile@.with_pool(made))
                    &&& profile@.with_pool(made).well_formed()
                },
                (Err(message), Err(error)) => error@ == ErrorView::InvalidSpec(message@)
                    && final(self)@ == old(self)@,
                _ => false,
            },
    {
        proof {
            use_type_invariant(&profile);
        }
        match pool {
            Err(message) => Err(BackendError::InvalidSpec { message }),
            Ok(made) => {
                let checked = profile.profile;
                let full = MssqlProfile {
                    pool: made,
                    query: checked.query,
                    compiled_params: checked.compiled_params,
                    op: checked.op,
                    host: checked.host,
                    database: checked.database,
                    size_limit: checked.size_limit,
                    timeout_ms: checked.timeout_ms,
                };
                self.insert(backend_name, full);
                Ok(())
            },
        }
    }
}

/// The arguments of a call: an empty object where the payload is empty, else
/// the JSON value that it holds.
pub open spec fn payload_arguments(payload: Seq<u8>) -> Result<JsonView, Seq<char>> {
    if payload.len() == 0 {
        Ok(JsonView::Object(Map::empty()))
    } else {
        match json_parsed(payload) {
            Ok(value) => Ok(value),
            Err(error) => Err(unreadable_message(error)),
        }
    }
}

/// The message for a payload that is not JSON.
pub open spec fn unreadable_message(error: Seq<char>) -> Seq<char> {
    "MSSQL plugin payload is not valid JSON: "@ + error
}

/// The arguments that were read, or the refusal of a payload that is not JSON.
pub fn accept_arguments(parsed: Result<Json, String>) -> (res: Result<Json, BackendError>)
    ensures
        match (parsed, res) {
            (Ok(value), Ok(arguments)) => arguments@ == value@,
            (Err(text), Err(error)) => error@ == ErrorView::InvalidSpec(unreadable_message(text@)),
            _ => false,
        },
{
    match parsed {
        Ok(value) => Ok(value),
        Err(error) => Err(
            BackendError::InvalidSpec {
                message: joined("MSSQL plugin payload is not valid JSON: ", error.as_str()),
            },
        ),
    }
}

/// The arguments of a call.
pub fn read_arguments(payload: &[u8]) -> (res: Result<Json, BackendError>)
    ensures
        match res {
            Ok(arguments) => payload_arguments(payload@) == Ok::<JsonView, Seq<char>>(
                arguments@,
            ),
            Err(error) => payload_arguments(payload@) is Err && error@ == ErrorView::InvalidSpec(
                payload_arguments(payload@)->Err_0,
            ),
        },
{
    if payload.len() == 0 {
        let entries: Vec<(String, Json)> = Vec::new();
        proof {
            assert(object_view(entries@) =~= Map::empty());
        }
        Ok(Json::Object(entries))
    } else {
        accept_arguments(parse_json(payload))
    }
}

/// Whether a header gives the name of the tool.
pub open spec fn names_tool(header: (String, String)) -> bool {
    ascii_lower(header.0@) == ascii_lower("mcpg-tool-name"@)
}

/// The name of the tool: the value of the first header that gives it, and the
/// name of the binding where none does.
pub open spec fn called_tool(headers: Seq<(String, String)>, backend_name: Seq<char>) -> Seq<char>
    decreases headers.len(),
{
    if headers.len() == 0 {
        backend_name
    } else if names_tool(headers[0]) {
        headers[0].1@
    } else {
        called_tool(headers.drop_first(), backend_name)
    }
}

/// The name of the tool that a call is for.
pub fn tool_name(headers: &[(String, String)], backend_name: &str) -> (name: String)
    ensures
        name@ == called_tool(headers@, backend_name@),
{
    let mut i: usize = 0;
    proof {
        assert(headers@.skip(0) =~= headers@);
    }
    while i < headers.len()
        invariant
            i <= headers@.len(),
            called_tool(headers@, backend_name@) == called_tool(
                headers@.skip(i as int),
                backend_name@,
            ),
        decreases headers@.len() - i,
    {
        if same_ignoring_case(headers[i].0.as_str(), "mcpg-tool-name") {
            return headers[i].1.clone();
        }
        proof {
            assert(headers@.skip(i as int).drop_first() =~= headers@.skip(i + 1));
        }
        i = i + 1;
    }
    backend_name.to_owned()
}

/// How a call goes on after its request was read.
pub enum Opened<P> {
    /// It ends with an error and is reported under the label.
    Refused { error: BackendError, label: &'static str },
    /// The parameters of the binding's statement are to be computed.
    Accepted { profile: Arc<MssqlProfile<P>>, tool_name: String, arguments: Json },
}

/// What an [`Opened`] call is.
pub enum OpenedView<P> {
    Refused { error: ErrorView, label: Seq<char> },
    Accepted { profile: MssqlProfile<P>, tool_name: Seq<char>, arguments: JsonView },
}

impl<P> View for Opened<P> {
    type V = OpenedView<P>;

    open spec fn view(&self) -> OpenedView<P> {
        match *self {
            Opened::Refused { error, label } => OpenedView::Refused {
                error: error@,
                label: label@,
            },
            Opened::Accepted { profile, tool_name, arguments } => OpenedView::Accepted {
                profile: *profile,
                tool_name: tool_name@,
                arguments: arguments@,
            },
        }
    }
}

/// How a call goes on with the binding that has its name: it is refused where
/// there is none or the payload is not JSON.
pub open spec fn opened<P>(
    known: Option<MssqlProfile<P>>,
    backend_name: Seq<char>,
    payload: Seq<u8>,
    headers: Seq<(String, String)>,
) -> OpenedView<P> {
    match (known, payload_arguments(payload)) {
        (None, _) => OpenedView::Refused {
            error: ErrorView::ProfileNotFound(backend_name),
            label: "profile_not_found"@,
        },
        (Some(_), Err(message)) => OpenedView::Refused {
            error: ErrorView::InvalidSpec(message),
            label: "invalid_spec"@,
        },
        (Some(profile), Ok(arguments)) => OpenedView::Accepted {
            profile,
            tool_name: called_tool(headers, backend_name),
            arguments,
        },
    }
}

/// The binding behind a shared pointer, if there is one.
pub open spec fn shared_profile<P>(profile: Option<Arc<MssqlProfile<P>>>) -> Option<
    MssqlProfile<P>,
> {
    match profile {
        Some(profile) => Some(*profile),
        None => None,
    }
}

/// Reads the request of a call. `profile` is the binding that has the name, if
/// there is one.
pub fn open_call<P>(
    profile: Option<Arc<MssqlProfile<P>>>,
    backend_name: &str,
    payload: &[u8],
    headers: &[(String, String)],
) -> (res: Opened<P>)
    ensures
        res@ == opened(shared_profile(profile), backend_name@, payload@, headers@),
{
    let profile = match profile {
        Some(profile) => profile,
        None => {
            let error = BackendError::ProfileNotFound { backend_name: backend_name.to_owned() };
            return Opened::Refused { error, label: "profile_not_found" };
        },
    };
    match read_arguments(payload) {
        Ok(arguments) => Opened::Accepted {
            profile,
            tool_name: tool_name(headers, backend_name),
            arguments,
        },
        Err(error) => Opened::Refused { error, label: "invalid_spec" },
    }
}

/// The binding that has a name, if there is one.
pub open spec fn registered<P>(
    profiles: Map<Seq<char>, MssqlProfile<P>>,
    backend_name: Seq<char>,
) -> Option<MssqlProfile<P>> {
    if profiles.contains_key(backend_name) {
        Some(profiles[backend_name])
    } else {
        None
    }
}

impl<P> MssqlBackendPlugin<P> {
    /// Reads the request of a call.
    pub fn begin_execute(
        &self,
        backend_name: &str,
        payload: &[u8],
        headers: &[(String, String)],
    ) -> (res: Opened<P>)
        ensures
            res@ == opened(registered(self@, backend_name@), backend_name@, payload@, headers@),
            match res {
                Opened::Accepted { profile, .. } => profile.well_formed(),
                Opened::Refused { .. } => true,
            },
    {
        open_call(self.profile(backend_name), backend_name, payload, headers)
    }
}

/// The message for parameters that could not be computed.
pub open spec fn evaluating_message(message: Seq<char>) -> Seq<char> {
    "evaluating params: "@ + message
}

/// Whether `bound` is what a binding's parameters may give for the arguments: the
/// values to bind, or the message that they could not be computed.
pub open spec fn may_compute<P>(
    profile: MssqlProfile<P>,
    arguments: JsonView,
    bound: Result<Seq<JsonView>, Seq<char>>,
) -> bool {
    match bound {
        Ok(values) => params_may_give(profile.compiled_params@, arguments, Ok(values)),
        Err(message) => exists|text: Seq<char>|
            message == evaluating_message(text) && #[trigger] params_may_give(
                profile.compiled_params@,
                arguments,
                Err(text),
            ),
    }
}

/// The values of a call's parameters, or the message that they could not be
/// computed.
pub fn accept_values(values: Result<Vec<Json>, String>) -> (res: Result<Vec<Json>, String>)
    ensures
        match (values, res) {
            (Ok(given), Ok(bound)) => bound == given,
            (Err(text), Err(message)) => message@ == evaluating_message(text@),
            _ => false,
        },
{
    match values {
        Ok(bound) => Ok(bound),
        Err(text) => Err(joined("evaluating params: ", text.as_str())),
    }
}

/// Computes the parameters of a binding's statement from a call's arguments. Where
/// the interpreter does not return, neither does this.
pub fn compute_values<P>(profile: &MssqlProfile<P>, arguments: &Json) -> (res: Result<
    Vec<Json>,
    String,
>)
    requires
        runs_return(profile.compiled_params@, arguments@),
    ensures
        may_compute(*profile, arguments@, values_view(res)),
{
    let values = evaluate_params(profile.compiled_params.as_slice(), arguments);
    accept_values(values)
}

/// How a call may go on up to its statement: it is refused, or its parameters
/// give these values or this message.
pub enum BegunView<P> {
    Refused { error: ErrorView, label: Seq<char> },
    Computed {
        profile: MssqlProfile<P>,
        tool_name: Seq<char>,
        bound: Result<Seq<JsonView>, Seq<char>>,
    },
}

/// Whether a call may go on so.
pub open spec fn may_begin<P>(
    known: Option<MssqlProfile<P>>,
    backend_name: Seq<char>,
    payload: Seq<u8>,
    headers: Seq<(String, String)>,
    begun: BegunView<P>,
) -> bool {
    match (opened(known, backend_name, payload, headers), begun) {
        (
            OpenedView::Refused { error, label },
            BegunView::Refused { error: e, label: l },
        ) => e == error && l == label,
        (
            OpenedView::Accepted { profile, tool_name, arguments },
            BegunView::Computed { profile: p, tool_name: t, bound },
        ) => p == profile && t == tool_name && may_compute(profile, arguments, bound),
        _ => false,
    }
}

/// An empty payload means the empty object: a call with a payload that is read as
/// that object goes on exactly as one without a payload.
pub proof fn law_empty_payload_is_the_empty_object<P>(
    known: Option<MssqlProfile<P>>,
    backend_name: Seq<char>,
    payload: Seq<u8>,
    headers: Seq<(String, String)>,
    begun: BegunView<P>,
)
    requires
        json_parsed(payload) == Ok::<JsonView, Seq<char>>(JsonView::Object(Map::empty())),
    ensures
        opened(known, backend_name, payload, headers) == opened(
            known,
            backend_name,
            Seq::empty(),
            headers,
        ),
        may_begin(known, backend_name, payload, headers, begun) == may_begin(
            known,
            backend_name,
            Seq::empty(),
            headers,
            begun,
        ),
{
}

/// What the host adds to its audit records of a binding.
pub fn audit_metadata() -> (metadata: Json)
    ensures
        metadata@ == JsonView::Object(map!["mssql.transport"@ => JsonView::String("plugin"@)]),
{
    let mut entries: Vec<(String, Json)> = Vec::new();
    add_member(&mut entries, "mssql.transport", Json::text("plugin"));
    proof {
        assert(object_view(entries@) =~= map![
            "mssql.transport"@ => JsonView::String("plugin"@),
        ]);
    }
    Json::Object(entries)
}

/// The attributes of the span around a call.
pub fn span_attributes(backend_name: &str, request_id: &str) -> (attributes: Json)
    ensures
        attributes@ == JsonView::Object(
            map![
                "backend"@ => JsonView::String(backend_name@),
                "request_id"@ => JsonView::String(request_id@),
            ],
        ),
{
    let mut entries: Vec<(String, Json)> = Vec::new();
    add_member(&mut entries, "backend", Json::text(backend_name));
    add_member(&mut entries, "request_id", Json::text(request_id));
    proof {
        assert(object_view(entries@) =~= map![
            "backend"@ => JsonView::String(backend_name@),
            "request_id"@ => JsonView::String(request_id@),
        ]);
    }
    Json::Object(entries)
}

/// The response of a call whose statement ended so.
pub open spec fn call_envelope<P>(
    profile: MssqlProfile<P>,
    backend_name: Seq<char>,
    tool_name: Seq<char>,
    result: Result<OutcomeView, FailureView>,
    duration_ms: u128,
) -> JsonView {
    match result {
        Ok(outcome) => envelope_value(
            tool_name,
            backend_name,
            request_value(profile.host@, profile.database@, profile.op.name()),
            response_value(outcome.rows, outcome.rows_affected, duration_ms),
            None,
            None,
        ),
        Err(error) => failed_envelope(
            profile,
            backend_name,
            tool_name,
            error.message,
            error_object(error.message, error.transport),
        ),
    }
}

/// The response of a call that failed with the message and the error object.
pub open spec fn failed_envelope<P>(
    profile: MssqlProfile<P>,
    backend_name: Seq<char>,
    tool_name: Seq<char>,
    message: Seq<char>,
    error_slot: JsonView,
) -> JsonView {
    envelope_value(
        tool_name,
        backend_name,
        request_value(profile.host@, profile.database@, profile.op.name()),
        JsonView::Null,
        Some(error_slot),
        Some(message),
    )
}

/// The label under which a call is reported.
pub open spec fn outcome_label(result: Result<OutcomeView, FailureView>) -> Seq<char> {
    match result {
        Ok(_) => "ok"@,
        Err(error) => if error.timeout {
            "timeout"@
        } else if error.transport {
            "transport_error"@
        } else {
            "mssql_error"@
        },
    }
}

/// A call that has its response.
#[derive(Debug)]
pub struct Completed {
    pub envelope: Json,
    pub label: &'static str,
    pub reason: Option<String>,
}

/// What the reason in a report is.
pub open spec fn completed_reason(reason: Option<String>) -> Option<Seq<char>> {
    match reason {
        Some(text) => Some(text@),
        None => None,
    }
}

/// The response to an error, with the profile's place and operation.
fn error_envelope<P>(
    profile: &MssqlProfile<P>,
    backend_name: &str,
    tool_name: &str,
    message: &str,
    downstream: &Json,
    duration_ms: u128,
) -> (envelope: Json)
    ensures
        envelope@ == failed_envelope(
            *profile,
            backend_name@,
            tool_name@,
            message@,
            downstream@,
        ),
{
    let envelope = build_result_envelope(
        tool_name,
        backend_name,
        profile.host.as_str(),
        profile.database.as_str(),
        profile.op.as_str(),
        None,
        None,
        duration_ms,
        Some(downstream),
        Some(message),
    );
    proof {
        assert(envelope@->Object_0 =~= failed_envelope(
            *profile,
            backend_name@,
            tool_name@,
            message@,
            downstream@,
        )->Object_0);
    }
    envelope
}

/// Ends a call whose parameters could not be computed.
pub fn finish_error<P>(
    profile: &MssqlProfile<P>,
    backend_name: &str,
    tool_name: &str,
    message: String,
    duration_ms: u128,
) -> (completed: Completed)
    ensures
        completed.envelope@ == failed_envelope(
            *profile,
            backend_name@,
            tool_name@,
            message@,
            classified(message@),
        ),
        completed.label@ == "invalid_spec"@,
        completed_reason(completed.reason) == Some(message@),
{
    let downstream = classify_error(message.as_str());
    let envelope = error_envelope(
        profile,
        backend_name,
        tool_name,
        message.as_str(),
        &downstream,
        duration_ms,
    );
    Completed { envelope, label: "invalid_spec", reason: Some(message) }
}

/// Ends a call whose statement was run. The duration of one that succeeded is
/// below 2^64 milliseconds.
pub fn complete_execute<P>(
    profile: &MssqlProfile<P>,
    backend_name: &str,
    tool_name: &str,
    result: Result<QueryOutcome, StatementError>,
    duration_ms: u128,
) -> (completed: Completed)
    requires
        result is Ok ==> duration_ms <= u64::MAX,
    ensures
        completed.envelope@ == call_envelope(
            *profile,
            backend_name@,
            tool_name@,
            statement_view(result),
            duration_ms,
        ),
        completed.label@ == outcome_label(statement_view(result)),
        completed_reason(completed.reason) == match statement_view(result) {
            Ok(_) => None,
            Err(error) => Some(error.message),
        },
{
    match result {
        Ok(outcome) => {
            let rows = match &outcome.rows {
                Some(rows) => Some(rows),
                None => None,
            };
            let envelope = build_result_envelope(
                tool_name,
                backend_name,
                profile.host.as_str(),
                profile.database.as_str(),
                profile.op.as_str(),
                rows,
                outcome.rows_affected,
                duration_ms,
                None,
                None,
            );
            Completed { envelope, label: "ok", reason: None }
        },
        Err(error) => {
            let label = if error.timeout {
                "timeout"
            } else if error.transport {
                "transport_error"
            } else {
                "mssql_error"
            };
            let downstream = describe_error(error.message.as_str(), error.transport);
            let envelope = error_envelope(
                profile,
                backend_name,
                tool_name,
                error.message.as_str(),
                &downstream,
                duration_ms,
            );
            Completed { envelope, label, reason: Some(error.message) }
        },
    }
}

/// The response for an envelope that was written out, or the error of one that
/// could not be.
pub fn accept_payload(rendered: Result<Vec<u8>, String>) -> (res: Result<
    BackendResponse,
    BackendError,
>)
    ensures
        match (rendered, res) {
            (Ok(payload), Ok(response)) => response.payload == payload && !response.truncated,
            (Err(text), Err(error)) => error@ == ErrorView::Transport(
                "MSSQL plugin envelope serialization failed: "@ + text@,
            ),
            _ => false,
        },
{
    match rendered {
        Ok(payload) => Ok(BackendResponse { payload, truncated: false }),
        Err(error) => Err(
            BackendError::Transport {
                message: joined("MSSQL plugin envelope serialization failed: ", error.as_str()),
            },
        ),
    }
}

/// The response for an envelope: its JSON text, whole.
pub fn finalize_payload(envelope: Json) -> (res: Result<BackendResponse, BackendError>)
    ensures
        res is Ok,
        res->Ok_0.payload@ == json_rendered(envelope@),
        !res->Ok_0.truncated,
{
    accept_payload(render_json(&envelope))
}

/// A profile keeps to the settings when it gets its pool, and one that was made
/// from settings in order is well-formed.
pub proof fn law_registered_profile_keeps_the_settings<P>(
    spec: MssqlBackendSpec,
    profile: MssqlProfile<()>,
    pool: P,
)
    requires
        profile.made_from(spec),
    ensures
        profile.with_pool(pool).made_from(spec),
        spec_problem(spec) is None ==> profile.with_pool(pool).well_formed(),
{
}

/// A response has null as its error object exactly where the call succeeded,
/// and then it also has no error text and a response part; a failed call's
/// response part is null and its error text is the message.
pub proof fn law_error_slot_marks_failure<P>(
    profile: MssqlProfile<P>,
    backend_name: Seq<char>,
    tool_name: Seq<char>,
    result: Result<OutcomeView, FailureView>,
    duration_ms: u128,
)
    ensures
        ({
            let envelope = call_envelope(profile, backend_name, tool_name, result, duration_ms);
            &&& result is Ok <==> field(envelope, "downstreamError"@) == Some(JsonView::Null)
            &&& result is Err <==> field(envelope, "response"@) == Some(JsonView::Null)
            &&& match result {
                Ok(_) => field(envelope, "error"@) == Some(JsonView::Null),
                Err(error) => {
                    let slot = error_object(error.message, error.transport);
                    &&& field(envelope, "error"@) == Some(JsonView::String(error.message))
                    &&& field(envelope, "downstreamError"@) == Some(slot)
                    &&& field(envelope, "downstreamErrors"@) == Some(
                        JsonView::Array(seq![slot]),
                    )
                },
            }
        }),
{
    let request = request_value(profile.host@, profile.database@, profile.op.name());
    match result {
        Ok(outcome) => law_envelope_members(
            tool_name,
            backend_name,
            request,
            response_value(outcome.rows, outcome.rows_affected, duration_ms),
            None,
            None,
        ),
        Err(error) => law_envelope_members(
            tool_name,
            backend_name,
            request,
            JsonView::Null,
            Some(error_object(error.message, error.transport)),
            Some(error.message),
        ),
    }
}

/// A call is audited exactly where it failed.
pub proof fn law_failures_are_audited(result: Result<OutcomeView, FailureView>)
    ensures
        audit_action(outcome_label(result)) is Some <==> result is Err,
        audit_action("invalid_spec"@) is Some,
        audit_action("profile_not_found"@) is None,
{
    reveal_strlit("ok");
    reveal_strlit("timeout");
    reveal_strlit("transport_error");
    reveal_strlit("mssql_error");
    reveal_strlit("invalid_spec");
    reveal_strlit("profile_not_found");
    assert("ok"@.len() == 2);
    assert("timeout"@.len() == 7);
    assert("transport_error"@.len() == 15);
    assert("mssql_error"@.len() == 11);
    assert("invalid_spec"@.len() == 12);
    assert("profile_not_found"@.len() == 17);
}

/// A call that got no connection, or ran out of time at any step, has a retryable
/// transport error in its response; one that ran out of time is reported as a
/// timeout.
pub proof fn law_connection_trouble_is_retryable<P>(
    profile: MssqlProfile<P>,
    backend_name: Seq<char>,
    tool_name: Seq<char>,
    state: StatementState,
    event: StatementEvent,
    duration_ms: u128,
)
    requires
        awaited(state, event),
        connection_trouble(event),
    ensures
        match next_action(state, event) {
            ActionView::Finish(Err(error)) => {
                &&& field(
                    call_envelope(profile, backend_name, tool_name, Err(error), duration_ms),
                    "downstreamError"@,
                ) == Some(downstream_error("transport_error"@, error.message, true))
                &&& ran_out_of_time(event) ==> outcome_label(Err(error)) == "timeout"@
            },
            _ => false,
        },
{
    law_connection_trouble_is_transport(state, event);
    if let ActionView::Finish(result) = next_action(state, event) {
        law_error_slot_marks_failure(profile, backend_name, tool_name, result, duration_ms);
    }
}

/// A call whose statement the server rejected has an error in its response that
/// is never retryable, and is reported as a rejection, whatever the server says
/// of it and whatever names it quotes.
pub proof fn law_rejections_are_not_retryable<P>(
    profile: MssqlProfile<P>,
    backend_name: Seq<char>,
    tool_name: Seq<char>,
    state: StatementState,
    event: StatementEvent,
    duration_ms: u128,
)
    requires
        awaited(state, event),
        rejected(event),
    ensures
        match next_action(state, event) {
            ActionView::Finish(Err(error)) => {
                &&& field(
                    call_envelope(profile, backend_name, tool_name, Err(error), duration_ms),
                    "downstreamError"@,
                ) == Some(downstream_error("mssql_error"@, error.message, false))
                &&& outcome_label(Err(error)) == "mssql_error"@
            },
            _ => false,
        },
{
    law_rejections_are_not_transport(state, event);
    if let ActionView::Finish(result) = next_action(state, event) {
        law_error_slot_marks_failure(profile, backend_name, tool_name, result, duration_ms);
    }
}

/// What an action sends to the server: the text and the bound values.
pub open spec fn sent(action: ActionView) -> Option<(Seq<char>, Seq<SqlParam>)> {
    match action {
        ActionView::SendQuery(text, params) => Some((text, params)),
        ActionView::SendExecute(text, params) => Some((text, params)),
        _ => None,
    }
}

/// What the server gets for a call is the operator's statement, unchanged, with
/// one bound value per parameter expression: `@P{i+1}` is what the expression
/// `params[i]` gave for the call's arguments.
pub proof fn law_expressions_are_bound_by_position<P>(
    spec: MssqlBackendSpec,
    profile: MssqlProfile<P>,
    arguments: JsonView,
    bound: Vec<Json>,
    i: int,
)
    requires
        profile.made_from(spec),
        params_may_give(profile.compiled_params@, arguments, Ok(items_view(bound@))),
        bindable(items_view(bound@)),
        0 <= i < spec.params@.len(),
    ensures
        ({
            let state = StatementState::Acquiring {
                statement: profile.query,
                bound,
                op: profile.op,
                size_limit: profile.size_limit,
            };
            let action = next_action(state, StatementEvent::Acquired(Attempt::Done(())));
            sent(action) matches Some((text, params)) && {
                &&& text == spec.query@
                &&& params.len() == spec.params@.len()
                &&& cel_compiled(spec.params@[i]@) is Ok
                &&& exists|value: CelView|
                    #[trigger] cel_may_give(
                        cel_compiled(spec.params@[i]@)->Ok_0,
                        argument_variables(arguments),
                        Ok(value),
                    ) && exists|json: JsonView| #[trigger]
                        may_become(value, json) && Some(params[i]) == sql_param(json)
            }
        }),
{
    let param = profile.compiled_params@[i];
    assert(param.well_compiled());
    let values = items_view(bound@);
    assert(param_may_give(param, arguments, Ok(values[i])));
    let outcome = choose|outcome: Result<CelView, Seq<char>>|
        #[trigger] cel_may_give(param.program, argument_variables(arguments), outcome)
            && param_result(param.index as int, param.source@, outcome, Ok(values[i]));
    let value = outcome->Ok_0;
    assert(cel_may_give(
        cel_compiled(spec.params@[i]@)->Ok_0,
        argument_variables(arguments),
        Ok(value),
    ));
    assert(may_become(value, values[i]));
    assert(sql_param(values[i]) is Some);
}

/// An error is what it says.
pub proof fn law_errors_are_what_they_say(text: String)
    ensures
        (BackendError::InvalidSpec { message: text })@ == ErrorView::InvalidSpec(text@),
        (BackendError::ProfileNotFound { backend_name: text })@ == ErrorView::ProfileNotFound(
            text@,
        ),
        (BackendError::Transport { message: text })@ == ErrorView::Transport(text@),
{
}

/// A profile made from settings has their statement, operation, place and limits,
/// and for each of their expressions, at its position, its program.
pub proof fn law_profile_has_the_settings<P>(
    profile: MssqlProfile<P>,
    spec: MssqlBackendSpec,
    i: int,
)
    requires
        profile.made_from(spec),
    ensures
        profile.query@ == spec.query@,
        profile.op == spec.op,
        profile.host@ == spec.host@,
        profile.database@ == spec.database@,
        profile.size_limit == spec.size_limit,
        profile.timeout_ms == spec.timeout_ms,
        profile.compiled_params@.len() == spec.params@.len(),
        0 <= i < spec.params@.len() ==> {
            let param = profile.compiled_params@[i];
            &&& param.index == i
            &&& param.source@ == spec.params@[i]@
            &&& cel_compiled(spec.params@[i]@) == Ok::<cel::Program, cel::ParseErrors>(
                param.program,
            )
        },
{
    law_compiled_in_order(profile.compiled_params@, spec.params@, i);
}

/// A profile that gets its pool has that pool, and is otherwise as it was.
pub proof fn law_pool_is_all_that_is_added<P, Q>(profile: MssqlProfile<P>, pool: Q)
    ensures
        profile.with_pool(pool).pool == pool,
        profile.with_pool(pool).query == profile.query,
        profile.with_pool(pool).compiled_params == profile.compiled_params,
        profile.with_pool(pool).op == profile.op,
        profile.with_pool(pool).host == profile.host,
        profile.with_pool(pool).database == profile.database,
        profile.with_pool(pool).size_limit == profile.size_limit,
        profile.with_pool(pool).timeout_ms == profile.timeout_ms,
{
}

/// A well-formed profile says where and what to run, leaves room for a row and
/// for some time, and has for each parameter, at its position, the program of its
/// source.
pub proof fn law_well_formed_profile<P>(profile: MssqlProfile<P>, i: int)
    requires
        profile.well_formed(),
    ensures
        !blank(profile.host@),
        !blank(profile.database@),
        !blank(profile.query@),
        profile.size_limit >= 1,
        profile.timeout_ms >= 1,
        0 <= i < profile.compiled_params@.len() ==> {
            let param = profile.compiled_params@[i];
            &&& param.index == i
            &&& cel_compiled(param.source@) == Ok::<cel::Program, cel::ParseErrors>(param.program)
        },
{
    if 0 <= i < profile.compiled_params@.len() {
        assert(profile.compiled_params@[i].well_compiled());
    }
}

/// The connections of a binding go to the host, port and database of its
/// settings, log in with their user and their password, and encrypt and trust as
/// they say.
pub proof fn law_binding_connects_as_configured(spec: MssqlBackendSpec)
    ensures
        ({
            let manager = described_manager(spec);
            &&& manager.host == spec.host@
            &&& manager.port == spec.port
            &&& manager.database == spec.database@
            &&& manager.user == spec.user@
            &&& manager.password == spec.password@
            &&& manager.encryption == spec.encryption
            &&& manager.trust_cert == spec.trust_server_certificate
        }),
        ({
            let config = manager_settings(described_manager(spec));
            &&& config.host == Some(spec.host@)
            &&& config.port == Some(spec.port)
            &&& config.database == Some(spec.database@)
            &&& config.login == Some((spec.user@, spec.password@))
            &&& config.encryption == spec.encryption
            &&& config.trust_all == spec.trust_server_certificate
        }),
{
}

/// A binding is refused for its settings before its expressions, and accepted
/// where neither has a problem.
pub proof fn law_settings_come_before_expressions(spec: MssqlBackendSpec)
    ensures
        spec_problem(spec) is Some ==> binding_problem(spec) == spec_problem(spec),
        spec_problem(spec) is None ==> binding_problem(spec) == compile_problem(spec.params@),
{
}

/// A name that was registered finds the binding that was registered last under
/// it, and every other name what it found before.
pub proof fn law_registration_changes_one_name<P>(
    profiles: Map<Seq<char>, MssqlProfile<P>>,
    name: Seq<char>,
    profile: MssqlProfile<P>,
    other: Seq<char>,
)
    ensures
        registered(profiles.insert(name, profile), name) == Some(profile),
        other != name ==> registered(profiles.insert(name, profile), other) == registered(
            profiles,
            other,
        ),
        registered(Map::<Seq<char>, MssqlProfile<P>>::empty(), name) is None,
        registered(profiles, other) is Some <==> profiles.contains_key(other),
{
}

/// The arguments of a call are what its payload says: the JSON value that is read
/// from it, the empty object where it is empty, and a refusal with the reason
/// where it is not JSON.
pub proof fn law_arguments_are_the_payload(payload: Seq<u8>)
    ensures
        payload_arguments(Seq::empty()) == Ok::<JsonView, Seq<char>>(
            JsonView::Object(Map::empty()),
        ),
        payload.len() > 0 ==> match json_parsed(payload) {
            Ok(value) => payload_arguments(payload) == Ok::<JsonView, Seq<char>>(value),
            Err(error) => payload_arguments(payload) == Err::<JsonView, Seq<char>>(
                "MSSQL plugin payload is not valid JSON: "@ + error,
            ),
        },
{
}

/// The tool of a call is the value of the first header called `mcpg-tool-name`,
/// in any case, and the name of the binding where no header is.
pub proof fn law_first_tool_header_counts(
    headers: Seq<(String, String)>,
    backend_name: Seq<char>,
    at: int,
)
    requires
        0 <= at <= headers.len(),
        forall|i: int|
            0 <= i < at ==> ascii_lower((#[trigger] headers[i]).0@) != "mcpg-tool-name"@,
        at < headers.len() ==> ascii_lower(headers[at].0@) == "mcpg-tool-name"@,
    ensures
        called_tool(headers, backend_name) == if at < headers.len() {
            headers[at].1@
        } else {
            backend_name
        },
    decreases headers.len(),
{
    reveal_strlit("mcpg-tool-name");
    assert(ascii_lower("mcpg-tool-name"@) =~= "mcpg-tool-name"@);
    if at > 0 {
        let tail = headers.drop_first();
        assert(ascii_lower(headers[0].0@) != "mcpg-tool-name"@);
        assert forall|i: int| 0 <= i < at - 1 implies ascii_lower((#[trigger] tail[i]).0@)
            != "mcpg-tool-name"@ by {
            assert(ascii_lower(headers[i + 1].0@) != "mcpg-tool-name"@);
        }
        law_first_tool_header_counts(tail, backend_name, at - 1);
    }
}

/// A call of an unknown binding is refused by its name; one with a payload that
/// is not JSON is refused with the reason; any other goes on with the binding,
/// the tool and the arguments that it names.
pub proof fn law_calls_are_opened<P>(
    profile: MssqlProfile<P>,
    backend_name: Seq<char>,
    payload: Seq<u8>,
    headers: Seq<(String, String)>,
)
    ensures
        opened::<P>(None, backend_name, payload, headers) == (OpenedView::<P>::Refused {
            error: ErrorView::ProfileNotFound(backend_name),
            label: "profile_not_found"@,
        }),
        match payload_arguments(payload) {
            Ok(arguments) => opened(Some(profile), backend_name, payload, headers) == (
            OpenedView::Accepted {
                profile,
                tool_name: called_tool(headers, backend_name),
                arguments,
            }),
            Err(message) => opened(Some(profile), backend_name, payload, headers) == (
            OpenedView::<P>::Refused {
                error: ErrorView::InvalidSpec(message),
                label: "invalid_spec"@,
            }),
        },
{
}

/// How a call goes on is what it says.
pub proof fn law_opened_calls_are_what_they_hold<P>(
    profile: Arc<MssqlProfile<P>>,
    tool: String,
    arguments: Json,
    error: BackendError,
    label: &'static str,
)
    ensures
        (Opened::Accepted { profile, tool_name: tool, arguments })@ == (OpenedView::Accepted {
            profile: *profile,
            tool_name: tool@,
            arguments: arguments@,
        }),
        (Opened::<P>::Refused { error, label })@ == (OpenedView::<P>::Refused {
            error: error@,
            label: label@,
        }),
        shared_profile(Some(profile)) == Some(*profile),
        shared_profile::<P>(None) is None,
{
}

/// The values of a call's parameters are those that the parameters give; a
/// failure has its message behind `evaluating params: `.
pub proof fn law_computed_values<P>(
    profile: MssqlProfile<P>,
    arguments: JsonView,
    values: Seq<JsonView>,
    message: Seq<char>,
)
    ensures
        may_compute(profile, arguments, Ok(values)) <==> params_may_give(
            profile.compiled_params@,
            arguments,
            Ok(values),
        ),
        may_compute(profile, arguments, Err(message)) <==> exists|text: Seq<char>|
            message == "evaluating params: "@ + text && #[trigger] params_may_give(
                profile.compiled_params@,
                arguments,
                Err(text),
            ),
        evaluating_message(message) == "evaluating params: "@ + message,
{
    if may_compute(profile, arguments, Err(message)) {
        let text = choose|text: Seq<char>|
            message == evaluating_message(text) && #[trigger] params_may_give(
                profile.compiled_params@,
                arguments,
                Err(text),
            );
        assert(params_may_give(profile.compiled_params@, arguments, Err(text)));
    }
}

/// The response of a call names its tool, its binding, and where and what it ran.
pub proof fn law_response_names_its_call<P>(
    profile: MssqlProfile<P>,
    backend_name: Seq<char>,
    tool_name: Seq<char>,
    result: Result<OutcomeView, FailureView>,
    duration_ms: u128,
)
    ensures
        ({
            let envelope = call_envelope(profile, backend_name, tool_name, result, duration_ms);
            &&& field(envelope, "toolName"@) == Some(JsonView::String(tool_name))
            &&& field(envelope, "profile"@) == Some(JsonView::String(backend_name))
            &&& field(envelope, "request"@) matches Some(request) && {
                &&& field(request, "host"@) == Some(JsonView::String(profile.host@))
                &&& field(request, "database"@) == Some(JsonView::String(profile.database@))
                &&& field(request, "op"@) == Some(
                    JsonView::String(
                        match profile.op {
                            MssqlOp::Query => "query"@,
                            MssqlOp::Execute => "execute"@,
                        },
                    ),
                )
            }
        }),
{
    let request = request_value(profile.host@, profile.database@, profile.op.name());
    law_request_members(profile.host@, profile.database@, profile.op.name(), "op"@);
    match result {
        Ok(outcome) => law_envelope_members(
            tool_name,
            backend_name,
            request,
            response_value(outcome.rows, outcome.rows_affected, duration_ms),
            None,
            None,
        ),
        Err(error) => law_envelope_members(
            tool_name,
            backend_name,
            request,
            JsonView::Null,
            Some(error_object(error.message, error.transport)),
            Some(error.message),
        ),
    }
}

/// The response of a call that succeeded has its rows and their count, or the
/// rows affected, with the time that it took, and no error.
pub proof fn law_success_is_answered<P>(
    profile: MssqlProfile<P>,
    backend_name: Seq<char>,
    tool_name: Seq<char>,
    rows: Seq<JsonView>,
    rows_affected: u64,
    duration_ms: u128,
)
    requires
        rows.len() <= u64::MAX,
        duration_ms <= u64::MAX,
    ensures
        ({
            let result = Ok(OutcomeView { rows: Some(rows), rows_affected: None });
            let envelope = call_envelope(profile, backend_name, tool_name, result, duration_ms);
            &&& field(envelope, "response"@) matches Some(answer) && {
                let count = field(answer, "count"@);
                let duration = field(answer, "durationMs"@);
                &&& field(answer, "rows"@) == Some(JsonView::Array(rows))
                &&& field(answer, "rowsAffected"@) == Some(JsonView::Null)
                &&& count matches Some(JsonView::Number(JsonNumber::PosInt(n))) && n as int
                    == rows.len()
                &&& duration matches Some(JsonView::Number(JsonNumber::PosInt(n))) && n as int
                    == duration_ms as int
            }
            &&& field(envelope, "downstreamError"@) == Some(JsonView::Null)
            &&& field(envelope, "downstreamErrors"@) == Some(JsonView::Array(Seq::empty()))
            &&& field(envelope, "error"@) == Some(JsonView::Null)
        }),
        ({
            let result = Ok(OutcomeView { rows: None, rows_affected: Some(rows_affected) });
            let envelope = call_envelope(profile, backend_name, tool_name, result, duration_ms);
            &&& field(envelope, "response"@) matches Some(answer) && {
                let duration = field(answer, "durationMs"@);
                &&& field(answer, "rows"@) == Some(JsonView::Null)
                &&& field(answer, "count"@) == Some(JsonView::Null)
                &&& field(answer, "rowsAffected"@) == Some(
                    JsonView::Number(JsonNumber::PosInt(rows_affected)),
                )
                &&& duration matches Some(JsonView::Number(JsonNumber::PosInt(n))) && n as int
                    == duration_ms as int
            }
            &&& field(envelope, "downstreamError"@) == Some(JsonView::Null)
            &&& field(envelope, "downstreamErrors"@) == Some(JsonView::Array(Seq::empty()))
            &&& field(envelope, "error"@) == Some(JsonView::Null)
        }),
{
    let request = request_value(profile.host@, profile.database@, profile.op.name());
    law_response_values(rows, rows_affected, duration_ms, "rows"@);
    law_envelope_members(
        tool_name,
        backend_name,
        request,
        response_value(Some(rows), None, duration_ms),
        None,
        None,
    );
    law_envelope_members(
        tool_name,
        backend_name,
        request,
        response_value(None, Some(rows_affected), duration_ms),
        None,
        None,
    );
}

/// The response of a call that failed, in its statement or before it, has the
/// message as its error, the error object once alone and once in the list, and
/// no answer; it names its tool, its binding, and where and what it was to run.
pub proof fn law_failure_is_answered<P>(
    profile: MssqlProfile<P>,
    backend_name: Seq<char>,
    tool_name: Seq<char>,
    message: Seq<char>,
    slot: JsonView,
    transport: bool,
    timeout: bool,
    duration_ms: u128,
)
    ensures
        ({
            let envelope = failed_envelope(profile, backend_name, tool_name, message, slot);
            &&& field(envelope, "response"@) == Some(JsonView::Null)
            &&& field(envelope, "downstreamError"@) == Some(slot)
            &&& field(envelope, "downstreamErrors"@) == Some(JsonView::Array(seq![slot]))
            &&& field(envelope, "error"@) == Some(JsonView::String(message))
            &&& field(envelope, "toolName"@) == Some(JsonView::String(tool_name))
            &&& field(envelope, "profile"@) == Some(JsonView::String(backend_name))
            &&& field(envelope, "request"@) matches Some(request) && {
                &&& field(request, "host"@) == Some(JsonView::String(profile.host@))
                &&& field(request, "database"@) == Some(JsonView::String(profile.database@))
                &&& field(request, "op"@) == Some(
                    JsonView::String(
                        match profile.op {
                            MssqlOp::Query => "query"@,
                            MssqlOp::Execute => "execute"@,
                        },
                    ),
                )
            }
        }),
        call_envelope(
            profile,
            backend_name,
            tool_name,
            Err(FailureView { message, transport, timeout }),
            duration_ms,
        ) == failed_envelope(
            profile,
            backend_name,
            tool_name,
            message,
            downstream_error(
                if transport {
                    "transport_error"@
                } else {
                    "mssql_error"@
                },
                message,
                transport,
            ),
        ),
{
    let request = request_value(profile.host@, profile.database@, profile.op.name());
    law_request_members(profile.host@, profile.database@, profile.op.name(), "op"@);
    law_envelope_members(
        tool_name,
        backend_name,
        request,
        JsonView::Null,
        Some(slot),
        Some(message),
    );
}

/// A call that went well is reported as `ok`, one that ran out of time as
/// `timeout`, one whose connection failed as `transport_error`, and any other as
/// `mssql_error`.
pub proof fn law_outcomes_are_labelled(
    outcome: OutcomeView,
    message: Seq<char>,
    transport: bool,
)
    ensures
        outcome_label(Ok(outcome)) == "ok"@,
        outcome_label(Err(FailureView { message, transport, timeout: true })) == "timeout"@,
        outcome_label(Err(FailureView { message, transport: true, timeout: false }))
            == "transport_error"@,
        outcome_label(Err(FailureView { message, transport: false, timeout: false }))
            == "mssql_error"@,
{
}

/// A reason and a message are their texts.
pub proof fn law_reported_reasons_are_what_they_say(text: String, error: Seq<char>)
    ensures
        completed_reason(Some(text)) == Some(text@),
        completed_reason(None) is None,
        unreadable_message(error) == "MSSQL plugin payload is not valid JSON: "@ + error,
{
}

/// What the server is sent, if an action sends anything, is the text and the
/// values of the query.
pub proof fn law_sent(action: ActionView)
    ensures
        match sent(action) {
            Some((text, params)) => action == ActionView::SendQuery(text, params) || action
                == ActionView::SendExecute(text, params),
            None => !(action is SendQuery) && !(action is SendExecute),
        },
{
}

} // verus!
