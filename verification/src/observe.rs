//! What is reported of each call: a latency, a counter and, for a call that
//! failed, an audit event.
use crate::json::{add_member, object_view, Json, JsonNumber, JsonView};
use crate::text::{decimal, decimal_text, joined, same_text};
use vstd::prelude::*;

verus! {

/// The audit action for an outcome. Calls that went well, and calls of unknown
/// bindings, have none.
pub open spec fn audit_action(label: Seq<char>) -> Option<Seq<char>> {
    if label == "timeout"@ {
        Some("dev.mcpg.backend.mssql.request_timeout"@)
    } else if label == "transport_error"@ {
        Some("dev.mcpg.backend.mssql.request_failed"@)
    } else if label == "mssql_error"@ {
        Some("dev.mcpg.backend.mssql.query_rejected"@)
    } else if label == "invalid_spec"@ {
        Some("dev.mcpg.backend.mssql.request_failed"@)
    } else {
        None
    }
}

/// The audit action for an outcome.
pub fn audit_action_for_outcome(label: &str) -> (action: Option<&'static str>)
    ensures
        match action {
            Some(action) => audit_action(label@) == Some(action@),
            None => audit_action(label@) is None,
        },
{
    if same_text(label, "timeout") {
        Some("dev.mcpg.backend.mssql.request_timeout")
    } else if same_text(label, "transport_error") {
        Some("dev.mcpg.backend.mssql.request_failed")
    } else if same_text(label, "mssql_error") {
        Some("dev.mcpg.backend.mssql.query_rejected")
    } else if same_text(label, "invalid_spec") {
        Some("dev.mcpg.backend.mssql.request_failed")
    } else {
        None
    }
}

/// Who acts, as the host knows them.
#[derive(Debug)]
pub struct PluginIdentity {
    pub kind: String,
    pub trust_level: String,
    pub subject_id: Option<String>,
    pub auth_provider: Option<String>,
    pub issuer: Option<String>,
    pub roles: Vec<String>,
    pub groups: Vec<String>,
    pub scopes: Vec<String>,
}

impl PluginIdentity {
    /// Whether this is the backend itself, acting for the system.
    pub open spec fn is_system(self) -> bool {
        &&& self.kind@ == "system"@
        &&& self.trust_level@ == "verified"@
        &&& self.subject_id is Some
        &&& self.subject_id->Some_0@ == "dev.mcpg.backend.mssql"@
        &&& self.auth_provider is None
        &&& self.issuer is None
        &&& self.roles@.len() == 0
        &&& self.groups@.len() == 0
        &&& self.scopes@.len() == 0
    }
}

/// The identity that stands in where a call has none.
pub fn synthetic_system_identity() -> (identity: PluginIdentity)
    ensures
        identity.is_system(),
{
    PluginIdentity {
        kind: "system".to_owned(),
        trust_level: "verified".to_owned(),
        subject_id: Some("dev.mcpg.backend.mssql".to_owned()),
        auth_provider: None,
        issuer: None,
        roles: Vec::new(),
        groups: Vec::new(),
        scopes: Vec::new(),
    }
}

/// Who an audit event names: the caller, as the host handed them in, or the
/// backend itself.
#[derive(Debug)]
pub enum Actor<I> {
    Caller(I),
    System(PluginIdentity),
}

/// How the call that an audit event tells of ended.
#[derive(Debug, Clone, Copy, PartialEq, Eq, Structural)]
pub enum AuditOutcome {
    Failure,
}

/// An audit event.
#[derive(Debug)]
pub struct AuditEvent<I> {
    pub event_id: String,
    pub occurred_at: String,
    pub actor: Actor<I>,
    pub action: String,
    pub resource: Option<String>,
    pub outcome: AuditOutcome,
    pub request_id: Option<String>,
    pub upstream_request_id: Option<String>,
    pub node_id: Option<String>,
    pub details: Json,
    pub prev_event_hash: Option<String>,
}

/// What is reported of one call.
#[derive(Debug)]
pub struct Observation<I> {
    /// The histogram that takes the call's duration in seconds.
    pub latency_metric: &'static str,
    /// The counter that goes up by one.
    pub calls_metric: &'static str,
    /// The label of both, name and value.
    pub label: (&'static str, &'static str),
    pub audit: Option<AuditEvent<I>>,
}

/// Whole milliseconds, as far as 64 bits hold them.
pub open spec fn millis_u64(duration_nanos: u128) -> u64 {
    ((duration_nanos / 1_000_000) % 0x1_0000_0000_0000_0000) as u64
}

/// The details of an audit event.
pub open spec fn audit_details(
    backend_name: Seq<char>,
    duration_nanos: u128,
    outcome_label: Seq<char>,
    alias: JsonView,
    reason: Option<Seq<char>>,
) -> JsonView {
    let members = map![
        "backend"@ => JsonView::String(backend_name),
        "duration_ms"@ => JsonView::Number(JsonNumber::PosInt(millis_u64(duration_nanos))),
        "outcome"@ => JsonView::String(outcome_label),
        "alias"@ => alias,
    ];
    JsonView::Object(
        match reason {
            Some(text) => members.insert("reason"@, JsonView::String(text)),
            None => members,
        },
    )
}

/// Whether an audit event tells of the given call.
pub open spec fn tells_of<I>(
    event: AuditEvent<I>,
    action: Seq<char>,
    backend_name: Seq<char>,
    outcome_label: Seq<char>,
    reason: Option<Seq<char>>,
    identity: Option<I>,
    request_id: Seq<char>,
    duration_nanos: u128,
    alias: JsonView,
    occurred_at: Seq<char>,
) -> bool {
    &&& event.event_id@ == "mssql-"@ + request_id + "-"@ + decimal(duration_nanos as nat)
    &&& event.occurred_at@ == occurred_at
    &&& match (identity, event.actor) {
        (Some(caller), Actor::Caller(actor)) => actor == caller,
        (None, Actor::System(actor)) => actor.is_system(),
        _ => false,
    }
    &&& event.action@ == action
    &&& event.resource is Some
    &&& event.resource->Some_0@ == "mssql-binding://"@ + backend_name
    &&& event.outcome == AuditOutcome::Failure
    &&& event.request_id is Some
    &&& event.request_id->Some_0@ == request_id
    &&& event.upstream_request_id is None
    &&& event.node_id is None
    &&& event.details@ == audit_details(backend_name, duration_nanos, outcome_label, alias, reason)
    &&& event.prev_event_hash is None
}

/// What an optional text is.
pub open spec fn reason_view(reason: Option<&str>) -> Option<Seq<char>> {
    match reason {
        Some(text) => Some(text@),
        None => None,
    }
}

/// The details of an audit event.
fn audit_details_json(
    backend_name: &str,
    duration_nanos: u128,
    outcome_label: &str,
    alias: Json,
    reason: Option<&str>,
) -> (details: Json)
    ensures
        details@ == audit_details(
            backend_name@,
            duration_nanos,
            outcome_label@,
            alias@,
            reason_view(reason),
        ),
{
    let millis: u64 = ((duration_nanos / 1_000_000) % 0x1_0000_0000_0000_0000) as u64;
    let mut entries: Vec<(String, Json)> = Vec::new();
    add_member(&mut entries, "backend", Json::text(backend_name));
    add_member(&mut entries, "duration_ms", Json::unsigned(millis));
    add_member(&mut entries, "outcome", Json::text(outcome_label));
    add_member(&mut entries, "alias", alias);
    match reason {
        Some(text) => add_member(&mut entries, "reason", Json::text(text)),
        None => {},
    }
    proof {
        assert(object_view(entries@) =~= audit_details(
            backend_name@,
            duration_nanos,
            outcome_label@,
            alias@,
            reason_view(reason),
        )->Object_0);
    }
    Json::Object(entries)
}

/// What is reported of one call: always the latency and the counter, and an
/// audit event where the outcome has an action. The event names the caller, or
/// the backend itself where the call has no identity.
pub fn observe<I>(
    backend_name: &str,
    outcome_label: &'static str,
    reason: Option<&str>,
    identity: Option<I>,
    request_id: &str,
    duration_nanos: u128,
    alias: Json,
    occurred_at: String,
) -> (observation: Observation<I>)
    ensures
        observation.latency_metric@ == "mcpg_mssql_backend_latency_seconds"@,
        observation.calls_metric@ == "mcpg_mssql_backend_calls_total"@,
        observation.label.0@ == "outcome"@,
        observation.label.1@ == outcome_label@,
        match (audit_action(outcome_label@), observation.audit) {
            (Some(action), Some(event)) => tells_of(
                event,
                action,
                backend_name@,
                outcome_label@,
                reason_view(reason),
                identity,
                request_id@,
                duration_nanos,
                alias@,
                occurred_at@,
            ),
            (None, None) => true,
            _ => false,
        },
{
    let audit = match audit_action_for_outcome(outcome_label) {
        None => None,
        Some(action) => {
            let actor = match identity {
                Some(caller) => Actor::Caller(caller),
                None => Actor::System(synthetic_system_identity()),
            };
            let details = audit_details_json(
                backend_name,
                duration_nanos,
                outcome_label,
                alias,
                reason,
            );
            let mut event_id = joined("mssql-", request_id);
            event_id.append("-");
            event_id.append(decimal_text(duration_nanos).as_str());
            Some(
                AuditEvent {
                    event_id,
                    occurred_at,
                    actor,
                    action: action.to_owned(),
                    resource: Some(joined("mssql-binding://", backend_name)),
                    outcome: AuditOutcome::Failure,
                    request_id: Some(request_id.to_owned()),
                    upstream_request_id: None,
                    node_id: None,
                    details,
                    prev_event_hash: None,
                },
            )
        },
    };
    Observation {
        latency_metric: "mcpg_mssql_backend_latency_seconds",
        calls_metric: "mcpg_mssql_backend_calls_total",
        label: ("outcome", outcome_label),
        audit,
    }
}

/// A timeout, a failed connection, a rejected statement and an unusable request
/// each have their audit action, and no other outcome has one.
pub proof fn law_audit_actions(label: Seq<char>)
    ensures
        audit_action("timeout"@) == Some("dev.mcpg.backend.mssql.request_timeout"@),
        audit_action("transport_error"@) == Some("dev.mcpg.backend.mssql.request_failed"@),
        audit_action("mssql_error"@) == Some("dev.mcpg.backend.mssql.query_rejected"@),
        audit_action("invalid_spec"@) == Some("dev.mcpg.backend.mssql.request_failed"@),
        audit_action(label) is Some ==> label == "timeout"@ || label == "transport_error"@ || label
            == "mssql_error"@ || label == "invalid_spec"@,
{
    reveal_strlit("timeout");
    reveal_strlit("transport_error");
    reveal_strlit("mssql_error");
    reveal_strlit("invalid_spec");
    assert("timeout"@.len() == 7);
    assert("transport_error"@.len() == 15);
    assert("mssql_error"@.len() == 11);
    assert("invalid_spec"@.len() == 12);
}

/// The whole milliseconds of a duration are those that fit into it: as many as
/// there are, and no fewer, where 64 bits hold them.
pub proof fn law_whole_milliseconds(duration_nanos: u128)
    requires
        duration_nanos < 0x1_0000_0000_0000_0000 * 1_000_000,
    ensures
        millis_u64(duration_nanos) * 1_000_000 <= duration_nanos,
        duration_nanos < (millis_u64(duration_nanos) + 1) * 1_000_000,
{
    let millis = duration_nanos as int / 1_000_000;
    assert(0 <= millis < 0x1_0000_0000_0000_0000);
    assert(millis % 0x1_0000_0000_0000_0000 == millis);
}

/// Milliseconds beyond 64 bits begin again at zero.
pub proof fn law_milliseconds_wrap_around(duration_nanos: u128, longer: u128)
    requires
        longer == duration_nanos + 0x1_0000_0000_0000_0000 * 1_000_000,
    ensures
        millis_u64(longer) == millis_u64(duration_nanos),
{
    let millis = duration_nanos as int / 1_000_000;
    assert(longer as int / 1_000_000 == millis + 0x1_0000_0000_0000_0000);
    assert((millis + 0x1_0000_0000_0000_0000) % 0x1_0000_0000_0000_0000 == millis
        % 0x1_0000_0000_0000_0000);
}

/// The details of an audit event name the binding, the duration in milliseconds,
/// the outcome and the alias, the reason where there is one, and nothing else.
pub proof fn law_audit_details(
    backend_name: Seq<char>,
    duration_nanos: u128,
    outcome_label: Seq<char>,
    alias: JsonView,
    reason: Option<Seq<char>>,
    key: Seq<char>,
)
    ensures
        audit_details(backend_name, duration_nanos, outcome_label, alias, reason) matches
            JsonView::Object(members) && {
            &&& members.contains_key("backend"@) && members["backend"@] == JsonView::String(
                backend_name,
            )
            &&& members.contains_key("duration_ms"@) && members["duration_ms"@]
                == JsonView::Number(JsonNumber::PosInt(millis_u64(duration_nanos)))
            &&& members.contains_key("outcome"@) && members["outcome"@] == JsonView::String(
                outcome_label,
            )
            &&& members.contains_key("alias"@) && members["alias"@] == alias
            &&& match reason {
                Some(text) => members.contains_key("reason"@) && members["reason"@]
                    == JsonView::String(text),
                None => !members.contains_key("reason"@),
            }
            &&& members.contains_key(key) ==> key == "backend"@ || key == "duration_ms"@ || key
                == "outcome"@ || key == "alias"@ || key == "reason"@
        },
{
    reveal_strlit("backend");
    reveal_strlit("duration_ms");
    reveal_strlit("outcome");
    reveal_strlit("alias");
    reveal_strlit("reason");
    assert("backend"@[0] != "outcome"@[0]);
    assert("backend"@.len() == 7);
    assert("duration_ms"@.len() == 11);
    assert("outcome"@.len() == 7);
    assert("alias"@.len() == 5);
    assert("reason"@.len() == 6);
}

/// An audit event that tells of a call has an id made of the request and the
/// duration, names the caller or, where there is none, the backend itself, the
/// action, the binding and the request, and is that of a failure.
pub proof fn law_audit_event_tells_of_its_call<I>(
    event: AuditEvent<I>,
    action: Seq<char>,
    backend_name: Seq<char>,
    outcome_label: Seq<char>,
    reason: Option<Seq<char>>,
    identity: Option<I>,
    request_id: Seq<char>,
    duration_nanos: u128,
    alias: JsonView,
    occurred_at: Seq<char>,
)
    requires
        tells_of(
            event,
            action,
            backend_name,
            outcome_label,
            reason,
            identity,
            request_id,
            duration_nanos,
            alias,
            occurred_at,
        ),
    ensures
        event.event_id@ == "mssql-"@ + request_id + "-"@ + decimal(duration_nanos as nat),
        event.occurred_at@ == occurred_at,
        match identity {
            Some(caller) => event.actor == Actor::Caller(caller),
            None => event.actor matches Actor::System(actor) && {
                &&& actor.kind@ == "system"@
                &&& actor.trust_level@ == "verified"@
                &&& actor.subject_id is Some
                &&& actor.subject_id->Some_0@ == "dev.mcpg.backend.mssql"@
            },
        },
        event.action@ == action,
        event.resource matches Some(resource) && resource@ == "mssql-binding://"@ + backend_name,
        event.outcome == AuditOutcome::Failure,
        event.request_id matches Some(request) && request@ == request_id,
        event.upstream_request_id is None,
        event.node_id is None,
        event.prev_event_hash is None,
        event.details@ == audit_details(
            backend_name,
            duration_nanos,
            outcome_label,
            alias,
            reason,
        ),
{
}

/// The backend acting for the system is verified, is its own subject, and has
/// neither provider nor issuer, roles, groups or scopes.
pub proof fn law_system_identity(identity: PluginIdentity)
    requires
        identity.is_system(),
    ensures
        identity.kind@ == "system"@,
        identity.trust_level@ == "verified"@,
        identity.subject_id matches Some(subject) && subject@ == "dev.mcpg.backend.mssql"@,
        identity.auth_provider is None,
        identity.issuer is None,
        identity.roles@ == Seq::<String>::empty(),
        identity.groups@ == Seq::<String>::empty(),
        identity.scopes@ == Seq::<String>::empty(),
{
}

/// A reason that is there is that text.
pub proof fn law_reasons_are_what_they_hold(text: &str)
    ensures
        reason_view(Some(text)) == Some(text@),
        reason_view(None) is None,
{
}

} // verus!
