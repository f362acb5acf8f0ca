//! The structured response of a call. A `downstreamError` that is not null
//! marks the call as failed.
use crate::json::{
    add_member, copy_items, items_view, lemma_items_view, object_view, Json, JsonNumber, JsonView,
};
use crate::text::{
    ascii_lower, before_quote, chars_start_with, contains_chars, contains_text, has_prefix,
    head_after, is_quote, joined, law_before_quote, law_part, lemma_before_quote,
    lemma_lower_of_sum, lemma_nothing_quoted, lemma_small_letters_stay, lower_chars, occurs_at,
};
use vstd::prelude::*;

verus! {

/// The error object of a response.
pub open spec fn downstream_error(
    kind: Seq<char>,
    message: Seq<char>,
    retryable: bool,
) -> JsonView {
    let retry_class = if retryable {
        "with_backoff"@
    } else {
        "do_not_retry"@
    };
    let suggested_action = if retryable {
        "check_database_connectivity_and_retry"@
    } else {
        "inspect_sql_error"@
    };
    JsonView::Object(
        map![
            "kind"@ => JsonView::String(kind),
            "code"@ => JsonView::String("mcpg.downstream_mssql."@ + kind),
            "message"@ => JsonView::String(message),
            "retryable"@ => JsonView::Bool(retryable),
            "retryClass"@ => JsonView::String(retry_class),
            "suggestedAction"@ => JsonView::String(suggested_action),
        ],
    )
}

/// The error object of a response.
pub fn mssql_downstream_error(kind: &str, message: &str, retryable: bool) -> (res: Json)
    ensures
        res@ == downstream_error(kind@, message@, retryable),
{
    let mut entries: Vec<(String, Json)> = Vec::new();
    add_member(&mut entries, "kind", Json::text(kind));
    add_member(&mut entries, "code", Json::String(joined("mcpg.downstream_mssql.", kind)));
    add_member(&mut entries, "message", Json::text(message));
    add_member(&mut entries, "retryable", Json::Bool(retryable));
    add_member(
        &mut entries,
        "retryClass",
        Json::text(
            if retryable {
                "with_backoff"
            } else {
                "do_not_retry"
            },
        ),
    );
    add_member(
        &mut entries,
        "suggestedAction",
        Json::text(
            if retryable {
                "check_database_connectivity_and_retry"
            } else {
                "inspect_sql_error"
            },
        ),
    );
    proof {
        assert(object_view(entries@) =~= downstream_error(kind@, message@, retryable)->Object_0);
    }
    Json::Object(entries)
}

/// Whether a text in small letters speaks of time running out.
pub open spec fn timeout_words(lower: Seq<char>) -> bool {
    ||| contains_text(lower, "timed out"@)
    ||| contains_text(lower, "timeout"@)
}

/// Whether a text in small letters speaks of trouble with the connection: of
/// connecting, of a failed login, of the pool, of time running out or of a
/// connection that was dropped.
pub open spec fn connection_words(lower: Seq<char>) -> bool {
    ||| contains_text(lower, "connect"@)
    ||| contains_text(lower, "login failed"@)
    ||| contains_text(lower, "pool"@)
    ||| timeout_words(lower)
    ||| contains_text(lower, "broken pipe"@)
    ||| contains_text(lower, "connection reset"@)
    ||| contains_text(lower, "eof"@)
}

/// Whether a text speaks, in any case, of time running out.
pub open spec fn speaks_of_timeout(text: Seq<char>) -> bool {
    timeout_words(ascii_lower(text))
}

/// Whether a text speaks, in any case, of trouble with the connection.
pub open spec fn speaks_of_connection(text: Seq<char>) -> bool {
    connection_words(ascii_lower(text))
}

/// What a statement failed with, where a message in small letters says that one
/// failed. This may be the server's own text, with names of the operator's or the
/// caller's in it.
pub open spec fn statement_error(lower: Seq<char>) -> Option<Seq<char>> {
    if has_prefix(lower, "mssql query failed: "@) {
        Some(lower.skip("mssql query failed: "@.len() as int))
    } else if has_prefix(lower, "mssql result read failed: "@) {
        Some(lower.skip("mssql result read failed: "@.len() as int))
    } else if has_prefix(lower, "mssql execute failed: "@) {
        Some(lower.skip("mssql execute failed: "@.len() as int))
    } else {
        None
    }
}

/// Whether a message alone tells, in any case, of a failure of the connection.
/// Where it says what a statement failed with, only what stands before anything
/// quoted counts: the driver quotes what the server says, and the server what
/// it rejects. Parameters that cannot be computed have nothing to do with the
/// connection.
pub open spec fn transport_failure(message: Seq<char>) -> bool {
    let lower = ascii_lower(message);
    if has_prefix(lower, "evaluating params: "@) {
        false
    } else {
        match statement_error(lower) {
            Some(text) => connection_words(before_quote(text)),
            None => connection_words(lower),
        }
    }
}

/// The kind of an error.
pub open spec fn error_kind(transport: bool) -> Seq<char> {
    if transport {
        "transport_error"@
    } else {
        "mssql_error"@
    }
}

/// The error object for an error. Failures of the connection can be retried;
/// what the server rejects cannot.
pub open spec fn error_object(message: Seq<char>, transport: bool) -> JsonView {
    downstream_error(error_kind(transport), message, transport)
}

/// The error object for a message of which nothing else is known.
pub open spec fn classified(message: Seq<char>) -> JsonView {
    error_object(message, transport_failure(message))
}

/// Whether a text in small letters speaks of time running out.
fn has_timeout_words(lower: &Vec<char>) -> (res: bool)
    ensures
        res == timeout_words(lower@),
{
    contains_chars(lower, "timed out") || contains_chars(lower, "timeout")
}

/// Whether a text in small letters speaks of trouble with the connection.
fn has_connection_words(lower: &Vec<char>) -> (res: bool)
    ensures
        res == connection_words(lower@),
{
    contains_chars(lower, "connect") || contains_chars(lower, "login failed") || contains_chars(
        lower,
        "pool",
    ) || has_timeout_words(lower) || contains_chars(lower, "broken pipe") || contains_chars(
        lower,
        "connection reset",
    ) || contains_chars(lower, "eof")
}

/// Whether a text speaks of time running out.
pub fn tells_of_timeout(text: &str) -> (res: bool)
    ensures
        res == speaks_of_timeout(text@),
{
    has_timeout_words(&lower_chars(text))
}

/// Whether a text speaks of trouble with the connection.
pub fn tells_of_connection(text: &str) -> (res: bool)
    ensures
        res == speaks_of_connection(text@),
{
    has_connection_words(&lower_chars(text))
}

/// Whether a message alone tells of a failure of the connection.
pub fn is_transport_failure(message: &str) -> (res: bool)
    ensures
        res == transport_failure(message@),
{
    let lower = lower_chars(message);
    if chars_start_with(&lower, "evaluating params: ") {
        return false;
    }
    match head_after(&lower, "mssql query failed: ") {
        Some(head) => {
            return has_connection_words(&head);
        },
        None => {},
    }
    match head_after(&lower, "mssql result read failed: ") {
        Some(head) => {
            return has_connection_words(&head);
        },
        None => {},
    }
    match head_after(&lower, "mssql execute failed: ") {
        Some(head) => {
            return has_connection_words(&head);
        },
        None => {},
    }
    has_connection_words(&lower)
}

/// The error object for an error of which it is known whether it is a failure of
/// the connection.
pub fn describe_error(message: &str, transport: bool) -> (res: Json)
    ensures
        res@ == error_object(message@, transport),
{
    let kind = if transport {
        "transport_error"
    } else {
        "mssql_error"
    };
    mssql_downstream_error(kind, message, transport)
}

/// The error object for a message of which nothing else is known.
pub fn classify_error(message: &str) -> (res: Json)
    ensures
        res@ == classified(message@),
{
    describe_error(message, is_transport_failure(message))
}

/// Rows as JSON, and null where there are none.
pub open spec fn rows_value(rows: Option<Seq<JsonView>>) -> JsonView {
    match rows {
        Some(rows) => JsonView::Array(rows),
        None => JsonView::Null,
    }
}

/// A count as JSON, and null where there is none.
pub open spec fn count_value(count: Option<u64>) -> JsonView {
    match count {
        Some(n) => JsonView::Number(JsonNumber::PosInt(n)),
        None => JsonView::Null,
    }
}

/// The number of rows.
pub open spec fn row_count(rows: Option<Seq<JsonView>>) -> Option<u64> {
    match rows {
        Some(rows) => Some(rows.len() as u64),
        None => None,
    }
}

/// What a call that succeeded gave.
pub open spec fn response_value(
    rows: Option<Seq<JsonView>>,
    rows_affected: Option<u64>,
    duration_ms: u128,
) -> JsonView {
    JsonView::Object(
        map![
            "rows"@ => rows_value(rows),
            "count"@ => count_value(row_count(rows)),
            "rowsAffected"@ => count_value(rows_affected),
            "durationMs"@ => JsonView::Number(JsonNumber::PosInt(duration_ms as u64)),
        ],
    )
}

/// The statement's side of a response: where it ran and what it was to do.
pub open spec fn request_value(host: Seq<char>, database: Seq<char>, op: Seq<char>) -> JsonView {
    JsonView::Object(
        map![
            "host"@ => JsonView::String(host),
            "database"@ => JsonView::String(database),
            "op"@ => JsonView::String(op),
        ],
    )
}

/// The whole response of a call. With an error object the response part is null.
pub open spec fn envelope_value(
    tool_name: Seq<char>,
    profile_name: Seq<char>,
    request: JsonView,
    response: JsonView,
    error_slot: Option<JsonView>,
    error: Option<Seq<char>>,
) -> JsonView {
    let (part, slot, list) = match error_slot {
        Some(d) => (JsonView::Null, d, seq![d]),
        None => (response, JsonView::Null, Seq::empty()),
    };
    let text = match error {
        Some(text) => JsonView::String(text),
        None => JsonView::Null,
    };
    JsonView::Object(
        map![
            "toolName"@ => JsonView::String(tool_name),
            "profile"@ => JsonView::String(profile_name),
            "request"@ => request,
            "response"@ => part,
            "downstreamError"@ => slot,
            "downstreamErrors"@ => JsonView::Array(list),
            "error"@ => text,
        ],
    )
}

/// What an optional value is.
pub open spec fn optional_value(value: Option<&Json>) -> Option<JsonView> {
    match value {
        Some(value) => Some(value@),
        None => None,
    }
}

/// What an optional text is.
pub open spec fn optional_str(text: Option<&str>) -> Option<Seq<char>> {
    match text {
        Some(text) => Some(text@),
        None => None,
    }
}

/// What optional rows are.
pub open spec fn optional_rows(rows: Option<&Vec<Json>>) -> Option<Seq<JsonView>> {
    match rows {
        Some(rows) => Some(items_view(rows@)),
        None => None,
    }
}

/// A count as JSON.
fn count_json(count: Option<u64>) -> (res: Json)
    ensures
        res@ == count_value(count),
{
    match count {
        Some(n) => Json::unsigned(n),
        None => Json::Null,
    }
}

/// What a call that succeeded gave.
fn response_json(rows: Option<&Vec<Json>>, rows_affected: Option<u64>, duration_ms: u128) -> (res:
    Json)
    requires
        duration_ms <= u64::MAX,
    ensures
        res@ == response_value(optional_rows(rows), rows_affected, duration_ms),
{
    let mut entries: Vec<(String, Json)> = Vec::new();
    match rows {
        Some(rows) => {
            proof {
                lemma_items_view(rows@);
            }
            add_member(&mut entries, "rows", Json::Array(copy_items(rows)));
            add_member(&mut entries, "count", count_json(Some(rows.len() as u64)));
        },
        None => {
            add_member(&mut entries, "rows", Json::Null);
            add_member(&mut entries, "count", count_json(None));
        },
    }
    add_member(&mut entries, "rowsAffected", count_json(rows_affected));
    add_member(&mut entries, "durationMs", Json::unsigned(duration_ms as u64));
    proof {
        assert(object_view(entries@) =~= response_value(
            optional_rows(rows),
            rows_affected,
            duration_ms,
        )->Object_0);
    }
    Json::Object(entries)
}

/// The whole response of a call. A duration that is written down is below
/// 2^64 milliseconds.
pub fn build_result_envelope(
    tool_name: &str,
    profile_name: &str,
    host: &str,
    database: &str,
    op: &str,
    rows: Option<&Vec<Json>>,
    rows_affected: Option<u64>,
    duration_ms: u128,
    downstream_error: Option<&Json>,
    error: Option<&str>,
) -> (res: Json)
    requires
        downstream_error is None ==> duration_ms <= u64::MAX,
    ensures
        res@ == envelope_value(
            tool_name@,
            profile_name@,
            request_value(host@, database@, op@),
            response_value(optional_rows(rows), rows_affected, duration_ms),
            optional_value(downstream_error),
            optional_str(error),
        ),
{
    let mut request: Vec<(String, Json)> = Vec::new();
    add_member(&mut request, "host", Json::text(host));
    add_member(&mut request, "database", Json::text(database));
    add_member(&mut request, "op", Json::text(op));
    proof {
        assert(object_view(request@) =~= request_value(host@, database@, op@)->Object_0);
    }
    let mut entries: Vec<(String, Json)> = Vec::new();
    add_member(&mut entries, "toolName", Json::text(tool_name));
    add_member(&mut entries, "profile", Json::text(profile_name));
    add_member(&mut entries, "request", Json::Object(request));
    let mut errors: Vec<Json> = Vec::new();
    match downstream_error {
        Some(d) => {
            add_member(&mut entries, "response", Json::Null);
            add_member(&mut entries, "downstreamError", d.copy());
            errors.push(d.copy());
            proof {
                lemma_items_view(errors@);
                assert(items_view(errors@) =~= seq![d@]);
            }
        },
        None => {
            add_member(&mut entries, "response", response_json(rows, rows_affected, duration_ms));
            add_member(&mut entries, "downstreamError", Json::Null);
            proof {
                assert(items_view(errors@) =~= Seq::<JsonView>::empty());
            }
        },
    }
    add_member(&mut entries, "downstreamErrors", Json::Array(errors));
    match error {
        Some(text) => add_member(&mut entries, "error", Json::text(text)),
        None => add_member(&mut entries, "error", Json::Null),
    }
    proof {
        assert(object_view(entries@) =~= envelope_value(
            tool_name@,
            profile_name@,
            request_value(host@, database@, op@),
            response_value(optional_rows(rows), rows_affected, duration_ms),
            optional_value(downstream_error),
            optional_str(error),
        )->Object_0);
    }
    Json::Object(entries)
}

/// A text that holds one of the tell-tale words speaks of the connection.
pub proof fn lemma_speaks_of_connection(text: Seq<char>, part: Seq<char>, at: int)
    requires
        occurs_at(text, part, at),
        part == "connect"@ || part == "login failed"@ || part == "pool"@,
    ensures
        speaks_of_connection(text),
{
    reveal_strlit("connect");
    reveal_strlit("login failed");
    reveal_strlit("pool");
    assert(ascii_lower(part) =~= part);
    lemma_small_letters_stay(text, part, at);
}

/// The case of a message does not matter to how it is classified; the message
/// itself is kept as it is.
pub proof fn law_case_does_not_matter(message: Seq<char>, other: Seq<char>)
    requires
        ascii_lower(message) == ascii_lower(other),
    ensures
        transport_failure(message) == transport_failure(other),
        classified(message) == error_object(message, transport_failure(other)),
{
}

/// The messages of a query, of a read and of an execution that failed are
/// recognised, with what they failed with.
pub proof fn law_statement_errors_are_recognised(text: Seq<char>)
    ensures
        statement_error(ascii_lower("MSSQL query failed: "@ + text)) == Some(ascii_lower(text)),
        statement_error(ascii_lower("MSSQL result read failed: "@ + text)) == Some(
            ascii_lower(text),
        ),
        statement_error(ascii_lower("MSSQL execute failed: "@ + text)) == Some(ascii_lower(text)),
{
    reveal_strlit("MSSQL query failed: ");
    reveal_strlit("MSSQL result read failed: ");
    reveal_strlit("MSSQL execute failed: ");
    reveal_strlit("mssql query failed: ");
    reveal_strlit("mssql result read failed: ");
    reveal_strlit("mssql execute failed: ");
    let query = "mssql query failed: "@;
    let read = "mssql result read failed: "@;
    let execute = "mssql execute failed: "@;
    let lower = ascii_lower(text);
    assert(ascii_lower("MSSQL query failed: "@) =~= query);
    assert(ascii_lower("MSSQL result read failed: "@) =~= read);
    assert(ascii_lower("MSSQL execute failed: "@) =~= execute);
    lemma_lower_of_sum("MSSQL query failed: "@, text);
    lemma_lower_of_sum("MSSQL result read failed: "@, text);
    lemma_lower_of_sum("MSSQL execute failed: "@, text);
    assert((query + lower).subrange(0, query.len() as int) =~= query);
    assert((read + lower).subrange(0, read.len() as int) =~= read);
    assert((execute + lower).subrange(0, execute.len() as int) =~= execute);
    assert((query + lower).skip(query.len() as int) =~= lower);
    assert((read + lower).skip(read.len() as int) =~= lower);
    assert((execute + lower).skip(execute.len() as int) =~= lower);
    lemma_not_prefix(read + lower, query, 6);
    lemma_not_prefix(execute + lower, query, 6);
    lemma_not_prefix(execute + lower, read, 6);
}

/// Where the driver fails a statement in words of its own, with nothing quoted,
/// its words tell whether it was the connection.
pub proof fn law_driver_words_are_heard(text: Seq<char>)
    requires
        forall|i: int| 0 <= i < text.len() ==> !is_quote(#[trigger] text[i]),
    ensures
        transport_failure("MSSQL query failed: "@ + text) == speaks_of_connection(text),
        transport_failure("MSSQL result read failed: "@ + text) == speaks_of_connection(text),
        transport_failure("MSSQL execute failed: "@ + text) == speaks_of_connection(text),
{
    let lower = ascii_lower(text);
    law_statement_errors_are_recognised(text);
    assert forall|i: int| 0 <= i < lower.len() implies !is_quote(#[trigger] lower[i]) by {
        assert(!is_quote(text[i]));
    }
    lemma_nothing_quoted(lower);
    reveal_strlit("evaluating params: ");
    reveal_strlit("MSSQL query failed: ");
    reveal_strlit("MSSQL result read failed: ");
    reveal_strlit("MSSQL execute failed: ");
    let params = "evaluating params: "@;
    lemma_not_prefix(ascii_lower("MSSQL query failed: "@ + text), params, 0);
    lemma_not_prefix(ascii_lower("MSSQL result read failed: "@ + text), params, 0);
    lemma_not_prefix(ascii_lower("MSSQL execute failed: "@ + text), params, 0);
}

/// A text that differs from another within the length of that does not begin
/// with it.
pub proof fn lemma_not_prefix(text: Seq<char>, prefix: Seq<char>, at: int)
    requires
        0 <= at < prefix.len(),
        at < text.len(),
        text[at] != prefix[at],
    ensures
        !has_prefix(text, prefix),
{
    if has_prefix(text, prefix) {
        assert(text.subrange(0, prefix.len() as int)[at] == prefix[at]);
    }
}

/// Where a message says that a statement failed, and what follows quotes
/// something, it is never retryable but for what stands before the quote:
/// whatever name is quoted, a rejection stays a rejection.
pub proof fn law_quoted_names_do_not_matter(
    message: Seq<char>,
    head: Seq<char>,
    quote: char,
    rest: Seq<char>,
)
    requires
        statement_error(ascii_lower(message)) == Some(ascii_lower(head + seq![quote] + rest)),
        is_quote(quote),
        forall|i: int| 0 <= i < head.len() ==> !is_quote(#[trigger] head[i]),
        !speaks_of_connection(head),
    ensures
        !transport_failure(message),
        classified(message) == downstream_error("mssql_error"@, message, false),
{
    let lower = ascii_lower(head);
    assert(ascii_lower(head + seq![quote] + rest) =~= lower + seq![quote] + ascii_lower(rest));
    assert forall|i: int| 0 <= i < lower.len() implies !is_quote(#[trigger] lower[i]) by {
        assert(!is_quote(head[i]));
    }
    lemma_before_quote(lower, quote, ascii_lower(rest));
}

/// Parameters that cannot be computed are never a retryable failure, whatever
/// the expression and its error say.
pub proof fn law_failed_parameters_are_not_retryable(text: Seq<char>)
    ensures
        !transport_failure("evaluating params: "@ + text),
        classified("evaluating params: "@ + text) == downstream_error(
            "mssql_error"@,
            "evaluating params: "@ + text,
            false,
        ),
{
    reveal_strlit("evaluating params: ");
    let prefix = "evaluating params: "@;
    assert(ascii_lower(prefix) =~= prefix);
    lemma_lower_of_sum(prefix, text);
    assert((prefix + ascii_lower(text)).subrange(0, prefix.len() as int) =~= prefix);
}

/// The member of an object under a key.
pub open spec fn field(value: JsonView, key: Seq<char>) -> Option<JsonView> {
    match value {
        JsonView::Object(members) => if members.contains_key(key) {
            Some(members[key])
        } else {
            None
        },
        _ => None,
    }
}

/// Every part of a response stands under its key, and none hides another.
pub proof fn law_envelope_members(
    tool_name: Seq<char>,
    profile_name: Seq<char>,
    request: JsonView,
    response: JsonView,
    error_slot: Option<JsonView>,
    error: Option<Seq<char>>,
)
    ensures
        ({
            let envelope = envelope_value(
                tool_name,
                profile_name,
                request,
                response,
                error_slot,
                error,
            );
            &&& field(envelope, "toolName"@) == Some(JsonView::String(tool_name))
            &&& field(envelope, "profile"@) == Some(JsonView::String(profile_name))
            &&& field(envelope, "request"@) == Some(request)
            &&& match error_slot {
                Some(d) => {
                    &&& field(envelope, "response"@) == Some(JsonView::Null)
                    &&& field(envelope, "downstreamError"@) == Some(d)
                    &&& field(envelope, "downstreamErrors"@) == Some(JsonView::Array(seq![d]))
                },
                None => {
                    &&& field(envelope, "response"@) == Some(response)
                    &&& field(envelope, "downstreamError"@) == Some(JsonView::Null)
                    &&& field(envelope, "downstreamErrors"@) == Some(
                        JsonView::Array(Seq::empty()),
                    )
                },
            }
            &&& field(envelope, "error"@) == Some(
                match error {
                    Some(text) => JsonView::String(text),
                    None => JsonView::Null,
                },
            )
        }),
{
    reveal_strlit("toolName");
    reveal_strlit("profile");
    reveal_strlit("request");
    reveal_strlit("response");
    reveal_strlit("downstreamError");
    reveal_strlit("downstreamErrors");
    reveal_strlit("error");
    assert("profile"@[0] != "request"@[0]);
    assert("toolName"@[0] != "response"@[0]);
    assert("toolName"@.len() == 8);
    assert("profile"@.len() == 7);
    assert("request"@.len() == 7);
    assert("response"@.len() == 8);
    assert("downstreamError"@.len() == 15);
    assert("downstreamErrors"@.len() == 16);
    assert("error"@.len() == 5);
}

/// The parts of a successful call's answer stand under their keys; the count is
/// the number of rows.
pub proof fn law_response_members(
    rows: Option<Seq<JsonView>>,
    rows_affected: Option<u64>,
    duration_ms: u128,
)
    ensures
        ({
            let response = response_value(rows, rows_affected, duration_ms);
            &&& field(response, "rows"@) == Some(rows_value(rows))
            &&& field(response, "count"@) == Some(count_value(row_count(rows)))
            &&& field(response, "rowsAffected"@) == Some(count_value(rows_affected))
            &&& field(response, "durationMs"@) == Some(
                JsonView::Number(JsonNumber::PosInt(duration_ms as u64)),
            )
        }),
{
    reveal_strlit("rows");
    reveal_strlit("count");
    reveal_strlit("rowsAffected");
    reveal_strlit("durationMs");
    assert("rows"@.len() == 4);
    assert("count"@.len() == 5);
    assert("rowsAffected"@.len() == 12);
    assert("durationMs"@.len() == 10);
}

/// An error object is marked retryable exactly where its kind is
/// `transport_error`, and it carries the message as it is.
pub proof fn law_retryable_iff_transport_error(message: Seq<char>, transport: bool)
    ensures
        field(error_object(message, transport), "retryable"@) == Some(JsonView::Bool(transport)),
        field(error_object(message, transport), "kind"@) == Some(
            JsonView::String(error_kind(transport)),
        ),
        field(error_object(message, transport), "message"@) == Some(JsonView::String(message)),
        error_kind(transport) == "transport_error"@ <==> transport,
{
    reveal_strlit("kind");
    reveal_strlit("code");
    reveal_strlit("message");
    reveal_strlit("retryable");
    reveal_strlit("retryClass");
    reveal_strlit("suggestedAction");
    reveal_strlit("transport_error");
    reveal_strlit("mssql_error");
    assert("kind"@[0] != "code"@[0]);
    assert("kind"@.len() == 4);
    assert("code"@.len() == 4);
    assert("message"@.len() == 7);
    assert("retryable"@.len() == 9);
    assert("retryClass"@.len() == 10);
    assert("suggestedAction"@.len() == 15);
    assert("transport_error"@.len() == 15);
    assert("mssql_error"@.len() == 11);
}

/// An error object has its kind, a code made of the kind, the message, whether it
/// can be retried, and the advice that goes with that; and no other member.
pub proof fn law_error_object_members(
    kind: Seq<char>,
    message: Seq<char>,
    retryable: bool,
    key: Seq<char>,
)
    ensures
        ({
            let error = downstream_error(kind, message, retryable);
            &&& field(error, "kind"@) == Some(JsonView::String(kind))
            &&& field(error, "code"@) == Some(
                JsonView::String("mcpg.downstream_mssql."@ + kind),
            )
            &&& field(error, "message"@) == Some(JsonView::String(message))
            &&& field(error, "retryable"@) == Some(JsonView::Bool(retryable))
            &&& retryable ==> field(error, "retryClass"@) == Some(
                JsonView::String("with_backoff"@),
            )
            &&& !retryable ==> field(error, "retryClass"@) == Some(
                JsonView::String("do_not_retry"@),
            )
            &&& retryable ==> field(error, "suggestedAction"@) == Some(
                JsonView::String("check_database_connectivity_and_retry"@),
            )
            &&& !retryable ==> field(error, "suggestedAction"@) == Some(
                JsonView::String("inspect_sql_error"@),
            )
            &&& field(error, key) is Some ==> key == "kind"@ || key == "code"@ || key
                == "message"@ || key == "retryable"@ || key == "retryClass"@ || key
                == "suggestedAction"@
        }),
{
    reveal_strlit("kind");
    reveal_strlit("code");
    reveal_strlit("message");
    reveal_strlit("retryable");
    reveal_strlit("retryClass");
    reveal_strlit("suggestedAction");
    assert("kind"@[0] != "code"@[0]);
    assert("kind"@.len() == 4);
    assert("code"@.len() == 4);
    assert("message"@.len() == 7);
    assert("retryable"@.len() == 9);
    assert("retryClass"@.len() == 10);
    assert("suggestedAction"@.len() == 15);
}

/// The kind of a failure of the connection is `transport_error`, that of any
/// other error is `mssql_error`; the error object says so and can be retried
/// exactly in the first case.
pub proof fn law_kinds_of_errors(message: Seq<char>)
    ensures
        error_object(message, true) == downstream_error("transport_error"@, message, true),
        error_object(message, false) == downstream_error("mssql_error"@, message, false),
        transport_failure(message) ==> classified(message) == downstream_error(
            "transport_error"@,
            message,
            true,
        ),
        !transport_failure(message) ==> classified(message) == downstream_error(
            "mssql_error"@,
            message,
            false,
        ),
{
}

proof fn lemma_word_found(before: Seq<char>, word: Seq<char>, after: Seq<char>)
    ensures
        contains_text(before + word + after, word),
{
    let text = before + word + after;
    law_part(text, word);
    assert(text == before + word + after);
}

/// Each tell-tale word makes a text speak of the connection, wherever in it the
/// word stands.
pub proof fn law_tell_tale_words_are_heard(before: Seq<char>, after: Seq<char>)
    ensures
        connection_words(before + "connect"@ + after),
        connection_words(before + "login failed"@ + after),
        connection_words(before + "pool"@ + after),
        connection_words(before + "timed out"@ + after),
        connection_words(before + "timeout"@ + after),
        connection_words(before + "broken pipe"@ + after),
        connection_words(before + "connection reset"@ + after),
        connection_words(before + "eof"@ + after),
        timeout_words(before + "timed out"@ + after),
        timeout_words(before + "timeout"@ + after),
{
    lemma_word_found(before, "connect"@, after);
    lemma_word_found(before, "login failed"@, after);
    lemma_word_found(before, "pool"@, after);
    lemma_word_found(before, "timed out"@, after);
    lemma_word_found(before, "timeout"@, after);
    lemma_word_found(before, "broken pipe"@, after);
    lemma_word_found(before, "connection reset"@, after);
    lemma_word_found(before, "eof"@, after);
}

/// A text without any tell-tale word does not speak of the connection, and one
/// that does not name a timeout does not speak of one.
pub proof fn law_only_tell_tale_words_are_heard(lower: Seq<char>)
    ensures
        timeout_words(lower) ==> contains_text(lower, "timed out"@) || contains_text(
            lower,
            "timeout"@,
        ),
        connection_words(lower) ==> {
            ||| contains_text(lower, "connect"@)
            ||| contains_text(lower, "login failed"@)
            ||| contains_text(lower, "pool"@)
            ||| contains_text(lower, "timed out"@)
            ||| contains_text(lower, "timeout"@)
            ||| contains_text(lower, "broken pipe"@)
            ||| contains_text(lower, "connection reset"@)
            ||| contains_text(lower, "eof"@)
        },
{
}

/// A text speaks of the connection, or of time, where it does so in small letters.
pub proof fn law_words_are_heard_in_any_case(text: Seq<char>)
    ensures
        speaks_of_connection(text) == connection_words(ascii_lower(text)),
        speaks_of_timeout(text) == timeout_words(ascii_lower(text)),
{
}

/// Small letters do not move what is quoted.
proof fn lemma_quote_in_small_letters(text: Seq<char>)
    ensures
        before_quote(ascii_lower(text)) == ascii_lower(before_quote(text)),
{
    let lower = ascii_lower(text);
    let head = before_quote(text);
    law_before_quote(text);
    law_before_quote(lower);
    let a = before_quote(text).len() as int;
    let b = before_quote(lower).len() as int;
    assert forall|i: int| 0 <= i < a implies head[i] == text[i] by {
        assert(text.subrange(0, a)[i] == head[i]);
    }
    assert forall|i: int| 0 <= i < b implies before_quote(lower)[i] == lower[i] by {
        assert(lower.subrange(0, b)[i] == before_quote(lower)[i]);
    }
    if a < b {
        assert(before_quote(lower)[a] == lower[a]);
        assert(lower[a] == '\'' || lower[a] == '"');
    }
    if b < a {
        assert(head[b] == text[b]);
        assert(lower[b] == '\'' || lower[b] == '"');
        assert(text[b] == '\'' || text[b] == '"');
    }
    assert(before_quote(lower) =~= ascii_lower(head));
}

/// Where a message says what a statement failed with, what stands before
/// anything quoted tells whether it was the connection.
pub proof fn law_statement_errors_are_searched_up_to_a_quote(text: Seq<char>)
    ensures
        transport_failure("MSSQL query failed: "@ + text) == speaks_of_connection(
            before_quote(text),
        ),
        transport_failure("MSSQL result read failed: "@ + text) == speaks_of_connection(
            before_quote(text),
        ),
        transport_failure("MSSQL execute failed: "@ + text) == speaks_of_connection(
            before_quote(text),
        ),
{
    law_statement_errors_are_recognised(text);
    lemma_quote_in_small_letters(text);
    reveal_strlit("evaluating params: ");
    reveal_strlit("MSSQL query failed: ");
    reveal_strlit("MSSQL result read failed: ");
    reveal_strlit("MSSQL execute failed: ");
    let params = "evaluating params: "@;
    lemma_not_prefix(ascii_lower("MSSQL query failed: "@ + text), params, 0);
    lemma_not_prefix(ascii_lower("MSSQL result read failed: "@ + text), params, 0);
    lemma_not_prefix(ascii_lower("MSSQL execute failed: "@ + text), params, 0);
}

/// Any other message is searched whole.
pub proof fn law_other_messages_are_searched_whole(message: Seq<char>)
    requires
        !has_prefix(ascii_lower(message), "evaluating params: "@),
        !has_prefix(ascii_lower(message), "mssql query failed: "@),
        !has_prefix(ascii_lower(message), "mssql result read failed: "@),
        !has_prefix(ascii_lower(message), "mssql execute failed: "@),
    ensures
        transport_failure(message) == speaks_of_connection(message),
{
}

/// Rows are an array of them and their count is how many they are; a number of
/// rows affected is that number; what is not there is null.
pub proof fn law_rows_and_counts(rows: Seq<JsonView>, count: u64)
    requires
        rows.len() <= u64::MAX,
    ensures
        rows_value(Some(rows)) == JsonView::Array(rows),
        rows_value(None) == JsonView::Null,
        count_value(Some(count)) == JsonView::Number(JsonNumber::PosInt(count)),
        count_value(None) == JsonView::Null,
        row_count(None) is None,
        row_count(Some(rows)) matches Some(n) && n as int == rows.len(),
{
}

/// The answer of a successful query has its rows and how many they are, that of
/// an execution has how many rows it affected; both have the time that they
/// took, and no other member.
pub proof fn law_response_values(
    rows: Seq<JsonView>,
    rows_affected: u64,
    duration_ms: u128,
    key: Seq<char>,
)
    requires
        rows.len() <= u64::MAX,
        duration_ms <= u64::MAX,
    ensures
        ({
            let answer = response_value(Some(rows), None, duration_ms);
            let count = field(answer, "count"@);
            &&& field(answer, "rows"@) == Some(JsonView::Array(rows))
            &&& count matches Some(JsonView::Number(JsonNumber::PosInt(n))) && n as int
                == rows.len()
            &&& field(answer, "rowsAffected"@) == Some(JsonView::Null)
            &&& field(answer, "durationMs"@) matches Some(
                JsonView::Number(JsonNumber::PosInt(n)),
            ) && n as int == duration_ms as int
            &&& field(answer, key) is Some ==> key == "rows"@ || key == "count"@ || key
                == "rowsAffected"@ || key == "durationMs"@
        }),
        ({
            let answer = response_value(None, Some(rows_affected), duration_ms);
            &&& field(answer, "rows"@) == Some(JsonView::Null)
            &&& field(answer, "count"@) == Some(JsonView::Null)
            &&& field(answer, "rowsAffected"@) == Some(
                JsonView::Number(JsonNumber::PosInt(rows_affected)),
            )
            &&& field(answer, "durationMs"@) matches Some(
                JsonView::Number(JsonNumber::PosInt(n)),
            ) && n as int == duration_ms as int
            &&& field(answer, key) is Some ==> key == "rows"@ || key == "count"@ || key
                == "rowsAffected"@ || key == "durationMs"@
        }),
{
    law_response_members(Some(rows), None, duration_ms);
    law_response_members(None, Some(rows_affected), duration_ms);
}

/// The statement's side of a response has the host, the database and the
/// operation, and no other member.
pub proof fn law_request_members(
    host: Seq<char>,
    database: Seq<char>,
    op: Seq<char>,
    key: Seq<char>,
)
    ensures
        ({
            let request = request_value(host, database, op);
            &&& field(request, "host"@) == Some(JsonView::String(host))
            &&& field(request, "database"@) == Some(JsonView::String(database))
            &&& field(request, "op"@) == Some(JsonView::String(op))
            &&& field(request, key) is Some ==> key == "host"@ || key == "database"@ || key
                == "op"@
        }),
{
    reveal_strlit("host");
    reveal_strlit("database");
    reveal_strlit("op");
    assert("host"@.len() == 4);
    assert("database"@.len() == 8);
    assert("op"@.len() == 2);
}

/// A response has no member but its seven.
pub proof fn law_envelope_has_no_other_member(
    tool_name: Seq<char>,
    profile_name: Seq<char>,
    request: JsonView,
    response: JsonView,
    error_slot: Option<JsonView>,
    error: Option<Seq<char>>,
    key: Seq<char>,
)
    requires
        field(
            envelope_value(tool_name, profile_name, request, response, error_slot, error),
            key,
        ) is Some,
    ensures
        key == "toolName"@ || key == "profile"@ || key == "request"@ || key == "response"@ || key
            == "downstreamError"@ || key == "downstreamErrors"@ || key == "error"@,
{
}

/// What is there is that, and what is not there is nothing.
pub proof fn law_optional_parts_are_what_they_hold(
    value: &Json,
    text: &str,
    rows: &Vec<Json>,
    i: int,
)
    ensures
        optional_value(Some(value)) == Some(value@),
        optional_value(None) is None,
        optional_str(Some(text)) == Some(text@),
        optional_str(None) is None,
        optional_rows(Some(rows)) matches Some(views) && views.len() == rows@.len() && (0 <= i
            < rows@.len() ==> views[i] == rows@[i]@),
        optional_rows(None) is None,
{
    lemma_items_view(rows@);
}

/// A member of an object is what stands under its key, and nothing else has
/// members.
pub proof fn law_field(members: Map<Seq<char>, JsonView>, key: Seq<char>, value: JsonView)
    ensures
        field(JsonView::Object(members), key) == Some(value) <==> members.contains_key(key)
            && members[key] == value,
        field(JsonView::Object(members), key) is None <==> !members.contains_key(key),
        !(value is Object) ==> field(value, key) is None,
{
}

} // verus!
