//! Query parameters: CEL expressions that are compiled once, run against a
//! call's arguments, and bound to the statement by position, `params[i]` as
//! `@P{i+1}`. Values are bound beside the statement and never become part of
//! its text.
use crate::expr::{
    add_variable, can_print, cel_compiled, cel_may_give, cel_returns, cel_to_json, cel_view,
    compile_program, errors_text, execute_program, json_cel, json_to_cel,
    lemma_arguments_are_storable, may_become, new_context, no_variables, outcome_view, printable,
    proper_json, show_errors, CelView,
};
use crate::json::{
    float_number, items_view, json_view, lemma_items_view, nearest_float, number_value, open_number,
    Json, JsonNumber, JsonView,
};
use crate::text::{decimal, decimal_text};
use vstd::prelude::*;

verus! {

/// `tiberius::Query`, whose text and values have the names [`query_statement`] and
/// [`query_params`].
#[verifier::external_type_specification]
#[verifier::external_body]
pub struct ExTiberiusQuery<'a>(tiberius::Query<'a>);

/// A compiled parameter: its position, its program and its source.
pub struct CompiledParam {
    /// Zero-based position; the value is bound to `@P{index+1}`.
    pub index: usize,
    /// The compiled program.
    pub program: cel::Program,
    /// The source text, for diagnostics.
    pub source: String,
}

impl CompiledParam {
    /// The program is what the source compiles to.
    pub open spec fn well_compiled(self) -> bool {
        cel_compiled(self.source@) == Ok::<cel::Program, cel::ParseErrors>(self.program)
    }
}

/// The parameters that a list of expressions compiles to: one for each, in order.
pub open spec fn compiled_from(params: Seq<CompiledParam>, exprs: Seq<String>) -> bool {
    &&& params.len() == exprs.len()
    &&& forall|i: int|
        0 <= i < params.len() ==> (#[trigger] params[i]).index == i && params[i].source@
            == exprs[i]@ && params[i].well_compiled()
}

/// The message for an expression that does not compile.
pub open spec fn uncompiled_message(index: int, error: Seq<char>) -> Seq<char> {
    "params["@ + decimal(index as nat) + "] does not compile as CEL: "@ + error
}

/// The message for a program that fails.
pub open spec fn failed_message(index: int, error: Seq<char>, source: Seq<char>) -> Seq<char> {
    "params["@ + decimal(index as nat) + "] failed: "@ + error + " (source: "@ + source + ")"@
}

/// The first of some expressions that does not compile, with its errors.
pub open spec fn first_uncompiled(exprs: Seq<String>) -> Option<(int, cel::ParseErrors)>
    decreases exprs.len(),
{
    if exprs.len() == 0 {
        None
    } else {
        match first_uncompiled(exprs.drop_last()) {
            Some(found) => Some(found),
            None => match cel_compiled(exprs.last()@) {
                Ok(_) => None,
                Err(errors) => Some((exprs.len() - 1, errors)),
            },
        }
    }
}

/// What is wrong with a list of expressions, if one of them does not compile:
/// the message for the first such one.
pub open spec fn compile_problem(exprs: Seq<String>) -> Option<Seq<char>> {
    match first_uncompiled(exprs) {
        Some((index, errors)) => Some(uncompiled_message(index, errors_text(errors))),
        None => None,
    }
}

/// Whether the problem of a list of expressions, if there is one, can be printed.
pub open spec fn problem_is_printable(exprs: Seq<String>) -> bool {
    match first_uncompiled(exprs) {
        Some((_, errors)) => printable(errors),
        None => true,
    }
}

/// A problem with the first expressions of a list is the problem of the list.
proof fn lemma_first_problem_stays(exprs: Seq<String>, at: int)
    requires
        0 <= at <= exprs.len(),
        first_uncompiled(exprs.take(at)) is Some,
    ensures
        first_uncompiled(exprs) == first_uncompiled(exprs.take(at)),
    decreases exprs.len(),
{
    if at < exprs.len() {
        assert(exprs.drop_last().take(at) =~= exprs.take(at));
        lemma_first_problem_stays(exprs.drop_last(), at);
    } else {
        assert(exprs.take(at) =~= exprs);
    }
}

/// A list of expressions has no problem where each of them compiles, and only there.
pub proof fn law_compiles_iff_each_does(exprs: Seq<String>)
    ensures
        compile_problem(exprs) is None <==> forall|i: int|
            0 <= i < exprs.len() ==> cel_compiled((#[trigger] exprs[i])@) is Ok,
    decreases exprs.len(),
{
    if exprs.len() > 0 {
        let front = exprs.drop_last();
        law_compiles_iff_each_does(front);
        assert(forall|i: int| 0 <= i < front.len() ==> front[i] == #[trigger] exprs[i]);
        if compile_problem(exprs) is None {
            assert forall|i: int| 0 <= i < exprs.len() implies cel_compiled(
                (#[trigger] exprs[i])@,
            ) is Ok by {
                if i < front.len() {
                    assert(cel_compiled(front[i]@) is Ok);
                }
            }
        }
        if forall|i: int| 0 <= i < exprs.len() ==> cel_compiled((#[trigger] exprs[i])@) is Ok {
            assert(cel_compiled(exprs[exprs.len() - 1]@) is Ok);
        }
    }
}

/// The parameter for an expression that was compiled so, or the message for one
/// that does not compile.
pub fn finish_compile(
    index: usize,
    source: &String,
    compiled: Result<cel::Program, String>,
) -> (res: Result<CompiledParam, String>)
    ensures
        match (compiled, res) {
            (Ok(program), Ok(param)) => param.index == index && param.source@ == source@
                && param.program == program,
            (Err(error), Err(message)) => message@ == uncompiled_message(index as int, error@),
            _ => false,
        },
{
    match compiled {
        Ok(program) => Ok(CompiledParam { index, program, source: source.clone() }),
        Err(error) => {
            let mut message = "params[".to_owned();
            message.append(decimal_text(index as u128).as_str());
            message.append("] does not compile as CEL: ");
            message.append(error.as_str());
            Err(message)
        },
    }
}

/// Compiles every expression. The error names the first one that does not
/// compile, whose errors can be printed.
pub fn compile_params(exprs: &[String]) -> (res: Result<Vec<CompiledParam>, String>)
    requires
        problem_is_printable(exprs@),
    ensures
        match res {
            Ok(params) => compile_problem(exprs@) is None && compiled_from(params@, exprs@),
            Err(message) => compile_problem(exprs@) == Some(message@),
        },
{
    let mut params: Vec<CompiledParam> = Vec::new();
    let mut index: usize = 0;
    while index < exprs.len()
        invariant
            index <= exprs@.len(),
            problem_is_printable(exprs@),
            compiled_from(params@, exprs@.take(index as int)),
            first_uncompiled(exprs@.take(index as int)) is None,
        decreases exprs@.len() - index,
    {
        let source: &String = &exprs[index];
        proof {
            assert(exprs@.take(index + 1).drop_last() =~= exprs@.take(index as int));
        }
        let compiled = match compile_program(source.as_str()) {
            Ok(program) => Ok(program),
            Err(errors) => {
                proof {
                    assert(first_uncompiled(exprs@.take(index + 1)) == Some(
                        (index as int, errors),
                    ));
                    lemma_first_problem_stays(exprs@, index + 1);
                }
                Err(show_errors(&errors))
            },
        };
        match finish_compile(index, source, compiled) {
            Ok(param) => params.push(param),
            Err(message) => {
                return Err(message);
            },
        }
        index = index + 1;
    }
    proof {
        assert(exprs@.take(exprs@.len() as int) =~= exprs@);
    }
    Ok(params)
}

/// Whether the problem of a list of expressions, if there is one, can be printed.
fn can_print_problem(exprs: &[String]) -> (res: bool)
    ensures
        res == problem_is_printable(exprs@),
{
    let mut index: usize = 0;
    while index < exprs.len()
        invariant
            index <= exprs@.len(),
            first_uncompiled(exprs@.take(index as int)) is None,
        decreases exprs@.len() - index,
    {
        proof {
            assert(exprs@.take(index + 1).drop_last() =~= exprs@.take(index as int));
        }
        match compile_program(exprs[index].as_str()) {
            Ok(_) => {},
            Err(errors) => {
                proof {
                    assert(first_uncompiled(exprs@.take(index + 1)) == Some(
                        (index as int, errors),
                    ));
                    lemma_first_problem_stays(exprs@, index + 1);
                }
                return can_print(&errors);
            },
        }
        index = index + 1;
    }
    proof {
        assert(exprs@.take(exprs@.len() as int) =~= exprs@);
    }
    true
}

/// Compiles every expression, as [`compile_params`] does, but for a list whose
/// problem cannot be printed: that gives `None`.
pub fn try_compile_params(exprs: &[String]) -> (res: Option<Result<Vec<CompiledParam>, String>>)
    ensures
        match res {
            Some(Ok(params)) => compile_problem(exprs@) is None && compiled_from(params@, exprs@),
            Some(Err(message)) => problem_is_printable(exprs@) && compile_problem(exprs@) == Some(
                message@,
            ),
            None => !problem_is_printable(exprs@),
        },
{
    if can_print_problem(exprs) {
        Some(compile_params(exprs))
    } else {
        None
    }
}

/// The variables that an expression sees: `arguments`, and nothing else.
pub open spec fn argument_variables(arguments: JsonView) -> Map<Seq<char>, CelView> {
    no_variables().insert("arguments"@, json_cel(arguments))
}

/// Whether one parameter may give `result` when its program ended in `outcome`:
/// the JSON value, or a message with the position and the source.
pub open spec fn param_result(
    index: int,
    source: Seq<char>,
    outcome: Result<CelView, Seq<char>>,
    result: Result<JsonView, Seq<char>>,
) -> bool {
    match (outcome, result) {
        (Ok(value), Ok(json)) => may_become(value, json),
        (Err(error), Err(message)) => message == failed_message(index, error, source),
        _ => false,
    }
}

/// Whether `result` is what a parameter may give for the arguments.
pub open spec fn param_may_give(
    param: CompiledParam,
    arguments: JsonView,
    result: Result<JsonView, Seq<char>>,
) -> bool {
    exists|outcome: Result<CelView, Seq<char>>|
        #[trigger] cel_may_give(param.program, argument_variables(arguments), outcome)
            && param_result(param.index as int, param.source@, outcome, result)
}

/// Whether a parameter may give a value for the arguments.
pub open spec fn may_succeed(param: CompiledParam, arguments: JsonView) -> bool {
    exists|value: JsonView| param_may_give(param, arguments, Ok(value))
}

/// Whether each parameter that is reached returns: the later ones are not run
/// where an earlier one cannot succeed.
pub open spec fn runs_return(params: Seq<CompiledParam>, arguments: JsonView) -> bool {
    forall|i: int|
        0 <= i < params.len() && (forall|k: int|
            0 <= k < i ==> may_succeed(#[trigger] params[k], arguments)) ==> cel_returns(
            (#[trigger] params[i]).program,
            argument_variables(arguments),
        )
}

/// Whether `result` is what a list of parameters may give for the arguments: a
/// value for each, in order, or the message of the first one that fails.
pub open spec fn params_may_give(
    params: Seq<CompiledParam>,
    arguments: JsonView,
    result: Result<Seq<JsonView>, Seq<char>>,
) -> bool {
    match result {
        Ok(values) => values.len() == params.len() && forall|i: int|
            0 <= i < params.len() ==> param_may_give(
                #[trigger] params[i],
                arguments,
                Ok(values[i]),
            ),
        Err(message) => exists|at: int|
            0 <= at < params.len() && param_may_give(
                #[trigger] params[at],
                arguments,
                Err(message),
            ) && forall|k: int| 0 <= k < at ==> may_succeed(#[trigger] params[k], arguments),
    }
}

/// What the values of a list of parameters are.
pub open spec fn values_view(res: Result<Vec<Json>, String>) -> Result<
    Seq<JsonView>,
    Seq<char>,
> {
    match res {
        Ok(values) => Ok(items_view(values@)),
        Err(message) => Err(message@),
    }
}

/// What a result is, with text as a sequence of characters.
pub open spec fn result_view(res: Result<Json, String>) -> Result<JsonView, Seq<char>> {
    match res {
        Ok(value) => Ok(value@),
        Err(message) => Err(message@),
    }
}

/// What one parameter gives when its program ended in `outcome`.
pub fn finish_param(
    index: usize,
    source: &str,
    outcome: Result<cel::Value, String>,
) -> (res: Result<Json, String>)
    ensures
        param_result(index as int, source@, outcome_view(outcome), result_view(res)),
{
    match outcome {
        Ok(value) => Ok(cel_to_json(&value)),
        Err(error) => {
            let mut message = "params[".to_owned();
            message.append(decimal_text(index as u128).as_str());
            message.append("] failed: ");
            message.append(error.as_str());
            message.append(" (source: ");
            message.append(source);
            message.append(")");
            Err(message)
        },
    }
}

/// Runs every compiled expression against the arguments and gives the values in
/// order. The first one that fails ends the run with its message. Where the
/// interpreter does not return, neither does this.
pub fn evaluate_params(
    params: &[CompiledParam],
    arguments: &Json,
) -> (res: Result<Vec<Json>, String>)
    requires
        runs_return(params@, arguments@),
    ensures
        params_may_give(params@, arguments@, values_view(res)),
{
    let args_cel = json_to_cel(arguments);
    let mut values: Vec<Json> = Vec::new();
    let mut i: usize = 0;
    while i < params.len()
        invariant
            i <= params@.len(),
            values@.len() == i,
            cel_view(args_cel) == json_cel(arguments@),
            runs_return(params@, arguments@),
            forall|k: int|
                0 <= k < i ==> param_may_give(#[trigger] params@[k], arguments@, Ok(values@[k]@)),
        decreases params@.len() - i,
    {
        let param: &CompiledParam = &params[i];
        let mut context = new_context();
        proof {
            lemma_arguments_are_storable(arguments@);
        }
        add_variable(&mut context, "arguments", &args_cel);
        proof {
            assert forall|k: int| 0 <= k < i implies may_succeed(
                #[trigger] params@[k],
                arguments@,
            ) by {
                assert(param_may_give(params@[k], arguments@, Ok(values@[k]@)));
            }
            assert(cel_returns(params@[i as int].program, argument_variables(arguments@)));
        }
        let outcome = execute_program(&param.program, &context);
        proof {
            assert(cel_may_give(
                param.program,
                argument_variables(arguments@),
                outcome_view(outcome),
            ));
        }
        match finish_param(param.index, param.source.as_str(), outcome) {
            Ok(value) => {
                proof {
                    assert(param_may_give(params@[i as int], arguments@, Ok(value@)));
                }
                values.push(value);
            },
            Err(message) => {
                proof {
                    assert(param_may_give(params@[i as int], arguments@, Err(message@)));
                    assert forall|k: int| 0 <= k < i implies may_succeed(
                        #[trigger] params@[k],
                        arguments@,
                    ) by {
                        assert(param_may_give(params@[k], arguments@, Ok(values@[k]@)));
                    }
                }
                return Err(message);
            },
        }
        i = i + 1;
    }
    proof {
        lemma_items_view(values@);
        assert forall|k: int| 0 <= k < params@.len() implies param_may_give(
            #[trigger] params@[k],
            arguments@,
            Ok(items_view(values@)[k]),
        ) by {
            assert(param_may_give(params@[k], arguments@, Ok(values@[k]@)));
        }
    }
    Ok(values)
}

/// Whether one parameter alone may give the value.
pub open spec fn gives_alone(
    param: CompiledParam,
    arguments: JsonView,
    value: JsonView,
) -> bool {
    params_may_give(seq![param], arguments, Ok(seq![value]))
}

/// Whether one parameter alone may give a value.
pub open spec fn succeeds_alone(param: CompiledParam, arguments: JsonView) -> bool {
    exists|value: JsonView| gives_alone(param, arguments, value)
}

/// Whether one parameter alone may fail with the message.
pub open spec fn fails_alone(
    param: CompiledParam,
    arguments: JsonView,
    message: Seq<char>,
) -> bool {
    params_may_give(seq![param], arguments, Err(message))
}

proof fn lemma_alone(
    param: CompiledParam,
    arguments: JsonView,
    result: Result<JsonView, Seq<char>>,
)
    ensures
        params_may_give(
            seq![param],
            arguments,
            match result {
                Ok(value) => Ok(seq![value]),
                Err(message) => Err(message),
            },
        ) == param_may_give(param, arguments, result),
{
    let one = seq![param];
    assert(one[0] == param);
    match result {
        Ok(value) => {
            let values = seq![value];
            assert(values[0] == value);
        },
        Err(message) => {
            if param_may_give(param, arguments, Err(message)) {
                assert(param_may_give(one[0], arguments, Err(message)));
            }
        },
    }
}

/// Whether `result` is made of what the parameters may give alone: the value of
/// each, in order, or the message of one, where each one before it may give a
/// value.
pub open spec fn made_of_single_runs(
    params: Seq<CompiledParam>,
    arguments: JsonView,
    result: Result<Seq<JsonView>, Seq<char>>,
) -> bool {
    match result {
        Ok(values) => values.len() == params.len() && forall|i: int|
            0 <= i < params.len() ==> gives_alone(#[trigger] params[i], arguments, values[i]),
        Err(message) => exists|at: int|
            0 <= at < params.len() && fails_alone(#[trigger] params[at], arguments, message)
                && forall|k: int| 0 <= k < at ==> succeeds_alone(#[trigger] params[k], arguments),
    }
}

/// Parameters do not influence each other: what a list may give is made of what
/// its parameters may give alone, and one failure fails the whole list.
pub proof fn law_parameters_are_independent(
    params: Seq<CompiledParam>,
    arguments: JsonView,
    result: Result<Seq<JsonView>, Seq<char>>,
)
    ensures
        params_may_give(params, arguments, result) <==> made_of_single_runs(
            params,
            arguments,
            result,
        ),
{
    if params_may_give(params, arguments, result) {
        lemma_made_of_single_runs(params, arguments, result);
    }
    if made_of_single_runs(params, arguments, result) {
        lemma_single_runs_make_a_list(params, arguments, result);
    }
}

proof fn lemma_made_of_single_runs(
    params: Seq<CompiledParam>,
    arguments: JsonView,
    result: Result<Seq<JsonView>, Seq<char>>,
)
    requires
        params_may_give(params, arguments, result),
    ensures
        made_of_single_runs(params, arguments, result),
{
    match result {
        Ok(values) => {
            assert forall|i: int| 0 <= i < params.len() implies gives_alone(
                #[trigger] params[i],
                arguments,
                values[i],
            ) by {
                lemma_alone(params[i], arguments, Ok(values[i]));
            }
        },
        Err(message) => {
            let at = choose|at: int|
                0 <= at < params.len() && param_may_give(
                    #[trigger] params[at],
                    arguments,
                    Err(message),
                ) && forall|k: int| 0 <= k < at ==> may_succeed(#[trigger] params[k], arguments);
            lemma_alone(params[at], arguments, Err(message));
            assert(fails_alone(params[at], arguments, message));
            assert forall|k: int| 0 <= k < at implies succeeds_alone(
                #[trigger] params[k],
                arguments,
            ) by {
                assert(may_succeed(params[k], arguments));
                let value = choose|value: JsonView|
                    param_may_give(params[k], arguments, Ok(value));
                lemma_alone(params[k], arguments, Ok(value));
                assert(gives_alone(params[k], arguments, value));
            }
        },
    }
}

proof fn lemma_single_runs_make_a_list(
    params: Seq<CompiledParam>,
    arguments: JsonView,
    result: Result<Seq<JsonView>, Seq<char>>,
)
    requires
        made_of_single_runs(params, arguments, result),
    ensures
        params_may_give(params, arguments, result),
{
    match result {
        Ok(values) => {
            assert forall|i: int| 0 <= i < params.len() implies param_may_give(
                #[trigger] params[i],
                arguments,
                Ok(values[i]),
            ) by {
                lemma_alone(params[i], arguments, Ok(values[i]));
            }
        },
        Err(message) => {
            let at = choose|at: int|
                0 <= at < params.len() && fails_alone(#[trigger] params[at], arguments, message)
                    && forall|k: int|
                    0 <= k < at ==> succeeds_alone(#[trigger] params[k], arguments);
            lemma_alone(params[at], arguments, Err(message));
            assert(param_may_give(params[at], arguments, Err(message)));
            assert forall|k: int| 0 <= k < at implies may_succeed(
                #[trigger] params[k],
                arguments,
            ) by {
                assert(succeeds_alone(params[k], arguments));
                let value = choose|value: JsonView| gives_alone(params[k], arguments, value);
                lemma_alone(params[k], arguments, Ok(value));
                assert(param_may_give(params[k], arguments, Ok(value)));
            }
        },
    }
}

/// A value to bind to a statement.
pub enum SqlValue {
    /// A typed NULL: `nvarchar` NULL.
    Null,
    /// `bit`.
    Bool(bool),
    /// `bigint`.
    Int(i64),
    /// `float(53)`, of a number that holds a float.
    Float(serde_json::Number),
    /// `nvarchar`.
    Text(String),
}

/// What an [`SqlValue`] is.
pub enum SqlParam {
    Null,
    Bool(bool),
    Int(i64),
    Float(serde_json::Number),
    Text(Seq<char>),
}

impl View for SqlValue {
    type V = SqlParam;

    open spec fn view(&self) -> SqlParam {
        match *self {
            SqlValue::Null => SqlParam::Null,
            SqlValue::Bool(b) => SqlParam::Bool(b),
            SqlValue::Int(i) => SqlParam::Int(i),
            SqlValue::Float(n) => SqlParam::Float(n),
            SqlValue::Text(s) => SqlParam::Text(s@),
        }
    }
}

/// The statement text of a query.
pub uninterp spec fn query_statement(query: tiberius::Query<'static>) -> Seq<char>;

/// The values bound to a query so far; the first one is `@P1`.
pub uninterp spec fn query_params(query: tiberius::Query<'static>) -> Seq<SqlParam>;

/// `tiberius::Query::new`: the statement as it is given, with nothing bound.
#[verifier::external_body]
fn new_query(statement: String) -> (query: tiberius::Query<'static>)
    ensures
        query_statement(query) == statement@,
        query_params(query).len() == 0,
{
    tiberius::Query::new(statement)
}

/// `tiberius::Query::bind`, which adds a last parameter and leaves the statement
/// alone. The NULL is that of an absent `String`; a float is the one that
/// `serde_json::Number::as_f64` gives for a number that holds a float.
#[verifier::external_body]
fn bind_value(query: &mut tiberius::Query<'static>, value: SqlValue)
    requires
        value matches SqlValue::Float(n) ==> number_value(n) is Float,
    ensures
        query_statement(*final(query)) == query_statement(*old(query)),
        query_params(*final(query)) == query_params(*old(query)).push(value@),
{
    match value {
        SqlValue::Null => query.bind(Option::<String>::None),
        SqlValue::Bool(b) => query.bind(b),
        SqlValue::Int(i) => query.bind(i),
        SqlValue::Float(n) => query.bind(n.as_f64()),
        SqlValue::Text(s) => query.bind(s),
    }
}

/// The SQL value of a JSON value. An integer beyond `bigint` is the float nearest
/// to it. Arrays and objects have none.
pub open spec fn sql_param(value: JsonView) -> Option<SqlParam> {
    match value {
        JsonView::Null => Some(SqlParam::Null),
        JsonView::Bool(b) => Some(SqlParam::Bool(b)),
        JsonView::Number(n) => Some(
            match n {
                JsonNumber::PosInt(u) => if u <= i64::MAX {
                    SqlParam::Int(u as i64)
                } else {
                    SqlParam::Float(nearest_float(n))
                },
                JsonNumber::NegInt(i) => SqlParam::Int(i),
                JsonNumber::Float(f) => SqlParam::Float(f),
            },
        ),
        JsonView::String(s) => Some(SqlParam::Text(s)),
        JsonView::Array(_) => None,
        JsonView::Object(_) => None,
    }
}

/// The message for a value that cannot be bound.
pub open spec fn unbindable_message() -> Seq<char> {
    "array/object values cannot be bound as SQL parameters"@
}

/// Binds one JSON value to the query. An array or an object is refused, and
/// the query stays as it was.
pub fn bind_param(query: &mut tiberius::Query<'static>, value: Json) -> (res: Result<(), String>)
    ensures
        query_statement(*final(query)) == query_statement(*old(query)),
        match (sql_param(value@), res) {
            (Some(param), Ok(_)) => query_params(*final(query)) == query_params(*old(query)).push(
                param,
            ),
            (None, Err(message)) => query_params(*final(query)) == query_params(*old(query))
                && message@ == unbindable_message(),
            _ => false,
        },
{
    let value = match value {
        Json::Null => SqlValue::Null,
        Json::Bool(b) => SqlValue::Bool(b),
        Json::Number(n) => match open_number(&n) {
            JsonNumber::PosInt(u) => if u <= i64::MAX as u64 {
                SqlValue::Int(u as i64)
            } else {
                SqlValue::Float(float_number(&n))
            },
            JsonNumber::NegInt(i) => SqlValue::Int(i),
            JsonNumber::Float(f) => SqlValue::Float(f),
        },
        Json::String(s) => SqlValue::Text(s),
        Json::Array(_) | Json::Object(_) => {
            return Err("array/object values cannot be bound as SQL parameters".to_owned());
        },
    };
    bind_value(query, value);
    Ok(())
}

/// Every value has an SQL value.
pub open spec fn bindable(values: Seq<JsonView>) -> bool {
    forall|i: int| 0 <= i < values.len() ==> sql_param(#[trigger] values[i]) is Some
}

/// The SQL values of some JSON values, in order.
pub open spec fn sql_params(values: Seq<JsonView>) -> Seq<SqlParam> {
    Seq::new(values.len(), |i: int| sql_param(values[i])->Some_0)
}

/// The query for a statement with its values bound by position. The text of
/// the query is the statement, whatever the values are.
pub fn prepare_query(
    statement: &str,
    bound: Vec<Json>,
) -> (res: Result<tiberius::Query<'static>, String>)
    ensures
        match res {
            Ok(query) => {
                &&& bindable(items_view(bound@))
                &&& query_statement(query) == statement@
                &&& query_params(query) == sql_params(items_view(bound@))
            },
            Err(message) => !bindable(items_view(bound@)) && message@ == unbindable_message(),
        },
{
    let mut query = new_query(statement.to_owned());
    let ghost all = bound@;
    proof {
        lemma_items_view(all);
    }
    for value in it: bound
        invariant
            it.seq() == all,
            items_view(all).len() == all.len(),
            forall|k: int| 0 <= k < all.len() ==> #[trigger] items_view(all)[k] == json_view(all[k]),
            query_statement(query) == statement@,
            query_params(query).len() == it.index(),
            forall|k: int|
                0 <= k < it.index() ==> Some(#[trigger] query_params(query)[k]) == sql_param(
                    all[k]@,
                ),
    {
        match bind_param(&mut query, value) {
            Ok(_) => {},
            Err(message) => {
                proof {
                    assert(sql_param(items_view(all)[it.index()]) is None);
                }
                return Err(message);
            },
        }
    }
    proof {
        assert forall|k: int| 0 <= k < all.len() implies sql_param(
            #[trigger] items_view(all)[k],
        ) is Some by {
            assert(Some(query_params(query)[k]) == sql_param(all[k]@));
        }
        assert forall|k: int| 0 <= k < all.len() implies query_params(query)[k] == sql_params(
            items_view(all),
        )[k] by {
            assert(Some(query_params(query)[k]) == sql_param(all[k]@));
        }
        assert(query_params(query) =~= sql_params(items_view(all)));
    }
    Ok(query)
}

/// The SQL value of a JSON scalar is that scalar: null is NULL, a boolean is the
/// same `bit`, a text is the same text. Arrays and objects have none.
pub proof fn law_scalars_are_bound_as_they_are(
    b: bool,
    text: Seq<char>,
    items: Seq<JsonView>,
    members: Map<Seq<char>, JsonView>,
)
    ensures
        sql_param(JsonView::Null) == Some(SqlParam::Null),
        sql_param(JsonView::Bool(b)) == Some(SqlParam::Bool(b)),
        sql_param(JsonView::String(text)) == Some(SqlParam::Text(text)),
        sql_param(JsonView::Array(items)) is None,
        sql_param(JsonView::Object(members)) is None,
{
}

/// The SQL value of a JSON number has its value: a `bigint` where that fits, a
/// float for a float, and the nearest float for an integer beyond `bigint`.
pub proof fn law_numbers_are_bound_with_their_value(n: JsonNumber)
    ensures
        match (n, sql_param(JsonView::Number(n))) {
            (JsonNumber::PosInt(u), Some(SqlParam::Int(i))) => i as int == u as int,
            (JsonNumber::PosInt(u), Some(SqlParam::Float(f))) => u > 0x7fff_ffff_ffff_ffff && f
                == nearest_float(n),
            (JsonNumber::NegInt(i), Some(SqlParam::Int(j))) => j == i,
            (JsonNumber::Float(f), Some(SqlParam::Float(g))) => g == f,
            _ => false,
        },
{
}

/// Different values are bound differently: where two values have the same SQL
/// value and neither is a float nor an integer beyond `bigint`, they are the same.
pub proof fn law_different_values_are_bound_differently(a: JsonView, b: JsonView)
    requires
        proper_json(a),
        proper_json(b),
        sql_param(a) is Some,
        sql_param(a) == sql_param(b),
        !(sql_param(a)->Some_0 is Float),
    ensures
        a == b,
{
}

/// A value to bind is what it holds.
pub proof fn law_sql_values_are_what_they_hold(
    b: bool,
    i: i64,
    n: serde_json::Number,
    text: String,
)
    ensures
        SqlValue::Null@ == SqlParam::Null,
        SqlValue::Bool(b)@ == SqlParam::Bool(b),
        SqlValue::Int(i)@ == SqlParam::Int(i),
        SqlValue::Float(n)@ == SqlParam::Float(n),
        SqlValue::Text(text)@ == SqlParam::Text(text@),
{
}

/// Values can be bound unless one of them is an array or an object, and that is
/// what the refusal says.
pub proof fn law_only_scalars_are_bound(values: Seq<JsonView>)
    ensures
        bindable(values) <==> forall|i: int|
            0 <= i < values.len() ==> !((#[trigger] values[i]) is Array) && !(values[i] is Object),
        unbindable_message() == "array/object values cannot be bound as SQL parameters"@,
{
    if bindable(values) {
        assert forall|i: int| 0 <= i < values.len() implies !((#[trigger] values[i]) is Array) && !(
        values[i] is Object) by {
            assert(sql_param(values[i]) is Some);
        }
    }
}

/// Values are bound one by one, each at its own position.
pub proof fn law_values_are_bound_by_position(values: Seq<JsonView>)
    ensures
        sql_params(values).len() == values.len(),
        forall|i: int|
            0 <= i < values.len() && sql_param(values[i]) is Some ==> Some(
                #[trigger] sql_params(values)[i],
            ) == sql_param(values[i]),
{
}

/// A list of expressions compiles to as many parameters: the one at a position
/// has that position, that source and the program of that source.
pub proof fn law_compiled_in_order(params: Seq<CompiledParam>, exprs: Seq<String>, i: int)
    requires
        compiled_from(params, exprs),
    ensures
        params.len() == exprs.len(),
        0 <= i < exprs.len() ==> {
            &&& params[i].index == i
            &&& params[i].source@ == exprs[i]@
            &&& cel_compiled(exprs[i]@) == Ok::<cel::Program, cel::ParseErrors>(params[i].program)
        },
{
    if 0 <= i < exprs.len() {
        assert(params[i].well_compiled());
    }
}

/// A compiled parameter has the program of its source.
pub proof fn law_well_compiled(param: CompiledParam)
    ensures
        param.well_compiled() <==> cel_compiled(param.source@) is Ok && cel_compiled(
            param.source@,
        )->Ok_0 == param.program,
{
}

/// Where an expression does not compile and all before it do, the list is refused
/// with a message that names its position and gives its errors, if they can be
/// printed.
pub proof fn law_first_uncompiled_is_named(exprs: Seq<String>, at: int)
    requires
        0 <= at < exprs.len(),
        cel_compiled(exprs[at]@) is Err,
        forall|i: int| 0 <= i < at ==> cel_compiled((#[trigger] exprs[i])@) is Ok,
    ensures
        compile_problem(exprs) == Some(
            "params["@ + decimal(at as nat) + "] does not compile as CEL: "@ + errors_text(
                cel_compiled(exprs[at]@)->Err_0,
            ),
        ),
        problem_is_printable(exprs) <==> printable(cel_compiled(exprs[at]@)->Err_0),
    decreases exprs.len(),
{
    let front = exprs.drop_last();
    if at < exprs.len() - 1 {
        assert(front[at] == exprs[at]);
        assert forall|i: int| 0 <= i < at implies cel_compiled((#[trigger] front[i])@) is Ok by {
            assert(cel_compiled(exprs[i]@) is Ok);
        }
        law_first_uncompiled_is_named(front, at);
    } else {
        assert forall|i: int| 0 <= i < front.len() implies cel_compiled(
            (#[trigger] front[i])@,
        ) is Ok by {
            assert(cel_compiled(exprs[i]@) is Ok);
        }
        law_compiles_iff_each_does(front);
        assert(first_uncompiled(front) is None);
    }
}

/// The message for an expression that does not compile names its position and
/// gives the error.
pub proof fn law_uncompiled_message(index: nat, error: Seq<char>)
    ensures
        uncompiled_message(index as int, error) == "params["@ + decimal(index)
            + "] does not compile as CEL: "@ + error,
{
}

/// A list whose expressions all compile has nothing to print.
pub proof fn law_compiled_lists_need_no_printing(exprs: Seq<String>)
    requires
        forall|i: int| 0 <= i < exprs.len() ==> cel_compiled((#[trigger] exprs[i])@) is Ok,
    ensures
        compile_problem(exprs) is None,
        problem_is_printable(exprs),
{
    law_compiles_iff_each_does(exprs);
}

/// An expression sees the call's arguments under the name `arguments`, and no
/// other variable.
pub proof fn law_expressions_see_the_arguments(arguments: JsonView, name: Seq<char>)
    ensures
        argument_variables(arguments).contains_key(name) <==> name == "arguments"@,
        argument_variables(arguments)["arguments"@] == json_cel(arguments),
{
}

/// A parameter whose expression gives a value gives what that value becomes; one
/// whose expression fails gives a message with its position, the error and the
/// source.
pub proof fn law_outcome_decides_the_parameter(
    index: int,
    source: Seq<char>,
    value: CelView,
    error: Seq<char>,
    json: JsonView,
    message: Seq<char>,
)
    ensures
        param_result(index, source, Ok(value), Ok(json)) <==> may_become(value, json),
        !param_result(index, source, Ok(value), Err(message)),
        param_result(index, source, Err(error), Err(message)) <==> message == "params["@ + decimal(
            index as nat,
        ) + "] failed: "@ + error + " (source: "@ + source + ")"@,
        !param_result(index, source, Err(error), Ok(json)),
{
}

/// The boolean that an expression gives is the value of the parameter, and so
/// with null, integers and text.
pub proof fn law_scalar_outcome_is_the_value(
    index: int,
    source: Seq<char>,
    b: bool,
    i: i64,
    text: Seq<char>,
    json: JsonView,
)
    ensures
        param_result(index, source, Ok(CelView::Null), Ok(json)) <==> json == JsonView::Null,
        param_result(index, source, Ok(CelView::Bool(b)), Ok(json)) <==> json == JsonView::Bool(b),
        param_result(index, source, Ok(CelView::Int(i)), Ok(json)) ==> sql_param(json) == Some(
            SqlParam::Int(i),
        ),
        param_result(index, source, Ok(CelView::String(text)), Ok(json)) <==> json
            == JsonView::String(text),
{
}

/// A list of parameters that gives values gives one for each, at its position:
/// what a run of its own program, with the call's arguments, gave.
pub proof fn law_values_come_from_their_own_runs(
    params: Seq<CompiledParam>,
    arguments: JsonView,
    values: Seq<JsonView>,
    i: int,
)
    requires
        params_may_give(params, arguments, Ok(values)),
    ensures
        values.len() == params.len(),
        0 <= i < params.len() ==> exists|value: CelView|
            #[trigger] cel_may_give(
                params[i].program,
                map!["arguments"@ => json_cel(arguments)],
                Ok(value),
            ) && may_become(value, values[i]),
{
    assert(argument_variables(arguments) =~= map!["arguments"@ => json_cel(arguments)]);
    if 0 <= i < params.len() {
        assert(param_may_give(params[i], arguments, Ok(values[i])));
        let outcome = choose|outcome: Result<CelView, Seq<char>>|
            #[trigger] cel_may_give(params[i].program, argument_variables(arguments), outcome)
                && param_result(params[i].index as int, params[i].source@, outcome, Ok(values[i]));
        assert(cel_may_give(
            params[i].program,
            map!["arguments"@ => json_cel(arguments)],
            Ok(outcome->Ok_0),
        ));
    }
}

/// A list of parameters that fails does so with the message of one whose own run
/// failed: its position, the error of that run and its source. Each one before
/// it may give a value.
pub proof fn law_failures_name_their_parameter(
    params: Seq<CompiledParam>,
    arguments: JsonView,
    message: Seq<char>,
) -> (found: (int, Seq<char>))
    requires
        params_may_give(params, arguments, Err(message)),
    ensures
        0 <= found.0 < params.len(),
        cel_may_give(
            params[found.0].program,
            map!["arguments"@ => json_cel(arguments)],
            Err(found.1),
        ),
        message == "params["@ + decimal(params[found.0].index as nat) + "] failed: "@ + found.1
            + " (source: "@ + params[found.0].source@ + ")"@,
        forall|k: int| 0 <= k < found.0 ==> may_succeed(#[trigger] params[k], arguments),
{
    assert(argument_variables(arguments) =~= map!["arguments"@ => json_cel(arguments)]);
    let at = choose|at: int|
        0 <= at < params.len() && param_may_give(
            #[trigger] params[at],
            arguments,
            Err(message),
        ) && forall|k: int| 0 <= k < at ==> may_succeed(#[trigger] params[k], arguments);
    let outcome = choose|outcome: Result<CelView, Seq<char>>|
        #[trigger] cel_may_give(params[at].program, argument_variables(arguments), outcome)
            && param_result(params[at].index as int, params[at].source@, outcome, Err(message));
    (at, outcome->Err_0)
}

/// A parameter that may succeed is one with a run that may give a value.
pub proof fn law_success_needs_a_value(param: CompiledParam, arguments: JsonView)
    requires
        may_succeed(param, arguments),
    ensures
        exists|value: CelView| #[trigger]
            cel_may_give(
                param.program,
                map!["arguments"@ => json_cel(arguments)],
                Ok(value),
            ),
{
    assert(argument_variables(arguments) =~= map!["arguments"@ => json_cel(arguments)]);
    let json = choose|json: JsonView| param_may_give(param, arguments, Ok(json));
    let outcome = choose|outcome: Result<CelView, Seq<char>>|
        #[trigger] cel_may_give(param.program, argument_variables(arguments), outcome)
            && param_result(param.index as int, param.source@, outcome, Ok(json));
    assert(cel_may_give(
        param.program,
        map!["arguments"@ => json_cel(arguments)],
        Ok(outcome->Ok_0),
    ));
}

/// Nothing more is asked of expressions than that each returns.
pub proof fn law_returning_expressions_can_be_run(params: Seq<CompiledParam>, arguments: JsonView)
    requires
        forall|i: int|
            0 <= i < params.len() ==> cel_returns(
                (#[trigger] params[i]).program,
                map!["arguments"@ => json_cel(arguments)],
            ),
    ensures
        runs_return(params, arguments),
{
    assert(argument_variables(arguments) =~= map!["arguments"@ => json_cel(arguments)]);
}

/// A result is what it holds.
pub proof fn law_results_are_what_they_hold(values: Vec<Json>, message: String, value: Json, i: int)
    ensures
        values_view(Ok(values)) matches Ok(views) && views.len() == values@.len() && (0 <= i
            < values@.len() ==> views[i] == values@[i]@),
        values_view(Err(message)) == Err::<Seq<JsonView>, Seq<char>>(message@),
        result_view(Ok(value)) == Ok::<JsonView, Seq<char>>(value@),
        result_view(Err(message)) == Err::<JsonView, Seq<char>>(message@),
{
    lemma_items_view(values@);
}

} // verus!
