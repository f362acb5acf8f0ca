# mcpg-plugin-backend-mssql

Microsoft SQL Server (TDS) backend for a tool gateway. One binding is one
parameterised statement. Its `@P1, @P2, ...` placeholders are bound from CEL
expressions evaluated against a call's arguments, as SQL parameters and never as
text. `op: query` gives rows, `op: execute` gives the number of rows affected.

## Layout

- `src/` is the library, verified with Verus: settings and their checks, parameter
  expressions and binding, connection settings, the course of a statement and of
  a call, rows as JSON, error classification, responses, and audit events.
- `app/` is the plugin around it: settings as they arrive, the connection pool, the
  host's traits and the dynamic library. It connects, waits and sends, and hands
  back what came of it.
- `tests/` runs the library with the real crates.

## What is proved

The contracts of `src/` say what each function gives for every input that its
`requires` admits. The functions named `law_...` state what holds of the library as
a whole, among them:

- what the server gets is the operator's statement as it stands, with `@P{i+1}`
  bound to what the expression `params[i]` gave;
- a query gives rows, up to the limit, and an execution gives a count;
- a response has an error object exactly where the call failed;
- a call that gets no connection, or runs out of time, ends in a retryable
  transport error, and a statement that the server rejects never does, whatever
  names it quotes;
- a message alone is classified in any case alike; what it quotes of a failed
  statement does not count;
- every registered binding has compiled parameters and positive limits;
- the steps of a call share one time limit;
- parameters do not influence each other, and an empty payload means `{}`;
- a `cred://` password is always refused;
- under a column name a row's object holds the last column with that name.

## What is taken on trust

Calls into `serde_json`, `cel`, `tiberius`, `chrono` and `base64` stand behind small
functions marked `external_body`, each with the facts that it claims of the call.
An expression on which the CEL interpreter panics is outside the contracts: what
runs expressions requires that they return. No contract says of an expression
that it does, so only a caller outside Verus can vouch for it. Verus does not see `app/`.
