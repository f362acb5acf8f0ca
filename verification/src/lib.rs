//! Microsoft SQL Server (TDS) backend for a tool gateway.
//!
//! One binding is one statement. Its `@P1, @P2, ...` placeholders are bound from
//! CEL expressions that are evaluated against a call's arguments; they are bound
//! as SQL parameters and never become part of the statement's text. A `query`
//! gives rows, an `execute` gives the number of rows affected.
//!
//! - [`types`]: the operator's settings and what is wrong with them
//! - [`params`] and [`expr`]: expressions, their values, and binding
//! - [`mssql`]: connection settings and the course of one statement
//! - [`column`]: column values and rows as JSON
//! - [`envelope`]: classification of errors and the response of a call
//! - [`observe`]: metrics and audit events
//! - [`plugin`]: registered bindings and the course of one call
//! - [`json`], [`wire`], [`encoding`], [`text`]: values, JSON text, base64, text
//!
//! The library decides and computes; connecting, waiting and sending are done by
//! the program around it, which performs the actions and hands back what came
//! of them.
pub mod column;
pub mod encoding;
pub mod envelope;
pub mod expr;
pub mod json;
pub mod mssql;
pub mod observe;
pub mod params;
pub mod plugin;
pub mod text;
pub mod types;
pub mod wire;

pub use plugin::MssqlBackendPlugin;
pub use types::{EncryptionMode, MssqlBackendSpec, MssqlOp};
