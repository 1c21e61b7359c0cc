//! The command-line client's subcommands and the rules that turn their options
//! into request values.

use vstd::prelude::*;

pub mod app;
pub mod auth;
pub mod command;
pub mod config;
pub mod file;
pub mod find;
pub mod formatter;
pub mod global;
pub mod instance;
pub mod lsp;
pub mod mcp;
pub mod path;
pub mod permission;
pub mod project;
pub mod provider;
pub mod pty;
pub mod question;
pub mod sync;
pub mod tui;
pub mod vcs;
pub mod v2;

verus! {

/// A JSON document as `serde_json` holds it; the library carries it through
/// without looking inside.
#[verifier::external_type_specification]
#[verifier::external_body]
pub struct ExJsonValue(serde_json::Value);

/// A refusal of `serde_json` to read a text.
#[verifier::external_type_specification]
#[verifier::external_body]
pub struct ExJsonError(serde_json::Error);

/// Whether two texts are the same.
pub(crate) fn text_is(s: &str, lit: &str) -> (b: bool)
    ensures
        b == (s@ == lit@),
{
    s.to_owned() == lit.to_owned()
}

} // verus!
