//! Arguments of the `lsp` subcommand.

use vstd::prelude::*;

verus! {

/// The language servers' status.
pub struct LspArgs {
    pub command: LspCommand,
}

pub enum LspCommand {
    Status {
        directory: Option<String>,
        workspace: Option<String>,
    },
}

} // verus!
