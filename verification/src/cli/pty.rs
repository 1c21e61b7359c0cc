//! Arguments of the `pty` subcommand.

use vstd::prelude::*;

verus! {

/// Pseudo-terminals.
pub struct PtyArgs {
    pub command: PtyCommand,
}

pub enum PtyCommand {
    List {
        directory: Option<String>,
        workspace: Option<String>,
    },
    Create {
        body: String,
        directory: Option<String>,
        workspace: Option<String>,
    },
    Get {
        pty_id: String,
        directory: Option<String>,
        workspace: Option<String>,
    },
    Update {
        pty_id: String,
        body: String,
        directory: Option<String>,
        workspace: Option<String>,
    },
    Remove {
        pty_id: String,
        directory: Option<String>,
        workspace: Option<String>,
    },
    Connect {
        pty_id: String,
        cursor: Option<String>,
        directory: Option<String>,
        ticket: Option<String>,
        workspace: Option<String>,
    },
    ConnectToken {
        pty_id: String,
        directory: Option<String>,
        workspace: Option<String>,
    },
    Shells {
        directory: Option<String>,
        workspace: Option<String>,
    },
}

} // verus!
