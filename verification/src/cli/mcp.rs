//! Arguments of the `mcp` subcommand.

use vstd::prelude::*;

verus! {

/// Model context protocol servers.
pub struct McpArgs {
    pub command: McpCommand,
}

pub enum McpCommand {
    Status {
        directory: Option<String>,
        workspace: Option<String>,
    },
    Add {
        body: String,
        directory: Option<String>,
        workspace: Option<String>,
    },
    Connect {
        name: String,
        directory: Option<String>,
        workspace: Option<String>,
    },
    Disconnect {
        name: String,
        directory: Option<String>,
        workspace: Option<String>,
    },
    AuthStart {
        name: String,
        directory: Option<String>,
        workspace: Option<String>,
    },
    AuthCallback {
        name: String,
        body: String,
        directory: Option<String>,
        workspace: Option<String>,
    },
    AuthRemove {
        name: String,
        directory: Option<String>,
        workspace: Option<String>,
    },
    AuthAuthenticate {
        name: String,
        directory: Option<String>,
        workspace: Option<String>,
    },
}

} // verus!
