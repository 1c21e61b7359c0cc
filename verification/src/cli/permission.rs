//! Arguments of the `permission` subcommand.

use vstd::prelude::*;

verus! {

/// Pending permission requests.
pub struct PermissionArgs {
    pub command: PermissionCommand,
}

pub enum PermissionCommand {
    List {
        directory: Option<String>,
        workspace: Option<String>,
    },
    Respond {
        session_id: String,
        permission_id: String,
        body: String,
        directory: Option<String>,
        workspace: Option<String>,
    },
}

} // verus!
