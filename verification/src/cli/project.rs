//! Arguments of the `project` subcommand.

use vstd::prelude::*;

verus! {

/// Projects.
pub struct ProjectArgs {
    pub command: ProjectCommand,
}

pub enum ProjectCommand {
    List {
        directory: Option<String>,
        workspace: Option<String>,
    },
    Current {
        directory: Option<String>,
        workspace: Option<String>,
    },
    Update {
        project_id: String,
        directory: Option<String>,
        workspace: Option<String>,
        body: String,
    },
    InitGit {
        directory: Option<String>,
        workspace: Option<String>,
    },
}

} // verus!
