//! Arguments of the `file` subcommand.

use vstd::prelude::*;

verus! {

/// Files of the project.
pub struct FileArgs {
    pub command: FileCommand,
}

pub enum FileCommand {
    List {
        path: String,
        directory: Option<String>,
        workspace: Option<String>,
    },
    Read {
        path: String,
        directory: Option<String>,
        workspace: Option<String>,
    },
    Status {
        directory: Option<String>,
        workspace: Option<String>,
    },
}

} // verus!
