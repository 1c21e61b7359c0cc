//! Arguments of the `path` subcommand.

use vstd::prelude::*;

verus! {

/// The server's paths.
pub struct PathArgs {
    pub command: PathCommand,
}

pub enum PathCommand {
    Get {
        directory: Option<String>,
        workspace: Option<String>,
    },
}

} // verus!
