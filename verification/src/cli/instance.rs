//! Arguments of the `instance` subcommand.

use vstd::prelude::*;

verus! {

/// The server instance.
pub struct InstanceArgs {
    pub command: InstanceCommand,
}

pub enum InstanceCommand {
    Dispose {
        directory: Option<String>,
        workspace: Option<String>,
    },
}

} // verus!
