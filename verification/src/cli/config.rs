//! Arguments of the `config` subcommand.

use vstd::prelude::*;

verus! {

/// The server's configuration.
pub struct ConfigArgs {
    pub command: ConfigCommand,
}

pub enum ConfigCommand {
    Get {
        directory: Option<String>,
        workspace: Option<String>,
    },
    Update {
        directory: Option<String>,
        workspace: Option<String>,
        body: String,
    },
    Providers {
        directory: Option<String>,
        workspace: Option<String>,
    },
}

} // verus!
