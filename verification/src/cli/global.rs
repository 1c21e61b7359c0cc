//! Arguments of the `global` subcommand.

use vstd::prelude::*;

verus! {

/// Server-wide health, configuration and lifecycle.
pub struct GlobalArgs {
    pub command: GlobalCommand,
}

pub enum GlobalCommand {
    Health,
    ConfigGet,
    ConfigUpdate {
        body: String,
    },
    Dispose,
    Upgrade {
        body: String,
    },
}

} // verus!
