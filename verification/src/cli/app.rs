//! Arguments of the `app` subcommand.

use vstd::prelude::*;

verus! {

/// The application's log, agents and skills.
pub struct AppArgs {
    pub command: AppCommand,
}

pub enum AppCommand {
    Log {
        body: String,
        directory: Option<String>,
        workspace: Option<String>,
    },
    Agents {
        directory: Option<String>,
        workspace: Option<String>,
    },
    Skills {
        directory: Option<String>,
        workspace: Option<String>,
    },
}

} // verus!
