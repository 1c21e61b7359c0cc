//! Arguments of the `command` subcommand.

use vstd::prelude::*;

verus! {

/// The commands the server offers.
pub struct CommandArgs {
    pub command: CommandSubCommand,
}

pub enum CommandSubCommand {
    List {
        directory: Option<String>,
        workspace: Option<String>,
    },
}

} // verus!
