//! Arguments of the `formatter` subcommand.

use vstd::prelude::*;

verus! {

/// The formatters' status.
pub struct FormatterArgs {
    pub command: FormatterCommand,
}

pub enum FormatterCommand {
    Status {
        directory: Option<String>,
        workspace: Option<String>,
    },
}

} // verus!
