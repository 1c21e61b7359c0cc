//! Arguments of the `question` subcommand.

use vstd::prelude::*;

verus! {

/// Questions the agent asks.
pub struct QuestionArgs {
    pub command: QuestionCommand,
}

pub enum QuestionCommand {
    List {
        directory: Option<String>,
        workspace: Option<String>,
    },
    Reply {
        request_id: String,
        body: String,
        directory: Option<String>,
        workspace: Option<String>,
    },
    Reject {
        request_id: String,
        directory: Option<String>,
        workspace: Option<String>,
    },
}

} // verus!
