//! Arguments of the `tui` subcommand.

use vstd::prelude::*;

verus! {

/// The terminal interface.
pub struct TuiArgs {
    pub command: TuiCommand,
}

pub enum TuiCommand {
    AppendPrompt {
        body: String,
        directory: Option<String>,
        workspace: Option<String>,
    },
    OpenHelp {
        directory: Option<String>,
        workspace: Option<String>,
    },
    OpenSessions {
        directory: Option<String>,
        workspace: Option<String>,
    },
    OpenThemes {
        directory: Option<String>,
        workspace: Option<String>,
    },
    OpenModels {
        directory: Option<String>,
        workspace: Option<String>,
    },
    SubmitPrompt {
        directory: Option<String>,
        workspace: Option<String>,
    },
    ClearPrompt {
        directory: Option<String>,
        workspace: Option<String>,
    },
    ExecuteCommand {
        body: String,
        directory: Option<String>,
        workspace: Option<String>,
    },
    ShowToast {
        body: String,
        directory: Option<String>,
        workspace: Option<String>,
    },
    Publish {
        body: String,
        directory: Option<String>,
        workspace: Option<String>,
    },
    SelectSession {
        body: String,
        directory: Option<String>,
        workspace: Option<String>,
    },
    ControlNext {
        directory: Option<String>,
        workspace: Option<String>,
    },
    ControlResponse {
        body: String,
        directory: Option<String>,
        workspace: Option<String>,
    },
}

/// Whether `serde_json` reads a text as a JSON document.
pub uninterp spec fn parses_as_json(body: Seq<char>) -> bool;

/// Calls `serde_json::from_str` to read the text as a `serde_json::Value`.
/// The contract claims only that the reading succeeds exactly when
/// `parses_as_json` holds of the text; the document is carried through
/// unread.
#[verifier::external_body]
fn parse_json_value(body: &str) -> (r: Result<serde_json::Value, serde_json::Error>)
    ensures
        r is Ok <==> parses_as_json(body@),
{
    serde_json::from_str::<serde_json::Value>(body)
}

/// The body of a control response: the `--body` text read as any JSON
/// document, refused exactly when it is not one.
pub fn control_response_body(body: &str) -> (r: Result<serde_json::Value, serde_json::Error>)
    ensures
        r is Ok <==> parses_as_json(body@),
{
    parse_json_value(body)
}

} // verus!
