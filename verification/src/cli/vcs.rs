//! Arguments of the `vcs` subcommand.

use vstd::prelude::*;
use vstd::string::*;

use super::text_is;

verus! {

/// Version control.
pub struct VcsArgs {
    pub command: VcsCommand,
}

pub enum VcsCommand {
    Get {
        directory: Option<String>,
        workspace: Option<String>,
    },
    Status {
        directory: Option<String>,
        workspace: Option<String>,
    },
    Diff {
        context: Option<u64>,
        directory: Option<String>,
        /// `git` unless given.
        mode: String,
        workspace: Option<String>,
    },
    Apply {
        patch: String,
        directory: Option<String>,
        workspace: Option<String>,
    },
}

/// What a diff compares against.
#[derive(Debug, PartialEq, Eq, Structural, Clone, Copy)]
pub enum DiffMode {
    Git,
    Branch,
}

/// The `--mode` option of a diff: `git` or `branch`; any other text is
/// refused with a message that names it.
pub fn diff_mode(mode: &str) -> (r: Result<DiffMode, String>)
    ensures
        mode@ == "git"@ ==> r matches Ok(DiffMode::Git),
        mode@ != "git"@ && mode@ == "branch"@ ==> r matches Ok(DiffMode::Branch),
        mode@ != "git"@ && mode@ != "branch"@ ==> (r matches Err(e) && e@ == "Unknown diff mode: "@ + mode@),
{
    if text_is(mode, "git") {
        Ok(DiffMode::Git)
    } else if text_is(mode, "branch") {
        Ok(DiffMode::Branch)
    } else {
        let mut e = "Unknown diff mode: ".to_owned();
        e.append(mode);
        Err(e)
    }
}

} // verus!
