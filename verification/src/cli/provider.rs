//! Arguments of the `provider` subcommand.

use vstd::prelude::*;

verus! {

/// Model providers.
pub struct ProviderArgs {
    pub command: ProviderCommand,
}

pub enum ProviderCommand {
    List {
        directory: Option<String>,
        workspace: Option<String>,
    },
    Auth {
        directory: Option<String>,
        workspace: Option<String>,
    },
    OauthAuthorize {
        provider_id: String,
        body: String,
        directory: Option<String>,
        workspace: Option<String>,
    },
    OauthCallback {
        provider_id: String,
        body: String,
        directory: Option<String>,
        workspace: Option<String>,
    },
}

} // verus!
