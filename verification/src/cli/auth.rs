//! Arguments of the `auth` subcommand.

use vstd::prelude::*;

verus! {

/// Credentials of a provider.
pub struct AuthArgs {
    pub command: AuthCommand,
}

pub enum AuthCommand {
    SetCredentials {
        provider_id: String,
        body: String,
    },
    Remove {
        provider_id: String,
    },
}

} // verus!
