//! What identifies the service whose usage is shown.

use vstd::prelude::*;

verus! {

/// The names under which a service and its command-line client go.
#[derive(Debug, PartialEq, Eq)]
pub struct ServiceProfile {
    /// The name shown to the user.
    pub provider: String,
    /// The command that logs the user in.
    pub command: String,
    /// The client whose local messages are read.
    pub client: String,
    /// The directory below the home directory in which the client keeps its files.
    pub config_dir: String,
    /// The keychain entry that holds the client's credentials.
    pub keychain_service: String,
    /// Where access tokens are refreshed.
    pub token_url: String,
}

} // verus!
