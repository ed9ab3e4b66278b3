//! The already-parsed configuration the orchestrator receives: account
//! list, destination channel, the two bearer credentials, and the cursor
//! file location.

use vstd::prelude::*;

verus! {

/// Destination-side configuration.
pub struct TelegramConfig {
    pub token: String,
    pub chat_id: String,
}

/// Source-side configuration: the credential and the accounts to sync.
pub struct TwitterConfig {
    pub token: String,
    pub ids: Vec<String>,
}

/// The whole configuration of one pass.
pub struct Config {
    /// Cursor file location; when absent the caller's default stands.
    pub cache: Option<String>,
    pub telegram: TelegramConfig,
    pub twitter: TwitterConfig,
}

/// Where the cursor file lives: the command line's path when the caller
/// asks to ignore the configured one, else the configured path, falling
/// back to the command line's.
pub fn cache_location(ignore_config: bool, cli_cache: String, cfg_cache: Option<String>) -> (r:
    String)
    ensures
        r@ == (if ignore_config {
            cli_cache@
        } else {
            match cfg_cache {
                Some(p) => p@,
                None => cli_cache@,
            }
        }),
{
    if ignore_config {
        cli_cache
    } else {
        match cfg_cache {
            Some(p) => p,
            None => cli_cache,
        }
    }
}

} // verus!
