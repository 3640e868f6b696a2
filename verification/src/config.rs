//! The settings of the bot and their defaults.

use vstd::prelude::*;

verus! {

/// All settings.
#[derive(Debug, Clone)]
pub struct Configuration {
    pub authentication: Authentication,
    pub discord: Discord,
}

/// Credentials for the services the bot talks to. Each may be absent.
#[derive(Debug, Clone)]
pub struct Authentication {
    pub discord_token: Option<String>,
    pub openai_api_server: Option<String>,
    pub openai_api_key: Option<String>,
}

/// Settings of the chat surface.
#[derive(Debug, Clone)]
pub struct Discord {
    /// Least time between two updates of a response, in milliseconds. Low
    /// values get the bot throttled.
    pub message_update_interval_ms: u64,
    /// Whether a backslash followed by `n` in a prompt stands for a line break.
    pub replace_newlines: bool,
}

impl Default for Discord {
    /// One update per second, and `\n` stands for a line break.
    fn default() -> (settings: Self)
        ensures
            settings.message_update_interval_ms == 1000,
            settings.replace_newlines,
    {
        Discord { message_update_interval_ms: 1000, replace_newlines: true }
    }
}

impl Default for Configuration {
    /// No credentials, and the default chat settings.
    fn default() -> (settings: Self)
        ensures
            settings.authentication.discord_token is None,
            settings.authentication.openai_api_server is None,
            settings.authentication.openai_api_key is None,
            settings.discord.message_update_interval_ms == 1000,
            settings.discord.replace_newlines,
    {
        Configuration {
            authentication: Authentication {
                discord_token: None,
                openai_api_server: None,
                openai_api_key: None,
            },
            discord: Discord::default(),
        }
    }
}

} // verus!
