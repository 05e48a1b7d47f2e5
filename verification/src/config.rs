//! The bot's three settings and the rule by which they are accepted.

use vstd::prelude::*;
use vstd::string::*;

verus! {

/// The settings the bot runs with.
#[derive(Debug)]
pub struct Config {
    pub bot_token: String,
    pub database_url: String,
    pub command_prefix: String,
}

/// A required setting that is absent.
#[derive(Clone, Copy, Debug, PartialEq, Eq, Structural)]
pub enum ConfigError {
    MissingBotToken,
    MissingDatabaseUrl,
}

/// The command prefix that is used where none is set.
pub open spec fn default_prefix() -> Seq<char> {
    "c:"@
}

impl ConfigError {
    /// The text of the error.
    pub open spec fn message_spec(self) -> Seq<char> {
        match self {
            ConfigError::MissingBotToken => "Missing BOT_TOKEN environment variable"@,
            ConfigError::MissingDatabaseUrl => "Missing DATABASE_URL environment variable"@,
        }
    }

    /// The text of the error.
    pub fn message(&self) -> (r: String)
        ensures
            r@ == self.message_spec(),
    {
        match self {
            ConfigError::MissingBotToken => String::from_str(
                "Missing BOT_TOKEN environment variable",
            ),
            ConfigError::MissingDatabaseUrl => String::from_str(
                "Missing DATABASE_URL environment variable",
            ),
        }
    }
}

impl Config {
    /// Builds the configuration from the values of the settings `BOT_TOKEN`,
    /// `DATABASE_URL` and `COMMAND_PREFIX`, each `None` where it is not set.
    /// The first two are required, the token being looked at first; the
    /// prefix falls back to `"c:"`.
    pub fn load(
        bot_token: Option<String>,
        database_url: Option<String>,
        command_prefix: Option<String>,
    ) -> (r: Result<Config, ConfigError>)
        ensures
            bot_token.is_none() ==> r == Err::<Config, ConfigError>(ConfigError::MissingBotToken),
            bot_token.is_some() && database_url.is_none() ==> r == Err::<Config, ConfigError>(
                ConfigError::MissingDatabaseUrl,
            ),
            bot_token.is_some() && database_url.is_some() ==> r.is_ok() && r.unwrap().bot_token
                == bot_token.unwrap() && r.unwrap().database_url == database_url.unwrap()
                && r.unwrap().command_prefix@ == match command_prefix {
                Some(prefix) => prefix@,
                None => default_prefix(),
            },
    {
        let bot_token = match bot_token {
            Some(token) => token,
            None => {
                return Err(ConfigError::MissingBotToken);
            },
        };
        let database_url = match database_url {
            Some(url) => url,
            None => {
                return Err(ConfigError::MissingDatabaseUrl);
            },
        };
        let command_prefix = match command_prefix {
            Some(prefix) => prefix,
            None => String::from_str("c:"),
        };
        Ok(Config { bot_token, database_url, command_prefix })
    }
}

} // verus!
