//! Process configuration: the values the server runs with. Loading them
//! from the environment is the embedding program's job; the library only
//! holds and formats them.

use vstd::prelude::*;
use vstd::string::StringExecFns;

use crate::strutil::spec_dec;
use crate::strutil::u64_to_string;

verus! {

/// The server's runtime configuration.
pub struct Config {
    pub host: String,
    pub port: u16,
    pub database_url: String,
    pub github_webhook_secret: String,
    pub max_connections: u32,
}

impl Config {
    /// The `host:port` address the listener binds.
    pub fn server_address(&self) -> (r: String)
        ensures
            r@ == self.host@ + seq![':'] + spec_dec(self.port as int),
    {
        proof {
            reveal_strlit(":");
        }
        let mut s = self.host.clone();
        s.append(":");
        s.append(u64_to_string(self.port as u64).as_str());
        assert(s@ =~= self.host@ + seq![':'] + spec_dec(self.port as int));
        s
    }
}

/// Why configuration loading failed.
pub enum ConfigError {
    MissingDatabaseUrl,
    MissingWebhookSecret,
    InvalidPort,
}

impl ConfigError {
    /// The error's message.
    pub fn message(&self) -> (r: &'static str)
        ensures
            match *self {
                ConfigError::MissingDatabaseUrl => r@
                    == "DATABASE_URL environment variable is required"@,
                ConfigError::MissingWebhookSecret => r@
                    == "GITHUB_WEBHOOK_SECRET environment variable is required"@,
                ConfigError::InvalidPort => r@ == "Invalid PORT value"@,
            },
    {
        match self {
            ConfigError::MissingDatabaseUrl => "DATABASE_URL environment variable is required",
            ConfigError::MissingWebhookSecret => "GITHUB_WEBHOOK_SECRET environment variable is required",
            ConfigError::InvalidPort => "Invalid PORT value",
        }
    }
}

} // verus!
