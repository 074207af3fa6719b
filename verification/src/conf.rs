//! Configuration: the recognized options, their built-in defaults, and the
//! override order — command line first, then the configuration file, then
//! the defaults. Option parsing and file loading live outside the library;
//! the merge rule itself is here.

use vstd::prelude::*;

use crate::model::UserType;

verus! {

/// The command the process runs; exactly one.
#[derive(Debug, PartialEq, Eq)]
pub enum Command {
    /// Run the server.
    Run,
    /// Add a user.
    AddUser { user_name: String, password: Option<String>, user_type: Option<UserType> },
    /// Reset a user's password.
    SetUserPassword { user_name: String, password: Option<String> },
    /// Delete a user.
    DeleteUser { user_name: String },
    /// Delete all sessions for a user.
    DeleteSessions { user_name: String },
    /// Add a feed by URL.
    AddFeed { url: String },
    /// Remove a feed by URL.
    RemoveFeed { url: String },
}

/// Concurrency limits of the HTTP surface.
#[derive(Debug, PartialEq, Eq)]
pub struct RateLimitingConfig {
    /// Limit of concurrent connections application-wide.
    pub global_concurrent_limit: Option<u32>,
    /// Limit of concurrent connections to the login endpoint, which is
    /// expensive in terms of CPU.
    pub login_concurrent_limit: Option<u32>,
}

impl RateLimitingConfig {
    /// Fill every unset limit from `other`.
    pub fn merge_from(&mut self, other: RateLimitingConfig)
        ensures
            final(self).global_concurrent_limit == (if old(self).global_concurrent_limit is Some {
                old(self).global_concurrent_limit
            } else {
                other.global_concurrent_limit
            }),
            final(self).login_concurrent_limit == (if old(self).login_concurrent_limit is Some {
                old(self).login_concurrent_limit
            } else {
                other.login_concurrent_limit
            }),
    {
        if self.global_concurrent_limit.is_none() {
            self.global_concurrent_limit = other.global_concurrent_limit;
        }
        if self.login_concurrent_limit.is_none() {
            self.login_concurrent_limit = other.login_concurrent_limit;
        }
    }
}

impl Default for RateLimitingConfig {
    /// The built-in limits: 1024 concurrent connections application-wide,
    /// 4 into login.
    fn default() -> (r: RateLimitingConfig)
        ensures
            r.global_concurrent_limit == Some(1024u32),
            r.login_concurrent_limit == Some(4u32),
    {
        RateLimitingConfig {
            global_concurrent_limit: Some(1024),
            login_concurrent_limit: Some(4),
        }
    }
}

/// The recognized options; each is optional so that the sources can be
/// layered.
#[derive(Debug, PartialEq, Eq)]
pub struct Config {
    /// The command to run.
    pub command: Option<Command>,
    /// Where the configuration file lives; never itself read from a file.
    pub config_file: Option<String>,
    /// The persistence location.
    pub db_file: Option<String>,
    /// The TCP bind address.
    pub listen_address: Option<String>,
    /// The Argon2id secret.
    pub pepper: Option<String>,
    /// The default duration between feed checks, in seconds.
    pub feed_check_interval: Option<u64>,
    /// Read-only mode: logins are disabled.
    pub disable_logins: Option<bool>,
    /// Concurrency limits.
    pub rate_limiting: RateLimitingConfig,
}

impl Config {
    /// Fill every unset option from `other`; a config built from the
    /// command line, merged with the file's and then the defaults, resolves
    /// every option by that precedence.
    pub fn merge_from(&mut self, other: Config)
        ensures
            final(self).command == (if old(self).command is Some {
                old(self).command
            } else {
                other.command
            }),
            final(self).config_file == (if old(self).config_file is Some {
                old(self).config_file
            } else {
                other.config_file
            }),
            final(self).db_file == (if old(self).db_file is Some {
                old(self).db_file
            } else {
                other.db_file
            }),
            final(self).listen_address == (if old(self).listen_address is Some {
                old(self).listen_address
            } else {
                other.listen_address
            }),
            final(self).pepper == (if old(self).pepper is Some {
                old(self).pepper
            } else {
                other.pepper
            }),
            final(self).feed_check_interval == (if old(self).feed_check_interval is Some {
                old(self).feed_check_interval
            } else {
                other.feed_check_interval
            }),
            final(self).disable_logins == (if old(self).disable_logins is Some {
                old(self).disable_logins
            } else {
                other.disable_logins
            }),
            final(self).rate_limiting.global_concurrent_limit == (if old(
                self,
            ).rate_limiting.global_concurrent_limit is Some {
                old(self).rate_limiting.global_concurrent_limit
            } else {
                other.rate_limiting.global_concurrent_limit
            }),
            final(self).rate_limiting.login_concurrent_limit == (if old(
                self,
            ).rate_limiting.login_concurrent_limit is Some {
                old(self).rate_limiting.login_concurrent_limit
            } else {
                other.rate_limiting.login_concurrent_limit
            }),
    {
        if self.command.is_none() {
            self.command = other.command;
        }
        if self.config_file.is_none() {
            self.config_file = other.config_file;
        }
        if self.db_file.is_none() {
            self.db_file = other.db_file;
        }
        if self.listen_address.is_none() {
            self.listen_address = other.listen_address;
        }
        if self.pepper.is_none() {
            self.pepper = other.pepper;
        }
        if self.feed_check_interval.is_none() {
            self.feed_check_interval = other.feed_check_interval;
        }
        if self.disable_logins.is_none() {
            self.disable_logins = other.disable_logins;
        }
        self.rate_limiting.merge_from(other.rate_limiting);
    }
}

impl Default for Config {
    /// The built-in defaults: run the server on `127.0.0.1:9892` against
    /// `/tmp/russet-db.sqlite`, checking feeds hourly, with logins enabled.
    /// The default pepper is an opaque placeholder that deployments should
    /// override.
    fn default() -> (r: Config)
        ensures
            r.command == Some(Command::Run),
            r.config_file is None,
            r.db_file matches Some(f) && f@ == "/tmp/russet-db.sqlite"@,
            r.listen_address matches Some(a) && a@ == "127.0.0.1:9892"@,
            r.pepper matches Some(p) && p@ == "IzvoEPMQIi82NSXTz7cZ"@,
            r.feed_check_interval == Some(3600u64),
            r.disable_logins == Some(false),
            r.rate_limiting.global_concurrent_limit == Some(1024u32),
            r.rate_limiting.login_concurrent_limit == Some(4u32),
    {
        Config {
            command: Some(Command::Run),
            config_file: None,
            db_file: Some(String::from_str("/tmp/russet-db.sqlite")),
            listen_address: Some(String::from_str("127.0.0.1:9892")),
            pepper: Some(String::from_str("IzvoEPMQIi82NSXTz7cZ")),
            feed_check_interval: Some(3600),
            disable_logins: Some(false),
            rate_limiting: RateLimitingConfig {
                global_concurrent_limit: Some(1024),
                login_concurrent_limit: Some(4),
            },
        }
    }
}

} // verus!
