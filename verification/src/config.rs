//! The server configuration: the logical database name, the log level, and
//! the store URL computed from them. Reading and decoding the configuration
//! file is I/O and lives with the server; the values and the computation on
//! them are verified here.

use vstd::prelude::*;

use crate::bootstrap::{db_file_name, spec_db_file_name};

verus! {

/// A log severity, one of the five levels the tracing collaborator knows.
#[derive(Clone, Copy, PartialEq, Eq, Structural, Debug)]
pub enum LogLevel {
    Trace,
    Debug,
    Info,
    Warn,
    Error,
}

/// The server configuration.
pub struct Config {
    pub database: String,
    pub log_level: LogLevel,
}

impl Config {
    /// The store URL: the scheme followed by the connection target of the
    /// logical name — the same target the bootstrap creates on a missing
    /// database, with trailing dots insignificant and the extension
    /// appended only when absent.
    pub fn get_db_url(&self) -> (r: String)
        ensures
            r@ == "sqlite:"@ + spec_db_file_name(self.database@),
    {
        let file = db_file_name(self.database.as_str());
        let mut r = String::new();
        r.append("sqlite:");
        r.append(file.as_str());
        proof {
            assert(r@ =~= "sqlite:"@ + spec_db_file_name(self.database@));
        }
        r
    }
}

/// A failure while loading the configuration; each variant carries the
/// collaborator's own message.
pub enum ConfigError {
    Io(String),
    UTF8(String),
    Deserialize(String),
}

impl ConfigError {
    /// The user-facing description of this failure.
    pub fn message(&self) -> (r: String)
        ensures
            r@ == match *self {
                ConfigError::Io(s) => "Problem reading config file. Inner error: "@ + s@,
                ConfigError::UTF8(s) => "Config file was not valid UTF-8. Inner error: "@ + s@,
                ConfigError::Deserialize(s) =>
                    "Config file was not valid TOML format. Inner error: "@ + s@,
            },
    {
        let mut r = String::new();
        match self {
            ConfigError::Io(s) => {
                r.append("Problem reading config file. Inner error: ");
                r.append(s.as_str());
            },
            ConfigError::UTF8(s) => {
                r.append("Config file was not valid UTF-8. Inner error: ");
                r.append(s.as_str());
            },
            ConfigError::Deserialize(s) => {
                r.append("Config file was not valid TOML format. Inner error: ");
                r.append(s.as_str());
            },
        }
        proof {
            assert(r@ =~= match *self {
                ConfigError::Io(s) => "Problem reading config file. Inner error: "@ + s@,
                ConfigError::UTF8(s) => "Config file was not valid UTF-8. Inner error: "@ + s@,
                ConfigError::Deserialize(s) =>
                    "Config file was not valid TOML format. Inner error: "@ + s@,
            });
        }
        r
    }
}

} // verus!
