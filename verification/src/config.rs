//! The application's own configuration: where the daemon's configuration and
//! socket live, how verbose the log is, and whether an internal bitcoind is
//! started.

use vstd::prelude::*;

verus! {

/// The configuration file's name inside the data directory.
pub const DEFAULT_FILE_NAME: &'static str = "gui.toml";

/// The application configuration.
#[derive(Debug, Clone)]
pub struct Config {
    /// Path to the daemon's configuration file.
    pub daemon_config_path: Option<String>,
    /// Path to the daemon's RPC socket file.
    pub daemon_rpc_path: Option<String>,
    /// Log verbosity: "info", "debug" or "trace".
    pub log_level: Option<String>,
    /// Whether debug rendering is on.
    pub debug: Option<bool>,
    /// Whether to start an internal bitcoind executable.
    pub start_internal_bitcoind: bool,
}

/// A log verbosity level.
#[derive(Clone, Copy, Debug, PartialEq, Eq, Structural)]
pub enum LogLevel {
    Info,
    Debug,
    Trace,
}

/// What reading or checking a configuration can fail with.
#[derive(Debug, Clone, PartialEq, Eq)]
pub enum ConfigError {
    InvalidField(&'static str, String),
    NotFound,
    ReadingFile(String),
    Unexpected(String),
}

impl Config {
    /// A configuration pointing at a daemon configuration file, with
    /// everything else unset.
    pub fn new(daemon_config_path: String, start_internal_bitcoind: bool) -> (r: Config)
        ensures
            r.daemon_config_path matches Some(p) && p@ == daemon_config_path@,
            r.daemon_rpc_path is None,
            r.log_level is None,
            r.debug is None,
            r.start_internal_bitcoind == start_internal_bitcoind,
    {
        Config {
            daemon_config_path: Some(daemon_config_path),
            daemon_rpc_path: None,
            log_level: None,
            debug: None,
            start_internal_bitcoind,
        }
    }

    /// The configured log level: one of the three named levels when
    /// `log_level` is set (any other text is an invalid-field error naming the
    /// offending value), else debug when the debug flag is on, else info.
    pub fn log_level(&self) -> (r: Result<LogLevel, ConfigError>)
        ensures
            self.log_level matches Some(l) ==> {
                &&& l@ == "info"@ ==> r == Ok::<LogLevel, ConfigError>(LogLevel::Info)
                &&& l@ == "debug"@ ==> r == Ok::<LogLevel, ConfigError>(LogLevel::Debug)
                &&& l@ == "trace"@ ==> r == Ok::<LogLevel, ConfigError>(LogLevel::Trace)
                &&& l@ != "info"@ && l@ != "debug"@ && l@ != "trace"@ ==> (r matches Err(
                    ConfigError::InvalidField(field, text),
                ) && field@ == "log_level"@ && text@ == "Unknown value '"@ + l@ + "'"@)
            },
            self.log_level is None && self.debug == Some(true) ==> r == Ok::<
                LogLevel,
                ConfigError,
            >(LogLevel::Debug),
            self.log_level is None && self.debug != Some(true) ==> r == Ok::<
                LogLevel,
                ConfigError,
            >(LogLevel::Info),
    {
        proof {
            reveal_strlit("info");
            reveal_strlit("debug");
            reveal_strlit("trace");
            assert("info"@.len() == 4);
            assert("debug"@.len() == 5);
            assert("trace"@.len() == 5);
            assert("debug"@[0] == 'd');
            assert("trace"@[0] == 't');
        }
        match &self.log_level {
            Some(level) => {
                if *level == String::from_str("info") {
                    Ok(LogLevel::Info)
                } else if *level == String::from_str("debug") {
                    Ok(LogLevel::Debug)
                } else if *level == String::from_str("trace") {
                    Ok(LogLevel::Trace)
                } else {
                    let text = String::from_str("Unknown value '").concat(level.as_str()).concat(
                        "'",
                    );
                    Err(ConfigError::InvalidField("log_level", text))
                }
            },
            None => {
                if let Some(true) = self.debug {
                    Ok(LogLevel::Debug)
                } else {
                    Ok(LogLevel::Info)
                }
            },
        }
    }
}

} // verus!
