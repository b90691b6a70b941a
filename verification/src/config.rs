//! The settings read from the configuration file.

use vstd::prelude::*;

verus! {

/// Seconds of inactivity before the vault locks, when the file does not say.
pub const AUTO_LOCK: u64 = 300;

/// The settings the application runs with.
pub struct Config {
    /// The vault opened at start, if one is set.
    pub default_database: Option<String>,
    /// A keyfile required in addition to the master password, if one is set.
    pub keyfile: Option<String>,
    /// Seconds of inactivity before the vault locks.
    pub auto_lock: u64,
    /// The name of the colour theme, if one is set.
    pub theme: Option<String>,
}

impl Default for Config {
    fn default() -> (c: Config)
        ensures
            c.default_database is None,
            c.keyfile is None,
            c.auto_lock == AUTO_LOCK,
            c.theme is None,
    {
        Config { default_database: None, keyfile: None, auto_lock: AUTO_LOCK, theme: None }
    }
}

impl Config {
    /// The settings for the values a configuration file holds: every field
    /// is optional, and a missing `auto_lock` takes the default.
    pub fn from_file_values(
        default_database: Option<String>,
        keyfile: Option<String>,
        auto_lock: Option<u64>,
        theme: Option<String>,
    ) -> (c: Config)
        ensures
            c.default_database == default_database,
            c.keyfile == keyfile,
            c.auto_lock == match auto_lock {
                Some(secs) => secs,
                None => AUTO_LOCK,
            },
            c.theme == theme,
    {
        let defaults = Config::default();
        Config {
            default_database,
            keyfile,
            auto_lock: match auto_lock {
                Some(secs) => secs,
                None => defaults.auto_lock,
            },
            theme,
        }
    }
}

/// The settings when none could be read.
pub open spec fn default_config() -> Config {
    Config { default_database: None, keyfile: None, auto_lock: AUTO_LOCK, theme: None }
}

/// The settings to start with, from those read from the file (`None` when
/// it could not be read, which gives the defaults). When they name no
/// vault and the default vault at `default_path` exists, that vault is
/// used, and the second result says that the settings should be written
/// back.
pub fn load_app_config(loaded: Option<Config>, default_path: String, default_path_is_file: bool) -> (r: (
    Config,
    bool,
))
    ensures
        ({
            let base = match loaded {
                Some(c) => c,
                None => default_config(),
            };
            if base.default_database is None && default_path_is_file {
                r.0 == (Config { default_database: Some(default_path), ..base }) && r.1
            } else {
                r.0 == base && !r.1
            }
        }),
{
    let mut config = match loaded {
        Some(c) => c,
        None => Config::default(),
    };
    if config.default_database.is_none() && default_path_is_file {
        config.default_database = Some(default_path);
        return (config, true);
    }
    (config, false)
}

} // verus!
