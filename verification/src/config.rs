//! The monitoring configuration and its validation.
//!
//! The surrounding program reads the configuration file and parses it into
//! `Config`; this module owns what the core relies on: which configurations
//! are acceptable, which file formats are recognised, and the conversion of
//! the alert threshold from minutes to monotonic milliseconds.

use vstd::prelude::*;
use vstd::string::StringExecFns;

verus! {

/// The configuration consumed by the monitor core, immutable for the
/// process lifetime.
#[derive(Debug)]
pub struct Config {
    /// Minutes a node must stay unresponsive before the first alert.
    pub alert_mins: u64,
    /// Recipient identifier for notifications, opaque to the core.
    pub alert: String,
    /// Whether a restore-notification is sent on recovery.
    pub emailonrestore: bool,
    /// The node identifiers to monitor: IP literals or resolvable names.
    pub nodes: Vec<String>,
}

/// Why a configuration, or the file that holds it, is rejected at startup.
#[derive(Clone, Copy, Debug, PartialEq, Eq, Structural)]
pub enum ConfigError {
    /// The configuration file name has no extension.
    MissingExtension,
    /// The configuration file extension names no supported format.
    UnsupportedExtension,
    /// The alert threshold must be a positive number of minutes.
    ZeroAlertMinutes,
    /// The alert threshold does not fit the monotonic millisecond clock.
    AlertMinutesTooLarge,
    /// The list of monitored nodes is empty.
    NoNodes,
}

/// The configuration file formats the monitor accepts.
#[derive(Clone, Copy, Debug, PartialEq, Eq, Structural)]
pub enum ConfigFormat {
    Json,
    Toml,
}

/// The largest threshold, in minutes, whose millisecond form fits in `u64`.
pub const MAX_ALERT_MINS: u64 = 0xffff_ffff_ffff_ffff / 60000;

impl Config {
    /// The configuration is acceptable: a positive threshold that fits the
    /// millisecond clock, and a non-empty node list.
    pub open spec fn valid(self) -> bool {
        &&& 1 <= self.alert_mins <= MAX_ALERT_MINS
        &&& self.nodes@.len() > 0
    }

    /// Checks the configuration, naming the first defect found.
    pub fn validate(&self) -> (r: Result<(), ConfigError>)
        ensures
            r is Ok <==> self.valid(),
            self.alert_mins == 0 ==> r == Err::<(), ConfigError>(ConfigError::ZeroAlertMinutes),
            self.alert_mins > MAX_ALERT_MINS ==> r == Err::<(), ConfigError>(
                ConfigError::AlertMinutesTooLarge,
            ),
            1 <= self.alert_mins <= MAX_ALERT_MINS && self.nodes@.len() == 0 ==> r == Err::<
                (),
                ConfigError,
            >(ConfigError::NoNodes),
    {
        if self.alert_mins == 0 {
            Err(ConfigError::ZeroAlertMinutes)
        } else if self.alert_mins > MAX_ALERT_MINS {
            Err(ConfigError::AlertMinutesTooLarge)
        } else if self.nodes.len() == 0 {
            Err(ConfigError::NoNodes)
        } else {
            Ok(())
        }
    }

    /// The alert threshold in monotonic milliseconds.
    pub fn threshold_millis(&self) -> (r: u64)
        requires
            self.valid(),
        ensures
            r == self.alert_mins * 60000,
    {
        self.alert_mins * 60000
    }
}

/// Picks the configuration format from a file extension: `toml` and `json`
/// are recognised, any other extension — or none — is a fatal startup error.
pub fn config_format(ext: &Option<String>) -> (r: Result<ConfigFormat, ConfigError>)
    ensures
        ext is None ==> r == Err::<ConfigFormat, ConfigError>(ConfigError::MissingExtension),
        ext matches Some(e) && e@ == "toml"@ ==> r == Ok::<ConfigFormat, ConfigError>(
            ConfigFormat::Toml,
        ),
        ext matches Some(e) && e@ == "json"@ ==> r == Ok::<ConfigFormat, ConfigError>(
            ConfigFormat::Json,
        ),
        ext matches Some(e) && e@ != "toml"@ && e@ != "json"@ ==> r == Err::<
            ConfigFormat,
            ConfigError,
        >(ConfigError::UnsupportedExtension),
    {
    match ext {
        None => Err(ConfigError::MissingExtension),
        Some(e) => {
            proof {
                reveal_strlit("toml");
                reveal_strlit("json");
                assert("toml"@ != "json"@) by {
                    assert("toml"@[0] == 't');
                    assert("json"@[0] == 'j');
                }
            }
            let toml_ext = String::from_str("toml");
            let json_ext = String::from_str("json");
            if *e == toml_ext {
                Ok(ConfigFormat::Toml)
            } else if *e == json_ext {
                Ok(ConfigFormat::Json)
            } else {
                Err(ConfigError::UnsupportedExtension)
            }
        },
    }
}

} // verus!
