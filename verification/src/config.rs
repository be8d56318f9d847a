//! The configuration of the program and of the devices it expects.

use vstd::prelude::*;

verus! {

/// The components that the configuration expects of a device, by key.
#[derive(Clone, Debug, PartialEq, Eq)]
pub struct SmartDeviceConfig {
    pub temperatures: Vec<String>,
    pub switches: Vec<String>,
    pub inputs: Vec<String>,
}

/// The command line: the path of the configuration file.
#[derive(Clone, Debug, PartialEq, Eq)]
pub struct Cli {
    pub config: String,
}

/// The log level that the configuration falls back to, for the program's own
/// messages and for all others.
pub fn default_log_level() -> (res: String)
    ensures
        res@ == "info"@,
{
    String::from_str("info")
}

} // verus!
