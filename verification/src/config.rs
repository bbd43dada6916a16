//! The settings: where they are, and what applies when they cannot be had.

use crate::types;
use crate::types::{Config, ConfigView};
use vstd::prelude::*;
use vstd::string::*;

verus! {

/// The settings file, below the directory that the host program keeps in the home directory.
pub const CONFIG_FILE: &'static str = "plugins/cstat/config.toml";

/// What became of the settings file.
#[derive(Debug)]
pub enum ConfigFile {
    /// There is no home directory to look in.
    NoPath,
    /// It is missing, or it cannot be read.
    Unreadable,
    /// It is no valid settings file, with the reason.
    Invalid(String),
    /// It holds these settings.
    Parsed(Config),
}

/// The settings that apply: those of the file, or the defaults.
pub open spec fn applied(file: ConfigFile) -> ConfigView {
    match file {
        ConfigFile::Parsed(config) => config@,
        _ => types::unset_config(),
    }
}

/// What to tell the user: only an invalid file is worth a word.
pub open spec fn complaint(file: ConfigFile) -> Option<Seq<char>> {
    match file {
        ConfigFile::Invalid(reason) => Some("cstat: invalid config: "@ + reason@),
        _ => None,
    }
}

/// The settings that apply, and a warning where the file is invalid.
pub fn load_config(file: ConfigFile) -> (loaded: (Config, Option<String>))
    ensures
        loaded.0@ == applied(file),
        loaded.1.deep_view() == complaint(file),
{
    match file {
        ConfigFile::Parsed(config) => (config, None),
        ConfigFile::Invalid(reason) => {
            let mut warning: String = "cstat: invalid config: ".to_owned();
            warning.append(reason.as_str());
            (Config::default(), Some(warning))
        },
        ConfigFile::Unreadable => (Config::default(), None),
        ConfigFile::NoPath => (Config::default(), None),
    }
}

} // verus!
