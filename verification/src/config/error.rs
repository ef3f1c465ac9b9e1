//! What can be wrong with a configuration.

use vstd::prelude::*;
use vstd::string::StringExecFns;

verus! {

/// The kinds of configuration errors.
#[derive(Clone, Copy, Debug, PartialEq, Eq, Structural)]
pub enum Fault {
    /// The configuration file that was asked for cannot be read.
    CannotRead,
    /// The configuration file is not valid TOML.
    ParseFailed,
    /// The configuration file is not a table of settings.
    NotMapping,
    /// The path of the configuration file has no directory.
    NoDirectory,
    /// The setting must be a boolean.
    NotBoolean,
    /// The setting must be an integer.
    NotInteger,
    /// The setting must not be negative.
    Negative,
    /// The setting is larger than this machine can hold.
    TooLarge,
    /// The setting must be a string.
    NotString,
    /// The setting holds a text that does not read as what it stands for.
    IllegalValue,
    /// The setting must be given.
    MissingRequired,
    /// The setting must be an array of paths.
    NotPathArray,
    /// The setting must be an array of strings.
    NotStringArray,
    /// The file holds settings that are not known.
    UnknownSettings,
    /// The syslog facility is not one.
    InvalidFacility,
    /// Logging to a file needs the path of the file.
    LogFileRequired,
    /// The log target is not one.
    InvalidLogTarget,
    /// There is no home directory to put the defaults under.
    NoHome,
    /// A command line argument does not read as what it stands for.
    InvalidArgument,
}

/// A configuration error: its kind, and what it is about (a setting, an
/// argument, a value or a path).
#[derive(Debug)]
pub struct ConfigError {
    pub kind: Fault,
    pub subject: String,
}

impl ConfigError {
    /// Whether this is the error of the given kind about the given thing.
    pub open spec fn is(&self, kind: Fault, subject: Seq<char>) -> bool {
        self.kind == kind && self.subject@ == subject
    }

    /// The error of the given kind about the given thing.
    pub fn new(kind: Fault, subject: &str) -> (r: ConfigError)
        ensures
            r.is(kind, subject@),
    {
        ConfigError { kind, subject: String::from_str(subject) }
    }
}

/// Whether `r` is what `expected` asks for: the same value, or the error
/// of the expected kind about `subject`.
pub open spec fn agrees<T>(r: Result<T, ConfigError>, expected: Result<T, Fault>, subject: Seq<char>) -> bool {
    match expected {
        Ok(v) => r == Ok::<T, ConfigError>(v),
        Err(kind) => r is Err && r->Err_0.is(kind, subject),
    }
}

} // verus!
