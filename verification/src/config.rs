//! The settings a session starts from, as plain values.

use crate::source::SourceError;
use vstd::prelude::*;

verus! {

/// Settings of the program as a whole.
#[derive(Debug)]
pub struct Application {
    /// The arguments used when the command line names no source.
    pub default_args: String,
}

/// Settings of the remote source.
#[derive(Debug)]
pub struct Wikipedia {
    /// The language entries, each as it is written in the configuration.
    pub languages: Vec<String>,
}

/// All settings.
#[derive(Debug)]
pub struct Config {
    /// Settings of the program as a whole.
    pub application: Application,
    /// Settings of the remote source.
    pub wikipedia: Wikipedia,
}

/// What can be set up from the settings, or refuses them.
pub trait Configurable: Sized {
    /// Sets the value up from `config`, or says why `config` cannot be used.
    fn from_config(config: Config) -> Result<Self, SourceError>;
}

} // verus!
