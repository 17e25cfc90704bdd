//! What the command line asks for, as plain values.

use vstd::prelude::*;

verus! {

/// The choices of one run.
#[derive(Debug)]
pub struct Args {
    /// Whether random article summaries are a source.
    pub wikipedia: bool,
    /// The files that are sources, if any were named.
    pub file_paths: Option<Vec<String>>,
    /// Number of sentences to run.
    pub number: u8,
}

impl Args {
    /// Whether the command line names a source at all.
    pub fn any(&self) -> (r: bool)
        ensures
            r == (self.wikipedia || self.file_paths is Some),
    {
        self.wikipedia || self.file_paths.is_some()
    }
}

} // verus!
