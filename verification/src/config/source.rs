//! A configuration text together with the name of the file it came from.

use vstd::prelude::*;

verus! {

/// The text of one configuration file.
#[derive(Debug, PartialEq, Eq)]
pub struct Source {
    pub path: String,
    pub raw: String,
}

impl Source {
    /// A source with the given file name and text.
    pub fn new(name: String, raw: String) -> (s: Source)
        ensures
            s.path == name,
            s.raw == raw,
    {
        Source { path: name, raw }
    }

    /// The name under which diagnostics show this source: its path.
    pub fn name(&self) -> (s: &str)
        ensures
            s@ == self.path@,
    {
        self.path.as_str()
    }
}

} // verus!
