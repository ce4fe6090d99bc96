//! The command-line surface the engine consumes: at most one positional
//! argument, a directory expected to contain a `package.json` file; absence
//! means the working directory.  Parsing the actual command line happens
//! outside the library.

use vstd::prelude::*;

verus! {

/// The parsed command line.
pub struct Args {
    /// Path to a directory that contains a package.json file
    pub directory: Option<String>,
}

impl Args {
    /// Arguments naming `directory`, or none for the working directory.
    pub fn new(directory: Option<String>) -> (a: Args)
        ensures
            a.directory == directory,
    {
        Args { directory }
    }
}

} // verus!
