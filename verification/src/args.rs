//! Command-line surface: the agent takes a single flag naming the
//! configuration file. Argument parsing itself happens outside the library;
//! this is the parsed shape.

use vstd::prelude::*;

verus! {

/// The parsed command line: the path of the configuration file.
#[derive(Debug, Clone)]
pub struct Args {
    pub config: String,
}

} // verus!
