use vstd::prelude::*;
use std::path::PathBuf;

verus! {

#[verifier::external_type_specification]
#[verifier::external_body]
pub struct ExPathBuf(PathBuf);

/// The command line of `rstress`: the configuration file, and the worker id that the first
/// process hands to the processes it starts.
#[derive(Debug)]
pub struct Cli {
    pub config: PathBuf,
    pub worker: Option<usize>,
}

} // verus!
