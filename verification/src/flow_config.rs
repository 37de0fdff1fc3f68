//! The execution-flow configuration: handlers, named chains, and what runs
//! for each path.
use vstd::prelude::*;
use crate::collections::StrMap;

verus! {

/// What runs for one path: its method and the names it executes.
#[derive(Debug)]
pub struct PrefixConfig {
    pub method: String,
    pub exec_names: Vec<String>,
}

/// Handlers, named chains, and the configuration of each path. Path keys
/// may stand for URL paths, addresses, RPC paths and the like.
pub struct ExecutionFlowConfig {
    pub handlers: Vec<String>,
    pub chains: StrMap<Vec<String>>,
    pub paths: StrMap<PrefixConfig>,
}

impl ExecutionFlowConfig {
    /// No chain name and no path occurs twice.
    pub open spec fn wf(&self) -> bool {
        &&& self.chains.wf()
        &&& self.paths.wf()
    }

    /// The number of handlers, chains and paths.
    pub fn counts(&self) -> (r: (usize, usize, usize))
        ensures
            r.0 == self.handlers@.len(),
            r.1 == self.chains.entries().len(),
            r.2 == self.paths.entries().len(),
    {
        (self.handlers.len(), self.chains.len(), self.paths.len())
    }
}

} // verus!
