//! The command line: what the user asked for.

use vstd::prelude::*;

use crate::project::ProjectName;

verus! {

/// The parsed command line.
#[derive(Debug)]
pub struct Cli {
    /// Another configuration file to use.
    pub config: Option<String>,
    pub command: Command,
}

#[derive(Debug)]
pub enum Command {
    /// Claim a project and copy it from the NAS.
    Get { project: ProjectName },
    /// Snapshot and return a claimed checkout to the NAS.
    Put { project: ProjectName },
    /// Drop a claimed checkout without changing the NAS.
    Discard { project: ProjectName },
    /// Show projects and leases.
    Status,
    /// Replace a lease after its owner is unavailable.
    Reclaim { project: ProjectName, force: bool },
}

} // verus!
