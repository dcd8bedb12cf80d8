//! Where this machine keeps its configuration and its lease records.

use vstd::prelude::*;

use crate::pathname::{join, path_join};
use crate::project::ProjectName;
use crate::text::{owned, push_str};

verus! {

#[derive(Clone, Debug)]
pub struct AppPaths {
    pub config_file: String,
    pub state_dir: String,
}

pub open spec fn lease_state_dir_of(state_dir: Seq<char>) -> Seq<char> {
    path_join(state_dir, "leases"@)
}

pub open spec fn legacy_lease_state_dir_of(state_dir: Seq<char>) -> Seq<char> {
    path_join(state_dir, "checkouts"@)
}

/// `<dir>/<project>.toml`.
pub open spec fn record_file(dir: Seq<char>, project: Seq<char>) -> Seq<char> {
    path_join(dir, project + ".toml"@)
}

fn toml_name(project: &ProjectName) -> (s: String)
    ensures
        s@ == project@ + ".toml"@,
{
    let mut s = owned(project.as_str());
    push_str(&mut s, ".toml");
    s
}

impl AppPaths {
    /// The record of this machine's lease on `project`.
    pub fn lease_state_file(&self, project: &ProjectName) -> (p: String)
        ensures
            p@ == record_file(lease_state_dir_of(self.state_dir@), project@),
    {
        let dir = self.lease_state_dir();
        join(dir.as_str(), toml_name(project).as_str())
    }

    pub fn lease_state_dir(&self) -> (p: String)
        ensures
            p@ == lease_state_dir_of(self.state_dir@),
    {
        join(self.state_dir.as_str(), "leases")
    }

    /// Where the first release kept the record.
    pub fn legacy_lease_state_file(&self, project: &ProjectName) -> (p: String)
        ensures
            p@ == record_file(legacy_lease_state_dir_of(self.state_dir@), project@),
    {
        let dir = self.legacy_lease_state_dir();
        join(dir.as_str(), toml_name(project).as_str())
    }

    pub fn legacy_lease_state_dir(&self) -> (p: String)
        ensures
            p@ == legacy_lease_state_dir_of(self.state_dir@),
    {
        join(self.state_dir.as_str(), "checkouts")
    }
}

} // verus!
