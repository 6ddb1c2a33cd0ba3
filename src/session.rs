//! The state of one shell session: its working directory, the status of the
//! version-control repository it stands in, its aliases and its variables.

use vstd::prelude::*;
use crate::table::VarTable;

verus! {

/// The status of the repository that holds the working directory.
pub struct GitInfo {
    pub branch_name: String,
    pub has_changes: bool,
}

impl Clone for GitInfo {
    fn clone(&self) -> (r: GitInfo)
        ensures
            r.branch_name@ == self.branch_name@,
            r.has_changes == self.has_changes,
    {
        GitInfo { branch_name: self.branch_name.clone(), has_changes: self.has_changes }
    }
}

/// One shell session. Each tab of the front end owns its own.
pub struct ShellCore {
    /// The absolute, canonical working directory of the session.
    pub current_dir: String,
    pub git_info: Option<GitInfo>,
    pub aliases: VarTable,
    pub env_vars: VarTable,
}

impl ShellCore {
    /// The tables of the session are well formed.
    pub open spec fn wf(&self) -> bool {
        self.aliases.wf() && self.env_vars.wf()
    }

    /// Creates a session in the directory `current_dir`, with no aliases, no
    /// variables and no repository status yet.
    pub fn new(current_dir: String) -> (r: ShellCore)
        ensures
            r.wf(),
            r.current_dir@ == current_dir@,
            r.git_info is None,
            r.aliases.entries().len() == 0,
            r.env_vars.entries().len() == 0,
    {
        ShellCore { current_dir, git_info: None, aliases: VarTable::new(), env_vars: VarTable::new() }
    }

    /// Records the repository status found for the working directory.
    pub fn update_git_info(&mut self, info: Option<GitInfo>)
        ensures
            final(self).git_info == info,
            final(self).current_dir == old(self).current_dir,
            final(self).aliases == old(self).aliases,
            final(self).env_vars == old(self).env_vars,
    {
        self.git_info = info;
    }

    /// The working directory of the session.
    pub fn get_current_dir(&self) -> (r: String)
        ensures
            r@ == self.current_dir@,
    {
        self.current_dir.clone()
    }
}

} // verus!
