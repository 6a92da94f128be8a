//! `git las repo rm`: stops tracking the current repo.

use vstd::prelude::*;

use crate::error::ConfigError;
use crate::report::{line, text3, LogLevel, LogLine};
use crate::validate::config_valid;
use crate::workspace::{edit_matches, remove_repo_outcome, Workspace};

verus! {

/// Untracks the repo and reports it. Saving is left to the caller.
pub fn run(workspace: &mut Workspace, name: &str) -> (res: Result<LogLine, ConfigError>)
    ensures
        final(workspace)@.root == old(workspace)@.root,
        edit_matches(
            match res {
                Ok(_) => Ok(()),
                Err(e) => Err(e),
            },
            old(workspace)@.config,
            final(workspace)@.config,
            remove_repo_outcome(old(workspace)@.config, name@),
        ),
        config_valid(old(workspace)@.config) ==> config_valid(final(workspace)@.config),
        res matches Ok(l) ==> l@ == line(LogLevel::Success, "untracked '"@ + name@ + "'"@),
{
    match workspace.remove_repo(name) {
        Ok(()) => Ok(LogLine { level: LogLevel::Success, text: text3("untracked '", name, "'") }),
        Err(e) => Err(e),
    }
}

} // verus!
