//! `git las repo remote rm`: removes a push remote from the current repo.

use vstd::prelude::*;

use crate::error::ConfigError;
use crate::report::{line, text5, LogLevel, LogLine};
use crate::validate::config_valid;
use crate::workspace::{edit_matches, remove_repo_remote_outcome, Workspace};

verus! {

/// Removes the push remote from the repo and reports it. Saving is left to
/// the caller.
pub fn run(workspace: &mut Workspace, name: &str, remote: &str) -> (res: Result<LogLine, ConfigError>)
    ensures
        final(workspace)@.root == old(workspace)@.root,
        edit_matches(
            match res {
                Ok(_) => Ok(()),
                Err(e) => Err(e),
            },
            old(workspace)@.config,
            final(workspace)@.config,
            remove_repo_remote_outcome(old(workspace)@.config, name@, remote@),
        ),
        config_valid(old(workspace)@.config) ==> config_valid(final(workspace)@.config),
        res matches Ok(l) ==> l@ == line(LogLevel::Success, name@ + ": removed remote '"@ + remote@ + "'"@),
{
    match workspace.remove_repo_remote(name, remote) {
        Ok(()) => {
            proof { reveal_strlit(""); }
            let text = text5(name, ": removed remote '", remote, "'", "");
            Ok(LogLine { level: LogLevel::Success, text })
        },
        Err(e) => Err(e),
    }
}

} // verus!
