//! `git las remote rm`: removes a remote that no repo, the meta-repo included,
//! refers to.

use vstd::prelude::*;

use crate::error::ConfigError;
use crate::report::{line, text3, LogLevel, LogLine};
use crate::validate::config_valid;
use crate::workspace::{edit_matches, remove_remote_outcome, Workspace};

verus! {

/// Removes the remote from the workspace and reports it. Removing its token
/// and saving the configuration are left to the caller.
pub fn run(workspace: &mut Workspace, name: &str) -> (res: Result<LogLine, ConfigError>)
    ensures
        final(workspace)@.root == old(workspace)@.root,
        edit_matches(
            match res {
                Ok(_) => Ok(()),
                Err(e) => Err(e),
            },
            old(workspace)@.config,
            final(workspace)@.config,
            remove_remote_outcome(old(workspace)@.config, name@),
        ),
        config_valid(old(workspace)@.config) ==> config_valid(final(workspace)@.config),
        res matches Ok(l) ==> l@ == line(LogLevel::Success, "removed remote '"@ + name@ + "'"@),
{
    match workspace.remove_remote(name) {
        Ok(()) => Ok(LogLine { level: LogLevel::Success, text: text3("removed remote '", name, "'") }),
        Err(e) => Err(e),
    }
}

} // verus!
