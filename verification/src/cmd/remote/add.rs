//! `git las remote add`: declares a remote with its base URL and user.

use vstd::prelude::*;

use crate::report::{line, text3, LogLevel, LogLine};
use crate::workspace::{added_remote, Workspace};
use crate::validate::config_valid;

verus! {

/// Declares the remote in the workspace and reports it. Storing a token and
/// saving the configuration are left to the caller.
pub fn run(workspace: &mut Workspace, name: String, url: String, user: String) -> (r: LogLine)
    ensures
        final(workspace)@.root == old(workspace)@.root,
        final(workspace)@.config == added_remote(old(workspace)@.config, name@, url@, user@),
        config_valid(old(workspace)@.config) ==> config_valid(final(workspace)@.config),
        r@ == line(LogLevel::Success, "added remote '"@ + name@ + "'"@),
{
    let text = text3("added remote '", name.as_str(), "'");
    workspace.add_remote(name, url, user);
    LogLine { level: LogLevel::Success, text }
}

} // verus!
